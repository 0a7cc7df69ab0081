use tftpd::Window;

#[test]
fn fills_and_removes_from_window() {
    let file = b"Hello, world!";

    let mut window = Window::new(2, 5);
    assert_eq!(window.room(), 10);
    window.fill(&file[..10]).unwrap();
    assert_eq!(window.get_elements().len(), 2);
    assert_eq!(window.get_elements()[0], b"Hello"[..]);
    assert_eq!(window.get_elements()[1], b", wor"[..]);

    window.remove(1).unwrap();
    assert_eq!(window.get_elements().len(), 1);
    assert_eq!(window.get_elements()[0], b", wor"[..]);

    assert_eq!(window.room(), 5);
    window.fill(&file[10..]).unwrap();
    assert_eq!(window.get_elements().len(), 2);
    assert_eq!(window.get_elements()[0], b", wor"[..]);
    assert_eq!(window.get_elements()[1], b"ld!"[..]);
}

#[test]
fn adds_to_and_empties_window() {
    let mut window = Window::new(3, 5);
    window.add(b"Hello".to_vec()).unwrap();
    assert_eq!(window.get_elements().len(), 1);
    assert_eq!(window.get_elements()[0], b"Hello"[..]);

    window.add(b", wor".to_vec()).unwrap();
    assert_eq!(window.get_elements().len(), 2);
    assert_eq!(window.get_elements()[0], b"Hello"[..]);
    assert_eq!(window.get_elements()[1], b", wor"[..]);

    window.add(b"ld!".to_vec()).unwrap();
    assert_eq!(window.get_elements().len(), 3);
    assert_eq!(window.get_elements()[0], b"Hello"[..]);
    assert_eq!(window.get_elements()[1], b", wor"[..]);
    assert_eq!(window.get_elements()[2], b"ld!"[..]);

    let contents = window.empty();
    assert_eq!(window.get_elements().len(), 0);

    assert_eq!(contents, b"Hello, world!");
}

#[test]
fn fill_says_whether_more_may_follow() {
    let mut window = Window::new(2, 4);
    assert_eq!(window.fill(b"12345678"), Ok(true));
    assert!(window.is_full());
    assert_eq!(window.len(), 2);

    let mut window = Window::new(2, 4);
    assert_eq!(window.fill(b"1234"), Ok(false));
    assert_eq!(window.len(), 2);
    assert_eq!(window.get_elements()[1], b""[..]);

    let mut window = Window::new(2, 4);
    assert_eq!(window.fill(b""), Ok(false));
    assert_eq!(window.len(), 1);
    assert_eq!(window.get_elements()[0], b""[..]);

    let mut window = Window::new(3, 4);
    assert_eq!(window.fill(b"123456"), Ok(false));
    assert_eq!(window.len(), 2);
    assert_eq!(window.get_elements()[1], b"56"[..]);
}

#[test]
fn fill_refuses_more_than_the_room() {
    let mut window = Window::new(1, 4);
    assert!(window.fill(b"12345").is_err());
    assert!(window.is_empty());
    assert_eq!(window.fill(b"1234"), Ok(true));
    assert_eq!(window.fill(b""), Ok(true));
    assert!(window.fill(b"1").is_err());
    assert_eq!(window.len(), 1);
}

#[test]
fn remove_refuses_more_than_there_is() {
    let mut window = Window::new(3, 4);
    window.add(vec![1]).unwrap();
    window.add(vec![2]).unwrap();
    assert!(window.remove(3).is_err());
    assert_eq!(window.len(), 2);
    assert!(window.remove(2).is_ok());
    assert!(window.is_empty());
    assert!(window.remove(0).is_ok());
}

#[test]
fn add_refuses_when_full() {
    let mut window = Window::new(1, 4);
    assert!(window.add(vec![1]).is_ok());
    assert!(window.add(vec![2]).is_err());
    assert_eq!(window.len(), 1);
    assert_eq!(window.get(0), Some(&vec![1]));
    assert_eq!(window.get(1), None);
}
