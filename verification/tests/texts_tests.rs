use tftpd::client::ClientError;
use tftpd::transfer::removes_partial_file;
use tftpd::{
    Convert, ErrorCode, Failure, Opcode, OptionType, OptionsPrivate, OptionsProtocol, Window,
    Worker,
};

#[test]
fn each_refusal_has_its_text() {
    assert_eq!(Opcode::from_u16(0), Err("Invalid opcode"));
    assert_eq!(Opcode::from_u16(7), Err("Invalid opcode"));
    assert_eq!(ErrorCode::from_u16(9), Err("Invalid error code"));
    assert_eq!(Convert::to_u16(&[1]), Err("Error when converting to u16"));
    assert_eq!(OptionType::parse_name("blk"), Err("Invalid option type"));
    assert_eq!("blk".parse::<OptionType>(), Err("Invalid option type"));
}

#[test]
fn the_window_says_why_it_refuses() {
    let mut window = Window::new(1, 4);
    assert_eq!(window.add(vec![1, 2, 3, 4]), Ok(()));
    assert_eq!(window.add(vec![5]), Err("cannot add to a full window"));
    assert_eq!(
        window.remove(2),
        Err("amount cannot be larger than length of window")
    );
    assert_eq!(window.remove(1), Ok(()));
    assert_eq!(
        window.fill(&[1, 2, 3, 4, 5]),
        Err("more data than the window has room for")
    );
    assert_eq!(window.fill(&[1, 2, 3, 4]), Ok(true));
}

#[test]
fn options_out_of_range_are_refused_with_a_text() {
    let mut common = OptionsProtocol::default();
    common.block_size = 0;
    let worker = Worker::new(OptionsPrivate::default(), common);
    assert_eq!(worker.send(false).err(), Some("transfer options out of range"));
    assert_eq!(worker.receive().err(), Some("transfer options out of range"));
}

#[test]
fn a_failure_is_written_for_a_reader() {
    assert_eq!(
        Failure::Rollover.to_string(),
        "Block counter rollover error"
    );
    assert_eq!(
        Failure::TimedOut { retries: 6 }.to_string(),
        "Transfer timed out after 6 tries"
    );
    assert_eq!(
        Failure::TimedOut { retries: 0 }.to_string(),
        "Transfer timed out after 0 tries"
    );
    assert_eq!(
        Failure::TimedOut { retries: 120 }.to_string(),
        "Transfer timed out after 120 tries"
    );
    assert_eq!(
        Failure::SizeMismatch {
            negotiated: 65540,
            transferred: 65000,
        }
        .to_string(),
        "Size mismatch, negotiated: 65540, transferred: 65000"
    );
    assert_eq!(
        Failure::Peer {
            code: ErrorCode::DiskFull,
            msg: "no room".to_string(),
        }
        .to_string(),
        "Received error code Disk Full: no room"
    );
    assert_eq!(
        Failure::UnexpectedReply.to_string(),
        "Unexpected packet received instead of Ack(0)"
    );
    assert_eq!(
        Failure::NoReply.to_string(),
        "No answer to the option acknowledgement"
    );
    assert_eq!(
        Failure::AckBeyondWindow.to_string(),
        "amount cannot be larger than length of window"
    );
    assert_eq!(Failure::OutOfTurn.to_string(), "Transfer driven out of turn");
    assert_eq!(Failure::Stopped.to_string(), "Transfer had already ended");
}

#[test]
fn an_error_of_the_client_is_written_for_a_reader() {
    assert_eq!(
        ClientError::WrongMode.to_string(),
        "Client is in the other mode"
    );
    assert_eq!(
        ClientError::Peer {
            code: ErrorCode::AccessViolation,
            msg: "server is read-only".to_string(),
        }
        .to_string(),
        "Client received error from server: Access Violation: server is read-only"
    );
    assert_eq!(
        ClientError::NoOptions.to_string(),
        "Client received data instead of o-ack. This implementation does not support servers \
         without options (RFC 2347)"
    );
    assert_eq!(
        ClientError::Unexpected.to_string(),
        "Client received unexpected packet from server"
    );
}

#[test]
fn a_partial_file_is_removed_after_a_failure_unless_it_is_to_be_kept() {
    let mut local = OptionsPrivate::default();
    assert!(removes_partial_file(&local, false));
    assert!(!removes_partial_file(&local, true));
    local.clean_on_error = false;
    assert!(!removes_partial_file(&local, false));
    assert!(!removes_partial_file(&local, true));
}
