use tftpd::text::OptionFmt;
use tftpd::{Duration, OptionType, OptionsPrivate, OptionsProtocol, RequestType, Rollover, TransferOption};

fn option(option: OptionType, value: u64) -> TransferOption {
    TransferOption { option, value }
}

#[test]
fn parses_write_options() {
    let mut options = vec![
        TransferOption {
            option: OptionType::BlockSize,
            value: 1024,
        },
        TransferOption {
            option: OptionType::TransferSize,
            value: 0,
        },
        TransferOption {
            option: OptionType::Timeout,
            value: 5,
        },
    ];

    let work_type = RequestType::Read(12341234);

    let worker_options = OptionsProtocol::parse(&mut options, work_type).unwrap();

    assert_eq!(options[0].value, worker_options.block_size as u64);
    assert_eq!(options[1].value, worker_options.transfer_size.unwrap());
    assert_eq!(options[2].value, worker_options.timeout.as_secs());
}

#[test]
fn parses_read_options() {
    let mut options = vec![
        TransferOption {
            option: OptionType::BlockSize,
            value: 1024,
        },
        TransferOption {
            option: OptionType::TransferSize,
            value: 44554455,
        },
        TransferOption {
            option: OptionType::Timeout,
            value: 5,
        },
    ];

    let work_type = RequestType::Write;

    let worker_options = OptionsProtocol::parse(&mut options, work_type).unwrap();

    assert_eq!(options[0].value, worker_options.block_size as u64);
    assert_eq!(options[1].value, worker_options.transfer_size.unwrap());
    assert_eq!(options[2].value, worker_options.timeout.as_secs());
}

#[test]
fn parses_default_options() {
    assert_eq!(
        OptionsProtocol::parse(&mut [], RequestType::Write).unwrap(),
        OptionsProtocol::default(),
    );
}

#[test]
fn default_options_hold_the_documented_values() {
    let common = OptionsProtocol::default();
    assert_eq!(common.block_size, 512);
    assert_eq!(common.window_size, 1);
    assert_eq!(common.window_wait, Duration::from_millis(0));
    assert_eq!(common.timeout, Duration::from_secs(5));
    assert_eq!(common.transfer_size, None);
    let local = OptionsPrivate::default();
    assert_eq!(local.repeat_count, 1);
    assert!(local.clean_on_error);
    assert_eq!(local.max_retries, 6);
    assert_eq!(local.rollover, Rollover::Enforce0);
}

#[test]
fn negotiation_clamps_each_option() {
    let mut options = vec![
        option(OptionType::BlockSize, 0),
        option(OptionType::BlockSize, 70000),
        option(OptionType::Timeout, 0),
        option(OptionType::Timeout, 300),
        option(OptionType::TimeoutMs, 0),
        option(OptionType::TimeoutMs, 255001),
        option(OptionType::TimeoutMs, 300),
        option(OptionType::WindowSize, 0),
        option(OptionType::WindowSize, 65536),
        option(OptionType::WindowWait, 123456789),
        option(OptionType::TransferSize, 77),
    ];
    let common = OptionsProtocol::parse(&mut options, RequestType::Read(3000)).unwrap();
    let values: Vec<u64> = options.iter().map(|o| o.value).collect();
    assert_eq!(
        values,
        vec![512, 65464, 1, 255, 1, 255000, 300, 1, 65535, 123456789, 3000]
    );
    assert_eq!(common.block_size, 65464);
    assert_eq!(common.timeout, Duration::from_millis(300));
    assert_eq!(common.window_size, 65535);
    assert_eq!(common.window_wait, Duration::from_millis(123456789));
    assert_eq!(common.transfer_size, Some(3000));
}

#[test]
fn negotiation_records_the_transfer_size_of_a_write() {
    let mut options = vec![option(OptionType::TransferSize, 77)];
    let common = OptionsProtocol::parse(&mut options, RequestType::Write).unwrap();
    assert_eq!(options[0].value, 77);
    assert_eq!(common.transfer_size, Some(77));
}

#[test]
fn prepare_offers_sizes_wait_and_timeout() {
    let mut common = OptionsProtocol::default();
    assert_eq!(
        common.prepare(),
        vec![
            option(OptionType::BlockSize, 512),
            option(OptionType::TransferSize, 0),
            option(OptionType::WindowSize, 1),
            option(OptionType::Timeout, 5),
        ]
    );
    common.block_size = 1024;
    common.window_size = 4;
    common.window_wait = Duration::from_millis(20);
    common.timeout = Duration::from_millis(1500);
    common.transfer_size = Some(3000);
    assert_eq!(
        common.prepare(),
        vec![
            option(OptionType::BlockSize, 1024),
            option(OptionType::TransferSize, 3000),
            option(OptionType::WindowSize, 4),
            option(OptionType::WindowWait, 20),
            option(OptionType::TimeoutMs, 1500),
        ]
    );
}

#[test]
fn apply_accepts_offered_options_and_defaults_the_rest() {
    let mut common = OptionsProtocol::default();
    common.block_size = 2048;
    common.window_size = 8;
    common.window_wait = Duration::from_millis(10);
    let oack = vec![
        option(OptionType::BlockSize, 1024),
        option(OptionType::TransferSize, 3000),
        option(OptionType::TimeoutMs, 300),
    ];
    common.apply(&oack).unwrap();
    assert_eq!(common.block_size, 1024);
    assert_eq!(common.window_size, 1);
    assert_eq!(common.window_wait, Duration::from_millis(0));
    assert_eq!(common.timeout, Duration::from_millis(300));
    assert_eq!(common.transfer_size, Some(3000));
}

#[test]
fn apply_ignores_a_window_wait_that_was_not_offered() {
    let mut common = OptionsProtocol::default();
    common.apply(&vec![option(OptionType::WindowWait, 30)]).unwrap();
    assert_eq!(common.window_wait, Duration::from_millis(0));
}

#[test]
fn apply_lets_the_last_of_two_options_stand() {
    let mut common = OptionsProtocol::default();
    common
        .apply(&vec![
            option(OptionType::BlockSize, 1024),
            option(OptionType::BlockSize, 700),
        ])
        .unwrap();
    assert_eq!(common.block_size, 700);
}

#[test]
fn applying_an_acknowledgement_twice_changes_nothing() {
    let oack = vec![
        option(OptionType::BlockSize, 1024),
        option(OptionType::WindowSize, 4),
        option(OptionType::Timeout, 3),
        option(OptionType::TransferSize, 3000),
    ];
    let mut once = OptionsProtocol::default();
    once.apply(&oack).unwrap();
    let mut twice = once;
    twice.apply(&oack).unwrap();
    assert_eq!(once, twice);
}

#[test]
fn applying_an_acknowledgement_twice_changes_nothing_where_the_unit_changes() {
    let oack = vec![option(OptionType::TimeoutMs, 1000)];
    let mut once = OptionsProtocol::default();
    once.timeout = Duration::from_millis(1500);
    once.apply(&oack).unwrap();
    assert_eq!(once.timeout, Duration::from_secs(1));
    let mut twice = once;
    twice.apply(&oack).unwrap();
    assert_eq!(twice, once);

    let oack = vec![option(OptionType::Timeout, 7)];
    let mut once = OptionsProtocol::default();
    once.timeout = Duration::from_millis(1500);
    once.window_wait = Duration::from_millis(20);
    once.apply(&oack).unwrap();
    assert_eq!(once.timeout, Duration::from_secs(7));
    assert_eq!(once.window_wait, Duration::from_millis(0));
    let mut twice = once;
    twice.apply(&oack).unwrap();
    assert_eq!(twice, once);
}

#[test]
fn the_timeout_is_the_last_that_the_acknowledgement_names() {
    let mut common = OptionsProtocol::default();
    common
        .apply(&vec![
            option(OptionType::Timeout, 9),
            option(OptionType::BlockSize, 600),
            option(OptionType::TimeoutMs, 250),
        ])
        .unwrap();
    assert_eq!(common.timeout, Duration::from_millis(250));
    common
        .apply(&vec![
            option(OptionType::TimeoutMs, 250),
            option(OptionType::Timeout, 9),
        ])
        .unwrap();
    assert_eq!(common.timeout, Duration::from_secs(9));
    common.apply(&vec![option(OptionType::BlockSize, 600)]).unwrap();
    assert_eq!(common.timeout, Duration::from_secs(5));
}

#[test]
fn option_names_read_without_regard_to_case() {
    assert_eq!(OptionType::from_name(b"blksize"), Some(OptionType::BlockSize));
    assert_eq!(OptionType::from_name(b"BlkSize"), Some(OptionType::BlockSize));
    assert_eq!(OptionType::from_name(b"TSIZE"), Some(OptionType::TransferSize));
    assert_eq!(OptionType::from_name(b"timeout"), Some(OptionType::Timeout));
    assert_eq!(OptionType::from_name(b"timeoutMS"), Some(OptionType::TimeoutMs));
    assert_eq!(OptionType::from_name(b"windowsize"), Some(OptionType::WindowSize));
    assert_eq!(OptionType::from_name(b"windowwait"), Some(OptionType::WindowWait));
    assert_eq!(OptionType::from_name(b"multicast"), None);
    assert_eq!(OptionType::from_name(b""), None);
}

#[test]
fn option_names_are_lower_case_on_output() {
    assert_eq!(OptionType::BlockSize.as_str(), "blksize");
    assert_eq!(OptionType::TransferSize.as_str(), "tsize");
    assert_eq!(OptionType::Timeout.as_str(), "timeout");
    assert_eq!(OptionType::TimeoutMs.as_str(), "timeoutms");
    assert_eq!(OptionType::WindowSize.as_str(), "windowsize");
    assert_eq!(OptionType::WindowWait.as_str(), "windowwait");
}

#[test]
fn option_as_bytes_writes_name_and_value() {
    assert_eq!(
        TransferOption {
            option: OptionType::BlockSize,
            value: 1432
        }
        .as_bytes(),
        vec![0x62, 0x6C, 0x6B, 0x73, 0x69, 0x7A, 0x65, 0x00, 0x31, 0x34, 0x33, 0x32, 0x00,]
    );
    assert_eq!(
        option(OptionType::TransferSize, 0).as_bytes(),
        b"tsize\x000\x00".to_vec()
    );
    assert_eq!(
        option(OptionType::TransferSize, u64::MAX).as_bytes(),
        b"tsize\x0018446744073709551615\x00".to_vec()
    );
}

#[test]
fn option_list_is_written_for_a_reader() {
    let options = vec![
        option(OptionType::BlockSize, 1024),
        option(OptionType::Timeout, 5),
    ];
    assert_eq!(OptionFmt(&options).to_string(), "blksize:1024, timeout:5");
    assert_eq!(OptionFmt(&[]).to_string(), "");
}

#[test]
fn durations_convert_between_units() {
    assert_eq!(Duration::from_secs(4).as_millis(), 4000);
    assert_eq!(Duration::from_millis(1500).as_secs(), 1);
    assert_eq!(Duration::from_millis(1500).subsec_millis(), 500);
    assert_eq!(Duration::from_secs(2), Duration::from_millis(2000));
    assert!(Duration::from_millis(0).is_zero());
    assert!(!Duration::from_millis(1).is_zero());
    assert_eq!(Duration::from_secs(u64::MAX).as_secs(), u64::MAX);
}

#[test]
fn validity_follows_the_legal_ranges() {
    let mut common = OptionsProtocol::default();
    assert!(common.is_valid());
    common.block_size = 0;
    assert!(!common.is_valid());
    common.block_size = 65465;
    assert!(!common.is_valid());
    common.block_size = 65464;
    assert!(common.is_valid());
    common.window_size = 0;
    assert!(!common.is_valid());
    common.window_size = 1;
    common.timeout = Duration::from_millis(0);
    assert!(!common.is_valid());
    common.timeout = Duration::from_millis(255001);
    assert!(!common.is_valid());
    common.timeout = Duration::from_millis(255000);
    assert!(common.is_valid());
}
