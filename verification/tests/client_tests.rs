use tftpd::client::{ClientError, Start};
use tftpd::{
    Client, Duration, ErrorCode, Mode, OptionType, OptionsPrivate, OptionsProtocol, Packet,
    Rollover, TransferOption,
};

fn option(option: OptionType, value: u64) -> TransferOption {
    TransferOption { option, value }
}

fn offer() -> OptionsProtocol {
    let mut common = OptionsProtocol::default();
    common.block_size = 1024;
    common.window_size = 4;
    common
}

#[test]
fn a_download_opens_with_a_read_request() {
    let mut client = Client::new(
        Mode::Download,
        "f".to_string(),
        OptionsPrivate::default(),
        OptionsProtocol::default(),
    );
    assert_eq!(client.mode(), Mode::Download);
    assert_eq!(
        client.run(0),
        Packet::Rrq {
            filename: "f".to_string(),
            mode: "octet".to_string(),
            options: OptionsProtocol::default().prepare(),
        }
    );
    assert_eq!(
        client.download(),
        Ok(Packet::Rrq {
            filename: "f".to_string(),
            mode: "octet".to_string(),
            options: OptionsProtocol::default().prepare(),
        })
    );
    assert_eq!(client.upload(10), Err(ClientError::WrongMode));
}

#[test]
fn an_upload_opens_with_a_write_request_that_offers_the_file_length() {
    let mut client = Client::new(
        Mode::Upload,
        "dir/f.bin".to_string(),
        OptionsPrivate::default(),
        offer(),
    );
    assert_eq!(client.mode(), Mode::Upload);
    let packet = client.run(65540);
    match packet {
        Packet::Wrq {
            filename,
            mode,
            options,
        } => {
            assert_eq!(filename, "dir/f.bin");
            assert_eq!(mode, "octet");
            assert!(options.contains(&option(OptionType::TransferSize, 65540)));
            assert!(options.contains(&option(OptionType::BlockSize, 1024)));
            assert!(options.contains(&option(OptionType::WindowSize, 4)));
            let mut sized = offer();
            sized.transfer_size = Some(65540);
            assert_eq!(options, sized.prepare());
        }
        other => panic!("{other:?}"),
    }
    assert_eq!(client.download(), Err(ClientError::WrongMode));
    assert!(client.upload(7).is_ok());
}

#[test]
fn a_download_takes_over_the_options_that_the_server_accepted() {
    let mut local = OptionsPrivate::default();
    local.rollover = Rollover::DontCare;
    let mut client = Client::new(Mode::Download, "f".to_string(), local, offer());
    client.run(0);
    let start = client
        .configure_worker(Packet::Oack(vec![
            option(OptionType::BlockSize, 600),
            option(OptionType::WindowSize, 2),
        ]))
        .unwrap();
    let mut accepted = OptionsProtocol::default();
    accepted.block_size = 600;
    accepted.window_size = 2;
    assert_eq!(
        start,
        Start {
            reply: Some(Packet::Ack(0)),
            opt_local: local,
            opt_common: accepted,
        }
    );
}

#[test]
fn an_upload_takes_over_the_options_without_an_acknowledgement() {
    let mut client = Client::new(
        Mode::Upload,
        "f".to_string(),
        OptionsPrivate::default(),
        offer(),
    );
    client.run(100);
    let start = client
        .configure_worker(Packet::Oack(vec![
            option(OptionType::BlockSize, 1024),
            option(OptionType::TransferSize, 100),
        ]))
        .unwrap();
    let mut accepted = OptionsProtocol::default();
    accepted.block_size = 1024;
    accepted.transfer_size = Some(100);
    assert_eq!(
        start,
        Start {
            reply: None,
            opt_local: OptionsPrivate::default(),
            opt_common: accepted,
        }
    );
}

#[test]
fn a_plain_acknowledgement_of_a_write_request_means_default_options() {
    let mut client = Client::new(
        Mode::Upload,
        "f".to_string(),
        OptionsPrivate::default(),
        offer(),
    );
    client.run(100);
    assert_eq!(
        client.configure_worker(Packet::Ack(0)),
        Ok(Start {
            reply: None,
            opt_local: OptionsPrivate::default(),
            opt_common: OptionsProtocol::default(),
        })
    );
}

#[test]
fn an_error_from_the_server_is_handed_on() {
    let mut client = Client::new(
        Mode::Upload,
        "f".to_string(),
        OptionsPrivate::default(),
        OptionsProtocol::default(),
    );
    client.run(1);
    assert_eq!(
        client.configure_worker(Packet::Error {
            code: ErrorCode::AccessViolation,
            msg: "server is read-only".to_string(),
        }),
        Err(ClientError::Peer {
            code: ErrorCode::AccessViolation,
            msg: "server is read-only".to_string(),
        })
    );
    let mut client = Client::new(
        Mode::Download,
        "f".to_string(),
        OptionsPrivate::default(),
        OptionsProtocol::default(),
    );
    assert_eq!(
        client.configure_worker(Packet::Error {
            code: ErrorCode::FileNotFound,
            msg: "file f does not exist".to_string(),
        }),
        Err(ClientError::Peer {
            code: ErrorCode::FileNotFound,
            msg: "file f does not exist".to_string(),
        })
    );
}

#[test]
fn data_in_answer_to_a_read_request_means_no_options() {
    let mut client = Client::new(
        Mode::Download,
        "f".to_string(),
        OptionsPrivate::default(),
        OptionsProtocol::default(),
    );
    assert_eq!(
        client.configure_worker(Packet::Data {
            block_num: 1,
            data: vec![1, 2, 3],
        }),
        Err(ClientError::NoOptions)
    );
}

#[test]
fn other_answers_are_unexpected() {
    let mut download = Client::new(
        Mode::Download,
        "f".to_string(),
        OptionsPrivate::default(),
        OptionsProtocol::default(),
    );
    assert_eq!(
        download.configure_worker(Packet::Ack(0)),
        Err(ClientError::Unexpected)
    );
    assert_eq!(
        download.configure_worker(Packet::Rrq {
            filename: "f".to_string(),
            mode: "octet".to_string(),
            options: vec![],
        }),
        Err(ClientError::Unexpected)
    );
    let mut upload = Client::new(
        Mode::Upload,
        "f".to_string(),
        OptionsPrivate::default(),
        OptionsProtocol::default(),
    );
    assert_eq!(
        upload.configure_worker(Packet::Data {
            block_num: 1,
            data: vec![],
        }),
        Err(ClientError::Unexpected)
    );
    assert_eq!(
        upload.configure_worker(Packet::Wrq {
            filename: "f".to_string(),
            mode: "octet".to_string(),
            options: vec![],
        }),
        Err(ClientError::Unexpected)
    );
}

#[test]
fn the_answer_of_the_server_applied_twice_changes_nothing_more() {
    let mut offered = offer();
    offered.timeout = Duration::from_secs(3);
    let oack = vec![
        option(OptionType::BlockSize, 900),
        option(OptionType::Timeout, 3),
        option(OptionType::WindowSize, 3),
    ];
    let mut client = Client::new(
        Mode::Download,
        "f".to_string(),
        OptionsPrivate::default(),
        offered,
    );
    let once = client.configure_worker(Packet::Oack(oack.clone())).unwrap();
    let twice = client.configure_worker(Packet::Oack(oack)).unwrap();
    assert_eq!(once, twice);
    assert_eq!(once.opt_common.block_size, 900);
    assert_eq!(once.opt_common.window_size, 3);
    assert_eq!(once.opt_common.timeout, Duration::from_secs(3));
}
