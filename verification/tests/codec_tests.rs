use tftpd::convert::ConvertError;
use tftpd::{
    Convert, ErrorCode, Message, Opcode, OptionType, Packet, PacketError, TransferOption,
};

fn option(option: OptionType, value: u64) -> TransferOption {
    TransferOption { option, value }
}

fn samples() -> Vec<Packet> {
    vec![
        Packet::Rrq {
            filename: "f".to_string(),
            mode: "octet".to_string(),
            options: vec![],
        },
        Packet::Rrq {
            filename: "dir/ünï.bin".to_string(),
            mode: "octet".to_string(),
            options: vec![
                option(OptionType::BlockSize, 1024),
                option(OptionType::TransferSize, 0),
                option(OptionType::Timeout, 7),
                option(OptionType::TimeoutMs, 1500),
                option(OptionType::WindowSize, 16),
                option(OptionType::WindowWait, 20),
            ],
        },
        Packet::Wrq {
            filename: "".to_string(),
            mode: "".to_string(),
            options: vec![option(OptionType::TransferSize, u64::MAX)],
        },
        Packet::Data {
            block_num: 65535,
            data: vec![0, 1, 2, 0, 255],
        },
        Packet::Data {
            block_num: 0,
            data: vec![],
        },
        Packet::Ack(0),
        Packet::Ack(0x1234),
        Packet::Error {
            code: ErrorCode::DiskFull,
            msg: "disk full".to_string(),
        },
        Packet::Error {
            code: ErrorCode::NotDefined,
            msg: "".to_string(),
        },
        Packet::Oack(vec![]),
        Packet::Oack(vec![
            option(OptionType::BlockSize, 8),
            option(OptionType::BlockSize, 9),
        ]),
    ]
}

#[test]
fn what_is_written_is_read_back_as_it_was() {
    for packet in samples() {
        let bytes = packet.serialize().unwrap();
        assert_eq!(Packet::deserialize(&bytes), Ok(packet));
    }
}

#[test]
fn what_is_read_is_written_back_as_it_was() {
    let wires: Vec<Vec<u8>> = vec![
        b"\x00\x01f\x00octet\x00".to_vec(),
        b"\x00\x02f\x00octet\x00blksize\x001024\x00tsize\x000\x00".to_vec(),
        b"\x00\x03\x00\x07payload".to_vec(),
        b"\x00\x04\xff\xfe".to_vec(),
        b"\x00\x05\x00\x06exists\x00".to_vec(),
        b"\x00\x06windowsize\x004\x00timeoutms\x00250\x00".to_vec(),
    ];
    for wire in wires {
        let packet = Packet::deserialize(&wire).unwrap();
        assert_eq!(packet.serialize().unwrap(), wire);
    }
}

#[test]
fn a_number_that_is_no_operation_code_is_refused() {
    assert_eq!(
        Packet::deserialize(&[0, 0, 1, 2]),
        Err(PacketError::IllegalOpcode)
    );
    assert_eq!(
        Packet::deserialize(&[0, 7, 1, 2]),
        Err(PacketError::IllegalOpcode)
    );
    assert_eq!(
        Packet::deserialize(&[1, 1, 0, 0]),
        Err(PacketError::IllegalOpcode)
    );
    assert_eq!(
        Packet::deserialize(&[0xff, 0xff]),
        Err(PacketError::IllegalOpcode)
    );
}

#[test]
fn a_buffer_that_is_cut_short_is_malformed() {
    assert_eq!(Packet::deserialize(&[]), Err(PacketError::Malformed));
    assert_eq!(Packet::deserialize(&[0]), Err(PacketError::Malformed));
    assert_eq!(Packet::deserialize(&[0, 3]), Err(PacketError::Malformed));
    assert_eq!(Packet::deserialize(&[0, 3, 0]), Err(PacketError::Malformed));
    assert_eq!(Packet::deserialize(&[0, 4]), Err(PacketError::Malformed));
    assert_eq!(Packet::deserialize(&[0, 4, 1]), Err(PacketError::Malformed));
    assert_eq!(Packet::deserialize(&[0, 5, 0]), Err(PacketError::Malformed));
    assert_eq!(Packet::deserialize(&[0, 1]), Err(PacketError::Malformed));
    assert_eq!(
        Packet::deserialize(b"\x00\x01name"),
        Err(PacketError::Malformed)
    );
    assert_eq!(
        Packet::deserialize(b"\x00\x01name\x00octet"),
        Err(PacketError::Malformed)
    );
    assert_eq!(
        Packet::deserialize(b"\x00\x02name\x00octet\x00blksize\x00512"),
        Err(PacketError::Malformed)
    );
    assert_eq!(
        Packet::deserialize(b"\x00\x02name\x00octet\x00blksize\x00"),
        Err(PacketError::Malformed)
    );
    assert_eq!(
        Packet::deserialize(b"\x00\x06blksize"),
        Err(PacketError::Malformed)
    );
}

#[test]
fn a_field_that_is_not_utf8_is_malformed() {
    assert_eq!(
        Packet::deserialize(b"\x00\x01\xff\xfe\x00octet\x00"),
        Err(PacketError::Malformed)
    );
    assert_eq!(
        Packet::deserialize(b"\x00\x01f\x00\xc3\x00"),
        Err(PacketError::Malformed)
    );
    assert_eq!(
        Packet::deserialize(b"\x00\x06\x80\x001\x00"),
        Err(PacketError::Malformed)
    );
    assert_eq!(
        Packet::deserialize(b"\x00\x06blksize\x00\xed\xa0\x80\x00"),
        Err(PacketError::Malformed)
    );
    assert_eq!(
        Convert::to_string(b"\xc3\x28\x00", 0),
        Err(ConvertError::InvalidUtf8)
    );
    assert_eq!(
        Convert::to_string(b"abc", 0),
        Err(ConvertError::Unterminated)
    );
    assert_eq!(
        Convert::to_string(b"abc\x00", 4),
        Err(ConvertError::Unterminated)
    );
    assert_eq!(
        Convert::to_string(b"abc\x00", 9),
        Err(ConvertError::Unterminated)
    );
}

#[test]
fn a_field_of_several_bytes_to_the_character_is_read() {
    assert_eq!(
        Convert::to_string("grüße €\0".as_bytes(), 0),
        Ok(("grüße €".to_string(), 11))
    );
    assert_eq!(
        Packet::deserialize("\0\u{1}日本\0octet\0".as_bytes()),
        Ok(Packet::Rrq {
            filename: "日本".to_string(),
            mode: "octet".to_string(),
            options: vec![],
        })
    );
}

#[test]
fn an_error_packet_without_an_end_has_no_message() {
    assert_eq!(
        Packet::deserialize(b"\x00\x05\x00\x01not found"),
        Ok(Packet::Error {
            code: ErrorCode::FileNotFound,
            msg: "(no message)".to_string(),
        })
    );
    assert_eq!(
        Packet::deserialize(b"\x00\x05\x00\x01"),
        Ok(Packet::Error {
            code: ErrorCode::FileNotFound,
            msg: "(no message)".to_string(),
        })
    );
    assert_eq!(
        Packet::deserialize(b"\x00\x05\x00\x02\xff\x00"),
        Ok(Packet::Error {
            code: ErrorCode::AccessViolation,
            msg: "(no message)".to_string(),
        })
    );
    assert_eq!(
        Packet::deserialize(b"\x00\x05\x00\x02\x00"),
        Ok(Packet::Error {
            code: ErrorCode::AccessViolation,
            msg: "".to_string(),
        })
    );
}

#[test]
fn an_error_code_outside_the_protocol_is_malformed() {
    assert_eq!(
        Packet::deserialize(b"\x00\x05\x00\x09what\x00"),
        Err(PacketError::Malformed)
    );
    assert_eq!(
        Packet::deserialize(b"\x00\x05\x01\x00what\x00"),
        Err(PacketError::Malformed)
    );
    assert_eq!(
        Packet::deserialize(b"\x00\x05\x00\x08refused\x00"),
        Ok(Packet::Error {
            code: ErrorCode::RefusedOption,
            msg: "refused".to_string(),
        })
    );
}

#[test]
fn an_option_that_is_not_known_is_passed_over() {
    assert_eq!(
        Packet::deserialize(b"\x00\x01f\x00octet\x00multicast\x001\x00blksize\x00900\x00"),
        Ok(Packet::Rrq {
            filename: "f".to_string(),
            mode: "octet".to_string(),
            options: vec![option(OptionType::BlockSize, 900)],
        })
    );
    assert_eq!(
        Packet::deserialize(b"\x00\x06\x00\x00"),
        Ok(Packet::Oack(vec![]))
    );
}

#[test]
fn an_option_whose_value_is_no_number_is_dropped() {
    assert_eq!(
        Packet::deserialize(
            b"\x00\x02f\x00octet\x00blksize\x00big\x00windowsize\x004\x00tsize\x00-1\x00timeout\x00\x00"
        ),
        Ok(Packet::Wrq {
            filename: "f".to_string(),
            mode: "octet".to_string(),
            options: vec![option(OptionType::WindowSize, 4)],
        })
    );
    assert_eq!(
        Packet::deserialize(b"\x00\x06tsize\x0018446744073709551616\x00"),
        Ok(Packet::Oack(vec![]))
    );
    assert_eq!(
        Packet::deserialize(b"\x00\x06tsize\x0018446744073709551615\x00"),
        Ok(Packet::Oack(vec![option(OptionType::TransferSize, u64::MAX)]))
    );
}

#[test]
fn the_name_of_an_option_is_read_in_any_case() {
    assert_eq!(
        Packet::deserialize(b"\x00\x06BLKSIZE\x008\x00TSize\x009\x00WindowSize\x002\x00"),
        Ok(Packet::Oack(vec![
            option(OptionType::BlockSize, 8),
            option(OptionType::TransferSize, 9),
            option(OptionType::WindowSize, 2),
        ]))
    );
    assert_eq!(OptionType::from_name(b"TIMEOUTMS"), Some(OptionType::TimeoutMs));
    assert_eq!(OptionType::from_name(b"windowWAIT"), Some(OptionType::WindowWait));
    assert_eq!(OptionType::from_name(b"timeout"), Some(OptionType::Timeout));
    assert_eq!(OptionType::from_name(b"timeouts"), None);
    assert_eq!(OptionType::from_name(b""), None);
    assert_eq!(OptionType::from_name("tſize".as_bytes()), None);
}

#[test]
fn the_names_of_the_options_on_the_wire() {
    assert_eq!(OptionType::BlockSize.as_str(), "blksize");
    assert_eq!(OptionType::TransferSize.as_str(), "tsize");
    assert_eq!(OptionType::Timeout.as_str(), "timeout");
    assert_eq!(OptionType::TimeoutMs.as_str(), "timeoutms");
    assert_eq!(OptionType::WindowSize.as_str(), "windowsize");
    assert_eq!(OptionType::WindowWait.as_str(), "windowwait");
    assert_eq!(
        option(OptionType::WindowWait, 120).as_bytes(),
        b"windowwait\x00120\x00".to_vec()
    );
    assert_eq!(
        option(OptionType::TransferSize, 0).as_bytes(),
        b"tsize\x000\x00".to_vec()
    );
}

#[test]
fn the_operation_codes_are_one_to_six() {
    let all = [
        (1u16, Opcode::Rrq),
        (2, Opcode::Wrq),
        (3, Opcode::Data),
        (4, Opcode::Ack),
        (5, Opcode::Error),
        (6, Opcode::Oack),
    ];
    for (code, op) in all {
        assert_eq!(Opcode::from_u16(code), Ok(op));
        assert_eq!(op.code(), code);
        assert_eq!(op.as_bytes(), [0, code as u8]);
    }
    assert!(Opcode::from_u16(0).is_err());
    assert!(Opcode::from_u16(7).is_err());
    assert!(Opcode::from_u16(0x0100).is_err());
}

#[test]
fn the_error_codes_are_zero_to_eight() {
    let all = [
        (0u16, ErrorCode::NotDefined, "Not Defined"),
        (1, ErrorCode::FileNotFound, "File Not Found"),
        (2, ErrorCode::AccessViolation, "Access Violation"),
        (3, ErrorCode::DiskFull, "Disk Full"),
        (4, ErrorCode::IllegalOperation, "Illegal Operation"),
        (5, ErrorCode::UnknownId, "Unknown ID"),
        (6, ErrorCode::FileExists, "File Exists"),
        (7, ErrorCode::NoSuchUser, "No Such User"),
        (8, ErrorCode::RefusedOption, "Refused option"),
    ];
    for (code, error, text) in all {
        assert_eq!(ErrorCode::from_u16(code), Ok(error));
        assert_eq!(error.code(), code);
        assert_eq!(error.as_bytes(), [0, code as u8]);
        assert_eq!(error.to_string(), text);
    }
    assert!(ErrorCode::from_u16(9).is_err());
    assert!(ErrorCode::from_u16(0xffff).is_err());
}

#[test]
fn two_bytes_make_a_number_with_the_high_byte_first() {
    assert_eq!(Convert::to_u16(&[0x12, 0x34]), Ok(0x1234));
    assert_eq!(Convert::to_u16(&[0xff, 0x00, 0x77]), Ok(0xff00));
    assert_eq!(Convert::to_u16(&[0, 0]), Ok(0));
    assert!(Convert::to_u16(&[]).is_err());
    assert!(Convert::to_u16(&[1]).is_err());
}

#[test]
fn the_builders_make_the_packets_they_are_named_for() {
    assert_eq!(
        Message::send_data(7, vec![1, 2]),
        Packet::Data {
            block_num: 7,
            data: vec![1, 2],
        }
    );
    assert_eq!(Message::send_ack(9), Packet::Ack(9));
    assert_eq!(
        Message::send_error(ErrorCode::DiskFull, "full"),
        Packet::Error {
            code: ErrorCode::DiskFull,
            msg: "full".to_string(),
        }
    );
    assert_eq!(
        Message::send_error_to(ErrorCode::UnknownId, "who"),
        Packet::Error {
            code: ErrorCode::UnknownId,
            msg: "who".to_string(),
        }
    );
    assert_eq!(
        Message::send_oack(vec![option(OptionType::Timeout, 2)]),
        Packet::Oack(vec![option(OptionType::Timeout, 2)])
    );
}

#[test]
fn a_datagram_is_read_up_to_the_room_that_was_made() {
    assert_eq!(Message::buffer_size(512), 516);
    assert_eq!(Message::buffer_size(0), 4);
    assert_eq!(Message::buffer_size(usize::MAX), usize::MAX);
    assert_eq!(Message::buffer_size(usize::MAX - 4), usize::MAX);
    let wire = b"\x00\x03\x00\x01abcdefgh";
    assert_eq!(
        Message::recv(wire),
        Ok(Packet::Data {
            block_num: 1,
            data: b"abcdefgh".to_vec(),
        })
    );
    assert_eq!(Message::recv_from(wire), Message::recv(wire));
    assert_eq!(
        Message::recv_with_size(wire, 3),
        Ok(Packet::Data {
            block_num: 1,
            data: b"abc".to_vec(),
        })
    );
    assert_eq!(
        Message::recv_from_with_size(wire, 8),
        Ok(Packet::Data {
            block_num: 1,
            data: b"abcdefgh".to_vec(),
        })
    );
    assert_eq!(
        Message::recv_with_size(wire, 100),
        Ok(Packet::Data {
            block_num: 1,
            data: b"abcdefgh".to_vec(),
        })
    );
    assert_eq!(
        Message::recv_with_size(wire, 0),
        Ok(Packet::Data {
            block_num: 1,
            data: vec![],
        })
    );
    assert_eq!(Message::recv(&[0, 9, 0, 0]), Err(PacketError::IllegalOpcode));
    assert_eq!(Message::recv_from(&[0]), Err(PacketError::Malformed));
}
