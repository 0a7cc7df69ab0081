use std::collections::VecDeque;
use tftpd::receiver::{ReceiveAction, ReceiveEvent, ReceivePhase};
use tftpd::sender::{SendAction, SendEvent, SendPhase};
use tftpd::{
    Duration, ErrorCode, Failure, OptionsPrivate, OptionsProtocol, Packet, Receiver, Rollover,
    Sender, Worker,
};

struct Outcome {
    sent: Vec<(u16, usize)>,
    acks: Vec<u16>,
    written: Vec<u8>,
    sender_end: SendAction,
    receiver_end: ReceiveAction,
    sender_retries: usize,
    pauses: Vec<Duration>,
}

fn options(block_size: u16, window_size: u16) -> OptionsProtocol {
    let mut common = OptionsProtocol::default();
    common.block_size = block_size;
    common.window_size = window_size;
    common
}

fn local(rollover: Rollover, max_retries: usize) -> OptionsPrivate {
    let mut local = OptionsPrivate::default();
    local.rollover = rollover;
    local.max_retries = max_retries;
    local
}

fn transfer(
    file: &[u8],
    common: OptionsProtocol,
    sender_local: OptionsPrivate,
    receiver_local: OptionsPrivate,
    check_response: bool,
    lose_data: &[usize],
    lose_acks: &[usize],
) -> Outcome {
    let (mut sender, mut send_action): (Sender, SendAction) =
        Worker::new(sender_local, common).send(check_response).unwrap();
    let (mut receiver, mut receive_action): (Receiver, ReceiveAction) =
        Worker::new(receiver_local, common).receive().unwrap();
    let mut to_receiver: VecDeque<Packet> = VecDeque::new();
    let mut to_sender: VecDeque<Packet> = VecDeque::new();
    if check_response {
        to_sender.push_back(Packet::Ack(0));
    }
    let mut out = Outcome {
        sent: vec![],
        acks: vec![],
        written: vec![],
        sender_end: SendAction::Finish,
        receiver_end: ReceiveAction::Finish { size: 0 },
        sender_retries: 0,
        pauses: vec![],
    };
    let mut position = 0usize;
    let mut data_count = 0usize;
    let mut ack_count = 0usize;
    let mut sender_done = false;
    let mut receiver_done = false;
    let mut sender_holds_ack = false;
    let mut receiver_timed_out_last = false;
    let mut steps = 0usize;
    while !(sender_done && receiver_done) {
        steps += 1;
        assert!(steps < 5_000_000);
        let mut moved = false;
        while !sender_done {
            let event = match &send_action {
                SendAction::Read(count) => {
                    let end = std::cmp::min(file.len(), position + *count as usize);
                    let bytes = file[position..end].to_vec();
                    position = end;
                    SendEvent::Data(bytes)
                }
                SendAction::Send { packet, pause } => {
                    if let Packet::Data { block_num, data } = packet {
                        out.sent.push((*block_num, data.len()));
                        out.pauses.push(*pause);
                        if !lose_data.contains(&data_count) {
                            to_receiver.push_back(Packet::Data {
                                block_num: *block_num,
                                data: data.clone(),
                            });
                        }
                        data_count += 1;
                    }
                    SendEvent::Sent
                }
                SendAction::Receive { .. } => {
                    if let Some(packet) = to_sender.pop_front() {
                        sender_holds_ack = true;
                        SendEvent::Received {
                            packet,
                            expired: false,
                        }
                    } else if sender_holds_ack {
                        sender_holds_ack = false;
                        SendEvent::Idle { expired: false }
                    } else {
                        break;
                    }
                }
                SendAction::Finish | SendAction::Fail { .. } => {
                    sender_done = true;
                    out.sender_retries = sender.retry_count();
                    out.sender_end = std::mem::replace(&mut send_action, SendAction::Finish);
                    break;
                }
            };
            send_action = sender.step(event);
            moved = true;
        }
        while !receiver_done {
            let event = match &receive_action {
                ReceiveAction::Receive { nonblocking, .. } => {
                    if let Some(packet) = to_receiver.pop_front() {
                        ReceiveEvent::Received(packet)
                    } else if *nonblocking {
                        ReceiveEvent::Idle
                    } else {
                        break;
                    }
                }
                ReceiveAction::Commit { data, ack } => {
                    out.written.extend_from_slice(data);
                    if let Packet::Ack(block_num) = ack {
                        out.acks.push(*block_num);
                        if !lose_acks.contains(&ack_count) {
                            to_sender.push_back(Packet::Ack(*block_num));
                        }
                        ack_count += 1;
                    }
                    ReceiveEvent::Committed
                }
                ReceiveAction::Finish { .. } | ReceiveAction::Fail { .. } => {
                    receiver_done = true;
                    out.receiver_end =
                        std::mem::replace(&mut receive_action, ReceiveAction::Finish { size: 0 });
                    break;
                }
            };
            receive_action = receiver.step(event);
            moved = true;
        }
        if !moved || (to_sender.is_empty() && to_receiver.is_empty() && !sender_holds_ack) {
            if sender_done && receiver_done {
                break;
            }
            let receiver_waits =
                !receiver_done && matches!(receive_action, ReceiveAction::Receive { .. });
            let sender_waits = !sender_done && matches!(send_action, SendAction::Receive { .. });
            if receiver_waits && (!receiver_timed_out_last || !sender_waits) {
                receive_action = receiver.step(ReceiveEvent::Idle);
                receiver_timed_out_last = true;
            } else if sender_waits {
                send_action = sender.step(SendEvent::Idle { expired: true });
                receiver_timed_out_last = false;
            }
        }
    }
    out
}

fn file_of(len: usize) -> Vec<u8> {
    (0..len).map(|i| (i % 251) as u8).collect()
}

#[test]
fn plain_read_of_1500_bytes_takes_three_blocks() {
    let file = file_of(1500);
    let out = transfer(
        &file,
        OptionsProtocol::default(),
        OptionsPrivate::default(),
        OptionsPrivate::default(),
        false,
        &[],
        &[],
    );
    assert_eq!(out.sent, vec![(1, 512), (2, 512), (3, 476)]);
    assert_eq!(out.acks, vec![1, 2, 3]);
    assert_eq!(out.written, file);
    assert_eq!(out.sender_end, SendAction::Finish);
    assert_eq!(out.receiver_end, ReceiveAction::Finish { size: 1500 });
}

#[test]
fn read_with_block_size_1024_and_transfer_size_3000() {
    let file = file_of(3000);
    let mut common = options(1024, 1);
    common.transfer_size = Some(3000);
    let out = transfer(
        &file,
        common,
        OptionsPrivate::default(),
        OptionsPrivate::default(),
        true,
        &[],
        &[],
    );
    assert_eq!(out.sent, vec![(1, 1024), (2, 1024), (3, 952)]);
    assert_eq!(out.acks, vec![1, 2, 3]);
    assert_eq!(out.written.len(), 3000);
    assert_eq!(out.written, file);
    assert_eq!(out.receiver_end, ReceiveAction::Finish { size: 3000 });
}

#[test]
fn a_file_that_ends_on_a_block_ends_with_an_empty_block() {
    let file = file_of(1024);
    let out = transfer(
        &file,
        options(512, 1),
        OptionsPrivate::default(),
        OptionsPrivate::default(),
        false,
        &[],
        &[],
    );
    assert_eq!(out.sent, vec![(1, 512), (2, 512), (3, 0)]);
    assert_eq!(out.acks, vec![1, 2, 3]);
    assert_eq!(out.written, file);
}

#[test]
fn an_empty_file_is_one_empty_block() {
    let out = transfer(
        &[],
        OptionsProtocol::default(),
        OptionsPrivate::default(),
        OptionsPrivate::default(),
        false,
        &[],
        &[],
    );
    assert_eq!(out.sent, vec![(1, 0)]);
    assert_eq!(out.acks, vec![1]);
    assert_eq!(out.receiver_end, ReceiveAction::Finish { size: 0 });
}

#[test]
fn windows_of_four_are_acknowledged_once_each() {
    let file = file_of(10);
    let out = transfer(
        &file,
        options(1, 4),
        OptionsPrivate::default(),
        OptionsPrivate::default(),
        false,
        &[],
        &[],
    );
    let numbers: Vec<u16> = out.sent.iter().map(|s| s.0).collect();
    assert_eq!(numbers, vec![1, 2, 3, 4, 5, 6, 7, 8, 9, 10, 11]);
    assert_eq!(out.acks, vec![4, 8, 11]);
    assert_eq!(out.written, file);
    assert_eq!(out.sent.last().unwrap().1, 0);
}

#[test]
fn the_window_wait_follows_every_frame_but_the_last_of_a_window() {
    let file = file_of(5);
    let mut common = options(1, 3);
    common.window_wait = Duration::from_millis(7);
    let out = transfer(
        &file,
        common,
        OptionsPrivate::default(),
        OptionsPrivate::default(),
        false,
        &[],
        &[],
    );
    let wait = Duration::from_millis(7);
    let none = Duration::from_millis(0);
    assert_eq!(out.pauses, vec![wait, wait, none, wait, wait, none]);
}

#[test]
fn rollover_to_zero_carries_a_long_transfer() {
    let file = file_of(65540);
    let out = transfer(
        &file,
        options(1, 4),
        local(Rollover::Enforce0, 6),
        local(Rollover::Enforce0, 6),
        true,
        &[],
        &[],
    );
    assert_eq!(out.sender_end, SendAction::Finish);
    assert_eq!(out.receiver_end, ReceiveAction::Finish { size: 65540 });
    assert_eq!(out.written, file);
    assert_eq!(out.sent[0].0, 1);
    assert_eq!(out.sent[3].0, 4);
    assert_eq!(out.acks[0], 4);
    assert_eq!(out.acks[1], 8);
    assert_eq!(out.sent[65534].0, 65535);
    assert_eq!(out.sent[65535].0, 0);
    assert_eq!(out.sent[65536].0, 1);
    assert_eq!(out.sent.len(), 65541);
    assert_eq!(*out.acks.last().unwrap(), out.sent.last().unwrap().0);
}

#[test]
fn rollover_to_one_carries_a_long_transfer() {
    let file = file_of(65540);
    let out = transfer(
        &file,
        options(1, 4),
        local(Rollover::Enforce1, 6),
        local(Rollover::Enforce1, 6),
        false,
        &[],
        &[],
    );
    assert_eq!(out.sender_end, SendAction::Finish);
    assert_eq!(out.written, file);
    assert_eq!(out.sent[65534].0, 65535);
    assert_eq!(out.sent[65535].0, 1);
    assert_eq!(out.sent[65536].0, 2);
    assert_eq!(*out.acks.last().unwrap(), out.sent.last().unwrap().0);
}

#[test]
fn a_receiver_that_does_not_care_follows_either_sender() {
    let file = file_of(65540);
    for policy in [Rollover::Enforce0, Rollover::Enforce1, Rollover::DontCare] {
        let out = transfer(
            &file,
            options(1, 4),
            local(policy, 6),
            local(Rollover::DontCare, 6),
            false,
            &[],
            &[],
        );
        assert_eq!(out.sender_end, SendAction::Finish);
        assert_eq!(out.written, file);
    }
}

#[test]
fn mismatched_rollover_policies_fail() {
    let file = file_of(65540);
    let out = transfer(
        &file,
        options(1, 4),
        local(Rollover::Enforce0, 2),
        local(Rollover::Enforce1, 2),
        false,
        &[],
        &[],
    );
    assert!(matches!(
        out.receiver_end,
        ReceiveAction::Fail {
            reply: Some(Packet::Error {
                code: ErrorCode::IllegalOperation,
                ..
            }),
            reason: Failure::Rollover,
        }
    ));
    if let ReceiveAction::Fail {
        reply: Some(Packet::Error { msg, .. }),
        ..
    } = &out.receiver_end
    {
        assert_eq!(msg, "Block counter rollover error");
    }
    assert_ne!(out.sender_end, SendAction::Finish);

    let out = transfer(
        &file,
        options(1, 4),
        local(Rollover::Enforce1, 2),
        local(Rollover::Enforce0, 2),
        false,
        &[],
        &[],
    );
    assert_ne!(out.sender_end, SendAction::Finish);
    assert!(matches!(out.receiver_end, ReceiveAction::Fail { .. }));
}

#[test]
fn forbidden_rollover_stops_the_sender() {
    let file = file_of(65540);
    let out = transfer(
        &file,
        options(1, 4),
        local(Rollover::Forbidden, 2),
        local(Rollover::Forbidden, 2),
        false,
        &[],
        &[],
    );
    assert_eq!(
        out.sender_end,
        SendAction::Fail {
            reply: Some(Packet::Error {
                code: ErrorCode::IllegalOperation,
                msg: "Block counter rollover error".to_string(),
            }),
            reason: Failure::Rollover,
        }
    );
    assert_eq!(out.sent.last().unwrap().0, 65535);
}

#[test]
fn a_lost_frame_at_the_end_of_a_window_is_sent_again() {
    let file = file_of(10);
    let out = transfer(
        &file,
        options(1, 4),
        OptionsPrivate::default(),
        OptionsPrivate::default(),
        false,
        &[3],
        &[],
    );
    assert_eq!(out.sender_end, SendAction::Finish);
    assert_eq!(out.written, file);
    assert!(out.sender_retries <= 6);
    assert_eq!(out.acks[0], 3);
    let numbers: Vec<u16> = out.sent.iter().map(|s| s.0).collect();
    assert_eq!(&numbers[..4], &[1, 2, 3, 4]);
    assert!(numbers[4..].contains(&4));
    assert_eq!(*out.acks.last().unwrap(), 11);
}

#[test]
fn a_lost_frame_in_the_middle_of_a_window_is_sent_again() {
    let file = file_of(10);
    let out = transfer(
        &file,
        options(1, 4),
        OptionsPrivate::default(),
        OptionsPrivate::default(),
        false,
        &[1],
        &[],
    );
    assert_eq!(out.sender_end, SendAction::Finish);
    assert_eq!(out.written, file);
    assert_eq!(out.acks[0], 1);
}

#[test]
fn a_lost_acknowledgement_is_made_up_for() {
    let file = file_of(10);
    let out = transfer(
        &file,
        options(1, 4),
        OptionsPrivate::default(),
        OptionsPrivate::default(),
        false,
        &[],
        &[0],
    );
    assert_eq!(out.sender_end, SendAction::Finish);
    assert_eq!(out.written, file);
}

#[test]
fn a_silent_peer_fails_the_sender_after_the_retries() {
    let (mut sender, action) = Worker::new(local(Rollover::Enforce0, 2), options(4, 2))
        .send(false)
        .unwrap();
    assert_eq!(action, SendAction::Read(8));
    let mut action = sender.step(SendEvent::Data(vec![1, 2, 3, 4, 5]));
    let mut windows = 0;
    loop {
        match action {
            SendAction::Send { .. } => {
                action = sender.step(SendEvent::Sent);
            }
            SendAction::Receive { restart_timer, .. } => {
                if restart_timer {
                    windows += 1;
                }
                action = sender.step(SendEvent::Idle { expired: true });
            }
            other => {
                assert_eq!(
                    other,
                    SendAction::Fail {
                        reply: None,
                        reason: Failure::TimedOut { retries: 2 },
                    }
                );
                break;
            }
        }
    }
    assert_eq!(windows, 3);
    assert_eq!(sender.retry_count(), 2);
    assert_eq!(sender.phase(), SendPhase::Failed);
    assert_eq!(
        sender.step(SendEvent::Sent),
        SendAction::Fail {
            reply: None,
            reason: Failure::Stopped,
        }
    );
}

#[test]
fn a_silent_peer_fails_the_receiver_after_the_retries() {
    let (mut receiver, action) = Worker::new(local(Rollover::Enforce0, 2), options(4, 2))
        .receive()
        .unwrap();
    assert_eq!(
        action,
        ReceiveAction::Receive {
            nonblocking: false,
            block_size: 4
        }
    );
    assert_eq!(
        receiver.step(ReceiveEvent::Idle),
        ReceiveAction::Commit {
            data: vec![],
            ack: Packet::Ack(0)
        }
    );
    assert_eq!(
        receiver.step(ReceiveEvent::Committed),
        ReceiveAction::Receive {
            nonblocking: false,
            block_size: 4
        }
    );
    assert!(matches!(
        receiver.step(ReceiveEvent::Idle),
        ReceiveAction::Commit { .. }
    ));
    receiver.step(ReceiveEvent::Committed);
    assert_eq!(
        receiver.step(ReceiveEvent::Idle),
        ReceiveAction::Fail {
            reply: None,
            reason: Failure::TimedOut { retries: 2 },
        }
    );
    assert_eq!(receiver.phase(), ReceivePhase::Failed);
    assert_eq!(receiver.retry_count(), 2);
}

#[test]
fn the_sender_waits_for_the_acknowledgement_of_the_options() {
    let (mut sender, action) = Worker::new(OptionsPrivate::default(), options(4, 1))
        .send(true)
        .unwrap();
    assert_eq!(
        action,
        SendAction::Receive {
            nonblocking: false,
            restart_timer: false
        }
    );
    assert_eq!(sender.phase(), SendPhase::AwaitAck);
    assert_eq!(
        sender.step(SendEvent::Received {
            packet: Packet::Ack(0),
            expired: false
        }),
        SendAction::Read(4)
    );

    let (mut sender, _) = Worker::new(OptionsPrivate::default(), options(4, 1))
        .send(true)
        .unwrap();
    assert_eq!(
        sender.step(SendEvent::Received {
            packet: Packet::Ack(1),
            expired: false
        }),
        SendAction::Fail {
            reply: Some(Packet::Error {
                code: ErrorCode::IllegalOperation,
                msg: "invalid oack response".to_string(),
            }),
            reason: Failure::UnexpectedReply,
        }
    );

    let (mut sender, _) = Worker::new(OptionsPrivate::default(), options(4, 1))
        .send(true)
        .unwrap();
    assert_eq!(
        sender.step(SendEvent::Idle { expired: true }),
        SendAction::Fail {
            reply: None,
            reason: Failure::NoReply,
        }
    );
}

#[test]
fn an_error_packet_ends_either_side() {
    let (mut sender, _) = Worker::new(OptionsPrivate::default(), options(4, 1))
        .send(false)
        .unwrap();
    sender.step(SendEvent::Data(vec![1]));
    sender.step(SendEvent::Sent);
    assert_eq!(
        sender.step(SendEvent::Received {
            packet: Packet::Error {
                code: ErrorCode::DiskFull,
                msg: "full".to_string()
            },
            expired: false
        }),
        SendAction::Fail {
            reply: None,
            reason: Failure::Peer {
                code: ErrorCode::DiskFull,
                msg: "full".to_string()
            },
        }
    );
    let (mut receiver, _) = Worker::new(OptionsPrivate::default(), options(4, 1))
        .receive()
        .unwrap();
    assert_eq!(
        receiver.step(ReceiveEvent::Received(Packet::Error {
            code: ErrorCode::FileNotFound,
            msg: "gone".to_string()
        })),
        ReceiveAction::Fail {
            reply: None,
            reason: Failure::Peer {
                code: ErrorCode::FileNotFound,
                msg: "gone".to_string()
            },
        }
    );
}

#[test]
fn a_wrong_length_fails_the_receiver_at_the_end() {
    let mut common = options(4, 1);
    common.transfer_size = Some(9);
    let (mut receiver, _) = Worker::new(OptionsPrivate::default(), common)
        .receive()
        .unwrap();
    assert_eq!(
        receiver.step(ReceiveEvent::Received(Packet::Data {
            block_num: 1,
            data: vec![1, 2, 3]
        })),
        ReceiveAction::Commit {
            data: vec![1, 2, 3],
            ack: Packet::Ack(1)
        }
    );
    assert_eq!(
        receiver.step(ReceiveEvent::Committed),
        ReceiveAction::Fail {
            reply: None,
            reason: Failure::SizeMismatch {
                negotiated: 9,
                transferred: 3
            },
        }
    );
}

#[test]
fn the_receiver_acknowledges_again_what_it_does_not_expect() {
    let (mut receiver, _) = Worker::new(OptionsPrivate::default(), options(4, 2))
        .receive()
        .unwrap();
    assert_eq!(
        receiver.step(ReceiveEvent::Received(Packet::Data {
            block_num: 1,
            data: vec![1, 2, 3, 4]
        })),
        ReceiveAction::Receive {
            nonblocking: true,
            block_size: 4
        }
    );
    assert_eq!(receiver.block_number(), 1);
    assert_eq!(
        receiver.step(ReceiveEvent::Received(Packet::Data {
            block_num: 3,
            data: vec![9, 9, 9, 9]
        })),
        ReceiveAction::Commit {
            data: vec![1, 2, 3, 4],
            ack: Packet::Ack(1)
        }
    );
    receiver.step(ReceiveEvent::Committed);
    assert_eq!(
        receiver.step(ReceiveEvent::Received(Packet::Data {
            block_num: 1,
            data: vec![1, 2, 3, 4]
        })),
        ReceiveAction::Commit {
            data: vec![],
            ack: Packet::Ack(1)
        }
    );
    receiver.step(ReceiveEvent::Committed);
    assert_eq!(
        receiver.step(ReceiveEvent::Received(Packet::Data {
            block_num: 2,
            data: vec![1, 2, 3, 4, 5]
        })),
        ReceiveAction::Receive {
            nonblocking: true,
            block_size: 4
        }
    );
    assert_eq!(receiver.block_number(), 1);
    assert_eq!(
        receiver.step(ReceiveEvent::Received(Packet::Ack(7))),
        ReceiveAction::Receive {
            nonblocking: true,
            block_size: 4
        }
    );
    assert_eq!(
        receiver.step(ReceiveEvent::Idle),
        ReceiveAction::Receive {
            nonblocking: false,
            block_size: 4
        }
    );
    assert_eq!(
        receiver.step(ReceiveEvent::Fault { reset: true }),
        ReceiveAction::Receive {
            nonblocking: false,
            block_size: 4
        }
    );
    assert_eq!(
        receiver.step(ReceiveEvent::Committed),
        ReceiveAction::Fail {
            reply: None,
            reason: Failure::OutOfTurn
        }
    );
}

#[test]
fn the_sender_tells_acknowledgements_apart() {
    let (mut sender, _) = Worker::new(OptionsPrivate::default(), options(1, 2))
        .send(false)
        .unwrap();
    sender.step(SendEvent::Data(vec![1, 2]));
    sender.step(SendEvent::Sent);
    assert_eq!(
        sender.step(SendEvent::Sent),
        SendAction::Receive {
            nonblocking: false,
            restart_timer: true
        }
    );
    assert_eq!(
        sender.step(SendEvent::Received {
            packet: Packet::Ack(0),
            expired: false
        }),
        SendAction::Receive {
            nonblocking: true,
            restart_timer: false
        }
    );
    assert_eq!(
        sender.step(SendEvent::Idle { expired: false }),
        SendAction::Receive {
            nonblocking: true,
            restart_timer: false
        }
    );
    sender.step(SendEvent::Received {
        packet: Packet::Ack(9),
        expired: false,
    });
    assert_eq!(
        sender.step(SendEvent::Idle { expired: false }),
        SendAction::Receive {
            nonblocking: true,
            restart_timer: false
        }
    );
    assert_eq!(
        sender.step(SendEvent::Received {
            packet: Packet::Oack(vec![]),
            expired: false
        }),
        SendAction::Receive {
            nonblocking: true,
            restart_timer: false
        }
    );
    assert_eq!(
        sender.step(SendEvent::Fault { expired: false }),
        SendAction::Receive {
            nonblocking: true,
            restart_timer: false
        }
    );
    sender.step(SendEvent::Received {
        packet: Packet::Ack(1),
        expired: false,
    });
    assert_eq!(sender.step(SendEvent::Idle { expired: false }), SendAction::Read(1));
    assert_eq!(
        sender.step(SendEvent::Data(vec![3])),
        SendAction::Send {
            packet: Packet::Data {
                block_num: 2,
                data: vec![2]
            },
            pause: Duration::from_millis(0)
        }
    );
}

#[test]
fn an_acknowledgement_beyond_the_window_fails_the_sender() {
    let (mut sender, _) = Worker::new(OptionsPrivate::default(), options(4, 3))
        .send(false)
        .unwrap();
    sender.step(SendEvent::Data(vec![1, 2, 3, 4, 5]));
    sender.step(SendEvent::Sent);
    sender.step(SendEvent::Sent);
    sender.step(SendEvent::Received {
        packet: Packet::Ack(3),
        expired: false,
    });
    assert_eq!(
        sender.step(SendEvent::Idle { expired: false }),
        SendAction::Fail {
            reply: None,
            reason: Failure::AckBeyondWindow
        }
    );
}

#[test]
fn an_event_out_of_turn_fails_the_sender() {
    let (mut sender, _) = Worker::new(OptionsPrivate::default(), options(4, 3))
        .send(false)
        .unwrap();
    assert_eq!(
        sender.step(SendEvent::Sent),
        SendAction::Fail {
            reply: None,
            reason: Failure::OutOfTurn
        }
    );
    let (mut sender, _) = Worker::new(OptionsPrivate::default(), options(4, 1))
        .send(false)
        .unwrap();
    assert_eq!(
        sender.step(SendEvent::Data(vec![1, 2, 3, 4, 5])),
        SendAction::Fail {
            reply: None,
            reason: Failure::OutOfTurn
        }
    );
}

#[test]
fn options_out_of_range_start_no_transfer() {
    let mut common = OptionsProtocol::default();
    common.block_size = 0;
    assert!(Worker::new(OptionsPrivate::default(), common).send(false).is_err());
    assert!(Worker::new(OptionsPrivate::default(), common).receive().is_err());
}

#[test]
fn scattered_losses_leave_the_file_whole() {
    let mut state: u64 = 0x2545_f491_4f6c_dd1d;
    let mut next = move |bound: usize| -> usize {
        state ^= state << 13;
        state ^= state >> 7;
        state ^= state << 17;
        (state % bound as u64) as usize
    };
    for round in 0..60 {
        let len = next(200);
        let block_size = 1 + next(16) as u16;
        let window_size = 1 + next(6) as u16;
        let lose_data: Vec<usize> = (0..next(4)).map(|_| next(40)).collect();
        let lose_acks: Vec<usize> = (0..next(3)).map(|_| next(20)).collect();
        let file = file_of(len);
        let out = transfer(
            &file,
            options(block_size, window_size),
            local(Rollover::Enforce0, 20),
            local(Rollover::Enforce0, 20),
            round % 2 == 1,
            &lose_data,
            &lose_acks,
        );
        assert_eq!(
            out.receiver_end,
            ReceiveAction::Finish { size: len as u64 },
            "round {round}"
        );
        if lose_acks.contains(&(out.acks.len() - 1)) {
            assert_eq!(
                out.sender_end,
                SendAction::Fail {
                    reply: None,
                    reason: Failure::TimedOut { retries: 20 },
                },
                "round {round}"
            );
        } else {
            assert_eq!(out.sender_end, SendAction::Finish, "round {round}");
        }
        assert_eq!(out.written, file, "round {round}");
        let last = out.sent.last().unwrap();
        assert!(last.1 < usize::from(block_size), "round {round}");
        assert_eq!(*out.acks.last().unwrap(), last.0, "round {round}");
        assert_eq!(
            usize::from(last.0),
            len / usize::from(block_size) + 1,
            "round {round}"
        );
    }
}

#[test]
fn a_stray_packet_does_not_make_the_sender_forget_an_acknowledgement() {
    let (mut sender, action) = Worker::new(local(Rollover::Enforce0, 2), options(4, 2))
        .send(false)
        .unwrap();
    assert_eq!(action, SendAction::Read(8));
    let first = sender.step(SendEvent::Data(vec![1, 2, 3, 4, 5, 6, 7, 8]));
    assert!(matches!(first, SendAction::Send { .. }));
    assert!(matches!(
        sender.step(SendEvent::Sent),
        SendAction::Send { .. }
    ));
    assert_eq!(
        sender.step(SendEvent::Sent),
        SendAction::Receive {
            nonblocking: false,
            restart_timer: true,
        }
    );
    assert_eq!(
        sender.step(SendEvent::Received {
            packet: Packet::Ack(1),
            expired: false,
        }),
        SendAction::Receive {
            nonblocking: true,
            restart_timer: false,
        }
    );
    assert_eq!(
        sender.step(SendEvent::Received {
            packet: Packet::Data {
                block_num: 9,
                data: vec![],
            },
            expired: false,
        }),
        SendAction::Receive {
            nonblocking: true,
            restart_timer: false,
        }
    );
    assert_eq!(
        sender.step(SendEvent::Fault { expired: false }),
        SendAction::Receive {
            nonblocking: true,
            restart_timer: false,
        }
    );
    assert_eq!(
        sender.step(SendEvent::Idle { expired: false }),
        SendAction::Read(4)
    );
    assert_eq!(sender.retry_count(), 0);
}

#[test]
fn an_acknowledgement_is_interpreted_when_the_time_ends_on_a_stray_packet() {
    let (mut sender, _) = Worker::new(local(Rollover::Enforce0, 2), options(4, 1))
        .send(false)
        .unwrap();
    sender.step(SendEvent::Data(vec![1, 2, 3]));
    sender.step(SendEvent::Sent);
    sender.step(SendEvent::Received {
        packet: Packet::Ack(1),
        expired: false,
    });
    assert_eq!(
        sender.step(SendEvent::Received {
            packet: Packet::Oack(vec![]),
            expired: true,
        }),
        SendAction::Finish
    );
    assert_eq!(sender.retry_count(), 0);

    let (mut sender, _) = Worker::new(local(Rollover::Enforce0, 2), options(4, 1))
        .send(false)
        .unwrap();
    sender.step(SendEvent::Data(vec![1, 2, 3]));
    sender.step(SendEvent::Sent);
    assert!(matches!(
        sender.step(SendEvent::Fault { expired: true }),
        SendAction::Send { .. }
    ));
    assert_eq!(sender.retry_count(), 1);
}
