use crate::numbering::ack_distance;
use crate::numbering::lemma_ack_slides;
use crate::numbering::lemma_next_block;
use crate::numbering::next_block;
use crate::numbering::spec_ack_distance;
use crate::numbering::spec_base_of;
use crate::numbering::spec_block_of;
use crate::numbering::spec_next_block;
use crate::options::Duration;
use crate::options::OptionsPrivate;
use crate::options::OptionsProtocol;
use crate::options::Rollover;
use crate::packet::Packet;
use crate::packet::PacketView;
use crate::transfer::bad_reply_error;
use crate::transfer::rollover_error;
use crate::transfer::spec_bad_reply_error;
use crate::transfer::spec_reply_view;
use crate::transfer::spec_rollover_error;
use crate::transfer::Failure;
use crate::transfer::FailureView;
use crate::window::spec_chunk;
use crate::window::spec_frames_of;
use crate::window::Window;
use vstd::prelude::*;
use vstd::slice::slice_to_vec;

verus! {

/// Where a sending transfer stands: what it last asked for.
#[derive(Clone, Copy, Debug, PartialEq, Eq, Structural)]
pub enum SendPhase {
    /// Waiting for the acknowledgement of the option acknowledgement.
    AwaitAck,
    /// Waiting for bytes read from the file.
    Fill,
    /// Waiting for a data packet to be sent.
    Transmit,
    /// Waiting for acknowledgements of the window that was sent.
    Listen,
    /// The whole file was sent and acknowledged.
    Done,
    /// The transfer failed.
    Failed,
}

/// What happened to the action that the sender last asked for.
#[derive(Debug, PartialEq)]
pub enum SendEvent {
    /// The bytes read from the file: as many as were asked for, or fewer
    /// where the file ended.
    Data(Vec<u8>),
    /// The packet was sent, and the pause after it is over.
    Sent,
    /// A packet arrived.
    Received {
        /// The packet
        packet: Packet,
        /// Whether the time to wait for acknowledgements is over
        expired: bool,
    },
    /// The socket had nothing to read.
    Idle {
        /// Whether the time to wait for acknowledgements is over
        expired: bool,
    },
    /// Reading from the socket failed in another way.
    Fault {
        /// Whether the time to wait for acknowledgements is over
        expired: bool,
    },
}

/// What an event holds, as mathematical values.
pub enum SendEventView {
    Data(Seq<u8>),
    Sent,
    Received { packet: PacketView, expired: bool },
    Idle { expired: bool },
    Fault { expired: bool },
}

impl View for SendEvent {
    type V = SendEventView;

    open spec fn view(&self) -> SendEventView {
        match self {
            SendEvent::Data(bytes) => SendEventView::Data(bytes@),
            SendEvent::Sent => SendEventView::Sent,
            SendEvent::Received { packet, expired } => SendEventView::Received {
                packet: packet@,
                expired: *expired,
            },
            SendEvent::Idle { expired } => SendEventView::Idle { expired: *expired },
            SendEvent::Fault { expired } => SendEventView::Fault { expired: *expired },
        }
    }
}

/// What the sender asks for next.
#[derive(Debug, PartialEq)]
pub enum SendAction {
    /// Read this many bytes from the file, or fewer where it ends, and
    /// answer with `SendEvent::Data`.
    Read(u64),
    /// Send the packet, pause for the given time if it is not zero, and
    /// answer with `SendEvent::Sent`.
    Send {
        /// The packet to send
        packet: Packet,
        /// The pause after it
        pause: Duration,
    },
    /// Read a packet from the socket and answer with what came of it.
    Receive {
        /// Whether the read returns at once when nothing is there
        nonblocking: bool,
        /// Whether the time to wait for acknowledgements starts anew
        restart_timer: bool,
    },
    /// The transfer is complete.
    Finish,
    /// The transfer failed; send the reply, if there is one, and stop.
    Fail {
        /// An error packet for the peer
        reply: Option<Packet>,
        /// Why the transfer failed
        reason: Failure,
    },
}

/// What an action holds, as mathematical values.
pub enum SendActionView {
    Read(u64),
    Send { packet: PacketView, pause: Duration },
    Receive { nonblocking: bool, restart_timer: bool },
    Finish,
    Fail { reply: Option<PacketView>, reason: FailureView },
}

impl View for SendAction {
    type V = SendActionView;

    open spec fn view(&self) -> SendActionView {
        match self {
            SendAction::Read(count) => SendActionView::Read(*count),
            SendAction::Send { packet, pause } => SendActionView::Send {
                packet: packet@,
                pause: *pause,
            },
            SendAction::Receive { nonblocking, restart_timer } => SendActionView::Receive {
                nonblocking: *nonblocking,
                restart_timer: *restart_timer,
            },
            SendAction::Finish => SendActionView::Finish,
            SendAction::Fail { reply, reason } => SendActionView::Fail {
                reply: spec_reply_view(*reply),
                reason: reason@,
            },
        }
    }
}

/// The state of a sending transfer, as mathematical values.
pub struct SenderView {
    /// Negotiated options
    pub common: OptionsProtocol,
    /// Local options
    pub local: OptionsPrivate,
    /// The frames of the window, oldest first
    pub frames: Seq<Seq<u8>>,
    /// What the sender last asked for
    pub phase: SendPhase,
    /// Number of the last block acknowledged
    pub block_seq_win: u16,
    /// Number of frames of the window already sent
    pub win_idx: u16,
    /// Whether the file may hold more than was read
    pub more: bool,
    /// Number of timeouts so far
    pub retry_count: usize,
    /// The newest acknowledgement of the current wait
    pub last_ack: Option<u16>,
    /// Whether the socket is read without blocking
    pub nonblocking: bool,
    /// How many blocks the peer has acknowledged since the start
    pub acked: int,
    /// The bytes read from the file since the start
    pub read: Seq<u8>,
}

impl SenderView {
    /// The number of bytes that fill the free slots of the window.
    pub open spec fn room(self) -> int {
        (self.common.window_size - self.frames.len()) * self.common.block_size
    }

    /// The transfer fails.
    pub open spec fn fail(self, reply: Option<PacketView>, reason: FailureView) -> (
        SenderView,
        SendActionView,
    ) {
        (SenderView { phase: SendPhase::Failed, ..self }, SendActionView::Fail { reply, reason })
    }

    /// Asks for the bytes that fill the free slots of the window.
    pub open spec fn begin_fill(self) -> (SenderView, SendActionView) {
        (SenderView { phase: SendPhase::Fill, ..self }, SendActionView::Read(self.room() as u64))
    }

    /// Sends the next frame of the window under its block number, and
    /// pauses after it when more frames follow. Fails where the block
    /// counter would wrap against the policy.
    pub open spec fn transmit(self) -> (SenderView, SendActionView) {
        match spec_next_block(
            self.block_seq_win,
            (self.win_idx + 1) as u16,
            self.local.rollover,
        ) {
            None => self.fail(Some(spec_rollover_error()), FailureView::Rollover),
            Some(block_num) => (
                SenderView { phase: SendPhase::Transmit, ..self },
                SendActionView::Send {
                    packet: PacketView::Data { block_num, data: self.frames[self.win_idx as int] },
                    pause: if self.win_idx + 1 < self.frames.len() {
                        self.common.window_wait
                    } else {
                        Duration::spec_from_millis(0)
                    },
                },
            ),
        }
    }

    /// The time to wait for acknowledgements is over: the window is sent
    /// again from its first frame, unless the retries are used up.
    pub open spec fn timeout(self) -> (SenderView, SendActionView) {
        if self.retry_count >= self.local.max_retries {
            self.fail(None, FailureView::TimedOut { retries: self.local.max_retries })
        } else {
            (SenderView {
                retry_count: (self.retry_count + 1) as usize,
                win_idx: 0,
                last_ack: None,
                nonblocking: true,
                ..self
            }).transmit()
        }
    }

    /// Nothing moved the window: waits on, or times out when the time is
    /// over.
    pub open spec fn wait(self, expired: bool) -> (SenderView, SendActionView) {
        if expired {
            self.timeout()
        } else {
            (
                SenderView { phase: SendPhase::Listen, last_ack: None, ..self },
                SendActionView::Receive { nonblocking: self.nonblocking, restart_timer: false },
            )
        }
    }

    /// A packet that is no acknowledgement, or a read that failed, is
    /// passed over: the newest acknowledgement of the wait is kept for
    /// when the socket goes quiet. When the time is over, that
    /// acknowledgement is interpreted at once, or the wait times out
    /// where there is none.
    pub open spec fn pass_over(self, expired: bool) -> (SenderView, SendActionView) {
        if expired {
            match self.last_ack {
                Some(ack) => self.slide(ack, expired),
                None => self.timeout(),
            }
        } else {
            (
                SenderView { phase: SendPhase::Listen, ..self },
                SendActionView::Receive { nonblocking: self.nonblocking, restart_timer: false },
            )
        }
    }

    /// The socket went quiet after the acknowledgement `ack`: an
    /// acknowledgement of 1 to `window_size` blocks ahead slides the
    /// window; one of no block, or of more than a window, moves nothing.
    pub open spec fn slide(self, ack: u16, expired: bool) -> (SenderView, SendActionView) {
        let diff = spec_ack_distance(ack, self.block_seq_win, self.local.rollover);
        if diff == 0 || diff > self.common.window_size {
            self.wait(expired)
        } else if diff > self.frames.len() {
            self.fail(None, FailureView::AckBeyondWindow)
        } else {
            let rest = SenderView {
                block_seq_win: ack,
                frames: self.frames.subrange(diff as int, self.frames.len() as int),
                acked: self.acked + diff,
                win_idx: 0,
                last_ack: None,
                ..self
            };
            if !self.more && rest.frames.len() == 0 {
                (SenderView { phase: SendPhase::Done, ..rest }, SendActionView::Finish)
            } else if self.more {
                rest.begin_fill()
            } else {
                rest.transmit()
            }
        }
    }

    /// The state and the action that follow `event`.
    pub open spec fn step(self, event: SendEventView) -> (SenderView, SendActionView) {
        match self.phase {
            SendPhase::AwaitAck => match event {
                SendEventView::Received { packet: PacketView::Ack(0), .. } => self.begin_fill(),
                SendEventView::Received { .. } => self.fail(
                    Some(spec_bad_reply_error()),
                    FailureView::UnexpectedReply,
                ),
                SendEventView::Idle { .. } => self.fail(None, FailureView::NoReply),
                SendEventView::Fault { .. } => self.fail(None, FailureView::NoReply),
                _ => self.fail(None, FailureView::OutOfTurn),
            },
            SendPhase::Fill => match event {
                SendEventView::Data(bytes) => if bytes.len() > self.room() {
                    self.fail(None, FailureView::OutOfTurn)
                } else {
                    (SenderView {
                        frames: self.frames + spec_frames_of(
                            bytes,
                            self.common.block_size as int,
                            self.common.window_size - self.frames.len(),
                        ),
                        more: bytes.len() == self.room(),
                        read: self.read + bytes,
                        win_idx: 0,
                        ..self
                    }).transmit()
                },
                _ => self.fail(None, FailureView::OutOfTurn),
            },
            SendPhase::Transmit => match event {
                SendEventView::Sent => {
                    let next = SenderView { win_idx: (self.win_idx + 1) as u16, ..self };
                    if next.win_idx < self.frames.len() {
                        next.transmit()
                    } else {
                        (
                            SenderView {
                                phase: SendPhase::Listen,
                                last_ack: None,
                                nonblocking: false,
                                ..next
                            },
                            SendActionView::Receive { nonblocking: false, restart_timer: true },
                        )
                    }
                },
                _ => self.fail(None, FailureView::OutOfTurn),
            },
            SendPhase::Listen => match event {
                SendEventView::Received { packet: PacketView::Ack(ack), .. } => (
                    SenderView { last_ack: Some(ack), nonblocking: true, ..self },
                    SendActionView::Receive { nonblocking: true, restart_timer: false },
                ),
                SendEventView::Received { packet: PacketView::Error { code, msg }, .. } => self.fail(
                    None,
                    FailureView::Peer { code, msg },
                ),
                SendEventView::Received { expired, .. } => self.pass_over(expired),
                SendEventView::Fault { expired } => self.pass_over(expired),
                SendEventView::Idle { expired } => match self.last_ack {
                    Some(ack) => self.slide(ack, expired),
                    None => self.wait(expired),
                },
                _ => self.fail(None, FailureView::OutOfTurn),
            },
            SendPhase::Done => (self, SendActionView::Finish),
            SendPhase::Failed => (self, SendActionView::Fail { reply: None, reason: FailureView::Stopped }),
        }
    }

    /// The number of frames made from the file so far.
    pub open spec fn total(self) -> int {
        self.acked + self.frames.len()
    }

    /// What holds of a sending transfer at every moment.
    pub open spec fn inv(self) -> bool {
        let bs = self.common.block_size as int;
        &&& self.common.valid()
        &&& self.frames.len() <= self.common.window_size
        &&& self.win_idx <= self.frames.len()
        &&& self.retry_count <= self.local.max_retries
        &&& self.acked >= 0
        &&& spec_base_of(self.local.rollover, self.block_seq_win, self.acked)
        &&& self.phase == SendPhase::AwaitAck ==> self.frames.len() == 0 && self.more
        &&& self.phase == SendPhase::Fill ==> self.frames.len() < self.common.window_size
            && self.more
        &&& self.phase == SendPhase::Transmit ==> self.win_idx < self.frames.len()
        &&& self.phase == SendPhase::Listen ==> self.win_idx == self.frames.len() >= 1
        &&& self.phase == SendPhase::Done ==> self.frames.len() == 0 && !self.more
        &&& self.local.rollover == Rollover::Forbidden && (self.phase == SendPhase::Transmit
            || self.phase == SendPhase::Listen) ==> self.acked + self.win_idx <= 65535
            && (self.phase == SendPhase::Transmit ==> self.acked + self.win_idx + 1 <= 65535)
        &&& forall|i: int|
            0 <= i < self.frames.len() ==> #[trigger] self.frames[i] == spec_chunk(
                self.read,
                bs,
                self.acked + i,
            )
        &&& if self.more {
            self.read.len() == self.total() * bs
        } else {
            self.total() == self.read.len() as int / bs + 1
        }
    }

    /// A sender at its start, and what it asks for first: the peer's
    /// answer to the option acknowledgement where one was sent, else the
    /// first bytes of the file.
    pub open spec fn start(common: OptionsProtocol, local: OptionsPrivate, check_response: bool) -> (
        SenderView,
        SendActionView,
    ) {
        let first = Self::initial(common, local, check_response);
        if check_response {
            (first, SendActionView::Receive { nonblocking: false, restart_timer: false })
        } else {
            first.begin_fill()
        }
    }

    /// A sender at its start.
    pub open spec fn initial(common: OptionsProtocol, local: OptionsPrivate, check_response: bool) -> SenderView {
        SenderView {
            common,
            local,
            frames: Seq::<Seq<u8>>::empty(),
            phase: if check_response {
                SendPhase::AwaitAck
            } else {
                SendPhase::Fill
            },
            block_seq_win: 0,
            win_idx: 0,
            more: true,
            retry_count: 0,
            last_ack: None,
            nonblocking: false,
            acked: 0,
            read: Seq::<u8>::empty(),
        }
    }
}

/// Whether the piece of `data` at `index` begins within `data`.
pub open spec fn spec_starts_within(data: Seq<u8>, chunk: int, index: int) -> bool {
    index * chunk <= data.len()
}

/// Reading more bytes after whole frames keeps the frames already made
/// and adds the frames of the new bytes.
proof fn lemma_chunks_extend(read: Seq<u8>, bytes: Seq<u8>, bs: int, total: int)
    requires
        bs >= 1,
        total >= 0,
        read.len() == total * bs,
    ensures
        forall|k: int| 0 <= k < total ==> #[trigger] spec_chunk(read + bytes, bs, k) == spec_chunk(
            read,
            bs,
            k,
        ),
        forall|j: int|
            0 <= j && j * bs <= bytes.len() ==> #[trigger] spec_chunk(read + bytes, bs, total + j)
                == spec_chunk(bytes, bs, j),
{
    let all = read + bytes;
    assert forall|k: int| 0 <= k < total implies #[trigger] spec_chunk(all, bs, k) == spec_chunk(
        read,
        bs,
        k,
    ) by {
        assert(k * bs + bs <= total * bs) by (nonlinear_arith)
            requires
                0 <= k < total,
                bs >= 1,
        ;
        assert(0 <= k * bs) by (nonlinear_arith)
            requires
                0 <= k,
                bs >= 1,
        ;
        assert(all.subrange(k * bs, k * bs + bs) =~= read.subrange(k * bs, k * bs + bs));
    }
    assert forall|j: int| 0 <= j && j * bs <= bytes.len() implies #[trigger] spec_chunk(
        all,
        bs,
        total + j,
    ) == spec_chunk(bytes, bs, j) by {
        assert((total + j) * bs == total * bs + j * bs) by (nonlinear_arith);
        assert(0 <= j * bs) by (nonlinear_arith)
            requires
                0 <= j,
                bs >= 1,
        ;
        assert(0 <= total * bs) by (nonlinear_arith)
            requires
                0 <= total,
                bs >= 1,
        ;
        let from = j * bs;
        let to = if from + bs <= bytes.len() {
            from + bs
        } else {
            bytes.len() as int
        };
        assert(all.subrange(total * bs + from, total * bs + to) =~= bytes.subrange(from, to));
    }
}

/// How many frames a read adds, and how that fits the free slots.
proof fn lemma_frames_count(bytes: Seq<u8>, bs: int, slots: int)
    requires
        bs >= 1,
        slots >= 1,
        bytes.len() <= slots * bs,
    ensures
        1 <= spec_frames_of(bytes, bs, slots).len() <= slots,
        bytes.len() == slots * bs ==> spec_frames_of(bytes, bs, slots).len() == slots,
        bytes.len() < slots * bs ==> spec_frames_of(bytes, bs, slots).len() == bytes.len() as int
            / bs + 1,
        forall|j: int|
            0 <= j < spec_frames_of(bytes, bs, slots).len() ==> #[trigger] spec_starts_within(
                bytes,
                bs,
                j,
            ),
{
    let n = bytes.len() as int;
    if n < slots * bs {
        assert(n / bs < slots) by (nonlinear_arith)
            requires
                n < slots * bs,
                bs >= 1,
                n >= 0,
        ;
        assert(n / bs >= 0) by (nonlinear_arith)
            requires
                bs >= 1,
                n >= 0,
        ;
    }
    let count = spec_frames_of(bytes, bs, slots).len() as int;
    assert forall|j: int| 0 <= j < count implies #[trigger] spec_starts_within(bytes, bs, j) by {
        if n == slots * bs {
            assert(j * bs <= slots * bs) by (nonlinear_arith)
                requires
                    0 <= j < slots,
                    bs >= 1,
            ;
        } else {
            assert(j * bs <= n) by (nonlinear_arith)
                requires
                    0 <= j <= n / bs,
                    bs >= 1,
                    n >= 0,
            ;
        }
    }
}

impl SenderView {
    /// Every step keeps what holds of a sending transfer. A data packet
    /// that is sent carries the next unsent frame of the file under the
    /// block number of its place among all frames, and the transfer is
    /// complete only when the peer has acknowledged every frame of the
    /// file, the last of which is shorter than a block. The count of
    /// timeouts grows by one with each window that is sent again for want
    /// of an acknowledgement, and never beyond the retries allowed.
    pub proof fn lemma_step(self, event: SendEventView)
        requires
            self.inv(),
        ensures
            self.step(event).0.inv(),
            self.step(event).0.common == self.common,
            self.step(event).0.local == self.local,
            self.step(event).0.acked >= self.acked,
            self.step(event).0.retry_count >= self.retry_count,
            self.step(event).1 matches SendActionView::Send { packet, pause } ==> {
                let after = self.step(event).0;
                &&& after.phase == SendPhase::Transmit
                &&& packet == PacketView::Data {
                    block_num: spec_block_of(
                        self.local.rollover,
                        after.acked + after.win_idx + 1,
                    ),
                    data: spec_chunk(
                        after.read,
                        self.common.block_size as int,
                        after.acked + after.win_idx,
                    ),
                }
            },
            self.step(event).1 is Finish ==> {
                let after = self.step(event).0;
                &&& after.phase == SendPhase::Done
                &&& after.acked == after.read.len() as int / (self.common.block_size as int) + 1
            },
            self.phase == SendPhase::Listen && self.step(event).0.phase == SendPhase::Transmit
                && self.step(event).0.acked == self.acked ==> self.step(event).0.retry_count
                == self.retry_count + 1,
            self.step(event).1 is Read ==> self.step(event).0.phase == SendPhase::Fill,
            self.step(event).1 is Receive ==> self.step(event).0.phase == SendPhase::Listen,
            self.step(event).1 is Fail ==> self.step(event).0.phase == SendPhase::Failed,
    {
        let bs = self.common.block_size as int;
        let policy = self.local.rollover;
        match self.phase {
            SendPhase::AwaitAck => {},
            SendPhase::Fill => {
                if let SendEventView::Data(bytes) = event {
                    if bytes.len() <= self.room() {
                        let slots = self.common.window_size - self.frames.len();
                        let added = spec_frames_of(bytes, bs, slots);
                        lemma_frames_count(bytes, bs, slots);
                        lemma_chunks_extend(self.read, bytes, bs, self.total());
                        let filled = SenderView {
                            frames: self.frames + added,
                            more: bytes.len() == self.room(),
                            read: self.read + bytes,
                            win_idx: 0,
                            ..self
                        };
                        assert forall|i: int| 0 <= i < filled.frames.len() implies #[trigger] filled.frames[i]
                            == spec_chunk(filled.read, bs, filled.acked + i) by {
                            if i < self.frames.len() {
                                assert(filled.frames[i] == self.frames[i]);
                            } else {
                                let j = i - self.frames.len();
                                assert(spec_starts_within(bytes, bs, j));
                                assert(filled.frames[i] == added[j]);
                                assert(filled.acked + i == self.total() + j);
                            }
                        }
                        if filled.more {
                            assert(filled.read.len() == filled.total() * bs) by (nonlinear_arith)
                                requires
                                    filled.read.len() == self.read.len() + bytes.len(),
                                    self.read.len() == self.total() * bs,
                                    bytes.len() == slots * bs,
                                    filled.total() == self.total() + slots,
                            ;
                        } else {
                            let n = bytes.len() as int;
                            let t = self.total();
                            assert((t * bs + n) / bs == t + n / bs) by {
                                vstd::arithmetic::div_mod::lemma_div_multiples_vanish_fancy(
                                    t,
                                    n % bs,
                                    bs,
                                );
                                vstd::arithmetic::div_mod::lemma_fundamental_div_mod(n, bs);
                                vstd::arithmetic::div_mod::lemma_fundamental_div_mod(
                                    t * bs + n,
                                    bs,
                                );
                                vstd::arithmetic::div_mod::lemma_mod_multiples_vanish(t, n, bs);
                                assert(bs * ((t * bs + n) / bs) == bs * (t + n / bs))
                                    by (nonlinear_arith)
                                    requires
                                        t * bs + n == bs * ((t * bs + n) / bs) + (t * bs + n) % bs,
                                        n == bs * (n / bs) + n % bs,
                                        (t * bs + n) % bs == n % bs,
                                ;
                                assert((t * bs + n) / bs == t + n / bs) by (nonlinear_arith)
                                    requires
                                        bs * ((t * bs + n) / bs) == bs * (t + n / bs),
                                        bs >= 1,
                                ;
                            }
                        }
                        lemma_next_block(policy, filled.block_seq_win, filled.acked, 1);
                    }
                }
            },
            SendPhase::Transmit => {
                if let SendEventView::Sent = event {
                    let next = SenderView { win_idx: (self.win_idx + 1) as u16, ..self };
                    if next.win_idx < self.frames.len() {
                        lemma_next_block(
                            policy,
                            next.block_seq_win,
                            next.acked,
                            (next.win_idx + 1) as u16,
                        );
                    }
                }
            },
            SendPhase::Listen => {
                self.lemma_timeout();
                match event {
                    SendEventView::Idle { expired } => {
                        if let Some(ack) = self.last_ack {
                            self.lemma_slide(ack, expired);
                        }
                    },
                    SendEventView::Received { expired, .. } => {
                        if let Some(ack) = self.last_ack {
                            self.lemma_slide(ack, expired);
                        }
                    },
                    SendEventView::Fault { expired } => {
                        if let Some(ack) = self.last_ack {
                            self.lemma_slide(ack, expired);
                        }
                    },
                    _ => {},
                }
            },
            SendPhase::Done => {},
            SendPhase::Failed => {},
        }
    }

    /// A sender starts in a state of which everything holds that holds
    /// at every moment.
    pub proof fn lemma_start(common: OptionsProtocol, local: OptionsPrivate, check_response: bool)
        requires
            common.valid(),
        ensures
            Self::start(common, local, check_response).0.inv(),
            Self::start(common, local, check_response).0.acked == 0,
            Self::start(common, local, check_response).0.retry_count == 0,
    {
        let first = Self::initial(common, local, check_response);
        assert(first.total() * (common.block_size as int) == 0) by (nonlinear_arith)
            requires
                first.total() == 0,
        ;
    }

    /// What `lemma_step` says, of a timeout.
    proof fn lemma_timeout(self)
        requires
            self.inv(),
            self.phase == SendPhase::Listen,
        ensures
            self.timeout().0.inv(),
            self.timeout().0.acked == self.acked,
            self.timeout().0.common == self.common,
            self.timeout().0.local == self.local,
            self.timeout().0.retry_count >= self.retry_count,
            self.timeout().0.phase == SendPhase::Transmit ==> self.timeout().0.retry_count
                == self.retry_count + 1,
            self.timeout().1 matches SendActionView::Send { packet, pause } ==> {
                let after = self.timeout().0;
                &&& after.phase == SendPhase::Transmit
                &&& packet == PacketView::Data {
                    block_num: spec_block_of(
                        self.local.rollover,
                        after.acked + after.win_idx + 1,
                    ),
                    data: spec_chunk(
                        after.read,
                        self.common.block_size as int,
                        after.acked + after.win_idx,
                    ),
                }
            },
            !(self.timeout().1 is Finish),
            !(self.timeout().1 is Read),
            !(self.timeout().1 is Receive),
            self.timeout().1 is Fail ==> self.timeout().0.phase == SendPhase::Failed,
    {
        lemma_next_block(self.local.rollover, self.block_seq_win, self.acked, 1);
    }

    /// What `lemma_step` says, of an acknowledgement that is interpreted.
    proof fn lemma_slide(self, ack: u16, expired: bool)
        requires
            self.inv(),
            self.phase == SendPhase::Listen,
        ensures
            self.slide(ack, expired).0.inv(),
            self.slide(ack, expired).0.acked >= self.acked,
            self.slide(ack, expired).0.common == self.common,
            self.slide(ack, expired).0.local == self.local,
            self.slide(ack, expired).0.retry_count >= self.retry_count,
            self.slide(ack, expired).0.phase == SendPhase::Transmit && self.slide(
                ack,
                expired,
            ).0.acked == self.acked ==> self.slide(ack, expired).0.retry_count == self.retry_count
                + 1,
            self.slide(ack, expired).1 matches SendActionView::Send { packet, pause } ==> {
                let after = self.slide(ack, expired).0;
                &&& after.phase == SendPhase::Transmit
                &&& packet == PacketView::Data {
                    block_num: spec_block_of(
                        self.local.rollover,
                        after.acked + after.win_idx + 1,
                    ),
                    data: spec_chunk(
                        after.read,
                        self.common.block_size as int,
                        after.acked + after.win_idx,
                    ),
                }
            },
            self.slide(ack, expired).1 is Finish ==> {
                let after = self.slide(ack, expired).0;
                &&& after.phase == SendPhase::Done
                &&& after.acked == after.read.len() as int / (self.common.block_size as int) + 1
            },
            self.slide(ack, expired).1 is Read ==> self.slide(ack, expired).0.phase
                == SendPhase::Fill,
            self.slide(ack, expired).1 is Receive ==> self.slide(ack, expired).0.phase
                == SendPhase::Listen,
            self.slide(ack, expired).1 is Fail ==> self.slide(ack, expired).0.phase
                == SendPhase::Failed,
    {
        let policy = self.local.rollover;
        let diff = spec_ack_distance(ack, self.block_seq_win, policy);
        self.lemma_timeout();
        if diff == 0 || diff > self.common.window_size {
        } else if diff > self.frames.len() {
        } else {
            lemma_ack_slides(policy, self.block_seq_win, self.acked, ack);
            let rest = SenderView {
                block_seq_win: ack,
                frames: self.frames.subrange(diff as int, self.frames.len() as int),
                acked: self.acked + diff,
                win_idx: 0,
                last_ack: None,
                ..self
            };
            assert forall|i: int| 0 <= i < rest.frames.len() implies #[trigger] rest.frames[i]
                == spec_chunk(rest.read, self.common.block_size as int, rest.acked + i) by {
                assert(rest.frames[i] == self.frames[i + diff]);
            }
            lemma_next_block(policy, rest.block_seq_win, rest.acked, 1);
        }
    }
}

/// The sending side of one transfer: it is told what happened and says
/// what to do next, while the caller reads the file and drives the socket.
pub struct Sender {
    window: Window,
    common: OptionsProtocol,
    local: OptionsPrivate,
    phase: SendPhase,
    block_seq_win: u16,
    win_idx: u16,
    more: bool,
    retry_count: usize,
    last_ack: Option<u16>,
    nonblocking: bool,
    acked: Ghost<int>,
    read: Ghost<Seq<u8>>,
}

impl View for Sender {
    type V = SenderView;

    closed spec fn view(&self) -> SenderView {
        SenderView {
            common: self.common,
            local: self.local,
            frames: self.window.frames(),
            phase: self.phase,
            block_seq_win: self.block_seq_win,
            win_idx: self.win_idx,
            more: self.more,
            retry_count: self.retry_count,
            last_ack: self.last_ack,
            nonblocking: self.nonblocking,
            acked: self.acked@,
            read: self.read@,
        }
    }
}

impl Sender {
    /// Whether the window is the one the options ask for.
    closed spec fn shape(&self) -> bool {
        &&& self.window.wf()
        &&& self.window.spec_size() == self.common.window_size
        &&& self.window.spec_chunk_size() == self.common.block_size
    }

    /// Whether the sender is in a state that its steps can reach.
    pub closed spec fn wf(&self) -> bool {
        self.shape() && self@.inv()
    }

    /// Of a sender in such a state everything holds that holds of a
    /// sending transfer at every moment.
    pub proof fn lemma_wf(&self)
        requires
            self.wf(),
        ensures
            self@.inv(),
    {
    }

    /// A sender for a transfer with the given options, and what it asks
    /// for first.
    pub fn new(common: OptionsProtocol, local: OptionsPrivate, check_response: bool) -> (r: (
        Sender,
        SendAction,
    ))
        requires
            common.valid(),
        ensures
            r.0.wf(),
            r.0@.inv(),
            (r.0@, r.1@) == SenderView::start(common, local, check_response),
    {
        let mut sender = Sender {
            window: Window::new(common.window_size, common.block_size),
            common,
            local,
            phase: if check_response {
                SendPhase::AwaitAck
            } else {
                SendPhase::Fill
            },
            block_seq_win: 0,
            win_idx: 0,
            more: true,
            retry_count: 0,
            last_ack: None,
            nonblocking: false,
            acked: Ghost(0),
            read: Ghost(Seq::<u8>::empty()),
        };
        assert(sender@ == SenderView::initial(common, local, check_response));
        proof {
            SenderView::lemma_start(common, local, check_response);
        }
        if check_response {
            (sender, SendAction::Receive { nonblocking: false, restart_timer: false })
        } else {
            let action = sender.begin_fill();
            (sender, action)
        }
    }

    /// Where the transfer stands.
    pub fn phase(&self) -> (r: SendPhase)
        ensures
            r == self@.phase,
    {
        self.phase
    }

    /// The number of timeouts so far.
    pub fn retry_count(&self) -> (r: usize)
        ensures
            r == self@.retry_count,
    {
        self.retry_count
    }

    /// The local options of the transfer.
    pub fn local(&self) -> (r: OptionsPrivate)
        ensures
            r == self@.local,
    {
        self.local
    }

    /// The negotiated options of the transfer.
    pub fn common(&self) -> (r: OptionsProtocol)
        ensures
            r == self@.common,
    {
        self.common
    }

    fn fail(&mut self, reply: Option<Packet>, reason: Failure) -> (action: SendAction)
        requires
            old(self).shape(),
        ensures
            final(self).shape(),
            (final(self)@, action@) == old(self)@.fail(spec_reply_view(reply), reason@),
    {
        self.phase = SendPhase::Failed;
        SendAction::Fail { reply, reason }
    }

    fn begin_fill(&mut self) -> (action: SendAction)
        requires
            old(self).shape(),
        ensures
            final(self).shape(),
            (final(self)@, action@) == old(self)@.begin_fill(),
    {
        self.phase = SendPhase::Fill;
        SendAction::Read(self.window.room())
    }

    fn transmit(&mut self) -> (action: SendAction)
        requires
            old(self).shape(),
            old(self)@.win_idx < old(self)@.frames.len(),
        ensures
            final(self).shape(),
            (final(self)@, action@) == old(self)@.transmit(),
    {
        match next_block(self.block_seq_win, self.win_idx + 1, self.local.rollover) {
            None => self.fail(Some(rollover_error()), Failure::Rollover),
            Some(block_num) => {
                let data: Vec<u8> = match self.window.get(self.win_idx) {
                    Some(frame) => slice_to_vec(frame.as_slice()),
                    None => Vec::new(),
                };
                let pause = if self.win_idx + 1 < self.window.len() {
                    self.common.window_wait
                } else {
                    Duration::from_millis(0)
                };
                self.phase = SendPhase::Transmit;
                SendAction::Send { packet: Packet::Data { block_num, data }, pause }
            },
        }
    }

    fn timeout(&mut self) -> (action: SendAction)
        requires
            old(self).shape(),
            old(self)@.frames.len() >= 1,
        ensures
            final(self).shape(),
            (final(self)@, action@) == old(self)@.timeout(),
    {
        if self.retry_count >= self.local.max_retries {
            self.fail(None, Failure::TimedOut { retries: self.local.max_retries })
        } else {
            self.retry_count = self.retry_count + 1;
            self.win_idx = 0;
            self.last_ack = None;
            self.nonblocking = true;
            self.transmit()
        }
    }

    fn wait(&mut self, expired: bool) -> (action: SendAction)
        requires
            old(self).shape(),
            old(self)@.frames.len() >= 1,
        ensures
            final(self).shape(),
            (final(self)@, action@) == old(self)@.wait(expired),
    {
        if expired {
            self.timeout()
        } else {
            self.phase = SendPhase::Listen;
            self.last_ack = None;
            SendAction::Receive { nonblocking: self.nonblocking, restart_timer: false }
        }
    }

    fn pass_over(&mut self, expired: bool) -> (action: SendAction)
        requires
            old(self).shape(),
            old(self)@.frames.len() >= 1,
        ensures
            final(self).shape(),
            (final(self)@, action@) == old(self)@.pass_over(expired),
    {
        if expired {
            match self.last_ack {
                Some(ack) => self.slide(ack, expired),
                None => self.timeout(),
            }
        } else {
            self.phase = SendPhase::Listen;
            SendAction::Receive { nonblocking: self.nonblocking, restart_timer: false }
        }
    }

    fn slide(&mut self, ack: u16, expired: bool) -> (action: SendAction)
        requires
            old(self).shape(),
            old(self)@.frames.len() >= 1,
        ensures
            final(self).shape(),
            (final(self)@, action@) == old(self)@.slide(ack, expired),
    {
        let diff = ack_distance(ack, self.block_seq_win, self.local.rollover);
        if diff == 0 || diff > self.common.window_size {
            self.wait(expired)
        } else {
            match self.window.remove(diff) {
                Err(_) => self.fail(None, Failure::AckBeyondWindow),
                Ok(_) => {
                    self.block_seq_win = ack;
                    self.acked = Ghost(self.acked@ + diff);
                    self.win_idx = 0;
                    self.last_ack = None;
                    if !self.more && self.window.is_empty() {
                        self.phase = SendPhase::Done;
                        SendAction::Finish
                    } else if self.more {
                        self.begin_fill()
                    } else {
                        self.transmit()
                    }
                },
            }
        }
    }

    /// Takes what happened to the action last asked for and says what to
    /// do next, as `SenderView::step` lays down.
    pub fn step(&mut self, event: SendEvent) -> (action: SendAction)
        requires
            old(self).wf(),
        ensures
            final(self).wf(),
            old(self)@.inv(),
            final(self)@.inv(),
            (final(self)@, action@) == old(self)@.step(event@),
    {
        proof {
            self@.lemma_step(event@);
        }
        match self.phase {
            SendPhase::AwaitAck => match event {
                SendEvent::Received { packet, expired } => {
                    let confirmed: bool = match packet {
                        Packet::Ack(block_num) => block_num == 0,
                        _ => false,
                    };
                    if confirmed {
                        self.begin_fill()
                    } else {
                        self.fail(Some(bad_reply_error()), Failure::UnexpectedReply)
                    }
                },
                SendEvent::Idle { expired } => self.fail(None, Failure::NoReply),
                SendEvent::Fault { expired } => self.fail(None, Failure::NoReply),
                _ => self.fail(None, Failure::OutOfTurn),
            },
            SendPhase::Fill => match event {
                SendEvent::Data(bytes) => {
                    let ghost before = self.read@;
                    match self.window.fill(bytes.as_slice()) {
                        Err(_) => self.fail(None, Failure::OutOfTurn),
                        Ok(more) => {
                            self.more = more;
                            self.read = Ghost(before + bytes@);
                            self.win_idx = 0;
                            proof {
                                crate::sender::lemma_frames_count(
                                    bytes@,
                                    self.common.block_size as int,
                                    self.common.window_size - old(self)@.frames.len(),
                                );
                            }
                            self.transmit()
                        },
                    }
                },
                _ => self.fail(None, Failure::OutOfTurn),
            },
            SendPhase::Transmit => match event {
                SendEvent::Sent => {
                    self.win_idx = self.win_idx + 1;
                    if self.win_idx < self.window.len() {
                        self.transmit()
                    } else {
                        self.phase = SendPhase::Listen;
                        self.last_ack = None;
                        self.nonblocking = false;
                        SendAction::Receive { nonblocking: false, restart_timer: true }
                    }
                },
                _ => self.fail(None, Failure::OutOfTurn),
            },
            SendPhase::Listen => match event {
                SendEvent::Received { packet, expired } => match packet {
                    Packet::Ack(ack) => {
                        self.last_ack = Some(ack);
                        self.nonblocking = true;
                        SendAction::Receive { nonblocking: true, restart_timer: false }
                    },
                    Packet::Error { code, msg } => self.fail(None, Failure::Peer { code, msg }),
                    _ => self.pass_over(expired),
                },
                SendEvent::Fault { expired } => self.pass_over(expired),
                SendEvent::Idle { expired } => match self.last_ack {
                    Some(ack) => self.slide(ack, expired),
                    None => self.wait(expired),
                },
                _ => self.fail(None, Failure::OutOfTurn),
            },
            SendPhase::Done => SendAction::Finish,
            SendPhase::Failed => SendAction::Fail { reply: None, reason: Failure::Stopped },
        }
    }
}

} // verus!
