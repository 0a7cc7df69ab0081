use crate::numbering::judge;
use crate::numbering::spec_judge;
use crate::numbering::Expect;
use crate::options::OptionsPrivate;
use crate::options::OptionsProtocol;
use crate::packet::Packet;
use crate::packet::PacketView;
use crate::transfer::rollover_error;
use crate::transfer::spec_reply_view;
use crate::transfer::spec_rollover_error;
use crate::transfer::Failure;
use crate::transfer::FailureView;
use crate::window::spec_join;
use crate::window::Window;
use vstd::prelude::*;

verus! {

/// Where a receiving transfer stands: what it last asked for.
#[derive(Clone, Copy, Debug, PartialEq, Eq, Structural)]
pub enum ReceivePhase {
    /// Waiting for a packet from the socket.
    Receive,
    /// Waiting for the buffered frames to be written and acknowledged.
    Commit,
    /// The whole file was received and acknowledged.
    Done,
    /// The transfer failed.
    Failed,
}

/// What happened to the action that the receiver last asked for.
#[derive(Debug, PartialEq)]
pub enum ReceiveEvent {
    /// A packet arrived.
    Received(Packet),
    /// The socket had nothing to read within its time.
    Idle,
    /// Reading from the socket failed in another way.
    Fault {
        /// Whether the failure was a reset of the connection
        reset: bool,
    },
    /// The bytes were written to the file and the acknowledgement was
    /// sent.
    Committed,
}

/// What an event holds, as mathematical values.
pub enum ReceiveEventView {
    Received(PacketView),
    Idle,
    Fault { reset: bool },
    Committed,
}

impl View for ReceiveEvent {
    type V = ReceiveEventView;

    open spec fn view(&self) -> ReceiveEventView {
        match self {
            ReceiveEvent::Received(packet) => ReceiveEventView::Received(packet@),
            ReceiveEvent::Idle => ReceiveEventView::Idle,
            ReceiveEvent::Fault { reset } => ReceiveEventView::Fault { reset: *reset },
            ReceiveEvent::Committed => ReceiveEventView::Committed,
        }
    }
}

/// What the receiver asks for next.
#[derive(Debug, PartialEq)]
pub enum ReceiveAction {
    /// Read a packet of up to `block_size` payload bytes from the socket and
    /// answer with what came of it.
    Receive {
        /// Whether the read returns at once when nothing is there
        nonblocking: bool,
        /// The largest payload to make room for
        block_size: u16,
    },
    /// Append the bytes to the file, send the acknowledgement, and answer
    /// with `ReceiveEvent::Committed`.
    Commit {
        /// The bytes to append to the file
        data: Vec<u8>,
        /// The acknowledgement to send
        ack: Packet,
    },
    /// The transfer is complete.
    Finish {
        /// The number of bytes written to the file
        size: u64,
    },
    /// The transfer failed; send the reply, if there is one, and stop.
    Fail {
        /// An error packet for the peer
        reply: Option<Packet>,
        /// Why the transfer failed
        reason: Failure,
    },
}

/// What an action holds, as mathematical values.
pub enum ReceiveActionView {
    Receive { nonblocking: bool, block_size: u16 },
    Commit { data: Seq<u8>, ack: PacketView },
    Finish { size: u64 },
    Fail { reply: Option<PacketView>, reason: FailureView },
}

impl View for ReceiveAction {
    type V = ReceiveActionView;

    open spec fn view(&self) -> ReceiveActionView {
        match self {
            ReceiveAction::Receive { nonblocking, block_size } => ReceiveActionView::Receive {
                nonblocking: *nonblocking,
                block_size: *block_size,
            },
            ReceiveAction::Commit { data, ack } => ReceiveActionView::Commit {
                data: data@,
                ack: ack@,
            },
            ReceiveAction::Finish { size } => ReceiveActionView::Finish { size: *size },
            ReceiveAction::Fail { reply, reason } => ReceiveActionView::Fail {
                reply: spec_reply_view(*reply),
                reason: reason@,
            },
        }
    }
}

/// The sum of two byte counts, held at the largest 64-bit number.
pub open spec fn spec_add_saturating(count: u64, more: nat) -> u64 {
    if count + more > u64::MAX {
        u64::MAX
    } else {
        (count + more) as u64
    }
}

/// The state of a receiving transfer, as mathematical values.
pub struct ReceiverView {
    /// Negotiated options
    pub common: OptionsProtocol,
    /// Local options
    pub local: OptionsPrivate,
    /// The frames accepted and not yet written, oldest first
    pub frames: Seq<Seq<u8>>,
    /// What the receiver last asked for
    pub phase: ReceivePhase,
    /// Number of the last block accepted
    pub block_number: u16,
    /// Number of timeouts so far
    pub retry_count: usize,
    /// Whether the last block of the file was accepted
    pub last: bool,
    /// Whether a quiet socket means the end of a burst rather than a
    /// timeout
    pub listen_all: bool,
    /// Whether the socket is read without blocking
    pub nonblocking: bool,
    /// Number of bytes handed over to be written
    pub written: u64,
    /// How many blocks were accepted since the start
    pub accepted: int,
    /// The payloads of the accepted blocks, in order
    pub delivered: Seq<u8>,
    /// The bytes handed over to be written, in order
    pub committed: Seq<u8>,
    /// The number of the acknowledgement last handed over to be sent
    pub acknowledged: Option<u16>,
}

impl ReceiverView {
    /// The transfer fails.
    pub open spec fn fail(self, reply: Option<PacketView>, reason: FailureView) -> (
        ReceiverView,
        ReceiveActionView,
    ) {
        (
            ReceiverView { phase: ReceivePhase::Failed, ..self },
            ReceiveActionView::Fail { reply, reason },
        )
    }

    /// Reads the next packet.
    pub open spec fn listen(self) -> (ReceiverView, ReceiveActionView) {
        (
            ReceiverView { phase: ReceivePhase::Receive, ..self },
            ReceiveActionView::Receive {
                nonblocking: self.nonblocking,
                block_size: self.common.block_size,
            },
        )
    }

    /// Hands the buffered frames over to be written, and acknowledges the
    /// last block accepted.
    pub open spec fn commit(self) -> (ReceiverView, ReceiveActionView) {
        let data = spec_join(self.frames);
        (
            ReceiverView {
                phase: ReceivePhase::Commit,
                frames: Seq::<Seq<u8>>::empty(),
                written: spec_add_saturating(self.written, data.len()),
                committed: self.committed + data,
                acknowledged: Some(self.block_number),
                ..self
            },
            ReceiveActionView::Commit { data, ack: PacketView::Ack(self.block_number) },
        )
    }

    /// The end of the transfer: a failure where the file is not as long
    /// as the transfer size that was announced.
    pub open spec fn finish(self) -> (ReceiverView, ReceiveActionView) {
        match self.common.transfer_size {
            Some(negotiated) if negotiated != self.written => self.fail(
                None,
                FailureView::SizeMismatch { negotiated, transferred: self.written },
            ),
            _ => (
                ReceiverView { phase: ReceivePhase::Done, ..self },
                ReceiveActionView::Finish { size: self.written },
            ),
        }
    }

    /// A data block arrived.
    pub open spec fn data(self, block_num: u16, payload: Seq<u8>) -> (
        ReceiverView,
        ReceiveActionView,
    ) {
        if payload.len() > self.common.block_size {
            self.listen()
        } else {
            match spec_judge(self.block_number, block_num, self.local.rollover) {
                Expect::Rollover => self.fail(Some(spec_rollover_error()), FailureView::Rollover),
                Expect::Accept => {
                    let taken = ReceiverView {
                        block_number: block_num,
                        last: payload.len() < self.common.block_size,
                        frames: self.frames.push(payload),
                        accepted: self.accepted + 1,
                        delivered: self.delivered + payload,
                        nonblocking: true,
                        listen_all: true,
                        ..self
                    };
                    if taken.frames.len() == self.common.window_size || taken.last {
                        taken.commit()
                    } else {
                        taken.listen()
                    }
                },
                Expect::Mismatch => (ReceiverView {
                    nonblocking: true,
                    listen_all: true,
                    ..self
                }).commit(),
            }
        }
    }

    /// The socket had nothing to read: the end of a burst the first time
    /// after data, else a timeout, which acknowledges the last block
    /// again unless the retries are used up.
    pub open spec fn idle(self) -> (ReceiverView, ReceiveActionView) {
        if self.listen_all {
            (ReceiverView { nonblocking: false, listen_all: false, ..self }).listen()
        } else if self.retry_count >= self.local.max_retries {
            self.fail(None, FailureView::TimedOut { retries: self.local.max_retries })
        } else {
            (ReceiverView { retry_count: (self.retry_count + 1) as usize, ..self }).commit()
        }
    }

    /// The state and the action that follow `event`.
    pub open spec fn step(self, event: ReceiveEventView) -> (ReceiverView, ReceiveActionView) {
        match self.phase {
            ReceivePhase::Receive => match event {
                ReceiveEventView::Received(PacketView::Data { block_num, data }) => self.data(
                    block_num,
                    data,
                ),
                ReceiveEventView::Received(PacketView::Error { code, msg }) => self.fail(
                    None,
                    FailureView::Peer { code, msg },
                ),
                ReceiveEventView::Received(_) => self.listen(),
                ReceiveEventView::Idle => self.idle(),
                ReceiveEventView::Fault { reset } => if reset {
                    (ReceiverView { nonblocking: false, ..self }).listen()
                } else {
                    self.listen()
                },
                ReceiveEventView::Committed => self.fail(None, FailureView::OutOfTurn),
            },
            ReceivePhase::Commit => match event {
                ReceiveEventView::Committed => if self.last {
                    self.finish()
                } else {
                    self.listen()
                },
                _ => self.fail(None, FailureView::OutOfTurn),
            },
            ReceivePhase::Done => (self, ReceiveActionView::Finish { size: self.written }),
            ReceivePhase::Failed => (
                self,
                ReceiveActionView::Fail { reply: None, reason: FailureView::Stopped },
            ),
        }
    }

    /// A receiver at its start, and what it asks for first.
    pub open spec fn start(common: OptionsProtocol, local: OptionsPrivate) -> (
        ReceiverView,
        ReceiveActionView,
    ) {
        (ReceiverView {
            common,
            local,
            frames: Seq::<Seq<u8>>::empty(),
            phase: ReceivePhase::Receive,
            block_number: 0,
            retry_count: 0,
            last: false,
            listen_all: false,
            nonblocking: false,
            written: 0,
            accepted: 0,
            delivered: Seq::<u8>::empty(),
            committed: Seq::<u8>::empty(),
            acknowledged: None,
        }).listen()
    }

    /// What holds of a receiving transfer at every moment.
    pub open spec fn inv(self) -> bool {
        let bs = self.common.block_size as int;
        &&& self.common.valid()
        &&& self.frames.len() <= self.common.window_size
        &&& self.retry_count <= self.local.max_retries
        &&& self.accepted >= 0
        &&& self.phase == ReceivePhase::Receive ==> self.frames.len() < self.common.window_size
            && !self.last
        &&& self.phase == ReceivePhase::Commit || self.phase == ReceivePhase::Done
            ==> self.frames.len() == 0 && self.acknowledged == Some(self.block_number)
        &&& self.phase == ReceivePhase::Done ==> self.last && (self.common.transfer_size matches Some(
            size,
        ) ==> size == self.written)
        &&& self.delivered == self.committed + spec_join(self.frames)
        &&& self.written == spec_add_saturating(0, self.committed.len())
        &&& if self.last {
            (self.accepted - 1) * bs <= self.delivered.len() < self.accepted * bs
        } else {
            self.delivered.len() == self.accepted * bs
        }
    }

    /// A receiver starts in a state of which everything holds that holds
    /// at every moment.
    pub proof fn lemma_start(common: OptionsProtocol, local: OptionsPrivate)
        requires
            common.valid(),
        ensures
            Self::start(common, local).0.inv(),
    {
        let first = Self::start(common, local).0;
        assert(first.delivered =~= first.committed + spec_join(first.frames));
        assert(first.accepted * (common.block_size as int) == 0) by (nonlinear_arith)
            requires
                first.accepted == 0,
        ;
    }

    /// Every step keeps what holds of a receiving transfer. What is
    /// handed over to be written is the payloads of the accepted blocks
    /// in order, each a full block but the last; every acknowledgement
    /// carries the number of the last block accepted; and the transfer is
    /// complete only after a short block, with every accepted byte
    /// written and, where a transfer size was announced, that many bytes.
    /// The count of timeouts never exceeds the retries allowed.
    pub proof fn lemma_step(self, event: ReceiveEventView)
        requires
            self.inv(),
        ensures
            self.step(event).0.inv(),
            self.step(event).0.common == self.common,
            self.step(event).0.local == self.local,
            self.step(event).0.retry_count >= self.retry_count,
            self.step(event).1 matches ReceiveActionView::Commit { data, ack } ==> {
                let after = self.step(event).0;
                &&& after.phase == ReceivePhase::Commit
                &&& after.committed == self.committed + data
                &&& after.committed == after.delivered
                &&& ack == PacketView::Ack(after.block_number)
            },
            self.step(event).1 matches ReceiveActionView::Finish { size } ==> {
                let after = self.step(event).0;
                &&& after.phase == ReceivePhase::Done
                &&& after.last
                &&& after.committed == after.delivered
                &&& after.acknowledged == Some(after.block_number)
                &&& size == after.written
                &&& after.common.transfer_size matches Some(announced) ==> announced == size
            },
            self.step(event).1 is Receive ==> self.step(event).0.phase == ReceivePhase::Receive,
            self.step(event).1 is Fail ==> self.step(event).0.phase == ReceivePhase::Failed,
    {
        let bs = self.common.block_size as int;
        match self.phase {
            ReceivePhase::Receive => match event {
                ReceiveEventView::Received(PacketView::Data { block_num, data }) => {
                    if data.len() <= self.common.block_size {
                        let taken = ReceiverView {
                            block_number: block_num,
                            last: data.len() < self.common.block_size,
                            frames: self.frames.push(data),
                            accepted: self.accepted + 1,
                            delivered: self.delivered + data,
                            nonblocking: true,
                            listen_all: true,
                            ..self
                        };
                        assert(taken.frames.drop_last() =~= self.frames);
                        assert(taken.delivered =~= taken.committed + spec_join(taken.frames));
                        assert((self.accepted + 1) * bs == self.accepted * bs + bs)
                            by (nonlinear_arith);
                        taken.lemma_commit();
                    }
                    self.lemma_commit();
                    (ReceiverView { nonblocking: true, listen_all: true, ..self }).lemma_commit();
                },
                ReceiveEventView::Idle => {
                    (ReceiverView {
                        retry_count: (self.retry_count + 1) as usize,
                        ..self
                    }).lemma_commit();
                },
                _ => {},
            },
            ReceivePhase::Commit => {},
            ReceivePhase::Done => {},
            ReceivePhase::Failed => {},
        }
    }

    /// Handing the buffered frames over leaves every accepted byte
    /// committed.
    proof fn lemma_commit(self)
        requires
            self.delivered == self.committed + spec_join(self.frames),
            self.written == spec_add_saturating(0, self.committed.len()),
        ensures
            self.commit().0.delivered == self.commit().0.committed + spec_join(
                self.commit().0.frames,
            ),
            self.commit().0.committed == self.commit().0.delivered,
            self.commit().0.written == spec_add_saturating(0, self.commit().0.committed.len()),
    {
        let after = self.commit().0;
        assert(after.delivered =~= after.committed + spec_join(after.frames));
        assert(after.committed =~= after.delivered);
    }
}

/// The receiving side of one transfer: it is told what happened and says
/// what to do next, while the caller writes the file and drives the
/// socket.
pub struct Receiver {
    window: Window,
    common: OptionsProtocol,
    local: OptionsPrivate,
    phase: ReceivePhase,
    block_number: u16,
    retry_count: usize,
    last: bool,
    listen_all: bool,
    nonblocking: bool,
    written: u64,
    accepted: Ghost<int>,
    delivered: Ghost<Seq<u8>>,
    committed: Ghost<Seq<u8>>,
    acknowledged: Ghost<Option<u16>>,
}

impl View for Receiver {
    type V = ReceiverView;

    closed spec fn view(&self) -> ReceiverView {
        ReceiverView {
            common: self.common,
            local: self.local,
            frames: self.window.frames(),
            phase: self.phase,
            block_number: self.block_number,
            retry_count: self.retry_count,
            last: self.last,
            listen_all: self.listen_all,
            nonblocking: self.nonblocking,
            written: self.written,
            accepted: self.accepted@,
            delivered: self.delivered@,
            committed: self.committed@,
            acknowledged: self.acknowledged@,
        }
    }
}

impl Receiver {
    /// Whether the window is the one the options ask for.
    closed spec fn shape(&self) -> bool {
        &&& self.window.wf()
        &&& self.window.spec_size() == self.common.window_size
        &&& self.window.spec_chunk_size() == self.common.block_size
    }

    /// Whether the receiver is in a state that its steps can reach.
    pub closed spec fn wf(&self) -> bool {
        self.shape() && self@.inv()
    }

    /// Of a receiver in such a state everything holds that holds of a
    /// receiving transfer at every moment.
    pub proof fn lemma_wf(&self)
        requires
            self.wf(),
        ensures
            self@.inv(),
    {
    }

    /// A receiver for a transfer with the given options, and what it asks
    /// for first.
    pub fn new(common: OptionsProtocol, local: OptionsPrivate) -> (r: (Receiver, ReceiveAction))
        requires
            common.valid(),
        ensures
            r.0.wf(),
            r.0@.inv(),
            (r.0@, r.1@) == ReceiverView::start(common, local),
    {
        let mut receiver = Receiver {
            window: Window::new(common.window_size, common.block_size),
            common,
            local,
            phase: ReceivePhase::Receive,
            block_number: 0,
            retry_count: 0,
            last: false,
            listen_all: false,
            nonblocking: false,
            written: 0,
            accepted: Ghost(0),
            delivered: Ghost(Seq::<u8>::empty()),
            committed: Ghost(Seq::<u8>::empty()),
            acknowledged: Ghost(None),
        };
        proof {
            ReceiverView::lemma_start(common, local);
        }
        let action = receiver.listen();
        (receiver, action)
    }

    /// Where the transfer stands.
    pub fn phase(&self) -> (r: ReceivePhase)
        ensures
            r == self@.phase,
    {
        self.phase
    }

    /// The number of timeouts so far.
    pub fn retry_count(&self) -> (r: usize)
        ensures
            r == self@.retry_count,
    {
        self.retry_count
    }

    /// The number of the last block accepted.
    pub fn block_number(&self) -> (r: u16)
        ensures
            r == self@.block_number,
    {
        self.block_number
    }

    /// The local options of the transfer.
    pub fn local(&self) -> (r: OptionsPrivate)
        ensures
            r == self@.local,
    {
        self.local
    }

    /// The negotiated options of the transfer.
    pub fn common(&self) -> (r: OptionsProtocol)
        ensures
            r == self@.common,
    {
        self.common
    }

    fn fail(&mut self, reply: Option<Packet>, reason: Failure) -> (action: ReceiveAction)
        requires
            old(self).shape(),
        ensures
            final(self).shape(),
            (final(self)@, action@) == old(self)@.fail(spec_reply_view(reply), reason@),
    {
        self.phase = ReceivePhase::Failed;
        ReceiveAction::Fail { reply, reason }
    }

    fn listen(&mut self) -> (action: ReceiveAction)
        requires
            old(self).shape(),
        ensures
            final(self).shape(),
            (final(self)@, action@) == old(self)@.listen(),
    {
        self.phase = ReceivePhase::Receive;
        ReceiveAction::Receive { nonblocking: self.nonblocking, block_size: self.common.block_size }
    }

    fn commit(&mut self) -> (action: ReceiveAction)
        requires
            old(self).shape(),
        ensures
            final(self).shape(),
            (final(self)@, action@) == old(self)@.commit(),
    {
        let data = self.window.empty();
        self.phase = ReceivePhase::Commit;
        self.written = match self.written.checked_add(data.len() as u64) {
            Some(sum) => sum,
            None => u64::MAX,
        };
        self.committed = Ghost(self.committed@ + data@);
        self.acknowledged = Ghost(Some(self.block_number));
        ReceiveAction::Commit { data, ack: Packet::Ack(self.block_number) }
    }

    fn finish(&mut self) -> (action: ReceiveAction)
        requires
            old(self).shape(),
        ensures
            final(self).shape(),
            (final(self)@, action@) == old(self)@.finish(),
    {
        match self.common.transfer_size {
            Some(negotiated) => {
                if negotiated != self.written {
                    return self.fail(
                        None,
                        Failure::SizeMismatch { negotiated, transferred: self.written },
                    );
                }
            },
            None => {},
        }
        self.phase = ReceivePhase::Done;
        ReceiveAction::Finish { size: self.written }
    }

    fn data(&mut self, block_num: u16, payload: Vec<u8>) -> (action: ReceiveAction)
        requires
            old(self).shape(),
            old(self)@.frames.len() < old(self)@.common.window_size,
        ensures
            final(self).shape(),
            (final(self)@, action@) == old(self)@.data(block_num, payload@),
    {
        if payload.len() > self.common.block_size as usize {
            return self.listen();
        }
        match judge(self.block_number, block_num, self.local.rollover) {
            Expect::Rollover => self.fail(Some(rollover_error()), Failure::Rollover),
            Expect::Accept => {
                self.block_number = block_num;
                self.last = payload.len() < self.common.block_size as usize;
                self.accepted = Ghost(self.accepted@ + 1);
                self.delivered = Ghost(self.delivered@ + payload@);
                self.nonblocking = true;
                self.listen_all = true;
                let added = self.window.add(payload);
                if self.window.is_full() || self.last {
                    self.commit()
                } else {
                    self.listen()
                }
            },
            Expect::Mismatch => {
                self.nonblocking = true;
                self.listen_all = true;
                self.commit()
            },
        }
    }

    fn idle(&mut self) -> (action: ReceiveAction)
        requires
            old(self).shape(),
        ensures
            final(self).shape(),
            (final(self)@, action@) == old(self)@.idle(),
    {
        if self.listen_all {
            self.nonblocking = false;
            self.listen_all = false;
            self.listen()
        } else if self.retry_count >= self.local.max_retries {
            self.fail(None, Failure::TimedOut { retries: self.local.max_retries })
        } else {
            self.retry_count = self.retry_count + 1;
            self.commit()
        }
    }

    /// Takes what happened to the action last asked for and says what to
    /// do next, as `ReceiverView::step` lays down.
    pub fn step(&mut self, event: ReceiveEvent) -> (action: ReceiveAction)
        requires
            old(self).wf(),
        ensures
            final(self).wf(),
            old(self)@.inv(),
            final(self)@.inv(),
            (final(self)@, action@) == old(self)@.step(event@),
    {
        proof {
            self@.lemma_step(event@);
        }
        match self.phase {
            ReceivePhase::Receive => match event {
                ReceiveEvent::Received(packet) => match packet {
                    Packet::Data { block_num, data } => self.data(block_num, data),
                    Packet::Error { code, msg } => self.fail(None, Failure::Peer { code, msg }),
                    _ => self.listen(),
                },
                ReceiveEvent::Idle => self.idle(),
                ReceiveEvent::Fault { reset } => {
                    if reset {
                        self.nonblocking = false;
                    }
                    self.listen()
                },
                ReceiveEvent::Committed => self.fail(None, Failure::OutOfTurn),
            },
            ReceivePhase::Commit => match event {
                ReceiveEvent::Committed => if self.last {
                    self.finish()
                } else {
                    self.listen()
                },
                _ => self.fail(None, Failure::OutOfTurn),
            },
            ReceivePhase::Done => ReceiveAction::Finish { size: self.written },
            ReceivePhase::Failed => ReceiveAction::Fail { reply: None, reason: Failure::Stopped },
        }
    }
}

} // verus!
