use crate::delivery::lemma_delivered_whole;
use crate::delivery::spec_file_frames;
use crate::delivery::spec_first_frames;
use crate::numbering::lemma_receiver_follows_sender;
use crate::numbering::spec_block_of;
use crate::numbering::spec_judge;
use crate::numbering::Expect;
use crate::options::Rollover;
use crate::packet::PacketView;
use crate::receiver::ReceiveActionView;
use crate::receiver::ReceiveEventView;
use crate::receiver::ReceivePhase;
use crate::receiver::ReceiverView;
use crate::sender::SendActionView;
use crate::sender::SendEventView;
use crate::sender::SenderView;
use crate::window::spec_chunk;
use crate::window::spec_join;
use vstd::prelude::*;

verus! {

/// Whether a receiver stands where a sender's frames have brought it: it
/// has accepted the first frames of the bytes `read` that the sender has
/// read from its file, in order and nothing else, and the number of the
/// last block it accepted is the number under which the sender sent it.
pub open spec fn spec_in_step(receiver: ReceiverView, policy: Rollover, read: Seq<u8>) -> bool {
    &&& receiver.local.rollover == policy
    &&& receiver.block_number == spec_block_of(policy, receiver.accepted)
    &&& receiver.delivered == spec_join(
        spec_first_frames(read, receiver.common.block_size as int, receiver.accepted),
    )
}

/// A piece of a file is no longer than the pieces are cut.
proof fn lemma_chunk_len(data: Seq<u8>, chunk: int, index: int)
    requires
        chunk >= 1,
    ensures
        spec_chunk(data, chunk, index).len() <= chunk,
{
}

/// The first frames of a file with one more are the first frames and
/// then the next.
proof fn lemma_first_frames_push(data: Seq<u8>, chunk: int, count: int)
    requires
        count >= 0,
    ensures
        spec_join(spec_first_frames(data, chunk, count + 1)) == spec_join(
            spec_first_frames(data, chunk, count),
        ) + spec_chunk(data, chunk, count),
{
    let more = spec_first_frames(data, chunk, count + 1);
    assert(more.drop_last() =~= spec_first_frames(data, chunk, count));
    assert(more.last() == spec_chunk(data, chunk, count));
}

/// A frame that reaches the receiver in its turn is accepted. When a
/// sender sends a data packet, and a receiver with the same options and
/// the same roll-over policy has accepted just the frames before the one
/// in the packet, then the receiver accepts the packet: it has then
/// accepted the frames up to this one, the number of the last block it
/// accepted, which is the number it acknowledges, is the number of the
/// packet, and the bytes it was handed are still the first frames of
/// what the sender read.
pub proof fn lemma_handover(sender: SenderView, event: SendEventView, receiver: ReceiverView)
    requires
        sender.inv(),
        receiver.inv(),
        receiver.common == sender.common,
        receiver.phase == ReceivePhase::Receive,
        sender.step(event).1 is Send,
        receiver.accepted == sender.step(event).0.acked + sender.step(event).0.win_idx,
        spec_in_step(receiver, sender.local.rollover, sender.step(event).0.read),
    ensures
        sender.step(event).1 matches SendActionView::Send { packet, pause } ==> {
            let read = sender.step(event).0.read;
            let taken = receiver.step(ReceiveEventView::Received(packet));
            &&& packet matches PacketView::Data { block_num, data } && block_num
                == taken.0.block_number
            &&& taken.0.inv()
            &&& taken.0.accepted == receiver.accepted + 1
            &&& spec_in_step(taken.0, sender.local.rollover, read)
            &&& taken.1 matches ReceiveActionView::Commit { data, ack } ==> ack == PacketView::Ack(
                taken.0.block_number,
            )
            &&& !(taken.1 is Fail)
        },
{
    let policy = sender.local.rollover;
    let bs = sender.common.block_size as int;
    let after = sender.step(event).0;
    let count = receiver.accepted;
    sender.lemma_step(event);
    lemma_receiver_follows_sender(policy, count);
    lemma_chunk_len(after.read, bs, count);
    lemma_first_frames_push(after.read, bs, count);
    if let SendActionView::Send { packet, pause } = sender.step(event).1 {
        receiver.lemma_step(ReceiveEventView::Received(packet));
    }
}

/// A frame that reaches the receiver out of its turn is not taken. A data
/// packet that carries another frame than the next one, under the number
/// that a sender with the receiver's roll-over policy gives it, leaves
/// what the receiver has accepted as it was, as long as the frame is
/// less than 65535 frames away from the next one. The policy that accepts
/// either number after 65535 is left out where the receiver stands at
/// 65535: there it takes the frame after the next for the next.
pub proof fn lemma_out_of_turn(receiver: ReceiverView, index: int, payload: Seq<u8>)
    requires
        receiver.inv(),
        receiver.block_number == spec_block_of(receiver.local.rollover, receiver.accepted),
        index >= 0,
        index != receiver.accepted,
        -65535 < index - receiver.accepted < 65535,
        receiver.local.rollover == Rollover::DontCare ==> receiver.block_number != 65535,
    ensures
        ({
            let packet = PacketView::Data {
                block_num: spec_block_of(receiver.local.rollover, index + 1),
                data: payload,
            };
            let after = receiver.step(ReceiveEventView::Received(packet)).0;
            &&& after.accepted == receiver.accepted
            &&& after.delivered == receiver.delivered
            &&& after.block_number == receiver.block_number
        }),
{
    let policy = receiver.local.rollover;
    let count = receiver.accepted;
    let number = spec_block_of(policy, index + 1);
    if policy != Rollover::Forbidden || count < 65535 {
        lemma_receiver_follows_sender(policy, count);
    }
    match policy {
        Rollover::Enforce1 => {
            assert(index % 65535 != count % 65535) by {
                lemma_apart(index, count, 65535);
            }
        },
        Rollover::Forbidden => {},
        _ => {
            assert((index + 1) % 65536 != (count + 1) % 65536) by {
                lemma_apart(index + 1, count + 1, 65536);
            }
        },
    }
    assert(spec_judge(receiver.block_number, number, policy) != Expect::Accept);
}

/// Two numbers less than `m` apart, and not the same, leave different
/// remainders on division by `m`.
proof fn lemma_apart(a: int, b: int, m: int)
    requires
        m >= 1,
        a != b,
        -m < a - b < m,
    ensures
        a % m != b % m,
{
    if a % m == b % m {
        vstd::arithmetic::div_mod::lemma_fundamental_div_mod(a, m);
        vstd::arithmetic::div_mod::lemma_fundamental_div_mod(b, m);
        let q = a / m - b / m;
        assert(a - b == m * q) by (nonlinear_arith)
            requires
                a == m * (a / m) + a % m,
                b == m * (b / m) + b % m,
                a % m == b % m,
                q == a / m - b / m,
        ;
        assert(q == 0) by (nonlinear_arith)
            requires
                -m < m * q < m,
                m >= 1,
        ;
    }
}

/// A transfer that ran in step delivers the file. When the sender is done
/// and the receiver, which stands where the sender's frames have brought
/// it, is done too, then the bytes that the receiver handed over to be
/// written are the bytes that the sender read from its file, the receiver
/// has accepted every frame of the file, and the last block that it
/// acknowledged carries the number of the sender's last data block.
pub proof fn lemma_delivery(sender: SenderView, receiver: ReceiverView)
    requires
        sender.inv(),
        receiver.inv(),
        receiver.common == sender.common,
        receiver.phase == ReceivePhase::Done,
        spec_in_step(receiver, sender.local.rollover, sender.read),
    ensures
        receiver.committed == sender.read,
        receiver.delivered == sender.read,
        receiver.accepted == spec_file_frames(sender.read, sender.common.block_size as int).len(),
        receiver.acknowledged == Some(
            spec_block_of(
                sender.local.rollover,
                spec_file_frames(sender.read, sender.common.block_size as int).len() as int,
            ),
        ),
        receiver.written == sender.read.len() || receiver.written == u64::MAX,
{
    let bs = sender.common.block_size as int;
    assert(receiver.accepted >= 1) by (nonlinear_arith)
        requires
            receiver.delivered.len() < receiver.accepted * bs,
            bs >= 1,
            receiver.accepted >= 0,
    ;
    lemma_delivered_whole(sender.read, bs, receiver.accepted, receiver.delivered);
    assert(spec_join(receiver.frames) =~= Seq::<u8>::empty());
    assert(receiver.delivered =~= receiver.committed);
}

} // verus!
