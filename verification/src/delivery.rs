use crate::window::spec_chunk;
use crate::window::spec_join;
use vstd::prelude::*;

verus! {

/// The first `count` frames in which the bytes `data` travel with blocks
/// of `chunk` bytes.
pub open spec fn spec_first_frames(data: Seq<u8>, chunk: int, count: int) -> Seq<Seq<u8>> {
    Seq::new(count as nat, |i: int| spec_chunk(data, chunk, i))
}

/// The frames in which a whole file of bytes `data` travels with blocks of
/// `chunk` bytes: its full blocks in order, then one shorter block, which
/// is empty when the file ends on a block boundary.
pub open spec fn spec_file_frames(data: Seq<u8>, chunk: int) -> Seq<Seq<u8>> {
    spec_first_frames(data, chunk, data.len() as int / chunk + 1)
}

/// The first `count` frames of a file, joined, are the bytes of the file
/// up to the end of the last of them.
proof fn lemma_join_prefix(data: Seq<u8>, chunk: int, count: int)
    requires
        chunk >= 1,
        0 <= count,
    ensures
        spec_join(spec_first_frames(data, chunk, count)) == data.subrange(
            0,
            if count * chunk <= data.len() {
                count * chunk
            } else {
                data.len() as int
            },
        ),
    decreases count,
{
    let n = data.len() as int;
    let frames = spec_first_frames(data, chunk, count);
    if count == 0 {
        assert(0 * chunk == 0) by (nonlinear_arith);
        assert(spec_join(frames) =~= data.subrange(0, 0));
    } else {
        let before = spec_first_frames(data, chunk, count - 1);
        lemma_join_prefix(data, chunk, count - 1);
        assert(frames.drop_last() =~= before);
        assert(frames.last() == spec_chunk(data, chunk, count - 1));
        assert(0 <= (count - 1) * chunk) by (nonlinear_arith)
            requires
                0 <= count - 1,
                chunk >= 1,
        ;
        assert(count * chunk == (count - 1) * chunk + chunk) by (nonlinear_arith);
        let from = (count - 1) * chunk;
        if from <= n {
            let to = if from + chunk <= n {
                from + chunk
            } else {
                n
            };
            assert(spec_join(frames) =~= data.subrange(0, from) + data.subrange(from, to));
            assert(data.subrange(0, from) + data.subrange(from, to) =~= data.subrange(0, to));
        } else {
            assert(frames.last() =~= Seq::<u8>::empty());
            assert(spec_join(frames) =~= data.subrange(0, n));
        }
    }
}

/// Joining the frames of a file gives the file: what a receiver writes,
/// when it accepts in order the frames that the sender cut from the file,
/// is byte for byte what the sender read. Every frame but the last is a
/// full block, and the last is shorter than a block.
pub proof fn lemma_frames_join(data: Seq<u8>, chunk: int)
    requires
        chunk >= 1,
    ensures
        spec_join(spec_file_frames(data, chunk)) == data,
        spec_file_frames(data, chunk).len() >= 1,
        spec_file_frames(data, chunk).last().len() < chunk,
        forall|i: int|
            0 <= i < spec_file_frames(data, chunk).len() - 1 ==> (#[trigger] spec_file_frames(
                data,
                chunk,
            )[i]).len() == chunk,
{
    let n = data.len() as int;
    let count = n / chunk + 1;
    assert(n / chunk >= 0 && (n / chunk) * chunk <= n < count * chunk) by (nonlinear_arith)
        requires
            chunk >= 1,
            n >= 0,
            count == n / chunk + 1,
    ;
    lemma_join_prefix(data, chunk, count);
    assert(data.subrange(0, n) =~= data);
    let frames = spec_file_frames(data, chunk);
    let q = n / chunk;
    assert(count * chunk == q * chunk + chunk) by (nonlinear_arith)
        requires
            count == q + 1,
    ;
    assert(0 <= q * chunk) by (nonlinear_arith)
        requires
            q >= 0,
            chunk >= 1,
    ;
    assert(frames.last() == spec_chunk(data, chunk, q));
    assert(frames.last() == data.subrange(q * chunk, n));
    assert(frames.last().len() < chunk);
    assert forall|i: int| 0 <= i < frames.len() - 1 implies (#[trigger] frames[i]).len()
        == chunk by {
        assert(i * chunk + chunk <= n && 0 <= i * chunk) by (nonlinear_arith)
            requires
                0 <= i < n / chunk,
                (n / chunk) * chunk <= n,
                chunk >= 1,
        ;
    }
}

/// A receiver that has accepted, in order, the first `accepted` frames
/// that a sender cut from the file `data`, and whose last accepted frame
/// is shorter than a block, holds the whole file: it has accepted every
/// frame of the file, and the bytes it was handed are the bytes of the
/// file.
pub proof fn lemma_delivered_whole(data: Seq<u8>, chunk: int, accepted: int, delivered: Seq<u8>)
    requires
        chunk >= 1,
        accepted >= 1,
        delivered == spec_join(spec_first_frames(data, chunk, accepted)),
        (accepted - 1) * chunk <= delivered.len() < accepted * chunk,
    ensures
        delivered == data,
        accepted == data.len() as int / chunk + 1,
        spec_first_frames(data, chunk, accepted) == spec_file_frames(data, chunk),
{
    let n = data.len() as int;
    lemma_join_prefix(data, chunk, accepted);
    assert(delivered =~= data);
    assert(accepted - 1 == n / chunk) by (nonlinear_arith)
        requires
            (accepted - 1) * chunk <= n < accepted * chunk,
            chunk >= 1,
    ;
}

} // verus!
