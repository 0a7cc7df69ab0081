use crate::decimal::all_digits;
use crate::decimal::parse_u64;
use crate::decimal::spec_digits_value;
use crate::decimal::spec_parse_u64;
use crate::packet::Packet;
use crate::packet::PacketView;
use vstd::prelude::*;
use vstd::slice::slice_subrange;
use vstd::string::StringSliceAdditionalSpecFns;
use vstd::utf8::encode_utf8;

verus! {

/// Why a list of block numbers to drop could not be read.
#[derive(Clone, Copy, Debug, PartialEq, Eq, Structural)]
pub enum DropError {
    /// There is no list.
    Missing,
    /// An entry of the list is not a number.
    Invalid,
}

/// The 32-bit number that `bytes` writes in decimal: an optional sign,
/// then at least one digit and nothing else, with a value that fits.
pub open spec fn spec_parse_i32(bytes: Seq<u8>) -> Option<i32> {
    if bytes.len() > 0 && bytes[0] == 45 {
        let digits = bytes.subrange(1, bytes.len() as int);
        if digits.len() > 0 && all_digits(digits) && spec_digits_value(digits) <= 0x8000_0000 {
            Some((0 - spec_digits_value(digits)) as i32)
        } else {
            None
        }
    } else {
        match spec_parse_u64(bytes) {
            Some(v) => if v <= 0x7fff_ffff {
                Some(v as i32)
            } else {
                None
            },
            None => None,
        }
    }
}

/// Reads a 32-bit number written in decimal.
pub fn parse_i32(bytes: &[u8]) -> (r: Option<i32>)
    ensures
        r == spec_parse_i32(bytes@),
{
    if bytes.len() > 0 && bytes[0] == 45 {
        let digits = slice_subrange(bytes, 1, bytes.len());
        if digits.len() > 0 && digits[0] == 43 {
            assert(!crate::decimal::is_digit(digits@[0]));
            return None;
        }
        match parse_u64(digits) {
            Some(v) => {
                assert(crate::decimal::spec_unsigned_digits(digits@) == digits@);
                if v <= 0x8000_0000 {
                    let wide: i64 = 0 - (v as i64);
                    Some(wide as i32)
                } else {
                    None
                }
            },
            None => {
                assert(crate::decimal::spec_unsigned_digits(digits@) == digits@);
                None
            },
        }
    } else {
        match parse_u64(bytes) {
            Some(v) => if v <= 0x7fff_ffff {
                Some(v as i32)
            } else {
                None
            },
            None => None,
        }
    }
}

/// Index of the first comma of `text`, or its length when there is none.
pub open spec fn spec_find_comma(text: Seq<u8>) -> int
    decreases text.len(),
{
    if text.len() == 0 || text[0] == 44 {
        0
    } else {
        1 + spec_find_comma(text.drop_first())
    }
}

/// The numbers of a list written with commas between them, as far as
/// they can be read, and whether the whole list could be read.
pub open spec fn spec_drop_values(text: Seq<u8>) -> (Seq<i32>, bool)
    decreases text.len(),
{
    let end = spec_find_comma(text);
    if 0 <= end <= text.len() {
        match spec_parse_i32(text.subrange(0, end)) {
            None => (Seq::<i32>::empty(), false),
            Some(v) => if end >= text.len() {
                (seq![v], true)
            } else {
                let rest = spec_drop_values(text.subrange(end + 1, text.len() as int));
                (seq![v] + rest.0, rest.1)
            },
        }
    } else {
        (Seq::<i32>::empty(), false)
    }
}

/// The first comma of a text lies within it, and nothing before it is a
/// comma.
proof fn lemma_find_comma(text: Seq<u8>, at: int)
    requires
        0 <= at <= text.len(),
        at < text.len() ==> text[at] == 44,
        forall|j: int| 0 <= j < at ==> text[j] != 44,
    ensures
        spec_find_comma(text) == at,
    decreases text.len(),
{
    if at > 0 {
        let rest = text.drop_first();
        assert(text[0] != 44);
        assert forall|j: int| 0 <= j < at - 1 implies rest[j] != 44 by {
            assert(rest[j] == text[j + 1]);
        }
        if at - 1 < rest.len() {
            assert(rest[at - 1] == text[at]);
        }
        lemma_find_comma(rest, at - 1);
    }
}

/// Appends to `list` the block numbers written in `opt` with commas
/// between them. Reading stops at the first entry that is no number; the
/// numbers before it stay appended.
pub fn drop_set(list: &mut Vec<i32>, opt: Option<String>) -> (r: Result<(), DropError>)
    ensures
        match opt {
            None => r == Err::<(), DropError>(DropError::Missing) && final(list)@ == old(list)@,
            Some(arg) => {
                let read = spec_drop_values(encode_utf8(arg@));
                &&& final(list)@ == old(list)@ + read.0
                &&& r == if read.1 {
                    Ok::<(), DropError>(())
                } else {
                    Err::<(), DropError>(DropError::Invalid)
                }
            },
        },
{
    let arg = match opt {
        Some(arg) => arg,
        None => {
            return Err(DropError::Missing);
        },
    };
    let text = arg.as_str().as_bytes();
    let ghost all = spec_drop_values(text@);
    let ghost done = Seq::<i32>::empty();
    let mut pos: usize = 0;
    assert(text@.subrange(0, text@.len() as int) =~= text@);
    assert(list@ =~= old(list)@ + done);
    loop
        invariant
            pos <= text@.len(),
            opt == Some(arg),
            text@ == encode_utf8(arg@),
            all == spec_drop_values(text@),
            list@ == old(list)@ + done,
            all == (
                done + spec_drop_values(text@.subrange(pos as int, text@.len() as int)).0,
                spec_drop_values(text@.subrange(pos as int, text@.len() as int)).1,
            ),
        decreases text@.len() - pos,
    {
        let ghost rest = text@.subrange(pos as int, text@.len() as int);
        let mut end: usize = pos;
        while end < text.len() && text[end] != 44
            invariant
                pos <= end <= text@.len(),
                forall|j: int| pos <= j < end ==> text@[j] != 44,
            decreases text@.len() - end,
        {
            end += 1;
        }
        proof {
            assert forall|j: int| 0 <= j < end - pos implies rest[j] != 44 by {
                assert(rest[j] == text@[pos + j]);
            }
            if end < text@.len() {
                assert(rest[end - pos] == text@[end as int]);
            }
            lemma_find_comma(rest, end - pos);
            assert(rest.subrange(0, end - pos) =~= text@.subrange(pos as int, end as int));
        }
        match parse_i32(slice_subrange(text, pos, end)) {
            None => {
                assert(done + Seq::<i32>::empty() =~= done);
                return Err(DropError::Invalid);
            },
            Some(v) => {
                list.push(v);
                if end >= text.len() {
                    proof {
                        assert(list@ =~= old(list)@ + (done + seq![v]));
                    }
                    return Ok(());
                }
                proof {
                    let after = text@.subrange(end + 1, text@.len() as int);
                    assert(rest.subrange(end - pos + 1, rest.len() as int) =~= after);
                    assert((done + seq![v]) + spec_drop_values(after).0 =~= done + (seq![v]
                        + spec_drop_values(after).0));
                    assert(list@ =~= old(list)@ + (done + seq![v]));
                    done = done + seq![v];
                }
                pos = end + 1;
            },
        }
    }
}

/// Whether the packet numbered `num` is the next one to drop; if it is,
/// it is taken off the list.
pub fn check_seq_num(list: &mut Vec<i32>, num: u16) -> (r: bool)
    ensures
        r == (old(list)@.len() > 0 && old(list)@[0] == num),
        final(list)@ == if r {
            old(list)@.drop_first()
        } else {
            old(list)@
        },
{
    if list.len() > 0 && list[0] == num as i32 {
        let first = list.remove(0);
        assert(list@ =~= old(list)@.drop_first());
        true
    } else {
        false
    }
}

/// Whether `packet` is to be dropped instead of sent: a data packet or
/// an acknowledgement whose block number is the next one on the list,
/// which number is then taken off the list.
pub fn drop_check(list: &mut Vec<i32>, packet: &Packet) -> (r: bool)
    ensures
        r == match packet@ {
            PacketView::Data { block_num, data } => old(list)@.len() > 0 && old(list)@[0]
                == block_num,
            PacketView::Ack(block_num) => old(list)@.len() > 0 && old(list)@[0] == block_num,
            _ => false,
        },
        final(list)@ == if r {
            old(list)@.drop_first()
        } else {
            old(list)@
        },
{
    match packet {
        Packet::Data { block_num, data } => check_seq_num(list, *block_num),
        Packet::Ack(block_num) => check_seq_num(list, *block_num),
        _ => false,
    }
}

} // verus!
