use vstd::prelude::*;
use vstd::slice::slice_subrange;
use vstd::slice::slice_to_vec;
use vstd::utf8::decode_utf8;
use vstd::utf8::valid_utf8;

verus! {

/// The big-endian 16-bit number held in the first two bytes of `bytes`.
pub open spec fn spec_u16_be(bytes: Seq<u8>) -> u16
    recommends
        bytes.len() >= 2,
{
    (bytes[0] as int * 256 + bytes[1] as int) as u16
}

/// The two bytes that hold `value` in big-endian order.
pub open spec fn spec_u16_be_bytes(value: u16) -> Seq<u8> {
    seq![(value as int / 256) as u8, (value as int % 256) as u8]
}

/// Reading back the two big-endian bytes of a number gives the number.
pub proof fn lemma_u16_be_roundtrip(value: u16)
    ensures
        spec_u16_be_bytes(value).len() == 2,
        spec_u16_be(spec_u16_be_bytes(value)) == value,
{
}

/// Index of the first zero byte of `bytes` at or after `start`, or the
/// length of `bytes` when there is none.
pub open spec fn spec_find_zero(bytes: Seq<u8>, start: int) -> int
    decreases bytes.len() - start,
{
    if start < 0 || start >= bytes.len() {
        bytes.len() as int
    } else if bytes[start] == 0 {
        start
    } else {
        spec_find_zero(bytes, start + 1)
    }
}

/// `spec_find_zero` is the least index at or after `start` that holds a zero.
pub proof fn lemma_find_zero(bytes: Seq<u8>, start: int)
    requires
        0 <= start <= bytes.len(),
    ensures
        start <= spec_find_zero(bytes, start) <= bytes.len(),
        spec_find_zero(bytes, start) < bytes.len() ==> bytes[spec_find_zero(bytes, start)] == 0,
        forall|j: int| start <= j < spec_find_zero(bytes, start) ==> bytes[j] != 0,
    decreases bytes.len() - start,
{
    if start < bytes.len() && bytes[start] != 0 {
        lemma_find_zero(bytes, start + 1);
    }
}

/// An index that holds a zero, with no zero between `start` and it, is the
/// one `spec_find_zero` names.
pub proof fn lemma_find_zero_unique(bytes: Seq<u8>, start: int, at: int)
    requires
        0 <= start <= at <= bytes.len(),
        at < bytes.len() ==> bytes[at] == 0,
        forall|j: int| start <= j < at ==> bytes[j] != 0,
    ensures
        spec_find_zero(bytes, start) == at,
    decreases at - start,
{
    if start < at {
        lemma_find_zero_unique(bytes, start + 1, at);
    }
}

/// Why a zero-terminated field could not be read.
#[derive(Clone, Copy, Debug, PartialEq, Eq, Structural)]
pub enum ConvertError {
    /// No zero byte at or after the start of the field.
    Unterminated,
    /// The bytes before the zero are not UTF-8.
    InvalidUtf8,
}

/// The zero-terminated field of `bytes` that begins at `start`: its raw
/// bytes and the index of its terminating zero.
pub open spec fn spec_field(bytes: Seq<u8>, start: int) -> Result<(Seq<u8>, int), ConvertError> {
    let end = spec_find_zero(bytes, start);
    if start < 0 || start > bytes.len() || end >= bytes.len() {
        Err(ConvertError::Unterminated)
    } else if !valid_utf8(bytes.subrange(start, end)) {
        Err(ConvertError::InvalidUtf8)
    } else {
        Ok((bytes.subrange(start, end), end))
    }
}

/// Calls `String::from_utf8`. The contract claims that the call succeeds
/// exactly on well-formed UTF-8 and that the string then holds the
/// characters those bytes encode.
#[verifier::external_body]
fn string_from_utf8(bytes: Vec<u8>) -> (r: Option<String>)
    ensures
        r is Some <==> valid_utf8(bytes@),
        r matches Some(s) ==> s@ == decode_utf8(bytes@),
{
    String::from_utf8(bytes).ok()
}

/// Conversions between wire bytes and values.
pub struct Convert;

impl Convert {
    /// Reads a big-endian `u16` from the first two bytes of `buf`.
    pub fn to_u16(buf: &[u8]) -> (r: Result<u16, &'static str>)
        ensures
            r is Err <==> buf@.len() < 2,
            r matches Ok(v) ==> v == spec_u16_be(buf@),
            r matches Err(text) ==> text@ == "Error when converting to u16"@,
    {
        if buf.len() < 2 {
            Err("Error when converting to u16")
        } else {
            let hi: u16 = buf[0] as u16;
            let lo: u16 = buf[1] as u16;
            Ok(hi * 256 + lo)
        }
    }

    /// Reads the zero-terminated UTF-8 string of `buf` that begins at
    /// `start`, and returns it with the index of its terminating zero.
    pub fn to_string(buf: &[u8], start: usize) -> (r: Result<(String, usize), ConvertError>)
        ensures
            match spec_field(buf@, start as int) {
                Ok((raw, end)) => r matches Ok((s, at)) && s@ == decode_utf8(raw) && at == end,
                Err(e) => r == Err::<(String, usize), ConvertError>(e),
            },
    {
        if start > buf.len() {
            return Err(ConvertError::Unterminated);
        }
        let mut at: usize = start;
        while at < buf.len() && buf[at] != 0
            invariant
                start <= at <= buf@.len(),
                forall|j: int| start <= j < at ==> buf@[j] != 0,
            decreases buf@.len() - at,
        {
            at += 1;
        }
        proof {
            lemma_find_zero_unique(buf@, start as int, at as int);
        }
        if at >= buf.len() {
            return Err(ConvertError::Unterminated);
        }
        let raw = slice_to_vec(slice_subrange(buf, start, at));
        match string_from_utf8(raw) {
            Some(s) => Ok((s, at)),
            None => Err(ConvertError::InvalidUtf8),
        }
    }
}

} // verus!
