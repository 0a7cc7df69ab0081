use vstd::prelude::*;

verus! {

/// Whether `byte` is an ASCII decimal digit.
pub open spec fn is_digit(byte: u8) -> bool {
    48 <= byte <= 57
}

/// Whether every byte of `bytes` is an ASCII decimal digit.
pub open spec fn all_digits(bytes: Seq<u8>) -> bool {
    forall|i: int| 0 <= i < bytes.len() ==> is_digit(#[trigger] bytes[i])
}

/// The number that the decimal digits `bytes` write, most significant first.
pub open spec fn spec_digits_value(bytes: Seq<u8>) -> nat
    decreases bytes.len(),
{
    if bytes.len() == 0 {
        0
    } else {
        (spec_digits_value(bytes.drop_last()) * 10 + (bytes.last() - 48)) as nat
    }
}

/// The shortest decimal text of `value`: ASCII digits, most significant
/// first, no leading zero but for zero itself.
pub open spec fn spec_decimal(value: nat) -> Seq<u8>
    decreases value,
{
    if value < 10 {
        seq![(48 + value) as u8]
    } else {
        spec_decimal(value / 10).push((48 + value % 10) as u8)
    }
}

/// The digits of `bytes` after an optional leading plus sign.
pub open spec fn spec_unsigned_digits(bytes: Seq<u8>) -> Seq<u8> {
    if bytes.len() > 0 && bytes[0] == 43 {
        bytes.subrange(1, bytes.len() as int)
    } else {
        bytes
    }
}

/// The unsigned 64-bit number that `bytes` writes in decimal: an optional
/// plus sign, then at least one digit and nothing else, with a value that
/// fits. `None` for every other text.
pub open spec fn spec_parse_u64(bytes: Seq<u8>) -> Option<u64> {
    let digits = spec_unsigned_digits(bytes);
    if digits.len() > 0 && all_digits(digits) && spec_digits_value(digits) <= u64::MAX {
        Some(spec_digits_value(digits) as u64)
    } else {
        None
    }
}

/// The decimal text of a number is made of digits, is not empty, and
/// writes that number.
pub proof fn lemma_decimal_digits(value: nat)
    ensures
        spec_decimal(value).len() > 0,
        all_digits(spec_decimal(value)),
        spec_digits_value(spec_decimal(value)) == value,
    decreases value,
{
    if value < 10 {
        let s = spec_decimal(value);
        assert(s.drop_last() =~= Seq::<u8>::empty());
        assert(spec_digits_value(s.drop_last()) == 0);
    } else {
        lemma_decimal_digits(value / 10);
        let head = spec_decimal(value / 10);
        let s = spec_decimal(value);
        assert(s.drop_last() =~= head);
        assert(s.last() == (48 + value % 10) as u8);
    }
}

/// Parsing the decimal text of a number gives the number back.
pub proof fn lemma_decimal_roundtrip(value: u64)
    ensures
        spec_parse_u64(spec_decimal(value as nat)) == Some(value),
        forall|i: int| 0 <= i < spec_decimal(value as nat).len() ==> spec_decimal(value as nat)[i] != 0,
{
    lemma_decimal_digits(value as nat);
    let s = spec_decimal(value as nat);
    assert(is_digit(s[0]));
    assert(spec_unsigned_digits(s) == s);
}

/// A longer digit string writes a number that is no smaller than any of
/// its prefixes.
proof fn lemma_digits_value_prefix(bytes: Seq<u8>, n: int)
    requires
        0 <= n <= bytes.len(),
        all_digits(bytes),
    ensures
        spec_digits_value(bytes.subrange(0, n)) <= spec_digits_value(bytes),
    decreases bytes.len() - n,
{
    if n == bytes.len() {
        assert(bytes.subrange(0, n) =~= bytes);
    } else {
        lemma_digits_value_prefix(bytes, n + 1);
        let longer = bytes.subrange(0, n + 1);
        assert(longer.drop_last() =~= bytes.subrange(0, n));
        assert(is_digit(longer.last()));
    }
}

/// Writes `value` in decimal.
pub fn u64_to_decimal(value: u64) -> (r: Vec<u8>)
    ensures
        r@ == spec_decimal(value as nat),
{
    let mut reversed: Vec<u8> = Vec::new();
    let mut rest: u64 = value;
    while rest >= 10
        invariant
            spec_decimal(rest as nat) + reversed@.reverse() == spec_decimal(value as nat),
        decreases rest,
    {
        let digit: u8 = 48 + (rest % 10) as u8;
        proof {
            let before = reversed@;
            let after = before.push(digit);
            assert(spec_decimal(rest as nat) == spec_decimal((rest / 10) as nat).push(digit));
            assert(spec_decimal((rest / 10) as nat) + after.reverse() =~= spec_decimal(rest as nat)
                + before.reverse());
        }
        reversed.push(digit);
        rest = rest / 10;
    }
    let last: u8 = 48 + rest as u8;
    reversed.push(last);
    let mut out: Vec<u8> = Vec::new();
    let mut i: usize = reversed.len();
    proof {
        let before = reversed@.drop_last();
        assert(spec_decimal(rest as nat) =~= seq![last]);
        assert(reversed@.reverse() =~= seq![last] + before.reverse());
    }
    while i > 0
        invariant
            i <= reversed@.len(),
            out@ =~= reversed@.reverse().subrange(0, reversed@.len() - i),
        decreases i,
    {
        i -= 1;
        out.push(reversed[i]);
    }
    assert(out@ =~= reversed@.reverse());
    out
}

/// Reads an unsigned 64-bit number written in decimal.
pub fn parse_u64(bytes: &[u8]) -> (r: Option<u64>)
    ensures
        r == spec_parse_u64(bytes@),
{
    let mut i: usize = 0;
    if bytes.len() > 0 && bytes[0] == 43 {
        i = 1;
    }
    let start: usize = i;
    let ghost digits = spec_unsigned_digits(bytes@);
    assert(digits =~= bytes@.subrange(start as int, bytes@.len() as int));
    if i >= bytes.len() {
        return None;
    }
    let mut value: u64 = 0;
    while i < bytes.len()
        invariant
            start <= i <= bytes@.len(),
            digits == spec_unsigned_digits(bytes@),
            digits == bytes@.subrange(start as int, bytes@.len() as int),
            all_digits(digits.subrange(0, i - start)),
            value == spec_digits_value(digits.subrange(0, i - start)),
        decreases bytes@.len() - i,
    {
        let byte: u8 = bytes[i];
        let ghost prefix = digits.subrange(0, i - start);
        let ghost longer = digits.subrange(0, i - start + 1);
        proof {
            assert(longer.drop_last() =~= prefix);
            assert(longer.last() == byte);
        }
        if byte < 48 || byte > 57 {
            assert(!is_digit(digits[i - start]));
            return None;
        }
        assert(all_digits(longer)) by {
            assert forall|k: int| 0 <= k < longer.len() implies is_digit(#[trigger] longer[k]) by {
                if k < prefix.len() {
                    assert(longer[k] == prefix[k]);
                }
            }
        }
        let digit: u64 = (byte - 48) as u64;
        let next: Option<u64> = match value.checked_mul(10) {
            Some(scaled) => scaled.checked_add(digit),
            None => None,
        };
        match next {
            Some(n) => {
                value = n;
            },
            None => {
                proof {
                    assert(spec_digits_value(longer) == value * 10 + digit);
                    assert(spec_digits_value(longer) > u64::MAX);
                    if all_digits(digits) {
                        lemma_digits_value_prefix(digits, i - start + 1);
                    }
                }
                return None;
            },
        }
        i += 1;
    }
    assert(digits.subrange(0, i - start) =~= digits);
    Some(value)
}

} // verus!
