use crate::decimal::is_digit;
use crate::decimal::lemma_decimal_digits;
use crate::decimal::spec_decimal;
use crate::decimal::u64_to_decimal;
use crate::options::TransferOption;
use vstd::prelude::*;
use vstd::string::StringExecFns;
use vstd::string::StringSliceAdditionalSpecFns;
use vstd::utf8::encode_utf8;
use vstd::utf8::encode_utf8_decode_utf8;

verus! {

/// Whether two texts are the same.
pub fn str_eq(a: &str, b: &str) -> (r: bool)
    ensures
        r == (a@ == b@),
{
    let x = a.as_bytes();
    let y = b.as_bytes();
    proof {
        encode_utf8_decode_utf8(a@);
        encode_utf8_decode_utf8(b@);
    }
    if x.len() != y.len() {
        return false;
    }
    let mut i: usize = 0;
    while i < x.len()
        invariant
            i <= x@.len(),
            x@.len() == y@.len(),
            x@ == encode_utf8(a@),
            y@ == encode_utf8(b@),
            forall|k: int| 0 <= k < i ==> x@[k] == y@[k],
        decreases x@.len() - i,
    {
        if x[i] != y[i] {
            return false;
        }
        i += 1;
    }
    assert(x@ =~= y@);
    true
}

/// The decimal text of `value`, as characters.
pub open spec fn spec_decimal_text(value: nat) -> Seq<char> {
    Seq::new(spec_decimal(value).len(), |i: int| spec_decimal(value)[i] as char)
}

/// The text of one decimal digit.
fn digit_text(digit: u8) -> (r: &'static str)
    requires
        is_digit(digit),
    ensures
        r@ == seq![digit as char],
{
    proof {
        reveal_strlit("0");
        reveal_strlit("1");
        reveal_strlit("2");
        reveal_strlit("3");
        reveal_strlit("4");
        reveal_strlit("5");
        reveal_strlit("6");
        reveal_strlit("7");
        reveal_strlit("8");
        reveal_strlit("9");
    }
    let r: &'static str = if digit == 48 {
        "0"
    } else if digit == 49 {
        "1"
    } else if digit == 50 {
        "2"
    } else if digit == 51 {
        "3"
    } else if digit == 52 {
        "4"
    } else if digit == 53 {
        "5"
    } else if digit == 54 {
        "6"
    } else if digit == 55 {
        "7"
    } else if digit == 56 {
        "8"
    } else {
        "9"
    };
    assert(r@ =~= seq![digit as char]);
    r
}

/// Appends the decimal text of `value` to `out`.
pub fn append_decimal(out: &mut String, value: u64)
    ensures
        final(out)@ == old(out)@ + spec_decimal_text(value as nat),
{
    let digits = u64_to_decimal(value);
    proof {
        lemma_decimal_digits(value as nat);
    }
    let ghost text = spec_decimal_text(value as nat);
    let mut i: usize = 0;
    while i < digits.len()
        invariant
            i <= digits@.len(),
            digits@ == spec_decimal(value as nat),
            crate::decimal::all_digits(digits@),
            text == spec_decimal_text(value as nat),
            out@ == old(out)@ + text.subrange(0, i as int),
        decreases digits@.len() - i,
    {
        let d: u8 = digits[i];
        assert(is_digit(digits@[i as int]));
        out.append(digit_text(d));
        assert(out@ =~= old(out)@ + text.subrange(0, i + 1));
        i += 1;
    }
    assert(text.subrange(0, i as int) =~= text);
}

/// The text that lists `options` for a reader: each as its name, a colon
/// and its value, with a comma and a space between two of them.
pub open spec fn spec_options_text(options: Seq<TransferOption>) -> Seq<char>
    decreases options.len(),
{
    if options.len() == 0 {
        Seq::<char>::empty()
    } else {
        let head = spec_options_text(options.drop_last());
        let gap = if options.len() > 1 {
            seq![',', ' ']
        } else {
            Seq::<char>::empty()
        };
        head + gap + options.last().option.spec_name() + seq![':'] + spec_decimal_text(
            options.last().value as nat,
        )
    }
}

/// A list of options that can be written out for a reader.
pub struct OptionFmt<'a>(pub &'a [TransferOption]);

impl<'a> OptionFmt<'a> {
    /// The text that lists the options.
    pub fn to_string(&self) -> (r: String)
        ensures
            r@ == spec_options_text(self.0@),
    {
        proof {
            reveal_strlit(", ");
            reveal_strlit(":");
        }
        let mut out = String::new();
        let mut i: usize = 0;
        assert(self.0@.subrange(0, 0) =~= Seq::<TransferOption>::empty());
        while i < self.0.len()
            invariant
                i <= self.0@.len(),
                out@ == spec_options_text(self.0@.subrange(0, i as int)),
                ", "@ == seq![',', ' '],
                ":"@ == seq![':'],
            decreases self.0@.len() - i,
        {
            let ghost before = self.0@.subrange(0, i as int);
            let ghost after = self.0@.subrange(0, i + 1);
            let ghost start = out@;
            let option: TransferOption = self.0[i];
            proof {
                assert(after.drop_last() =~= before);
                assert(after.last() == option);
            }
            if i != 0 {
                out.append(", ");
            }
            out.append(option.option.as_str());
            out.append(":");
            append_decimal(&mut out, option.value);
            proof {
                let gap = if after.len() > 1 {
                    seq![',', ' ']
                } else {
                    Seq::<char>::empty()
                };
                assert(out@ =~= start + gap + option.option.spec_name() + seq![':']
                    + spec_decimal_text(option.value as nat));
            }
            i += 1;
        }
        assert(self.0@.subrange(0, i as int) =~= self.0@);
        out
    }
}

} // verus!
