//! Numeric literals: decimal indices and floating-point components.

use crate::lexical::{digit_char, in_class, matched, run_len, tail, take_run, CharClass};
use vstd::prelude::*;
use vstd::slice::slice_subrange;

verus! {

/// The length of the leading run of decimal digits.
pub open spec fn digits_len(r: Seq<char>) -> nat {
    run_len(CharClass::Digit, r)
}

/// The number that a decimal digit stands for.
pub open spec fn digit_value(c: char) -> nat {
    (c as u32 - 0x30) as nat
}

/// The number that a string of decimal digits denotes.
pub open spec fn decimal_value(digits: Seq<char>) -> nat
    decreases digits.len(),
{
    if digits.len() == 0 {
        0
    } else {
        decimal_value(digits.drop_last()) * 10 + digit_value(digits.last())
    }
}

/// The index that a string of decimal digits denotes: its decimal value, or
/// `usize::MAX` where the value is larger than that.
pub open spec fn index_value(digits: Seq<char>) -> usize {
    if decimal_value(digits) <= usize::MAX {
        decimal_value(digits) as usize
    } else {
        usize::MAX
    }
}

/// An index at the front of the text: its length and its value.
pub open spec fn index_spec(r: Seq<char>) -> Option<(nat, usize)> {
    let d = digits_len(r);
    if d > 0 {
        Some((d, index_value(r.take(d as int))))
    } else {
        None
    }
}

/// The length of an optional sign, `+` or `-`.
pub open spec fn sign_len(r: Seq<char>) -> nat {
    if r.len() > 0 && (r[0] == '+' || r[0] == '-') {
        1
    } else {
        0
    }
}

/// The length of a mantissa: digits with an optional fraction, or a `.`
/// followed by digits; zero where there is none.
pub open spec fn mantissa_len(r: Seq<char>) -> nat {
    let d = digits_len(r);
    if d > 0 {
        if r.len() > d && r[d as int] == '.' {
            d + 1 + digits_len(r.skip(d + 1 as int))
        } else {
            d
        }
    } else if r.len() > 0 && r[0] == '.' {
        let f = digits_len(r.skip(1));
        if f > 0 {
            1 + f
        } else {
            0
        }
    } else {
        0
    }
}

/// The length of an exponent: `e` or `E`, an optional sign and digits; zero
/// where there is none.
pub open spec fn exponent_len(r: Seq<char>) -> nat {
    if r.len() > 0 && (r[0] == 'e' || r[0] == 'E') {
        let s = sign_len(r.skip(1));
        let d = digits_len(r.skip(1 + s as int));
        if d > 0 {
            1 + s + d
        } else {
            0
        }
    } else {
        0
    }
}

/// The length of the floating-point literal at the front: an optional sign, a
/// mantissa and an optional exponent; zero where there is none.
pub open spec fn float_literal_len(r: Seq<char>) -> nat {
    let s = sign_len(r);
    let m = mantissa_len(r.skip(s as int));
    if m > 0 {
        s + m + exponent_len(r.skip(s + m as int))
    } else {
        0
    }
}

/// What `nom::float` reads at the front of a text: the number of bytes that
/// it leaves unread and the bit pattern of the single-precision value; `None`
/// where it reads no number.
pub uninterp spec fn float_read(text: Seq<char>) -> Option<(usize, u32)>;

/// What a literal of `len` characters yields, given what was read from it:
/// its length and the bits of its value, where all of it was read.
pub open spec fn float_outcome(len: nat, read: Option<(usize, u32)>) -> Option<(nat, u32)> {
    match read {
        Some((left, bits)) if len > 0 && left == 0 => Some((len, bits)),
        _ => None,
    }
}

/// A floating-point component at the front of the text: the length of its
/// literal and the bits of its value.
pub open spec fn float_spec(r: Seq<char>) -> Option<(nat, u32)> {
    let n = float_literal_len(r);
    float_outcome(n, float_read(r.take(n as int)))
}

/// Calls `nom::float` on the text. The contract only names the outcome: the
/// length in bytes of what `nom::float` hands back as unread, with the bits of
/// the value it read, or `None` when it reports an error.
#[verifier::external_body]
fn float_value(text: &[char]) -> (read: Option<(usize, u32)>)
    ensures
        read == float_read(text@),
{
    let text: String = text.iter().collect();
    match nom::float(nom::types::CompleteStr(&text)) {
        Ok((rest, value)) => Some((rest.len(), value.to_bits())),
        Err(_) => None,
    }
}

/// Matches one or more decimal digits, as many as there are.
pub fn digit(input: &[char]) -> (res: Option<usize>)
    ensures
        matched(res, digits_len(input@)),
{
    let n = take_run(CharClass::Digit, input);
    if n > 0 {
        Some(n)
    } else {
        None
    }
}

/// Computes the index that a string of decimal digits denotes.
fn parse_index(digits: &[char]) -> (value: usize)
    requires
        forall|i: int| 0 <= i < digits@.len() ==> digit_char(#[trigger] digits@[i]),
    ensures
        value == index_value(digits@),
{
    let mut acc: usize = 0;
    let mut i: usize = 0;
    proof {
        assert(digits@.take(0) =~= Seq::<char>::empty());
    }
    while i < digits.len()
        invariant
            i <= digits.len(),
            forall|j: int| 0 <= j < digits@.len() ==> digit_char(#[trigger] digits@[j]),
            acc == index_value(digits@.take(i as int)),
        decreases digits.len() - i,
    {
        let c = digits[i];
        let d: usize = (c as u32 - 0x30) as usize;
        proof {
            assert(digit_char(digits@[i as int]));
            assert(digits@.take(i + 1).drop_last() =~= digits@.take(i as int));
            assert(digits@.take(i + 1).last() == c);
            assert(d == digit_value(c));
            assert(d <= 9);
        }
        if acc > (usize::MAX - d) / 10 {
            acc = usize::MAX;
        } else {
            acc = acc * 10 + d;
        }
        i += 1;
    }
    proof {
        assert(digits@.take(digits@.len() as int) =~= digits@);
    }
    acc
}

/// Matches an index: one or more decimal digits. The result holds the length
/// of the literal and its value.
pub fn index(input: &[char]) -> (res: Option<(usize, usize)>)
    ensures
        res is Some <==> index_spec(input@) is Some,
        res matches Some((n, v)) ==> index_spec(input@) == Some((n as nat, v)) && n <= input@.len(),
{
    match digit(input) {
        Some(n) => {
            proof {
                lemma_run_members(CharClass::Digit, input@);
            }
            Some((n, parse_index(slice_subrange(input, 0, n))))
        },
        None => None,
    }
}

/// Every character of a run belongs to the run's class.
pub proof fn lemma_run_members(class: CharClass, r: Seq<char>)
    ensures
        forall|i: int| 0 <= i < run_len(class, r) ==> in_class(class, #[trigger] r[i]),
        run_len(class, r) <= r.len(),
    decreases r.len(),
{
    if r.len() > 0 && in_class(class, r[0]) {
        lemma_run_members(class, r.skip(1));
        assert forall|i: int| 0 <= i < run_len(class, r) implies in_class(
            class,
            #[trigger] r[i],
        ) by {
            if i > 0 {
                assert(r[i] == r.skip(1)[i - 1]);
            }
        }
    }
}

/// Counts the characters of the floating-point literal at the front.
pub fn recognize_float(input: &[char]) -> (n: usize)
    ensures
        n == float_literal_len(input@),
        n <= input.len(),
{
    let s: usize = if input.len() > 0 && (input[0] == '+' || input[0] == '-') {
        1
    } else {
        0
    };
    let body = tail(input, s);
    let d = take_run(CharClass::Digit, body);
    let m: usize = if d > 0 {
        if body.len() > d && body[d] == '.' {
            d + 1 + take_run(CharClass::Digit, tail(body, d + 1))
        } else {
            d
        }
    } else if body.len() > 0 && body[0] == '.' {
        let f = take_run(CharClass::Digit, tail(body, 1));
        if f > 0 {
            1 + f
        } else {
            0
        }
    } else {
        0
    };
    if m == 0 {
        return 0;
    }
    let rest = tail(input, s + m);
    let e: usize = if rest.len() > 0 && (rest[0] == 'e' || rest[0] == 'E') {
        let after = tail(rest, 1);
        let es: usize = if after.len() > 0 && (after[0] == '+' || after[0] == '-') {
            1
        } else {
            0
        };
        let ed = take_run(CharClass::Digit, tail(rest, 1 + es));
        if ed > 0 {
            1 + es + ed
        } else {
            0
        }
    } else {
        0
    };
    s + m + e
}

/// Matches a floating-point component. The result holds the length of the
/// literal and the bits of its value.
pub fn float(input: &[char]) -> (res: Option<(usize, u32)>)
    ensures
        res is Some <==> float_spec(input@) is Some,
        res matches Some((n, b)) ==> float_spec(input@) == Some((n as nat, b)) && 0 < n
            <= input@.len(),
{
    let n = recognize_float(input);
    if n == 0 {
        return None;
    }
    let read = float_value(slice_subrange(input, 0, n));
    float_result(n, read)
}

/// Joins the length of a literal with what was read from it: the value counts
/// where the literal is not empty and nothing of it was left unread.
pub fn float_result(len: usize, read: Option<(usize, u32)>) -> (res: Option<(usize, u32)>)
    ensures
        res == (match read {
            Some((left, bits)) if len > 0 && left == 0 => Some((len, bits)),
            _ => None,
        }),
{
    match read {
        Some((left, bits)) => if len > 0 && left == 0 {
            Some((len, bits))
        } else {
            None
        },
        None => None,
    }
}

} // verus!
