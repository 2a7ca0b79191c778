//! Unsigned numerals in ASCII text.
//!
//! A numeral is an optional `+` followed by at least one digit. Decimal digits
//! are `0`-`9`; hexadecimal adds `a`-`f` in either case. A numeral whose value
//! does not fit in a machine word is rejected like any other malformed text.

use crate::text::{DIGIT_0, DIGIT_9, LOWER_A, LOWER_F, PLUS, UPPER_A, UPPER_F};
use vstd::prelude::*;

verus! {

/// The base in which a numeral is written.
#[derive(Clone, Copy, Debug, PartialEq, Eq, Structural)]
pub enum Radix {
    Decimal,
    Hexadecimal,
}

impl Radix {
    pub open spec fn spec_base(self) -> nat {
        match self {
            Radix::Decimal => 10,
            Radix::Hexadecimal => 16,
        }
    }

    pub fn base(self) -> (base: usize)
        ensures
            base == self.spec_base(),
    {
        match self {
            Radix::Decimal => 10,
            Radix::Hexadecimal => 16,
        }
    }
}

/// The value of one ASCII digit, if `byte` is a digit of `radix`.
pub open spec fn spec_digit(byte: u8, radix: Radix) -> Option<nat> {
    if DIGIT_0 <= byte <= DIGIT_9 {
        Some((byte - DIGIT_0) as nat)
    } else if radix == Radix::Hexadecimal && LOWER_A <= byte <= LOWER_F {
        Some((byte - LOWER_A + 10) as nat)
    } else if radix == Radix::Hexadecimal && UPPER_A <= byte <= UPPER_F {
        Some((byte - UPPER_A + 10) as nat)
    } else {
        None
    }
}

/// What a byte adds at its position: its digit value, or nothing if it is no digit.
pub open spec fn digit_or_zero(byte: u8, radix: Radix) -> nat {
    match spec_digit(byte, radix) {
        Some(d) => d,
        None => 0,
    }
}

/// Positional value of `digits`, most significant first.
pub open spec fn positional_value(digits: Seq<u8>, radix: Radix) -> nat
    decreases digits.len(),
{
    if digits.len() == 0 {
        0
    } else {
        positional_value(digits.drop_last(), radix) * radix.spec_base() + digit_or_zero(
            digits.last(),
            radix,
        )
    }
}

/// At least one byte, and every byte a digit of `radix`.
pub open spec fn is_digit_string(digits: Seq<u8>, radix: Radix) -> bool {
    &&& digits.len() > 0
    &&& forall|i: int| 0 <= i < digits.len() ==> spec_digit(#[trigger] digits[i], radix) is Some
}

/// The text after an optional leading `+`.
pub open spec fn without_plus(text: Seq<u8>) -> Seq<u8> {
    if text.len() > 0 && text[0] == PLUS {
        text.skip(1)
    } else {
        text
    }
}

/// The word that `text` denotes in `radix`, if it is a numeral that fits.
pub open spec fn spec_parse_unsigned(text: Seq<u8>, radix: Radix) -> Option<usize> {
    let digits = without_plus(text);
    if is_digit_string(digits, radix) && positional_value(digits, radix) <= usize::MAX {
        Some(positional_value(digits, radix) as usize)
    } else {
        None
    }
}

/// A prefix of a digit string is worth no more than the whole.
pub proof fn lemma_prefix_value_le(digits: Seq<u8>, radix: Radix, n: int)
    requires
        0 <= n <= digits.len(),
    ensures
        positional_value(digits.take(n), radix) <= positional_value(digits, radix),
    decreases digits.len(),
{
    if n == digits.len() {
        assert(digits.take(n) =~= digits);
    } else {
        let shorter = digits.drop_last();
        assert(shorter.take(n) =~= digits.take(n));
        lemma_prefix_value_le(shorter, radix, n);
        let v = positional_value(shorter, radix);
        let b = radix.spec_base();
        assert(v <= v * b) by (nonlinear_arith)
            requires
                b >= 1,
        ;
    }
}

/// Reads one ASCII digit.
pub fn digit(byte: u8, radix: Radix) -> (value: Option<usize>)
    ensures
        value is Some <==> spec_digit(byte, radix) is Some,
        value matches Some(d) ==> spec_digit(byte, radix) == Some(d as nat) && d < radix.spec_base(),
{
    if DIGIT_0 <= byte && byte <= DIGIT_9 {
        Some((byte - DIGIT_0) as usize)
    } else {
        match radix {
            Radix::Decimal => None,
            Radix::Hexadecimal => {
                if LOWER_A <= byte && byte <= LOWER_F {
                    Some((byte - LOWER_A + 10) as usize)
                } else if UPPER_A <= byte && byte <= UPPER_F {
                    Some((byte - UPPER_A + 10) as usize)
                } else {
                    None
                }
            },
        }
    }
}

/// Parses an unsigned numeral.
///
/// Returns the value exactly when `text` is an optional `+` followed by one or
/// more digits of `radix` whose positional value fits in a word.
pub fn parse_unsigned(text: &[u8], radix: Radix) -> (value: Option<usize>)
    ensures
        value == spec_parse_unsigned(text@, radix),
{
    let first: usize = if text.len() > 0 && text[0] == PLUS {
        1
    } else {
        0
    };
    let ghost digits = without_plus(text@);
    assert(digits =~= text@.skip(first as int));
    if first == text.len() {
        return None;
    }
    let base = radix.base();
    let mut acc: usize = 0;
    let mut i: usize = first;
    while i < text.len()
        invariant
            first <= i <= text.len(),
            digits == without_plus(text@),
            digits == text@.skip(first as int),
            base == radix.spec_base(),
            acc == positional_value(digits.take(i - first), radix),
            forall|j: int| 0 <= j < i - first ==> spec_digit(#[trigger] digits[j], radix) is Some,
        decreases text.len() - i,
    {
        let ghost k = i - first;
        assert(digits.take(k + 1).drop_last() =~= digits.take(k));
        assert(digits[k] == text@[i as int]);
        assert(digits.take(k + 1).last() == digits[k]);
        let d = match digit(text[i], radix) {
            Some(d) => d,
            None => {
                assert(spec_digit(digits[k], radix) is None);
                return None;
            },
        };
        let shifted = match acc.checked_mul(base) {
            Some(s) => s,
            None => {
                proof {
                    lemma_prefix_value_le(digits, radix, k + 1);
                }
                return None;
            },
        };
        acc = match shifted.checked_add(d) {
            Some(s) => s,
            None => {
                proof {
                    lemma_prefix_value_le(digits, radix, k + 1);
                }
                return None;
            },
        };
        i += 1;
    }
    assert(digits.take(i - first) =~= digits);
    Some(acc)
}

} // verus!
