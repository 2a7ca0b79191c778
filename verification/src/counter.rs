//! A counter that is changed by one arithmetic step at a time: the value that
//! a practice target keeps in its memory.
//!
//! A step is entered as an operator, one of `+ - * /`, followed by a decimal
//! numeral: `+33`, `-5`, `*11`, `/2`.

use crate::number::{parse_unsigned, spec_parse_unsigned, Radix};
use crate::text::{same_bytes, spec_trim, trim};
use vstd::prelude::*;
use vstd::string::StringSliceAdditionalSpecFns;

verus! {

/// Whether `op` is one of `+ - * /`.
pub open spec fn spec_is_operator(op: char) -> bool {
    op == '+' || op == '-' || op == '*' || op == '/'
}

/// Whether `op` is an operator and the step from `a` by `b` has a result
/// that a word can hold.
pub open spec fn spec_defined(a: usize, op: char, b: usize) -> bool {
    if op == '+' {
        a + b <= usize::MAX
    } else if op == '-' {
        b <= a
    } else if op == '*' {
        a * b <= usize::MAX
    } else if op == '/' {
        b != 0
    } else {
        false
    }
}

/// The result of the step from `a` by `b`; division rounds down.
pub open spec fn spec_math(a: usize, op: char, b: usize) -> int {
    if op == '+' {
        a + b
    } else if op == '-' {
        a - b
    } else if op == '*' {
        a * b
    } else {
        a as int / b as int
    }
}

/// Whether `math` can take the step from `a` by `b`.
#[verifier::when_used_as_spec(spec_defined)]
pub fn defined(a: usize, op: char, b: usize) -> (defined: bool)
    ensures
        defined == spec_defined(a, op, b),
{
    if op == '+' {
        a.checked_add(b).is_some()
    } else if op == '-' {
        b <= a
    } else if op == '*' {
        a.checked_mul(b).is_some()
    } else if op == '/' {
        b != 0
    } else {
        false
    }
}

/// Takes one step: adds `b` to the counter, subtracts it, multiplies or
/// divides by it, as `op` says.
pub fn math(a: &mut usize, op: char, b: usize)
    requires
        spec_defined(*old(a), op, b),
    ensures
        *final(a) == spec_math(*old(a), op, b),
{
    if op == '+' {
        *a = *a + b;
    } else if op == '-' {
        *a = *a - b;
    } else if op == '*' {
        *a = *a * b;
    } else {
        *a = *a / b;
    }
}

/// One line of input to the counter, understood.
#[derive(Clone, Copy, Debug, PartialEq, Eq, Structural)]
pub enum Entry {
    /// Stop.
    Exit,
    /// Take this step.
    Step { op: char, operand: usize },
    /// The line starts with an operator, but no numeral follows.
    BadOperand,
    /// The line does not start with an operator.
    BadOperator,
}

/// The entry that a line spells, white space at its ends and after the
/// operator aside. An empty line stops the counter, as do `e` and `exit`.
pub open spec fn spec_parse_entry(line: Seq<u8>) -> Entry {
    let word = spec_trim(line);
    if word.len() == 0 || word == "e".spec_bytes() || word == "exit".spec_bytes() {
        Entry::Exit
    } else if word[0] < 0x80 && spec_is_operator(word[0] as char) {
        match spec_parse_unsigned(spec_trim(word.skip(1)), Radix::Decimal) {
            Some(operand) => Entry::Step { op: word[0] as char, operand },
            None => Entry::BadOperand,
        }
    } else {
        Entry::BadOperator
    }
}

/// Reads one line of input to the counter.
pub fn parse_entry(line: &str) -> (entry: Entry)
    ensures
        entry == spec_parse_entry(line.spec_bytes()),
        entry matches Entry::Step { op, .. } ==> spec_is_operator(op),
{
    let word = trim(line.as_bytes());
    if word.len() == 0 || same_bytes(word, "e".as_bytes()) || same_bytes(word, "exit".as_bytes()) {
        return Entry::Exit;
    }
    if word[0] >= 0x80 {
        return Entry::BadOperator;
    }
    let op = word[0] as char;
    if op == '+' || op == '-' || op == '*' || op == '/' {
        let rest = &word[1..word.len()];
        assert(rest@ == word@.skip(1));
        match parse_unsigned(trim(rest), Radix::Decimal) {
            Some(operand) => Entry::Step { op, operand },
            None => Entry::BadOperand,
        }
    } else {
        Entry::BadOperator
    }
}

} // verus!
