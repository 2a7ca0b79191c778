//! Text as bytes: the characters that the formats of this crate give meaning
//! to, white space, and where a byte stands in a text.
//!
//! All text is taken to be UTF-8. The characters with a meaning of their own
//! are ASCII, so each is one byte, and that byte is part of no other character.

use vstd::prelude::*;

verus! {

pub const TAB: u8 = 0x09;

pub const LINE_FEED: u8 = 0x0a;

pub const CARRIAGE_RETURN: u8 = 0x0d;

pub const SPACE: u8 = 0x20;

pub const PLUS: u8 = 0x2b;

pub const HYPHEN: u8 = 0x2d;

pub const DIGIT_0: u8 = 0x30;

pub const DIGIT_9: u8 = 0x39;

pub const UPPER_A: u8 = 0x41;

pub const UPPER_F: u8 = 0x46;

pub const OPEN_BRACKET: u8 = 0x5b;

pub const CLOSE_BRACKET: u8 = 0x5d;

pub const LOWER_A: u8 = 0x61;

pub const LOWER_F: u8 = 0x66;

/// ASCII white space: tab, line feed, vertical tab, form feed, carriage return, space.
pub open spec fn spec_is_blank(byte: u8) -> bool {
    TAB <= byte <= CARRIAGE_RETURN || byte == SPACE
}

#[verifier::when_used_as_spec(spec_is_blank)]
pub fn is_blank(byte: u8) -> (blank: bool)
    ensures
        blank == spec_is_blank(byte),
{
    (TAB <= byte && byte <= CARRIAGE_RETURN) || byte == SPACE
}

/// The white space of two bytes: next line (U+0085) and no-break space (U+00A0).
pub open spec fn spec_is_blank_pair(first: u8, second: u8) -> bool {
    first == 0xc2 && (second == 0x85 || second == 0xa0)
}

#[verifier::when_used_as_spec(spec_is_blank_pair)]
pub fn is_blank_pair(first: u8, second: u8) -> (blank: bool)
    ensures
        blank == spec_is_blank_pair(first, second),
{
    first == 0xc2 && (second == 0x85 || second == 0xa0)
}

/// The white space of three bytes: the ogham space mark (U+1680), the spaces
/// U+2000 to U+200A, the line and paragraph separators (U+2028, U+2029), the
/// narrow no-break space (U+202F), the medium mathematical space (U+205F)
/// and the ideographic space (U+3000).
pub open spec fn spec_is_blank_triple(first: u8, second: u8, third: u8) -> bool {
    ||| first == 0xe1 && second == 0x9a && third == 0x80
    ||| first == 0xe2 && second == 0x80 && (0x80 <= third <= 0x8a || third == 0xa8 || third
        == 0xa9 || third == 0xaf)
    ||| first == 0xe2 && second == 0x81 && third == 0x9f
    ||| first == 0xe3 && second == 0x80 && third == 0x80
}

#[verifier::when_used_as_spec(spec_is_blank_triple)]
pub fn is_blank_triple(first: u8, second: u8, third: u8) -> (blank: bool)
    ensures
        blank == spec_is_blank_triple(first, second, third),
{
    (first == 0xe1 && second == 0x9a && third == 0x80) || (first == 0xe2 && second == 0x80 && ((
    0x80 <= third && third <= 0x8a) || third == 0xa8 || third == 0xa9 || third == 0xaf)) || (first
        == 0xe2 && second == 0x81 && third == 0x9f) || (first == 0xe3 && second == 0x80 && third
        == 0x80)
}

/// How many bytes the white-space character takes that `text` starts with;
/// 0 if it starts with none.
pub open spec fn spec_blank_start(text: Seq<u8>) -> int {
    if text.len() >= 1 && spec_is_blank(text[0]) {
        1
    } else if text.len() >= 2 && spec_is_blank_pair(text[0], text[1]) {
        2
    } else if text.len() >= 3 && spec_is_blank_triple(text[0], text[1], text[2]) {
        3
    } else {
        0
    }
}

/// How many bytes the white-space character takes that `text` ends with; 0
/// if it ends with none.
pub open spec fn spec_blank_end(text: Seq<u8>) -> int {
    let n = text.len() as int;
    if n >= 1 && spec_is_blank(text[n - 1]) {
        1
    } else if n >= 2 && spec_is_blank_pair(text[n - 2], text[n - 1]) {
        2
    } else if n >= 3 && spec_is_blank_triple(text[n - 3], text[n - 2], text[n - 1]) {
        3
    } else {
        0
    }
}

/// `text` without its leading white space.
pub open spec fn trim_start(text: Seq<u8>) -> Seq<u8>
    decreases text.len(),
{
    if spec_blank_start(text) > 0 {
        trim_start(text.skip(spec_blank_start(text)))
    } else {
        text
    }
}

/// `text` without its trailing white space.
pub open spec fn trim_end(text: Seq<u8>) -> Seq<u8>
    decreases text.len(),
{
    if spec_blank_end(text) > 0 {
        trim_end(text.take(text.len() - spec_blank_end(text)))
    } else {
        text
    }
}

/// `text` without the white space at either end.
pub open spec fn spec_trim(text: Seq<u8>) -> Seq<u8> {
    trim_end(trim_start(text))
}

fn blank_start(text: &[u8], from: usize, to: usize) -> (width: usize)
    requires
        from <= to <= text@.len(),
    ensures
        width == spec_blank_start(text@.subrange(from as int, to as int)),
        width <= to - from,
{
    let n = to - from;
    if n >= 1 && is_blank(text[from]) {
        1
    } else if n >= 2 && is_blank_pair(text[from], text[from + 1]) {
        2
    } else if n >= 3 && is_blank_triple(text[from], text[from + 1], text[from + 2]) {
        3
    } else {
        0
    }
}

fn blank_end(text: &[u8], from: usize, to: usize) -> (width: usize)
    requires
        from <= to <= text@.len(),
    ensures
        width == spec_blank_end(text@.subrange(from as int, to as int)),
        width <= to - from,
{
    let n = to - from;
    if n >= 1 && is_blank(text[to - 1]) {
        1
    } else if n >= 2 && is_blank_pair(text[to - 2], text[to - 1]) {
        2
    } else if n >= 3 && is_blank_triple(text[to - 3], text[to - 2], text[to - 1]) {
        3
    } else {
        0
    }
}

/// Strips the white space at both ends of `text`.
pub fn trim(text: &[u8]) -> (inner: &[u8])
    ensures
        inner@ == spec_trim(text@),
{
    let len = text.len();
    let mut start: usize = 0;
    assert(text@.subrange(0, len as int) =~= text@);
    loop
        invariant
            start <= len == text@.len(),
            trim_start(text@) == trim_start(text@.subrange(start as int, len as int)),
        ensures
            start <= len,
            trim_start(text@) == text@.subrange(start as int, len as int),
        decreases len - start,
    {
        let width = blank_start(text, start, len);
        if width == 0 {
            break ;
        }
        assert(text@.subrange(start as int, len as int).skip(width as int) =~= text@.subrange(
            start + width,
            len as int,
        ));
        start += width;
    }
    let ghost headless = text@.subrange(start as int, len as int);
    let mut end: usize = len;
    loop
        invariant
            start <= end <= len == text@.len(),
            trim_end(headless) == trim_end(text@.subrange(start as int, end as int)),
        ensures
            start <= end <= len,
            trim_end(headless) == text@.subrange(start as int, end as int),
        decreases end - start,
    {
        let width = blank_end(text, start, end);
        if width == 0 {
            break ;
        }
        assert(text@.subrange(start as int, end as int).take(end - start - width)
            =~= text@.subrange(start as int, end - width));
        end -= width;
    }
    &text[start..end]
}

/// Where the first `byte` of `text` stands; `text.len()` if it holds none.
pub open spec fn spec_position(text: Seq<u8>, byte: u8) -> int
    decreases text.len(),
{
    if text.len() == 0 || text[0] == byte {
        0
    } else {
        1 + spec_position(text.skip(1), byte)
    }
}

/// Length of the shortest prefix of `text` that holds its last `byte`; 0 if it
/// holds none. The last `byte`, where there is one, stands just before.
pub open spec fn spec_end_of_last(text: Seq<u8>, byte: u8) -> int
    decreases text.len(),
{
    if text.len() == 0 || text.last() == byte {
        text.len() as int
    } else {
        spec_end_of_last(text.drop_last(), byte)
    }
}

/// The first `byte` of `text` stands at `spec_position`, and nowhere before.
pub proof fn lemma_position(text: Seq<u8>, byte: u8)
    ensures
        0 <= spec_position(text, byte) <= text.len(),
        spec_position(text, byte) < text.len() ==> text[spec_position(text, byte)] == byte,
        forall|i: int| 0 <= i < spec_position(text, byte) ==> text[i] != byte,
    decreases text.len(),
{
    if text.len() == 0 || text[0] == byte {
    } else {
        let tail = text.skip(1);
        lemma_position(tail, byte);
        assert forall|i: int| 0 <= i < spec_position(text, byte) implies text[i] != byte by {
            if i > 0 {
                assert(text[i] == tail[i - 1]);
            }
        }
    }
}

/// Finds the first `byte` in `text`.
pub fn position(text: &[u8], byte: u8) -> (at: usize)
    ensures
        at == spec_position(text@, byte),
        at <= text.len(),
        at < text.len() ==> text@[at as int] == byte,
{
    let mut at: usize = 0;
    assert(text@.skip(0) =~= text@);
    while at < text.len() && text[at] != byte
        invariant
            at <= text.len(),
            spec_position(text@, byte) == at + spec_position(text@.skip(at as int), byte),
        decreases text.len() - at,
    {
        assert(text@.skip(at as int).skip(1) =~= text@.skip(at + 1));
        at += 1;
    }
    at
}

/// Finds the end of the last `byte` in `text`.
pub fn end_of_last(text: &[u8], byte: u8) -> (end: usize)
    ensures
        end == spec_end_of_last(text@, byte),
        end <= text.len(),
        end > 0 ==> text@[end - 1] == byte,
{
    let mut end: usize = text.len();
    assert(text@.take(end as int) =~= text@);
    while end > 0 && text[end - 1] != byte
        invariant
            end <= text.len(),
            spec_end_of_last(text@, byte) == spec_end_of_last(text@.take(end as int), byte),
        decreases end,
    {
        assert(text@.take(end as int).drop_last() =~= text@.take(end - 1));
        end -= 1;
    }
    end
}

/// Whether two byte strings hold the same bytes.
pub fn same_bytes(left: &[u8], right: &[u8]) -> (same: bool)
    ensures
        same == (left@ == right@),
{
    if left.len() != right.len() {
        return false;
    }
    let mut i: usize = 0;
    while i < left.len()
        invariant
            i <= left.len(),
            left.len() == right.len(),
            forall|j: int| 0 <= j < i ==> left@[j] == right@[j],
        decreases left.len() - i,
    {
        if left[i] != right[i] {
            return false;
        }
        i += 1;
    }
    assert(left@ =~= right@);
    true
}

} // verus!
