//! The map listing of a process: one line per mapped region, of which the
//! lines tagged `[stack]` and `[heap]` give the two regions that are searched.
//!
//! A line starts with the region's bounds, `start-end` in hexadecimal with a
//! hyphen between the two, followed by a space. Lines end in a line feed, with or without a carriage return
//! before it; the last line may go without.

use crate::text::{
    end_of_last, lemma_position, position, same_bytes, spec_end_of_last, spec_position,
    CARRIAGE_RETURN, CLOSE_BRACKET, HYPHEN, LINE_FEED, OPEN_BRACKET, SPACE,
};
use crate::number::{parse_unsigned, spec_parse_unsigned, Radix};
use crate::region::{MemoryRegion, RegionKind};
use vstd::prelude::*;
use vstd::string::StringSliceAdditionalSpecFns;

verus! {

/// Why a map listing was not understood.
#[derive(Clone, Copy, Debug, PartialEq, Eq, Structural)]
pub enum ParseError {
    /// The listing holds an empty line.
    EmptyLine,
    /// A line ends in `]` and holds no `[`.
    UnmatchedBracket,
    /// A tagged line holds no space after its bounds.
    MissingSeparator,
    /// The bounds are not two hexadecimal numerals of a word each with a
    /// hyphen in the middle between them.
    MalformedBounds,
    /// The region ends at or before its start.
    EmptyRegion,
    /// No line of the listing is tagged `[stack]`.
    NoStack,
}

/// The bounds `(start, end)` that the front of a line gives.
///
/// The bounds are the text before the first space. The character in its
/// middle must be a hyphen, and separates the two numerals; with an even
/// number of characters the first numeral is the shorter.
pub open spec fn spec_parse_bounds(entry: Seq<u8>) -> Result<(usize, usize), ParseError> {
    let space = spec_position(entry, SPACE);
    if space == entry.len() {
        Err(ParseError::MissingSeparator)
    } else if space == 0 {
        Err(ParseError::MalformedBounds)
    } else {
        let bounds = entry.take(space);
        let middle = (space - 1) / 2;
        if bounds[middle] != HYPHEN {
            Err(ParseError::MalformedBounds)
        } else {
            match (
                spec_parse_unsigned(bounds.take(middle), Radix::Hexadecimal),
                spec_parse_unsigned(bounds.skip(middle + 1), Radix::Hexadecimal),
            ) {
                (Some(start), Some(end)) => if start < end {
                    Ok((start, end))
                } else {
                    Err(ParseError::EmptyRegion)
                },
                _ => Err(ParseError::MalformedBounds),
            }
        }
    }
}

/// The bounds of a region, if there is one.
pub open spec fn bounds_of(region: Option<MemoryRegion>) -> Option<(usize, usize)> {
    match region {
        Some(r) => Some((r.spec_start(), r.spec_end())),
        None => None,
    }
}

fn parse_entry(entry: &[u8], kind: RegionKind) -> (region: Result<MemoryRegion, ParseError>)
    ensures
        match region {
            Ok(r) => spec_parse_bounds(entry@) == Ok::<_, ParseError>((r.spec_start(), r.spec_end()))
                && r.spec_kind() == kind,
            Err(e) => spec_parse_bounds(entry@) == Err::<(usize, usize), _>(e),
        },
{
    let space = position(entry, SPACE);
    if space == entry.len() {
        return Err(ParseError::MissingSeparator);
    }
    if space == 0 {
        return Err(ParseError::MalformedBounds);
    }
    let bounds = &entry[0..space];
    assert(bounds@ == entry@.take(space as int));
    let middle = (space - 1) / 2;
    if bounds[middle] != HYPHEN {
        return Err(ParseError::MalformedBounds);
    }
    let low = &bounds[0..middle];
    let high = &bounds[middle + 1..space];
    assert(low@ == bounds@.take(middle as int));
    assert(high@ == bounds@.skip(middle + 1));
    let start = match parse_unsigned(low, Radix::Hexadecimal) {
        Some(start) => start,
        None => {
            return Err(ParseError::MalformedBounds);
        },
    };
    let end = match parse_unsigned(high, Radix::Hexadecimal) {
        Some(end) => end,
        None => {
            return Err(ParseError::MalformedBounds);
        },
    };
    match MemoryRegion::new(kind, start, end) {
        Some(region) => Ok(region),
        None => Err(ParseError::EmptyRegion),
    }
}

/// Reads the bounds at the front of a line of the listing as a region of `kind`.
///
/// Succeeds exactly when the line holds a space, the text before it is two
/// hexadecimal numerals with a hyphen in the middle between them, and the
/// first is below the second.
pub fn parse_map(entry: &str, kind: RegionKind) -> (region: Result<MemoryRegion, ParseError>)
    ensures
        match region {
            Ok(r) => spec_parse_bounds(entry.spec_bytes()) == Ok::<_, ParseError>(
                (r.spec_start(), r.spec_end()),
            ) && r.spec_kind() == kind,
            Err(e) => spec_parse_bounds(entry.spec_bytes()) == Err::<(usize, usize), _>(e),
        },
{
    parse_entry(entry.as_bytes(), kind)
}

/// The tag of a line: the region kind that its bracketed suffix names.
///
/// Only a line that ends in `]` has a bracketed suffix, which starts at its
/// last `[`; such a line without a `[` is malformed.
pub open spec fn spec_tag(line: Seq<u8>) -> Result<Option<RegionKind>, ParseError> {
    if line.len() == 0 {
        Err(ParseError::EmptyLine)
    } else if line.last() != CLOSE_BRACKET {
        Ok(None)
    } else {
        let end = spec_end_of_last(line, OPEN_BRACKET);
        if end == 0 {
            Err(ParseError::UnmatchedBracket)
        } else if line.skip(end - 1) == "[heap]".spec_bytes() {
            Ok(Some(RegionKind::Heap))
        } else if line.skip(end - 1) == "[stack]".spec_bytes() {
            Ok(Some(RegionKind::Stack))
        } else {
            Ok(None)
        }
    }
}

fn tag(line: &[u8]) -> (kind: Result<Option<RegionKind>, ParseError>)
    ensures
        kind == spec_tag(line@),
{
    if line.len() == 0 {
        return Err(ParseError::EmptyLine);
    }
    if line[line.len() - 1] != CLOSE_BRACKET {
        return Ok(None);
    }
    let end = end_of_last(line, OPEN_BRACKET);
    if end == 0 {
        return Err(ParseError::UnmatchedBracket);
    }
    let suffix = &line[end - 1..line.len()];
    assert(suffix@ == line@.skip(end - 1));
    if same_bytes(suffix, "[heap]".as_bytes()) {
        Ok(Some(RegionKind::Heap))
    } else if same_bytes(suffix, "[stack]".as_bytes()) {
        Ok(Some(RegionKind::Stack))
    } else {
        Ok(None)
    }
}

/// The bounds found so far while reading a listing.
pub struct Found {
    pub stack: Option<(usize, usize)>,
    pub heap: Option<(usize, usize)>,
}

impl Found {
    pub open spec fn nothing() -> Found {
        Found { stack: None, heap: None }
    }

    pub open spec fn complete(self) -> bool {
        self.stack is Some && self.heap is Some
    }

    /// What is known after one more line: a tagged line replaces the bounds of
    /// its kind, any other line changes nothing.
    pub open spec fn with_line(self, line: Seq<u8>) -> Result<Found, ParseError> {
        match spec_tag(line) {
            Err(e) => Err(e),
            Ok(None) => Ok(self),
            Ok(Some(kind)) => match spec_parse_bounds(line) {
                Err(e) => Err(e),
                Ok(bounds) => Ok(
                    match kind {
                        RegionKind::Stack => Found { stack: Some(bounds), ..self },
                        RegionKind::Heap => Found { heap: Some(bounds), ..self },
                    },
                ),
            },
        }
    }

    /// What is known after the lines of `text`, read until both regions are
    /// found, a line is malformed or the text ends.
    pub open spec fn with_text(self, text: Seq<u8>) -> Result<Found, ParseError>
        decreases text.len(),
    {
        if text.len() == 0 || self.complete() {
            Ok(self)
        } else {
            proof {
                lemma_position(text, LINE_FEED);
            }
            match self.with_line(first_line(text)) {
                Err(e) => Err(e),
                Ok(found) => found.with_text(after_first_line(text)),
            }
        }
    }
}

/// The first line of a non-empty text, without its line ending.
pub open spec fn first_line(text: Seq<u8>) -> Seq<u8> {
    let end = spec_position(text, LINE_FEED);
    let line = text.take(end);
    if end < text.len() && line.len() > 0 && line.last() == CARRIAGE_RETURN {
        line.drop_last()
    } else {
        line
    }
}

/// What follows the first line of a text and its line ending.
pub open spec fn after_first_line(text: Seq<u8>) -> Seq<u8> {
    let end = spec_position(text, LINE_FEED);
    if end < text.len() {
        text.skip(end + 1)
    } else {
        Seq::empty()
    }
}

fn split_line(text: &[u8]) -> (parts: (&[u8], &[u8]))
    requires
        text@.len() > 0,
    ensures
        parts.0@ == first_line(text@),
        parts.1@ == after_first_line(text@),
        parts.1@.len() < text@.len(),
{
    let end = position(text, LINE_FEED);
    if end < text.len() {
        let rest = &text[end + 1..text.len()];
        assert(rest@ == text@.skip(end + 1));
        if end > 0 && text[end - 1] == CARRIAGE_RETURN {
            let line = &text[0..end - 1];
            assert(line@ == text@.take(end as int).drop_last());
            (line, rest)
        } else {
            let line = &text[0..end];
            assert(line@ == text@.take(end as int));
            (line, rest)
        }
    } else {
        let line = &text[0..end];
        let rest = &text[end..end];
        assert(line@ == text@.take(end as int));
        assert(rest@ == Seq::<u8>::empty());
        (line, rest)
    }
}

/// The stack and heap bounds that a listing gives.
///
/// Lines are read in order until both a `[stack]` and a `[heap]` line have
/// been seen; what follows is not looked at. A listing without a heap is in
/// order, one without a stack is not.
pub open spec fn spec_parse_listing(text: Seq<u8>) -> Result<
    ((usize, usize), Option<(usize, usize)>),
    ParseError,
> {
    match Found::nothing().with_text(text) {
        Err(e) => Err(e),
        Ok(found) => match found.stack {
            Some(stack) => Ok((stack, found.heap)),
            None => Err(ParseError::NoStack),
        },
    }
}

/// The lines of a text, in their order.
pub open spec fn lines_of(text: Seq<u8>) -> Seq<Seq<u8>>
    decreases text.len(),
{
    if text.len() == 0 {
        Seq::empty()
    } else {
        proof {
            lemma_position(text, LINE_FEED);
        }
        seq![first_line(text)] + lines_of(after_first_line(text))
    }
}

/// Whether a line is well-formed: it is not empty, a closing bracket at its
/// end has its opening bracket, and where it is tagged its bounds can be read.
pub open spec fn line_in_order(line: Seq<u8>) -> bool {
    match spec_tag(line) {
        Err(_) => false,
        Ok(None) => true,
        Ok(Some(_)) => spec_parse_bounds(line) is Ok,
    }
}

/// Whether one of `lines` is tagged as the region of `kind`.
pub open spec fn has_tag(lines: Seq<Seq<u8>>, kind: RegionKind) -> bool {
    exists|i: int| 0 <= i < lines.len() && spec_tag(#[trigger] lines[i]) == Ok::<_, ParseError>(
        Some(kind),
    )
}

/// Reading well-formed lines never fails, and finds a region of a kind
/// exactly when it had been found before or one of the lines is tagged so.
pub proof fn lemma_with_text_in_order(found: Found, text: Seq<u8>)
    requires
        forall|i: int| 0 <= i < lines_of(text).len() ==> line_in_order(#[trigger] lines_of(text)[i]),
    ensures
        found.with_text(text) matches Ok(after) && (after.stack is Some <==> found.stack is Some
            || has_tag(lines_of(text), RegionKind::Stack)) && (after.heap is Some
            <==> found.heap is Some || has_tag(lines_of(text), RegionKind::Heap)),
    decreases text.len(),
{
    let lines = lines_of(text);
    if text.len() == 0 {
    } else {
        lemma_position(text, LINE_FEED);
        let line = first_line(text);
        let rest = after_first_line(text);
        let later = lines_of(rest);
        assert(lines[0] == line);
        assert(line_in_order(line));
        assert forall|i: int| 0 <= i < later.len() implies line_in_order(#[trigger] later[i]) by {
            assert(lines[i + 1] == later[i]);
        }
        assert forall|kind: RegionKind|
            has_tag(lines, kind) <==> spec_tag(line) == Ok::<_, ParseError>(Some(kind))
                || has_tag(later, kind) by {
            if has_tag(lines, kind) {
                let i = choose|i: int|
                    0 <= i < lines.len() && spec_tag(#[trigger] lines[i]) == Ok::<_, ParseError>(
                        Some(kind),
                    );
                if i > 0 {
                    assert(later[i - 1] == lines[i]);
                }
            }
            if has_tag(later, kind) {
                let i = choose|i: int|
                    0 <= i < later.len() && spec_tag(#[trigger] later[i]) == Ok::<_, ParseError>(
                        Some(kind),
                    );
                assert(lines[i + 1] == later[i]);
            }
        }
        if !found.complete() {
            let next = found.with_line(line)->Ok_0;
            lemma_with_text_in_order(next, rest);
        }
    }
}

/// A listing of well-formed lines gives its regions exactly when a line is
/// tagged `[stack]`, and then a heap exactly when a line is tagged `[heap]`.
pub proof fn lemma_listing_in_order(text: Seq<u8>)
    requires
        forall|i: int| 0 <= i < lines_of(text).len() ==> line_in_order(#[trigger] lines_of(text)[i]),
    ensures
        spec_parse_listing(text) is Ok <==> has_tag(lines_of(text), RegionKind::Stack),
        spec_parse_listing(text) matches Ok((_, heap)) ==> (heap is Some <==> has_tag(
            lines_of(text),
            RegionKind::Heap,
        )),
        !has_tag(lines_of(text), RegionKind::Stack) ==> spec_parse_listing(text) == Err::<
            ((usize, usize), Option<(usize, usize)>),
            _,
        >(ParseError::NoStack),
{
    lemma_with_text_in_order(Found::nothing(), text);
}

/// Finds the stack and, if there is one, the heap in the map listing of a process.
///
/// Fails exactly when a line read before both were found is empty, ends in
/// `]` without a `[`, or is tagged and has malformed bounds, or when the
/// listing has no `[stack]` line.
pub fn parse_pid_maps(listing: &str) -> (regions: Result<
    (MemoryRegion, Option<MemoryRegion>),
    ParseError,
>)
    ensures
        match regions {
            Ok((stack, heap)) => {
                &&& spec_parse_listing(listing.spec_bytes()) == Ok::<_, ParseError>(
                    ((stack.spec_start(), stack.spec_end()), bounds_of(heap)),
                )
                &&& stack.spec_kind() == RegionKind::Stack
                &&& heap matches Some(h) ==> h.spec_kind() == RegionKind::Heap
            },
            Err(e) => spec_parse_listing(listing.spec_bytes()) == Err::<
                ((usize, usize), Option<(usize, usize)>),
                _,
            >(e),
        },
{
    let text = listing.as_bytes();
    let mut stack: Option<MemoryRegion> = None;
    let mut heap: Option<MemoryRegion> = None;
    let mut rest = text;
    while rest.len() > 0 && !(stack.is_some() && heap.is_some())
        invariant
            text@ == listing.spec_bytes(),
            Found::nothing().with_text(text@) == (Found {
                stack: bounds_of(stack),
                heap: bounds_of(heap),
            }).with_text(rest@),
            stack matches Some(s) ==> s.spec_kind() == RegionKind::Stack,
            heap matches Some(h) ==> h.spec_kind() == RegionKind::Heap,
        decreases rest@.len(),
    {
        let ghost before = Found { stack: bounds_of(stack), heap: bounds_of(heap) };
        let (line, tail) = split_line(rest);
        assert(before.with_text(rest@) == match before.with_line(line@) {
            Err(e) => Err(e),
            Ok(found) => found.with_text(tail@),
        });
        match tag(line) {
            Err(e) => {
                return Err(e);
            },
            Ok(None) => {},
            Ok(Some(RegionKind::Stack)) => match parse_entry(line, RegionKind::Stack) {
                Ok(region) => {
                    stack = Some(region);
                },
                Err(e) => {
                    return Err(e);
                },
            },
            Ok(Some(RegionKind::Heap)) => match parse_entry(line, RegionKind::Heap) {
                Ok(region) => {
                    heap = Some(region);
                },
                Err(e) => {
                    return Err(e);
                },
            },
        }
        rest = tail;
    }
    match stack {
        Some(stack) => Ok((stack, heap)),
        None => Err(ParseError::NoStack),
    }
}

} // verus!
