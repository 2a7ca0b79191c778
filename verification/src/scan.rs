//! Searching a copy of a region for a word.
//!
//! The copy is cut into words from its first byte on; bytes at the end that
//! do not make up a word belong to none. Each word that holds the value
//! sought gives one result: the place of its first byte.

use crate::region::MemoryRegion;
use crate::word::{spec_word, spec_word_size, u8_slice_to_usize, word_size, ByteOrder};
use vstd::prelude::*;

verus! {

/// The places, from `base` on and in ascending order, of the words of
/// `buffer` that hold `value`, where the first byte of `buffer` is at `base`.
pub open spec fn spec_find(buffer: Seq<u8>, value: usize, order: ByteOrder, base: int) -> Seq<
    int,
>
    decreases buffer.len(),
{
    let size = spec_word_size() as int;
    if buffer.len() < size {
        Seq::empty()
    } else {
        let rest = spec_find(buffer.skip(size), value, order, base + size);
        if spec_word(buffer.take(size), order) == Some(value) {
            seq![base] + rest
        } else {
            rest
        }
    }
}

/// Whether a word of `buffer` starts `offset` bytes into it.
pub open spec fn is_word_offset(buffer: Seq<u8>, offset: int) -> bool {
    &&& 0 <= offset
    &&& offset % (spec_word_size() as int) == 0
    &&& offset + spec_word_size() <= buffer.len()
}

/// Whether the word that starts `offset` bytes into `buffer` holds `value`.
pub open spec fn holds_at(buffer: Seq<u8>, value: usize, order: ByteOrder, offset: int) -> bool {
    &&& is_word_offset(buffer, offset)
    &&& spec_word(buffer.subrange(offset, offset + spec_word_size()), order) == Some(value)
}

/// A word of what follows the first word of `buffer` is a word of `buffer`,
/// one word further on, and the other way round.
proof fn lemma_shift_word(buffer: Seq<u8>, value: usize, order: ByteOrder, offset: int)
    requires
        buffer.len() >= spec_word_size(),
    ensures
        holds_at(buffer.skip(spec_word_size() as int), value, order, offset) <==> offset >= 0
            && holds_at(buffer, value, order, offset + spec_word_size()),
{
    let size = spec_word_size() as int;
    let tail = buffer.skip(size);
    if offset >= 0 && offset + size <= tail.len() {
        assert(tail.subrange(offset, offset + size) =~= buffer.subrange(
            offset + size,
            offset + size + size,
        ));
    }
    if offset % size == 0 {
        lemma_next_word_offset(offset);
    }
    if (offset + size) % size == 0 {
        lemma_previous_word_offset(offset + size);
    }
}

/// Every result of a scan is the place of a word that holds the value.
pub proof fn lemma_find_sound(buffer: Seq<u8>, value: usize, order: ByteOrder, base: int, i: int)
    requires
        0 <= i < spec_find(buffer, value, order, base).len(),
    ensures
        holds_at(buffer, value, order, spec_find(buffer, value, order, base)[i] - base),
    decreases buffer.len(),
{
    let size = spec_word_size() as int;
    let rest = spec_find(buffer.skip(size), value, order, base + size);
    let first = spec_word(buffer.take(size), order) == Some(value);
    assert(buffer.take(size) =~= buffer.subrange(0, 0 + size));
    if first && i == 0 {
    } else {
        let k = if first {
            i - 1
        } else {
            i
        };
        lemma_find_sound(buffer.skip(size), value, order, base + size, k);
        lemma_shift_word(buffer, value, order, rest[k] - (base + size));
    }
}

/// The place of every word that holds the value is a result of the scan.
pub proof fn lemma_find_complete(
    buffer: Seq<u8>,
    value: usize,
    order: ByteOrder,
    base: int,
    offset: int,
)
    requires
        holds_at(buffer, value, order, offset),
    ensures
        spec_find(buffer, value, order, base).contains(base + offset),
    decreases buffer.len(),
{
    let size = spec_word_size() as int;
    let found = spec_find(buffer, value, order, base);
    let rest = spec_find(buffer.skip(size), value, order, base + size);
    let first = spec_word(buffer.take(size), order) == Some(value);
    assert(buffer.take(size) =~= buffer.subrange(0, 0 + size));
    if offset == 0 {
        assert(found[0] == base);
    } else {
        lemma_previous_word_offset(offset);
        lemma_shift_word(buffer, value, order, offset - size);
        lemma_find_complete(buffer.skip(size), value, order, base + size, offset - size);
        let k = choose|k: int| 0 <= k < rest.len() && rest[k] == base + offset;
        if first {
            assert(found[k + 1] == rest[k]);
        } else {
            assert(found[k] == rest[k]);
        }
    }
}

/// The results of a scan are in strictly ascending order.
pub proof fn lemma_find_ascending(
    buffer: Seq<u8>,
    value: usize,
    order: ByteOrder,
    base: int,
    i: int,
    j: int,
)
    requires
        0 <= i < j < spec_find(buffer, value, order, base).len(),
    ensures
        spec_find(buffer, value, order, base)[i] < spec_find(buffer, value, order, base)[j],
    decreases buffer.len(),
{
    let size = spec_word_size() as int;
    let found = spec_find(buffer, value, order, base);
    let tail = buffer.skip(size);
    let rest = spec_find(tail, value, order, base + size);
    let first = spec_word(buffer.take(size), order) == Some(value);
    if first {
        assert(found[j] == rest[j - 1]);
        if i == 0 {
            lemma_find_sound(tail, value, order, base + size, j - 1);
        } else {
            assert(found[i] == rest[i - 1]);
            lemma_find_ascending(tail, value, order, base + size, i - 1, j - 1);
        }
    } else {
        lemma_find_ascending(tail, value, order, base + size, i, j);
    }
}

/// A scan finds every word that holds the value, and nothing else.
///
/// The results are in strictly ascending order, and a place is among them
/// exactly when it is that of a word of the buffer that holds the value. So
/// there is no result exactly when no word holds it.
pub proof fn lemma_find_exact(buffer: Seq<u8>, value: usize, order: ByteOrder, base: int)
    ensures
        ({
            let found = spec_find(buffer, value, order, base);
            &&& forall|i: int, j: int| 0 <= i < j < found.len() ==> found[i] < found[j]
            &&& forall|place: int|
                found.contains(place) <==> #[trigger] holds_at(buffer, value, order, place - base)
            &&& found.len() == 0 <==> forall|offset: int|
                !#[trigger] holds_at(buffer, value, order, offset)
        }),
{
    let found = spec_find(buffer, value, order, base);
    assert forall|i: int, j: int| 0 <= i < j < found.len() implies found[i] < found[j] by {
        lemma_find_ascending(buffer, value, order, base, i, j);
    }
    assert forall|place: int| found.contains(place) <==> #[trigger] holds_at(
        buffer,
        value,
        order,
        place - base,
    ) by {
        if found.contains(place) {
            let i = choose|i: int| 0 <= i < found.len() && found[i] == place;
            lemma_find_sound(buffer, value, order, base, i);
        }
        if holds_at(buffer, value, order, place - base) {
            lemma_find_complete(buffer, value, order, base, place - base);
        }
    }
    if found.len() == 0 {
        assert forall|offset: int| !#[trigger] holds_at(buffer, value, order, offset) by {
            if holds_at(buffer, value, order, offset) {
                lemma_find_complete(buffer, value, order, base, offset);
            }
        }
    } else {
        lemma_find_sound(buffer, value, order, base, 0);
    }
}

/// Addresses as numbers.
pub open spec fn as_ints(addresses: Seq<usize>) -> Seq<int> {
    addresses.map_values(|address: usize| address as int)
}

/// Searches `buffer`, whose first byte is at `base`.
fn find_from(buffer: &[u8], value: usize, order: ByteOrder, base: usize) -> (found: Vec<usize>)
    requires
        base + buffer@.len() <= usize::MAX,
    ensures
        as_ints(found@) == spec_find(buffer@, value, order, base as int),
{
    let size = word_size();
    let mut found: Vec<usize> = Vec::new();
    let mut offset: usize = 0;
    assert(buffer@.skip(0) =~= buffer@);
    assert(as_ints(found@) + spec_find(buffer@, value, order, base as int) =~= spec_find(
        buffer@,
        value,
        order,
        base as int,
    ));
    while buffer.len() - offset >= size
        invariant
            offset <= buffer@.len(),
            base + buffer@.len() <= usize::MAX,
            size == spec_word_size(),
            as_ints(found@) + spec_find(buffer@.skip(offset as int), value, order, base + offset)
                == spec_find(buffer@, value, order, base as int),
        decreases buffer@.len() - offset,
    {
        let ghost before = as_ints(found@);
        let ghost ahead = buffer@.skip(offset as int);
        let ghost rest = spec_find(ahead.skip(size as int), value, order, base + offset + size);
        assert(ahead.take(size as int) =~= buffer@.subrange(offset as int, offset + size));
        assert(ahead.skip(size as int) =~= buffer@.skip(offset + size));
        let holds = match u8_slice_to_usize(&buffer[offset..offset + size], order) {
            Some(word) => word == value,
            None => false,
        };
        if holds {
            found.push(base + offset);
            assert(as_ints(found@) =~= before.push(base + offset));
            assert(before.push(base + offset) + rest =~= before + (seq![base + offset] + rest));
        }
        offset += size;
    }
    assert(as_ints(found@) + Seq::<int>::empty() =~= as_ints(found@));
    found
}

/// What a search has found is in strictly ascending order, and a place is
/// among it exactly when a word of the buffer that holds the value starts there.
proof fn lemma_found_exact(
    found: Seq<usize>,
    buffer: Seq<u8>,
    value: usize,
    order: ByteOrder,
    base: usize,
)
    requires
        as_ints(found) == spec_find(buffer, value, order, base as int),
    ensures
        forall|i: int, j: int| 0 <= i < j < found.len() ==> found[i] < found[j],
        forall|place: usize|
            found.contains(place) <==> #[trigger] holds_at(buffer, value, order, place - base),
        found.len() == 0 <==> forall|offset: int| !#[trigger] holds_at(buffer, value, order, offset),
{
    let places = spec_find(buffer, value, order, base as int);
    lemma_find_exact(buffer, value, order, base as int);
    assert forall|i: int, j: int| 0 <= i < j < found.len() implies found[i] < found[j] by {
        assert(places[i] == found[i] as int);
        assert(places[j] == found[j] as int);
    }
    assert forall|place: usize| found.contains(place) <==> #[trigger] holds_at(
        buffer,
        value,
        order,
        place - base,
    ) by {
        if found.contains(place) {
            let i = choose|i: int| 0 <= i < found.len() && found[i] == place;
            assert(places[i] == place as int);
            lemma_find_sound(buffer, value, order, base as int, i);
        }
        if holds_at(buffer, value, order, place - base) {
            lemma_find_complete(buffer, value, order, base as int, place - base);
            let i = choose|i: int| 0 <= i < places.len() && places[i] == place as int;
            assert(found[i] == place);
        }
    }
}

/// Finds the words of `buffer` that hold `value`.
///
/// The result holds, in ascending order, how many bytes into the buffer each
/// of them starts: every such offset, and nothing else.
pub fn find_usize_in_buffer(buffer: &[u8], value: usize, order: ByteOrder) -> (offsets: Vec<usize>)
    ensures
        as_ints(offsets@) == spec_find(buffer@, value, order, 0),
        forall|i: int, j: int| 0 <= i < j < offsets@.len() ==> offsets@[i] < offsets@[j],
        forall|offset: usize|
            offsets@.contains(offset) <==> #[trigger] holds_at(buffer@, value, order, offset as int),
        offsets@.len() == 0 <==> forall|offset: int|
            !#[trigger] holds_at(buffer@, value, order, offset),
{
    assert(buffer@.len() <= usize::MAX) by {
        vstd::slice::axiom_spec_len(buffer);
    }
    let offsets = find_from(buffer, value, order, 0);
    proof {
        lemma_found_exact(offsets@, buffer@, value, order, 0);
        assert forall|offset: usize|
            holds_at(buffer@, value, order, offset - 0) == #[trigger] holds_at(
                buffer@,
                value,
                order,
                offset as int,
            ) by {}
    }
    offsets
}

/// Finds the words that hold `value` in `buffer`, a copy of `memory_region`.
///
/// The result holds their addresses in ascending order: the address of
/// every such word, and nothing else.
pub fn find_usize_in_memory_region(
    buffer: &[u8],
    value: usize,
    memory_region: &MemoryRegion,
    order: ByteOrder,
) -> (addresses: Vec<usize>)
    requires
        buffer@.len() == memory_region.spec_size(),
    ensures
        as_ints(addresses@) == spec_find(buffer@, value, order, memory_region.spec_start() as int),
        forall|i: int, j: int| 0 <= i < j < addresses@.len() ==> addresses@[i] < addresses@[j],
        forall|address: usize|
            addresses@.contains(address) <==> #[trigger] holds_at(
                buffer@,
                value,
                order,
                address - memory_region.spec_start(),
            ),
        addresses@.len() == 0 <==> forall|offset: int|
            !#[trigger] holds_at(buffer@, value, order, offset),
{
    let start = memory_region.start();
    assert(start + buffer@.len() == memory_region.spec_end());
    let addresses = find_from(buffer, value, order, start);
    proof {
        lemma_found_exact(addresses@, buffer@, value, order, start);
    }
    addresses
}

/// One word after a word offset comes the next.
proof fn lemma_next_word_offset(offset: int)
    requires
        offset % (spec_word_size() as int) == 0,
    ensures
        (offset + spec_word_size()) % (spec_word_size() as int) == 0,
{
    let size = spec_word_size() as int;
    if size == 4 {
        assert(offset % 4 == 0);
        assert((offset + 4) % 4 == 0);
    } else {
        assert(size == 8);
        assert(offset % 8 == 0);
        assert((offset + 8) % 8 == 0);
    }
}

/// One word before a word offset comes the one before.
proof fn lemma_previous_word_offset(offset: int)
    requires
        offset % (spec_word_size() as int) == 0,
    ensures
        (offset - spec_word_size()) % (spec_word_size() as int) == 0,
        offset > 0 ==> offset >= spec_word_size(),
{
    let size = spec_word_size() as int;
    if size == 4 {
        assert(offset % 4 == 0);
        assert((offset - 4) % 4 == 0);
    } else {
        assert(size == 8);
        assert(offset % 8 == 0);
        assert((offset - 8) % 8 == 0);
    }
}

} // verus!
