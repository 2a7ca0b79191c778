//! Machine words as they lie in memory.
//!
//! A word is as many bytes as an address: four or eight. Which of its bytes
//! counts most depends on the machine and is told by a [`ByteOrder`].

use vstd::prelude::*;

verus! {

/// The order in which the bytes of a word lie in memory.
#[derive(Clone, Copy, Debug, PartialEq, Eq, Structural)]
pub enum ByteOrder {
    /// The byte that counts least comes first.
    LittleEndian,
    /// The byte that counts most comes first.
    BigEndian,
}

/// Bytes in a word.
pub open spec fn spec_word_size() -> usize {
    (usize::BITS / 8) as usize
}

/// Bytes in a word.
#[verifier::when_used_as_spec(spec_word_size)]
pub fn word_size() -> (size: usize)
    ensures
        size == spec_word_size(),
        size == 4 || size == 8,
{
    (usize::BITS / 8) as usize
}

/// The number that `bytes` spell when the first counts most.
pub open spec fn big_endian_value(bytes: Seq<u8>) -> nat
    decreases bytes.len(),
{
    if bytes.len() == 0 {
        0
    } else {
        big_endian_value(bytes.drop_last()) * 256 + bytes.last() as nat
    }
}

/// The number that `bytes` spell when the first counts least.
pub open spec fn little_endian_value(bytes: Seq<u8>) -> nat
    decreases bytes.len(),
{
    if bytes.len() == 0 {
        0
    } else {
        bytes[0] as nat + 256 * little_endian_value(bytes.skip(1))
    }
}

/// The number that `bytes` spell in the given order.
pub open spec fn bytes_value(bytes: Seq<u8>, order: ByteOrder) -> nat {
    match order {
        ByteOrder::LittleEndian => little_endian_value(bytes),
        ByteOrder::BigEndian => big_endian_value(bytes),
    }
}

/// The word that `bytes` hold, if they are as many as a word has.
pub open spec fn spec_word(bytes: Seq<u8>, order: ByteOrder) -> Option<usize> {
    if bytes.len() == spec_word_size() {
        Some(bytes_value(bytes, order) as usize)
    } else {
        None
    }
}

/// 256 to the power of `n`: the numbers that `n` bytes can spell.
pub open spec fn byte_range(n: nat) -> nat
    decreases n,
{
    if n == 0 {
        1
    } else {
        256 * byte_range((n - 1) as nat)
    }
}

/// `n` bytes spell a number below `256^n`.
pub proof fn lemma_value_below_range(bytes: Seq<u8>, order: ByteOrder)
    ensures
        bytes_value(bytes, order) < byte_range(bytes.len()),
    decreases bytes.len(),
{
    if bytes.len() > 0 {
        match order {
            ByteOrder::LittleEndian => lemma_value_below_range(bytes.skip(1), order),
            ByteOrder::BigEndian => lemma_value_below_range(bytes.drop_last(), order),
        }
    }
}

/// The bytes of a word spell a number that a word can hold.
pub proof fn lemma_word_fits(bytes: Seq<u8>, order: ByteOrder)
    requires
        bytes.len() == spec_word_size(),
    ensures
        bytes_value(bytes, order) <= usize::MAX,
{
    lemma_value_below_range(bytes, order);
    reveal_with_fuel(byte_range, 9);
    if usize::BITS == 32 {
        assert(byte_range(4) == 0x1_0000_0000);
    } else {
        assert(byte_range(8) == 0x1_0000_0000_0000_0000);
    }
}

/// The leading bytes of a big-endian number spell no more than all of them.
proof fn lemma_big_endian_prefix(bytes: Seq<u8>, n: int)
    requires
        0 <= n <= bytes.len(),
    ensures
        big_endian_value(bytes.take(n)) <= big_endian_value(bytes),
    decreases bytes.len(),
{
    if n == bytes.len() {
        assert(bytes.take(n) =~= bytes);
    } else {
        assert(bytes.drop_last().take(n) =~= bytes.take(n));
        lemma_big_endian_prefix(bytes.drop_last(), n);
    }
}

/// The trailing bytes of a little-endian number spell no more than all of them.
proof fn lemma_little_endian_suffix(bytes: Seq<u8>, n: int)
    requires
        0 <= n <= bytes.len(),
    ensures
        little_endian_value(bytes.skip(n)) <= little_endian_value(bytes),
    decreases bytes.len(),
{
    if n == 0 {
        assert(bytes.skip(0) =~= bytes);
    } else {
        assert(bytes.skip(1).skip(n - 1) =~= bytes.skip(n));
        lemma_little_endian_suffix(bytes.skip(1), n - 1);
    }
}

/// Reads a word from the bytes that hold it.
///
/// There is a word exactly when `slice` has as many bytes as a word.
pub fn u8_slice_to_usize(slice: &[u8], order: ByteOrder) -> (word: Option<usize>)
    ensures
        word == spec_word(slice@, order),
{
    let size = word_size();
    if slice.len() != size {
        return None;
    }
    proof {
        lemma_word_fits(slice@, order);
    }
    let mut word: usize = 0;
    match order {
        ByteOrder::BigEndian => {
            let mut i: usize = 0;
            while i < size
                invariant
                    i <= size == slice@.len(),
                    word == big_endian_value(slice@.take(i as int)),
                    big_endian_value(slice@) <= usize::MAX,
                decreases size - i,
            {
                proof {
                    assert(slice@.take(i + 1).drop_last() =~= slice@.take(i as int));
                    lemma_big_endian_prefix(slice@, i + 1);
                }
                word = word * 256 + slice[i] as usize;
                i += 1;
            }
            assert(slice@.take(size as int) =~= slice@);
        },
        ByteOrder::LittleEndian => {
            let mut i: usize = size;
            assert(slice@.skip(size as int) =~= Seq::<u8>::empty());
            while i > 0
                invariant
                    i <= size == slice@.len(),
                    word == little_endian_value(slice@.skip(i as int)),
                    little_endian_value(slice@) <= usize::MAX,
                decreases i,
            {
                proof {
                    assert(slice@.skip(i - 1).skip(1) =~= slice@.skip(i as int));
                    lemma_little_endian_suffix(slice@, i - 1);
                }
                i -= 1;
                word = word * 256 + slice[i] as usize;
            }
            assert(slice@.skip(0) =~= slice@);
        },
    }
    Some(word)
}

} // verus!
