//! Narrowing a list of candidate addresses.
//!
//! After the word at each candidate has been read again, the candidates whose
//! word is the value sought stay, in the order they had, and the others go.

use vstd::prelude::*;

verus! {

/// The `addresses` whose word, at the same place in `words`, is `value`.
pub open spec fn retained(addresses: Seq<usize>, words: Seq<usize>, value: usize) -> Seq<usize>
    decreases addresses.len(),
{
    if addresses.len() == 0 {
        Seq::empty()
    } else {
        let before = retained(addresses.drop_last(), words.drop_last(), value);
        if words.last() == value {
            before.push(addresses.last())
        } else {
            before
        }
    }
}

/// The words that a memory holds at `addresses`.
pub open spec fn words_at(memory: spec_fn(usize) -> usize, addresses: Seq<usize>) -> Seq<usize> {
    addresses.map_values(memory)
}

/// Filtering never makes a list longer, whatever the words are.
pub proof fn lemma_retained_no_longer(addresses: Seq<usize>, words: Seq<usize>, value: usize)
    ensures
        retained(addresses, words, value).len() <= addresses.len(),
    decreases addresses.len(),
{
    if addresses.len() > 0 {
        lemma_retained_no_longer(addresses.drop_last(), words.drop_last(), value);
    }
}

/// `origin` tells, for each of `kept`, a place in `addresses` that holds it
/// and where the word is `value`, and later ones come from later places.
pub open spec fn selects(
    origin: Seq<int>,
    kept: Seq<usize>,
    addresses: Seq<usize>,
    words: Seq<usize>,
    value: usize,
) -> bool {
    &&& origin.len() == kept.len()
    &&& forall|k: int|
        0 <= k < origin.len() ==> 0 <= #[trigger] origin[k] < addresses.len()
            && addresses[origin[k]] == kept[k] && words[origin[k]] == value
    &&& forall|k: int, l: int|
        0 <= k < l < origin.len() ==> #[trigger] origin[k] < #[trigger] origin[l]
}

/// What stays after filtering was there before, where the word is the value,
/// and in the same order.
pub proof fn lemma_retained_in_order(addresses: Seq<usize>, words: Seq<usize>, value: usize) -> (origin:
    Seq<int>)
    requires
        words.len() == addresses.len(),
    ensures
        selects(origin, retained(addresses, words, value), addresses, words, value),
    decreases addresses.len(),
{
    let kept = retained(addresses, words, value);
    if addresses.len() == 0 {
        Seq::<int>::empty()
    } else {
        let shorter = addresses.drop_last();
        let before = retained(shorter, words.drop_last(), value);
        let inner = lemma_retained_in_order(shorter, words.drop_last(), value);
        let origin = if words.last() == value {
            inner.push(addresses.len() - 1)
        } else {
            inner
        };
        assert forall|k: int| 0 <= k < origin.len() implies 0 <= #[trigger] origin[k]
            < addresses.len() && addresses[origin[k]] == kept[k] && words[origin[k]] == value by {
            if k < inner.len() {
                assert(origin[k] == inner[k]);
                assert(shorter[inner[k]] == addresses[inner[k]]);
                assert(words.drop_last()[inner[k]] == words[inner[k]]);
            }
        }
        assert forall|k: int, l: int| 0 <= k < l < origin.len() implies #[trigger] origin[k]
            < #[trigger] origin[l] by {
            assert(origin[k] == inner[k]);
            if l < inner.len() {
                assert(origin[l] == inner[l]);
            }
        }
        origin
    }
}

/// Every address whose word is the value stays.
pub proof fn lemma_retained_complete(
    addresses: Seq<usize>,
    words: Seq<usize>,
    value: usize,
    i: int,
)
    requires
        words.len() == addresses.len(),
        0 <= i < addresses.len(),
        words[i] == value,
    ensures
        retained(addresses, words, value).contains(addresses[i]),
    decreases addresses.len(),
{
    let before = retained(addresses.drop_last(), words.drop_last(), value);
    if i == addresses.len() - 1 {
        assert(before.push(addresses.last()).last() == addresses[i]);
    } else {
        lemma_retained_complete(addresses.drop_last(), words.drop_last(), value, i);
        let k = choose|k: int| 0 <= k < before.len() && before[k] == addresses[i];
        assert(retained(addresses, words, value)[k] == addresses[i]);
    }
}

/// Filtering a list in strictly ascending order leaves it so.
pub proof fn lemma_retained_ascending(addresses: Seq<usize>, words: Seq<usize>, value: usize)
    requires
        words.len() == addresses.len(),
        forall|i: int, j: int| 0 <= i < j < addresses.len() ==> addresses[i] < addresses[j],
    ensures
        forall|i: int, j: int|
            0 <= i < j < retained(addresses, words, value).len() ==> retained(
                addresses,
                words,
                value,
            )[i] < retained(addresses, words, value)[j],
{
    let kept = retained(addresses, words, value);
    let origin = lemma_retained_in_order(addresses, words, value);
    assert forall|i: int, j: int| 0 <= i < j < kept.len() implies kept[i] < kept[j] by {
        assert(origin[i] < origin[j]);
        assert(addresses[origin[i]] == kept[i]);
        assert(addresses[origin[j]] == kept[j]);
    }
}

/// A list all of whose words are the value stays as it is.
pub proof fn lemma_retained_all(addresses: Seq<usize>, words: Seq<usize>, value: usize)
    requires
        words.len() == addresses.len(),
        forall|i: int| 0 <= i < words.len() ==> words[i] == value,
    ensures
        retained(addresses, words, value) == addresses,
    decreases addresses.len(),
{
    if addresses.len() > 0 {
        lemma_retained_all(addresses.drop_last(), words.drop_last(), value);
        assert(addresses.drop_last().push(addresses.last()) =~= addresses);
    } else {
        assert(addresses =~= Seq::empty());
    }
}

/// Every address that stays has the value as its word in a memory that the
/// words were read from.
pub proof fn lemma_retained_hold_value(
    memory: spec_fn(usize) -> usize,
    addresses: Seq<usize>,
    value: usize,
)
    ensures
        forall|i: int|
            0 <= i < retained(addresses, words_at(memory, addresses), value).len() ==> memory(
                #[trigger] retained(addresses, words_at(memory, addresses), value)[i],
            ) == value,
{
    let words = words_at(memory, addresses);
    let kept = retained(addresses, words, value);
    let origin = lemma_retained_in_order(addresses, words, value);
    assert forall|i: int| 0 <= i < kept.len() implies memory(#[trigger] kept[i]) == value by {
        assert(addresses[origin[i]] == kept[i]);
        assert(words[origin[i]] == memory(addresses[origin[i]]));
    }
}

/// Filtering is idempotent: while the memory does not change, filtering the
/// survivors again for the same value leaves them as they are.
pub proof fn lemma_filter_idempotent(
    memory: spec_fn(usize) -> usize,
    addresses: Seq<usize>,
    value: usize,
)
    ensures
        ({
            let once = retained(addresses, words_at(memory, addresses), value);
            retained(once, words_at(memory, once), value) == once
        }),
{
    let once = retained(addresses, words_at(memory, addresses), value);
    lemma_retained_hold_value(memory, addresses, value);
    lemma_retained_all(once, words_at(memory, once), value);
}

/// Keeps the `addresses` whose word in `words` is `value`.
///
/// `words` holds, for each address in turn, the word now at that address.
/// The addresses that stay keep their order, and the list does not grow.
/// There is nothing to filter in an empty list: the caller sees to it that
/// the list holds an address.
pub fn filter_addresses(addresses: &mut Vec<usize>, words: &[usize], value: usize)
    requires
        old(addresses)@.len() > 0,
        words@.len() == old(addresses)@.len(),
    ensures
        final(addresses)@ == retained(old(addresses)@, words@, value),
        final(addresses)@.len() <= old(addresses)@.len(),
{
    let ghost before = addresses@;
    let len = addresses.len();
    let mut kept: usize = 0;
    let mut i: usize = 0;
    while i < len
        invariant
            kept <= i <= len,
            len == before.len() == words@.len() == addresses@.len(),
            addresses@.take(kept as int) == retained(before.take(i as int), words@.take(i as int), value),
            forall|j: int| i <= j < len ==> addresses@[j] == before[j],
        decreases len - i,
    {
        proof {
            assert(before.take(i + 1).drop_last() =~= before.take(i as int));
            assert(words@.take(i + 1).drop_last() =~= words@.take(i as int));
        }
        if words[i] == value {
            let address = addresses[i];
            let ghost previous = addresses@;
            addresses.set(kept, address);
            assert(addresses@.take(kept + 1) =~= previous.take(kept as int).push(address));
            kept += 1;
        }
        i += 1;
    }
    addresses.truncate(kept);
    proof {
        assert(before.take(len as int) =~= before);
        assert(words@.take(len as int) =~= words@);
        lemma_retained_no_longer(before, words@, value);
    }
}

} // verus!
