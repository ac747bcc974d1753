//! The first position of a key in a sequence.

use vstd::prelude::*;

verus! {

/// The position of the first `key` in `keys`, or the length of `keys` where
/// it holds none.
pub open spec fn first_position<K>(keys: Seq<K>, key: K) -> int
    decreases keys.len(),
{
    if keys.len() == 0 {
        0
    } else if keys[0] == key {
        0
    } else {
        1 + first_position(keys.drop_first(), key)
    }
}

/// `first_position` is the least position that holds `key`.
pub proof fn lemma_first_position<K>(keys: Seq<K>, key: K)
    ensures
        0 <= first_position(keys, key) <= keys.len(),
        forall|j: int| 0 <= j < first_position(keys, key) ==> keys[j] != key,
        first_position(keys, key) < keys.len() ==> keys[first_position(keys, key)] == key,
    decreases keys.len(),
{
    if keys.len() > 0 && keys[0] != key {
        let rest = keys.drop_first();
        lemma_first_position(rest, key);
        assert forall|j: int| 0 <= j < first_position(keys, key) implies keys[j] != key by {
            if j > 0 {
                assert(keys[j] == rest[j - 1]);
            }
        }
    }
}

/// A position `k` that is preceded by no `key` and either holds `key` or
/// ends the sequence is `first_position`.
pub proof fn lemma_first_position_is<K>(keys: Seq<K>, key: K, k: int)
    requires
        0 <= k <= keys.len(),
        forall|j: int| 0 <= j < k ==> keys[j] != key,
        k < keys.len() ==> keys[k] == key,
    ensures
        first_position(keys, key) == k,
{
    lemma_first_position(keys, key);
}

/// The first position of `key` among the keys that `key_of` gives of
/// `items` is the least position of an item with that key.
pub proof fn lemma_first_position_mapped<A, K>(items: Seq<A>, key_of: spec_fn(A) -> K, key: K)
    ensures
        0 <= first_position(items.map_values(key_of), key) <= items.len(),
        forall|j: int|
            0 <= j < first_position(items.map_values(key_of), key) ==> key_of(#[trigger] items[j])
                != key,
        first_position(items.map_values(key_of), key) < items.len() ==> key_of(
            items[first_position(items.map_values(key_of), key)],
        ) == key,
{
    let keys = items.map_values(key_of);
    lemma_first_position(keys, key);
    assert forall|j: int| 0 <= j < first_position(keys, key) implies key_of(#[trigger] items[j])
        != key by {
        assert(keys[j] == key_of(items[j]));
    }
}

} // verus!
