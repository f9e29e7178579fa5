//! The order in which a randomized read visits its keys.

use rand::seq::SliceRandom;
use vstd::multiset::group_multiset_axioms;
use vstd::prelude::*;
use vstd::seq_lib::group_to_multiset_ensures;

verus! {

/// The keys `0..count`, each once, in rising order.
pub open spec fn keys_in_order(count: nat) -> Seq<u64> {
    Seq::new(count, |i: int| i as u64)
}

/// `pattern` visits every key below `count` exactly once and no other key.
pub open spec fn is_access_pattern(pattern: Seq<u64>, count: nat) -> bool {
    forall|key: u64| #[trigger]
        pattern.to_multiset().count(key) == (if key < count {
            1nat
        } else {
            0nat
        })
}

/// The keys in rising order are an access pattern.
pub proof fn lemma_keys_in_order_is_access_pattern(count: nat)
    requires
        count <= u64::MAX,
    ensures
        is_access_pattern(keys_in_order(count), count),
{
    broadcast use {group_multiset_axioms, group_to_multiset_ensures};

    let keys = keys_in_order(count);
    assert(keys.no_duplicates());
    keys.lemma_multiset_has_no_duplicates();
    assert forall|key: u64| #[trigger]
        keys.to_multiset().count(key) == (if key < count {
            1nat
        } else {
            0nat
        }) by {
        if key < count {
            assert(keys[key as int] == key);
            assert(keys.contains(key));
        } else {
            assert(!keys.contains(key));
        }
    }
}

/// An access pattern is a bijection between positions and keys: it has one
/// position for each key, every entry is a key below `count`, no key comes
/// twice, and every key below `count` comes somewhere.
pub proof fn lemma_access_pattern_is_bijection(pattern: Seq<u64>, count: nat)
    requires
        is_access_pattern(pattern, count),
        count <= u64::MAX,
    ensures
        pattern.len() == count,
        pattern.no_duplicates(),
        forall|i: int| 0 <= i < pattern.len() ==> #[trigger] pattern[i] < count,
        forall|key: u64| key < count ==> pattern.contains(key),
        pattern.to_multiset() =~= keys_in_order(count).to_multiset(),
{
    broadcast use {group_multiset_axioms, group_to_multiset_ensures};

    lemma_keys_in_order_is_access_pattern(count);
    let keys = keys_in_order(count);
    assert(pattern.to_multiset() =~= keys.to_multiset()) by {
        assert forall|key: u64|
            pattern.to_multiset().count(key) == keys.to_multiset().count(key) by {
            assert(pattern.to_multiset().count(key) == (if key < count {
                1nat
            } else {
                0nat
            }));
        }
    }
    assert(pattern.len() == pattern.to_multiset().len());
    assert(keys.len() == keys.to_multiset().len());
    pattern.lemma_multiset_has_no_duplicates_conv();
    assert forall|i: int| 0 <= i < pattern.len() implies #[trigger] pattern[i] < count by {
        assert(pattern.contains(pattern[i]));
        assert(pattern.to_multiset().count(pattern[i]) > 0);
    }
    assert forall|key: u64| key < count implies pattern.contains(key) by {
        assert(pattern.to_multiset().count(key) == 1);
    }
}

/// `rand::seq::SliceRandom::shuffle` on the keys, with the generator that
/// `rand::thread_rng` hands to this thread. It swaps entries and does nothing
/// else, so whatever order comes out holds the same keys as often as before.
/// Which order that is depends on chance, and nothing is said of it.
#[verifier::external_body]
fn shuffle(keys: &mut Vec<u64>)
    ensures
        final(keys)@.to_multiset() == old(keys)@.to_multiset(),
{
    keys.shuffle(&mut rand::thread_rng());
}

/// The keys `0..count` in rising order.
pub fn ordered_keys(count: u64) -> (keys: Vec<u64>)
    ensures
        keys@ == keys_in_order(count as nat),
{
    let mut keys: Vec<u64> = Vec::new();
    let mut next: u64 = 0;
    while next < count
        invariant
            next <= count,
            keys@ == keys_in_order(next as nat),
        decreases count - next,
    {
        keys.push(next);
        next = next + 1;
    }
    keys
}

/// A random order in which to visit the keys `0..count`, each exactly once.
pub fn access_pattern(count: u64) -> (pattern: Vec<u64>)
    ensures
        is_access_pattern(pattern@, count as nat),
        pattern@.len() == count,
{
    let mut pattern: Vec<u64> = ordered_keys(count);
    proof {
        lemma_keys_in_order_is_access_pattern(count as nat);
    }
    shuffle(&mut pattern);
    proof {
        lemma_access_pattern_is_bijection(pattern@, count as nat);
    }
    pattern
}

} // verus!
