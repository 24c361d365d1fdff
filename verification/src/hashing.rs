//! Maps whose keys are replaced by their hashes.
//!
//! Two keys may share a hash. Entries are hashed in ascending order of their plain keys and the
//! later one holds, so the greatest of the keys that share a hash decides.

use vstd::prelude::*;
use vstd::seq_lib::seq_to_set_is_finite;
use vstd::set_lib::lemma_len_subset;

use crate::account::keccak256_of;
use crate::keyed::{collect, lemma_collect_key, lemma_collect_last, lemma_last_exists};
use crate::primitives::{
    lemma_precedes_is_strict, lemma_precedes_is_total, lemma_precedes_is_transitive, precedes, B256,
};

verus! {

/// One of the keys has the hash.
pub open spec fn has_hash(keys: Set<Seq<u8>>, hash: Seq<u8>) -> bool {
    exists|key: Seq<u8>| #[trigger] keys.contains(key) && keccak256_of(key) == hash
}

/// `key` is the greatest of the keys that have the hash.
pub open spec fn is_greatest(keys: Set<Seq<u8>>, hash: Seq<u8>, key: Seq<u8>) -> bool {
    &&& keys.contains(key)
    &&& keccak256_of(key) == hash
    &&& forall|other: Seq<u8>| #[trigger]
        keys.contains(other) && keccak256_of(other) == hash && other != key ==> precedes(other, key)
}

/// The greatest of the keys that have the hash.
pub open spec fn greatest(keys: Set<Seq<u8>>, hash: Seq<u8>) -> Seq<u8> {
    choose|key: Seq<u8>| is_greatest(keys, hash, key)
}

/// The map with every key replaced by its hash. Where keys share a hash, the greatest of them
/// decides.
pub open spec fn hashed_map<V>(plain: Map<Seq<u8>, V>) -> Map<Seq<u8>, V> {
    Map::new(
        |hash: Seq<u8>| has_hash(plain.dom(), hash),
        |hash: Seq<u8>| plain[greatest(plain.dom(), hash)],
    )
}

/// There are finitely many keys, all of one width.
pub open spec fn has_width(keys: Set<Seq<u8>>, width: nat) -> bool {
    &&& keys.finite()
    &&& forall|key: Seq<u8>| #[trigger] keys.contains(key) ==> key.len() == width
}

/// The keys ascend strictly.
pub open spec fn keys_ascend(keys: Seq<Seq<u8>>) -> bool {
    forall|i: int, j: int|
        #![trigger keys[i], keys[j]]
        0 <= i < j < keys.len() ==> precedes(keys[i], keys[j])
}

/// No hash has two greatest keys.
pub proof fn lemma_greatest_is_unique(keys: Set<Seq<u8>>, hash: Seq<u8>, key: Seq<u8>)
    requires
        is_greatest(keys, hash, key),
    ensures
        greatest(keys, hash) == key,
        has_hash(keys, hash),
{
    let found = greatest(keys, hash);
    assert(is_greatest(keys, hash, found));
    if found != key {
        assert(keys.contains(found) && keys.contains(key));
        lemma_precedes_is_strict(found, key);
    }
}

/// A key that shares its hash with no other one is the greatest.
pub proof fn lemma_sole_key_is_greatest(keys: Set<Seq<u8>>, key: Seq<u8>)
    requires
        keys.contains(key),
        forall|other: Seq<u8>| #[trigger]
            keys.contains(other) && keccak256_of(other) == keccak256_of(key) ==> other == key,
    ensures
        has_hash(keys, keccak256_of(key)),
        greatest(keys, keccak256_of(key)) == key,
{
    assert(is_greatest(keys, keccak256_of(key), key));
    lemma_greatest_is_unique(keys, keccak256_of(key), key);
}

/// Among finitely many keys of one width, every hash that occurs has a greatest key.
pub proof fn lemma_greatest_exists(keys: Set<Seq<u8>>, width: nat, hash: Seq<u8>)
    requires
        has_width(keys, width),
        has_hash(keys, hash),
    ensures
        is_greatest(keys, hash, greatest(keys, hash)),
    decreases keys.len(),
{
    let some = choose|key: Seq<u8>| #[trigger] keys.contains(key) && keccak256_of(key) == hash;
    let rest = keys.remove(some);
    if has_hash(rest, hash) {
        lemma_greatest_exists(rest, width, hash);
        let other = greatest(rest, hash);
        lemma_precedes_is_total(some, other);
        let top = if precedes(some, other) { other } else { some };
        assert forall|key: Seq<u8>| #[trigger]
            keys.contains(key) && keccak256_of(key) == hash && key != top implies precedes(
            key,
            top,
        ) by {
            if key != some {
                assert(rest.contains(key));
                if top == some && key != other {
                    lemma_precedes_is_transitive(key, other, some);
                }
            }
        }
        assert(is_greatest(keys, hash, top));
    } else {
        assert forall|key: Seq<u8>| #[trigger]
            keys.contains(key) && keccak256_of(key) == hash implies key == some by {
            if key != some {
                assert(rest.contains(key));
            }
        }
        assert(is_greatest(keys, hash, some));
    }
}

/// Keys that a list names are finitely many.
pub proof fn lemma_listed_keys_are_finite(keys: Set<Seq<u8>>, list: Seq<Seq<u8>>)
    requires
        forall|key: Seq<u8>| #[trigger] keys.contains(key) ==> list.contains(key),
    ensures
        keys.finite(),
{
    seq_to_set_is_finite(list);
    assert(keys.subset_of(list.to_set()));
    lemma_len_subset(keys, list.to_set());
}

/// Hashing the ascending keys of a map one after the other hashes the map: the entry that holds for
/// a hash stands at the position of the greatest key with that hash.
pub proof fn lemma_hashed_list<V, W>(
    plain: Map<Seq<u8>, V>,
    keys: Seq<Seq<u8>>,
    hashed: Seq<(B256, W)>,
    hash: Seq<u8>,
) -> (at: int)
    requires
        keys_ascend(keys),
        hashed.len() == keys.len(),
        forall|i: int|
            #![trigger hashed[i]]
            #![trigger keys[i]]
            0 <= i < keys.len() ==> hashed[i].0@ == keccak256_of(keys[i]) && plain.contains_key(
                keys[i],
            ),
        forall|key: Seq<u8>| #[trigger] plain.contains_key(key) ==> keys.contains(key),
    ensures
        collect(hashed).contains_key(hash) <==> hashed_map(plain).contains_key(hash),
        collect(hashed).contains_key(hash) ==> 0 <= at < keys.len() && hashed[at].0@ == hash
            && collect(hashed)[hash] == hashed[at].1 && hashed_map(plain)[hash] == plain[keys[at]],
{
    lemma_collect_key(hashed, hash);
    if has_hash(plain.dom(), hash) {
        let key = choose|key: Seq<u8>| #[trigger]
            plain.dom().contains(key) && keccak256_of(key) == hash;
        assert(plain.contains_key(key));
        let i = choose|i: int| 0 <= i < keys.len() && keys[i] == key;
        assert(hashed[i].0@ == hash);
    }
    if collect(hashed).contains_key(hash) {
        let at = lemma_last_exists(hashed, hash);
        lemma_collect_last(hashed, at);
        assert(plain.contains_key(keys[at]));
        assert(is_greatest(plain.dom(), hash, keys[at])) by {
            assert forall|other: Seq<u8>| #[trigger]
                plain.dom().contains(other) && keccak256_of(other) == hash && other
                    != keys[at] implies precedes(other, keys[at]) by {
                assert(plain.contains_key(other));
                let j = choose|j: int| 0 <= j < keys.len() && keys[j] == other;
                assert(hashed[j].0@ == hash);
                assert(j < at);
                assert(precedes(keys[j], keys[at]));
            }
        }
        lemma_greatest_is_unique(plain.dom(), hash, keys[at]);
        at
    } else {
        0
    }
}

} // verus!
