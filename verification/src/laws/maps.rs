//! What is found in maps keyed by hashes, and how keys are ordered.

use vstd::prelude::*;

use crate::keyed::{
    lemma_collect_ascending, lemma_collect_key, lemma_collect_last, lemma_last_exists, KeyMap,
};
use crate::primitives::{differs_first_at, padded, precedes, Address, Position, B256};

verus! {

/// A lookup finds exactly what the map holds.
pub proof fn law_lookups_find_what_is_held<V>(map: KeyMap<V>, key: B256, found: Option<&V>)
    requires
        call_ensures(KeyMap::<V>::get, (&map, &key), found),
    ensures
        found is Some <==> map@.contains_key(key.0@),
        found is Some ==> *found->0 == map@[key.0@],
{
}

/// A map that was built from a list holds a key exactly when some entry has it, with the value of
/// the last such entry.
pub proof fn law_last_entry_holds<V>(
    list: Vec<(B256, V)>,
    map: KeyMap<V>,
    key: B256,
    found: Option<&V>,
)
    requires
        call_ensures(KeyMap::<V>::from_entries, (list,), map),
        call_ensures(KeyMap::<V>::get, (&map, &key), found),
    ensures
        found is Some <==> exists|i: int|
            0 <= i < list@.len() && (#[trigger] list@[i]).0.0@ == key.0@,
        found is Some ==> exists|i: int|
            0 <= i < list@.len() && (#[trigger] list@[i]).0.0@ == key.0@ && *found->0 == list@[i].1
                && forall|j: int| i < j < list@.len() ==> (#[trigger] list@[j]).0.0@ != key.0@,
{
    lemma_collect_key(list@, key@);
    if map@.contains_key(key@) {
        let i = lemma_last_exists(list@, key@);
        lemma_collect_last(list@, i);
        assert(list@[i].0.0@ == key.0@);
    }
    if exists|i: int| 0 <= i < list@.len() && (#[trigger] list@[i]).0.0@ == key.0@ {
        let i = choose|i: int| 0 <= i < list@.len() && (#[trigger] list@[i]).0.0@ == key.0@;
        assert(list@[i].0@ == key@);
    }
}

/// The entries of a map are what lookups find, each key once.
pub proof fn law_entries_are_what_lookups_find<V>(
    map: KeyMap<V>,
    entries: &Vec<(B256, V)>,
    key: B256,
    found: Option<&V>,
)
    requires
        call_ensures(KeyMap::<V>::entries, (&map,), entries),
        call_ensures(KeyMap::<V>::get, (&map, &key), found),
    ensures
        found is Some <==> exists|i: int|
            0 <= i < entries@.len() && (#[trigger] entries@[i]).0.0@ == key.0@,
        forall|i: int|
            0 <= i < entries@.len() && (#[trigger] entries@[i]).0.0@ == key.0@ ==> found is Some
                && *found->0 == entries@[i].1,
{
    lemma_collect_key(entries@, key@);
    assert forall|i: int|
        0 <= i < entries@.len() && (#[trigger] entries@[i]).0.0@ == key.0@ implies found is Some
        && *found->0 == entries@[i].1 by {
        assert(entries@[i].0@ == key@);
        lemma_collect_ascending(entries@, i);
    }
}

/// The entries of a map stand in ascending order: of two of them, the earlier key is smaller at
/// some byte and the same at every byte before.
pub proof fn law_entries_ascend<V>(map: KeyMap<V>, entries: &Vec<(B256, V)>, i: int, j: int)
    requires
        call_ensures(KeyMap::<V>::entries, (&map,), entries),
        0 <= i < j < entries@.len(),
    ensures
        ({
            let low = entries@[i].0;
            let high = entries@[j].0;
            exists|at: int|
                0 <= at < 32 && #[trigger] low.0@[at] < high.0@[at] && forall|before: int|
                    0 <= before < at ==> #[trigger] low.0@[before] == high.0@[before]
        }),
{
    let low = entries@[i].0;
    let high = entries@[j].0;
    assert(precedes(low@, high@));
    let at = choose|at: int| #[trigger] differs_first_at(low@, high@, at) && low@[at] < high@[at];
    assert(low.0@[at] < high.0@[at]);
}

/// A map on top of another one: what the upper one holds is found, otherwise what the lower one
/// holds.
pub proof fn law_upper_map_wins<V>(
    over: KeyMap<V>,
    under: KeyMap<V>,
    merged: KeyMap<V>,
    key: Seq<u8>,
)
    requires
        call_ensures(KeyMap::<V>::over, (over, under), merged),
    ensures
        over@.contains_key(key) ==> merged@.contains_key(key) && merged@[key] == over@[key],
        !over@.contains_key(key) ==> {
            &&& merged@.contains_key(key) <==> under@.contains_key(key)
            &&& under@.contains_key(key) ==> merged@[key] == under@[key]
        },
{
}

/// The empty map holds no key, and a copy of a map holds what the map holds.
pub proof fn law_copies_hold_the_same<V: Copy>(
    map: KeyMap<V>,
    copy: KeyMap<V>,
    none: KeyMap<V>,
    key: Seq<u8>,
)
    requires
        call_ensures(KeyMap::<V>::copied, (&map,), copy),
        call_ensures(KeyMap::<V>::empty, (), none),
    ensures
        !none@.contains_key(key),
        copy@.contains_key(key) <==> map@.contains_key(key),
        map@.contains_key(key) ==> copy@[key] == map@[key],
{
}

/// Keys compare byte by byte: one stands before another exactly if it is smaller at some position
/// and the same at every earlier one.
pub proof fn law_keys_compare_byte_by_byte(a: B256, b: B256, place: Position)
    requires
        call_ensures(B256::position, (&a, &b), place),
    ensures
        place is Before <==> exists|at: int|
            0 <= at < 32 && #[trigger] a.0@[at] < b.0@[at] && forall|before: int|
                0 <= before < at ==> #[trigger] a.0@[before] == b.0@[before],
        place is After <==> exists|at: int|
            0 <= at < 32 && b.0@[at] < #[trigger] a.0@[at] && forall|before: int|
                0 <= before < at ==> #[trigger] a.0@[before] == b.0@[before],
        place is Same <==> a.0@ == b.0@,
{
    if exists|at: int|
        0 <= at < 32 && #[trigger] a.0@[at] < b.0@[at] && forall|before: int|
            0 <= before < at ==> #[trigger] a.0@[before] == b.0@[before] {
        let at = choose|at: int|
            0 <= at < 32 && #[trigger] a.0@[at] < b.0@[at] && forall|before: int|
                0 <= before < at ==> #[trigger] a.0@[before] == b.0@[before];
        assert(differs_first_at(a@, b@, at));
    }
    if exists|at: int|
        0 <= at < 32 && b.0@[at] < #[trigger] a.0@[at] && forall|before: int|
            0 <= before < at ==> #[trigger] a.0@[before] == b.0@[before] {
        let at = choose|at: int|
            0 <= at < 32 && b.0@[at] < #[trigger] a.0@[at] && forall|before: int|
                0 <= before < at ==> #[trigger] a.0@[before] == b.0@[before];
        assert(differs_first_at(b@, a@, at));
    }
    if precedes(a@, b@) {
        let at = choose|at: int| #[trigger] differs_first_at(a@, b@, at) && a@[at] < b@[at];
        assert(a.0@[at] < b.0@[at]);
    }
    if precedes(b@, a@) {
        let at = choose|at: int| #[trigger] differs_first_at(b@, a@, at) && b@[at] < a@[at];
        assert(b.0@[at] < a.0@[at]);
    }
}

/// A padded address is twelve zeros and then the bytes of the address, in order.
pub proof fn law_padding_keeps_the_address(address: Address, key: B256)
    requires
        call_ensures(Address::padded, (&address,), key),
    ensures
        forall|i: int| 0 <= i < 12 ==> #[trigger] key.0@[i] == 0,
        forall|i: int| 0 <= i < 20 ==> key.0@[12 + i] == #[trigger] address.0@[i],
{
    assert(key.0@ == padded(address@));
}

} // verus!
