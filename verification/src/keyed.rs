//! A map keyed by 32-byte hashes, kept as a sorted vector.

use vstd::prelude::*;

use crate::hashing::has_width;
use crate::primitives::{
    lemma_precedes_is_strict, lemma_precedes_is_transitive, precedes, Position, B256,
};

verus! {

/// The map that a list of entries describes; of two entries with one key the later one holds.
pub open spec fn collect<V>(entries: Seq<(B256, V)>) -> Map<Seq<u8>, V>
    decreases entries.len(),
{
    if entries.len() == 0 {
        Map::empty()
    } else {
        collect(entries.drop_last()).insert(entries.last().0@, entries.last().1)
    }
}

/// The keys ascend strictly.
pub open spec fn ascending<V>(entries: Seq<(B256, V)>) -> bool {
    forall|i: int, j: int|
        #![trigger entries[i], entries[j]]
        0 <= i < j < entries.len() ==> precedes(entries[i].0@, entries[j].0@)
}

/// The keys descend strictly.
spec fn descending<V>(entries: Seq<(B256, V)>) -> bool {
    forall|i: int, j: int|
        #![trigger entries[i], entries[j]]
        0 <= i < j < entries.len() ==> precedes(entries[j].0@, entries[i].0@)
}

/// No key occurs twice.
spec fn distinct<V>(entries: Seq<(B256, V)>) -> bool {
    forall|i: int, j: int|
        #![trigger entries[i], entries[j]]
        0 <= i < j < entries.len() ==> entries[i].0@ != entries[j].0@
}

/// A key is in the map exactly when some entry has it, and then one of those entries holds.
pub proof fn lemma_collect_key<V>(entries: Seq<(B256, V)>, key: Seq<u8>)
    ensures
        collect(entries).contains_key(key) <==> exists|i: int|
            0 <= i < entries.len() && (#[trigger] entries[i]).0@ == key,
        collect(entries).contains_key(key) ==> exists|i: int|
            0 <= i < entries.len() && (#[trigger] entries[i]).0@ == key && collect(entries)[key]
                == entries[i].1,
    decreases entries.len(),
{
    if entries.len() > 0 {
        let init = entries.drop_last();
        lemma_collect_key(init, key);
        assert(forall|i: int| 0 <= i < init.len() ==> init[i] == entries[i]);
        assert(entries[entries.len() - 1] == entries.last());
        if entries.last().0@ != key && collect(entries).contains_key(key) {
            let i = choose|i: int|
                0 <= i < init.len() && (#[trigger] init[i]).0@ == key && collect(init)[key]
                    == init[i].1;
            assert(entries[i].0@ == key);
        }
    }
}

/// The entry at `i` is the last one with its key.
pub open spec fn is_last<V>(entries: Seq<(B256, V)>, i: int) -> bool {
    &&& 0 <= i < entries.len()
    &&& forall|j: int| i < j < entries.len() ==> (#[trigger] entries[j]).0@ != entries[i].0@
}

/// The last entry with a key holds.
pub proof fn lemma_collect_last<V>(entries: Seq<(B256, V)>, i: int)
    requires
        is_last(entries, i),
    ensures
        collect(entries).contains_key(entries[i].0@),
        collect(entries)[entries[i].0@] == entries[i].1,
    decreases entries.len(),
{
    let init = entries.drop_last();
    if i < init.len() {
        assert(init[i] == entries[i]);
        assert forall|j: int| i < j < init.len() implies (#[trigger] init[j]).0@ != init[i].0@ by {
            assert(init[j] == entries[j]);
        }
        lemma_collect_last(init, i);
        assert(entries[entries.len() - 1].0@ != entries[i].0@);
    }
}

/// Every key of the map has a last entry.
pub proof fn lemma_last_exists<V>(entries: Seq<(B256, V)>, key: Seq<u8>) -> (i: int)
    requires
        collect(entries).contains_key(key),
    ensures
        is_last(entries, i),
        entries[i].0@ == key,
    decreases entries.len(),
{
    let init = entries.drop_last();
    if entries.last().0@ == key {
        entries.len() - 1
    } else {
        let i = lemma_last_exists(init, key);
        assert forall|j: int| i < j < entries.len() implies (#[trigger] entries[j]).0@
            != entries[i].0@ by {
            if j < init.len() {
                assert(init[j] == entries[j]);
            }
        }
        i
    }
}

/// Two lists with the same keys in the same order hold the same entries.
pub proof fn lemma_collect_aligned<V, W>(
    first: Seq<(B256, V)>,
    second: Seq<(B256, W)>,
    key: Seq<u8>,
) -> (i: int)
    requires
        first.len() == second.len(),
        forall|i: int|
            #![trigger first[i]]
            #![trigger second[i]]
            0 <= i < first.len() ==> first[i].0@ == second[i].0@,
    ensures
        collect(first).contains_key(key) <==> collect(second).contains_key(key),
        collect(first).contains_key(key) ==> 0 <= i < first.len() && first[i].0@ == key
            && collect(first)[key] == first[i].1 && collect(second)[key] == second[i].1,
{
    lemma_collect_key(first, key);
    lemma_collect_key(second, key);
    if collect(second).contains_key(key) {
        let j = choose|j: int| 0 <= j < second.len() && (#[trigger] second[j]).0@ == key;
        assert(first[j].0@ == key);
    }
    if collect(first).contains_key(key) {
        let i = lemma_last_exists(first, key);
        assert(second[i].0@ == key);
        assert forall|j: int| i < j < second.len() implies (#[trigger] second[j]).0@
            != second[i].0@ by {
            assert(first[j].0@ != first[i].0@);
        }
        lemma_collect_last(first, i);
        lemma_collect_last(second, i);
        i
    } else {
        0
    }
}

/// A list describes a map with finitely many keys, all of the width of a hash.
pub proof fn lemma_collect_width<V>(entries: Seq<(B256, V)>)
    ensures
        has_width(collect(entries).dom(), 32),
    decreases entries.len(),
{
    if entries.len() > 0 {
        lemma_collect_width(entries.drop_last());
        assert(collect(entries).dom() =~= collect(entries.drop_last()).dom().insert(
            entries.last().0@,
        ));
        assert(entries.last().0@.len() == 32);
    }
}

/// Where the keys ascend, each entry holds.
pub proof fn lemma_collect_ascending<V>(entries: Seq<(B256, V)>, i: int)
    requires
        ascending(entries),
        0 <= i < entries.len(),
    ensures
        collect(entries).contains_key(entries[i].0@),
        collect(entries)[entries[i].0@] == entries[i].1,
{
    lemma_ascending_is_distinct(entries);
    lemma_collect_entry(entries, i);
}

/// Where no key occurs twice, each entry holds.
proof fn lemma_collect_entry<V>(entries: Seq<(B256, V)>, i: int)
    requires
        distinct(entries),
        0 <= i < entries.len(),
    ensures
        collect(entries).contains_key(entries[i].0@),
        collect(entries)[entries[i].0@] == entries[i].1,
{
    lemma_collect_key(entries, entries[i].0@);
    let j = choose|j: int|
        0 <= j < entries.len() && (#[trigger] entries[j]).0@ == entries[i].0@ && collect(
            entries,
        )[entries[i].0@] == entries[j].1;
    assert(i == j) by {
        if i < j {
            assert(entries[i].0@ != entries[j].0@);
        } else if j < i {
            assert(entries[j].0@ != entries[i].0@);
        }
    }
}

/// Entries put after others take precedence over them.
proof fn lemma_collect_concat<V>(first: Seq<(B256, V)>, second: Seq<(B256, V)>)
    ensures
        collect(first + second) == collect(first).union_prefer_right(collect(second)),
    decreases second.len(),
{
    if second.len() == 0 {
        assert(first + second =~= first);
        assert(collect(first).union_prefer_right(collect(second)) =~= collect(first));
    } else {
        lemma_collect_concat(first, second.drop_last());
        assert((first + second).drop_last() =~= first + second.drop_last());
        assert((first + second).last() == second.last());
        assert(collect(first + second) =~= collect(first).union_prefer_right(collect(second)));
    }
}

/// Reversing entries with distinct keys changes nothing.
proof fn lemma_collect_reverse<V>(entries: Seq<(B256, V)>)
    requires
        distinct(entries),
    ensures
        collect(entries.reverse()) == collect(entries),
{
    let back = entries.reverse();
    assert(distinct(back));
    assert forall|key: Seq<u8>| #[trigger]
        collect(back).contains_key(key) == collect(entries).contains_key(key) && (collect(
            back,
        ).contains_key(key) ==> collect(back)[key] == collect(entries)[key]) by {
        lemma_collect_key(back, key);
        lemma_collect_key(entries, key);
        if collect(entries).contains_key(key) {
            let i = choose|i: int| 0 <= i < entries.len() && (#[trigger] entries[i]).0@ == key;
            assert(back[entries.len() - 1 - i] == entries[i]);
            lemma_collect_entry(entries, i);
            lemma_collect_entry(back, entries.len() - 1 - i);
        }
        if collect(back).contains_key(key) {
            let i = choose|i: int| 0 <= i < back.len() && (#[trigger] back[i]).0@ == key;
            assert(entries[entries.len() - 1 - i] == back[i]);
        }
    }
    assert(collect(back) =~= collect(entries));
}

proof fn lemma_ascending_is_distinct<V>(entries: Seq<(B256, V)>)
    requires
        ascending(entries),
    ensures
        distinct(entries),
{
    assert forall|i: int, j: int|
        #![trigger entries[i], entries[j]]
        0 <= i < j < entries.len() implies entries[i].0@ != entries[j].0@ by {
        lemma_precedes_is_strict(entries[i].0@, entries[j].0@);
    }
}

proof fn lemma_descending_is_distinct<V>(entries: Seq<(B256, V)>)
    requires
        descending(entries),
    ensures
        distinct(entries),
{
    assert forall|i: int, j: int|
        #![trigger entries[i], entries[j]]
        0 <= i < j < entries.len() implies entries[i].0@ != entries[j].0@ by {
        lemma_precedes_is_strict(entries[j].0@, entries[i].0@);
    }
}

/// Every key of `low` precedes every key of `high`.
spec fn all_above<V>(high: Seq<(B256, V)>, low: Seq<(B256, V)>) -> bool {
    forall|i: int, j: int|
        #![trigger high[i], low[j]]
        0 <= i < high.len() && 0 <= j < low.len() ==> precedes(low[j].0@, high[i].0@)
}

/// One step of a merge from the largest keys down: `entry` leaves the inputs and joins the output.
proof fn lemma_merge_step<V>(
    lower: Seq<(B256, V)>,
    upper: Seq<(B256, V)>,
    out: Seq<(B256, V)>,
    lower_left: Seq<(B256, V)>,
    upper_left: Seq<(B256, V)>,
    entry: (B256, V),
)
    requires
        ascending(lower),
        ascending(upper),
        descending(out),
        all_above(out, lower),
        all_above(out, upper),
        ({
            ||| upper.len() > 0 && entry == upper.last() && upper_left == upper.drop_last()
                && lower_left == lower && (lower.len() > 0 ==> precedes(
                lower.last().0@,
                entry.0@,
            ))
            ||| upper.len() > 0 && entry == upper.last() && upper_left == upper.drop_last()
                && lower.len() > 0 && lower.last().0@ == entry.0@ && lower_left
                == lower.drop_last()
            ||| lower.len() > 0 && entry == lower.last() && lower_left == lower.drop_last()
                && upper_left == upper && (upper.len() > 0 ==> precedes(
                upper.last().0@,
                entry.0@,
            ))
        }),
    ensures
        ascending(lower_left),
        ascending(upper_left),
        descending(out.push(entry)),
        all_above(out.push(entry), lower_left),
        all_above(out.push(entry), upper_left),
        collect(lower).union_prefer_right(collect(upper)).union_prefer_right(collect(out))
            =~= collect(lower_left).union_prefer_right(collect(upper_left)).union_prefer_right(
            collect(out.push(entry)),
        ),
{
    let key = entry.0@;
    lemma_tops(lower, lower_left, key);
    lemma_tops(upper, upper_left, key);
    assert(out.push(entry).drop_last() =~= out);
    lemma_collect_key(out, key);
    assert(!collect(out).contains_key(key)) by {
        if collect(out).contains_key(key) {
            let i = choose|i: int| 0 <= i < out.len() && (#[trigger] out[i]).0@ == key;
            if upper.len() > 0 && entry == upper.last() {
                assert(precedes(upper[upper.len() - 1].0@, out[i].0@));
            } else {
                assert(precedes(lower[lower.len() - 1].0@, out[i].0@));
            }
            lemma_precedes_is_strict(key, out[i].0@);
        }
    }
    lemma_collect_key(upper, key);
    if entry != upper.last() || upper.len() == 0 || upper_left == upper {
        if collect(upper).contains_key(key) {
            let i = choose|i: int| 0 <= i < upper.len() && (#[trigger] upper[i]).0@ == key;
            assert(precedes(upper_left[i].0@, key));
            lemma_precedes_is_strict(upper[i].0@, key);
        }
    }
}

/// Without its largest key, or with all keys below `key`, a sorted list stays below `key`.
proof fn lemma_tops<V>(entries: Seq<(B256, V)>, left: Seq<(B256, V)>, key: Seq<u8>)
    requires
        ascending(entries),
        ({
            ||| left == entries && (entries.len() > 0 ==> precedes(entries.last().0@, key))
            ||| entries.len() > 0 && left == entries.drop_last() && entries.last().0@ == key
        }),
    ensures
        ascending(left),
        forall|j: int| 0 <= j < left.len() ==> precedes((#[trigger] left[j]).0@, key),
{
    assert forall|j: int| 0 <= j < left.len() implies precedes((#[trigger] left[j]).0@, key) by {
        let last = entries.len() - 1;
        assert(left[j] == entries[j]);
        if j < last {
            assert(precedes(entries[j].0@, entries[last].0@));
            if entries.last().0@ != key {
                lemma_precedes_is_transitive(entries[j].0@, entries[last].0@, key);
            }
        }
    }
}

/// Turns a vector around.
fn reversed<T>(mut items: Vec<T>) -> (back: Vec<T>)
    ensures
        back@ == items@.reverse(),
{
    let ghost given = items@;
    let mut back: Vec<T> = Vec::with_capacity(items.len());
    while items.len() > 0
        invariant
            items@.len() + back@.len() == given.len(),
            items@ == given.take(items@.len() as int),
            back@ == given.skip(items@.len() as int).reverse(),
        decreases items@.len(),
    {
        let ghost before = items@;
        if let Some(item) = items.pop() {
            back.push(item);
        }
        assert(back@ =~= given.skip(items@.len() as int).reverse());
    }
    assert(given.skip(0) =~= given);
    back
}

/// A map from 32-byte hashes to values.
#[derive(Debug)]
pub struct KeyMap<V> {
    entries: Vec<(B256, V)>,
}

impl<V> View for KeyMap<V> {
    type V = Map<Seq<u8>, V>;

    closed spec fn view(&self) -> Map<Seq<u8>, V> {
        collect(self.entries@)
    }
}

impl<V> KeyMap<V> {
    #[verifier::type_invariant]
    spec fn sorted(self) -> bool {
        ascending(self.entries@)
    }

    /// The map without entries.
    pub fn empty() -> (map: KeyMap<V>)
        ensures
            map@ == Map::<Seq<u8>, V>::empty(),
    {
        KeyMap { entries: Vec::new() }
    }

    /// Looks a key up by binary search.
    pub fn get(&self, key: &B256) -> (value: Option<&V>)
        ensures
            value is Some <==> self@.contains_key(key@),
            value matches Some(v) ==> *v == self@[key@],
    {
        proof {
            use_type_invariant(self);
        }
        let mut low: usize = 0;
        let mut high: usize = self.entries.len();
        while low < high
            invariant
                low <= high <= self.entries@.len(),
                ascending(self.entries@),
                forall|i: int|
                    0 <= i < low ==> precedes((#[trigger] self.entries@[i]).0@, key@),
                forall|i: int|
                    high <= i < self.entries@.len() ==> precedes(
                        key@,
                        (#[trigger] self.entries@[i]).0@,
                    ),
            decreases high - low,
        {
            let middle: usize = low + (high - low) / 2;
            let ghost found = self.entries@[middle as int].0@;
            match self.entries[middle].0.position(key) {
                Position::Same => {
                    proof {
                        lemma_ascending_is_distinct(self.entries@);
                        lemma_collect_entry(self.entries@, middle as int);
                    }
                    return Some(&self.entries[middle].1);
                },
                Position::Before => {
                    assert forall|i: int| 0 <= i < middle + 1 implies precedes(
                        (#[trigger] self.entries@[i]).0@,
                        key@,
                    ) by {
                        if i < middle {
                            lemma_precedes_is_transitive(self.entries@[i].0@, found, key@);
                        }
                    }
                    low = middle + 1;
                },
                Position::After => {
                    assert forall|i: int| middle <= i < self.entries@.len() implies precedes(
                        key@,
                        (#[trigger] self.entries@[i]).0@,
                    ) by {
                        if middle < i {
                            lemma_precedes_is_transitive(key@, found, self.entries@[i].0@);
                        }
                    }
                    high = middle;
                },
            }
        }
        proof {
            lemma_collect_key(self.entries@, key@);
            if self@.contains_key(key@) {
                let i = choose|i: int|
                    0 <= i < self.entries@.len() && (#[trigger] self.entries@[i]).0@ == key@;
                if i < low {
                    lemma_precedes_is_strict(self.entries@[i].0@, key@);
                } else {
                    lemma_precedes_is_strict(key@, self.entries@[i].0@);
                }
            }
        }
        None
    }

    /// Puts `self` on top of `under`: every entry of both, those of `self` where both have the key.
    pub fn over(self, under: KeyMap<V>) -> (merged: KeyMap<V>)
        ensures
            merged@ == under@.union_prefer_right(self@),
    {
        proof {
            use_type_invariant(&self);
            use_type_invariant(&under);
            lemma_ascending_is_distinct(self.entries@);
        }
        let mut lower = under.entries;
        let mut upper = self.entries;
        let ghost whole = collect(lower@).union_prefer_right(collect(upper@));
        let mut out: Vec<(B256, V)> = Vec::new();
        while lower.len() > 0 || upper.len() > 0
            invariant
                ascending(lower@),
                ascending(upper@),
                descending(out@),
                all_above(out@, lower@),
                all_above(out@, upper@),
                collect(lower@).union_prefer_right(collect(upper@)).union_prefer_right(
                    collect(out@),
                ) =~= whole,
            decreases lower@.len() + upper@.len(),
        {
            let ghost lower_before = lower@;
            let ghost upper_before = upper@;
            let ghost out_before = out@;
            let take_upper: bool = if upper.len() == 0 {
                false
            } else if lower.len() == 0 {
                true
            } else {
                match upper[upper.len() - 1].0.position(&lower[lower.len() - 1].0) {
                    Position::Before => false,
                    Position::After => true,
                    Position::Same => {
                        lower.pop();
                        true
                    },
                }
            };
            let next = if take_upper { upper.pop() } else { lower.pop() };
            if let Some(entry) = next {
                out.push(entry);
                proof {
                    lemma_merge_step(lower_before, upper_before, out_before, lower@, upper@, entry);
                }
            }
        }
        proof {
            assert(collect(lower@).union_prefer_right(collect(upper@)).union_prefer_right(
                collect(out@),
            ) =~= collect(out@));
            lemma_descending_is_distinct(out@);
            lemma_collect_reverse(out@);
            assert(ascending(out@.reverse()));
        }
        KeyMap { entries: reversed(out) }
    }

    /// Builds the map that a list of entries describes.
    pub fn from_entries(entries: Vec<(B256, V)>) -> (map: KeyMap<V>)
        ensures
            map@ == collect(entries@),
        decreases entries@.len(),
    {
        let mut left = entries;
        if left.len() <= 1 {
            return KeyMap { entries: left };
        }
        let middle: usize = left.len() / 2;
        let right = left.split_off(middle);
        proof {
            lemma_collect_concat(left@, right@);
            assert(left@ + right@ =~= entries@);
        }
        let upper = KeyMap::from_entries(right);
        let lower = KeyMap::from_entries(left);
        upper.over(lower)
    }

    /// The entries in ascending order of their keys.
    pub fn entries(&self) -> (entries: &Vec<(B256, V)>)
        ensures
            collect(entries@) == self@,
            ascending(entries@),
    {
        proof {
            use_type_invariant(self);
        }
        &self.entries
    }
}

impl<V: Copy> KeyMap<V> {
    /// A second map with the same entries.
    pub fn copied(&self) -> (copy: KeyMap<V>)
        ensures
            copy@ == self@,
    {
        proof {
            use_type_invariant(self);
        }
        let mut entries: Vec<(B256, V)> = Vec::with_capacity(self.entries.len());
        let mut i: usize = 0;
        while i < self.entries.len()
            invariant
                i <= self.entries@.len(),
                entries@ == self.entries@.take(i as int),
            decreases self.entries@.len() - i,
        {
            entries.push(self.entries[i]);
            i += 1;
            assert(entries@ =~= self.entries@.take(i as int));
        }
        assert(entries@ =~= self.entries@);
        KeyMap { entries }
    }
}

} // verus!
