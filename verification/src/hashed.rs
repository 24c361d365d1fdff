//! State diffs keyed by hash, in the form that state roots and proofs are computed from.

use revm::database::BundleState;
use vstd::prelude::*;

use crate::account::{keccak256, keccak256_of, optional_account_of, Account};
use crate::bundle::{bundle_accounts, entries, is_well_formed, BundleAccount, BundleEntry};
use crate::hashing::{
    has_width, hashed_map, keys_ascend, lemma_hashed_list, lemma_listed_keys_are_finite,
};
use crate::keyed::{
    ascending, collect, lemma_collect_aligned, lemma_collect_ascending, lemma_collect_key,
    lemma_collect_width, KeyMap,
};
use crate::primitives::{lemma_padding_keeps_order, padded, precedes, B256, U256};

verus! {

/// Storage of one account, keyed by hashed slot.
#[derive(Debug)]
pub struct HashedStorage {
    /// Whether the storage underneath is gone.
    pub wiped: bool,
    /// Value of every slot that is set.
    pub slots: KeyMap<U256>,
}

/// A hashed storage as a mathematical value.
pub struct HashedStorageView {
    /// Whether the storage underneath is gone.
    pub wiped: bool,
    /// Value of every slot that is set.
    pub slots: Map<Seq<u8>, U256>,
}

impl View for HashedStorage {
    type V = HashedStorageView;

    open spec fn view(&self) -> HashedStorageView {
        HashedStorageView { wiped: self.wiped, slots: self.slots@ }
    }
}

/// A state diff keyed by hashed address.
#[derive(Debug)]
pub struct HashedPostState {
    /// Account of every touched address, `None` if it is gone.
    pub accounts: KeyMap<Option<Account>>,
    /// Storage of every address with storage changes.
    pub storages: KeyMap<HashedStorage>,
}

/// A hashed state diff as a mathematical value.
pub struct HashedPostStateView {
    /// Account of every touched address, `None` if it is gone.
    pub accounts: Map<Seq<u8>, Option<Account>>,
    /// Storage of every address with storage changes.
    pub storages: Map<Seq<u8>, HashedStorageView>,
}

impl View for HashedPostState {
    type V = HashedPostStateView;

    open spec fn view(&self) -> HashedPostStateView {
        HashedPostStateView {
            accounts: self.accounts@,
            storages: self.storages@.map_values(|storage: HashedStorage| storage@),
        }
    }
}

/// The storage diff that changes nothing.
pub open spec fn unchanged_storage() -> HashedStorageView {
    HashedStorageView { wiped: false, slots: Map::empty() }
}

/// The state diff that changes nothing.
pub open spec fn unchanged_state() -> HashedPostStateView {
    HashedPostStateView { accounts: Map::empty(), storages: Map::empty() }
}

/// `over` on top of `under`: slots of `over` win, and nothing of `under` shows through a wipe.
pub open spec fn overlay_storage(
    under: HashedStorageView,
    over: HashedStorageView,
) -> HashedStorageView {
    HashedStorageView {
        wiped: under.wiped || over.wiped,
        slots: if over.wiped {
            over.slots
        } else {
            under.slots.union_prefer_right(over.slots)
        },
    }
}

/// The storages of `over` on top of those of `under`, address by address.
pub open spec fn overlay_storages(
    under: Map<Seq<u8>, HashedStorageView>,
    over: Map<Seq<u8>, HashedStorageView>,
) -> Map<Seq<u8>, HashedStorageView> {
    Map::new(
        |address: Seq<u8>| under.contains_key(address) || over.contains_key(address),
        |address: Seq<u8>|
            if !over.contains_key(address) {
                under[address]
            } else if !under.contains_key(address) {
                over[address]
            } else {
                overlay_storage(under[address], over[address])
            },
    )
}

/// `over` on top of `under`: accounts of `over` win, storages are overlaid address by address.
pub open spec fn overlay_state(
    under: HashedPostStateView,
    over: HashedPostStateView,
) -> HashedPostStateView {
    HashedPostStateView {
        accounts: under.accounts.union_prefer_right(over.accounts),
        storages: overlay_storages(under.storages, over.storages),
    }
}

/// The hashed form of the storage that a bundle knows of an account.
pub open spec fn hashed_storage(account: BundleAccount) -> HashedStorageView {
    HashedStorageView { wiped: account.was_destroyed, slots: hashed_map(account.slots) }
}

/// The account has storage changes.
pub open spec fn changes_storage(account: BundleAccount) -> bool {
    account.was_destroyed || exists|key: Seq<u8>| account.slots.contains_key(key)
}

/// What account reads answer, by address.
pub open spec fn plain_accounts(accounts: Map<Seq<u8>, BundleAccount>) -> Map<
    Seq<u8>,
    Option<Account>,
> {
    accounts.map_values(|account: BundleAccount| optional_account_of(account.info))
}

/// The hashed storages of the accounts with storage changes, by address.
pub open spec fn changed_storages(accounts: Map<Seq<u8>, BundleAccount>) -> Map<
    Seq<u8>,
    HashedStorageView,
> {
    Map::new(
        |address: Seq<u8>| accounts.contains_key(address) && changes_storage(accounts[address]),
        |address: Seq<u8>| hashed_storage(accounts[address]),
    )
}

/// The hashed form of the accounts of a bundle.
pub open spec fn hashed_form(accounts: Map<Seq<u8>, BundleAccount>) -> HashedPostStateView {
    HashedPostStateView {
        accounts: hashed_map(plain_accounts(accounts)),
        storages: hashed_map(changed_storages(accounts)),
    }
}

impl Clone for HashedStorage {
    fn clone(&self) -> (copy: HashedStorage)
        ensures
            copy@ == self@,
    {
        HashedStorage { wiped: self.wiped, slots: self.slots.copied() }
    }
}

impl HashedStorage {
    /// The storage diff that changes nothing.
    pub fn unchanged() -> (storage: HashedStorage)
        ensures
            storage@ == unchanged_storage(),
    {
        HashedStorage { wiped: false, slots: KeyMap::empty() }
    }

    /// Puts `other` on top of this storage.
    pub fn extend(self, other: HashedStorage) -> (merged: HashedStorage)
        ensures
            merged@ == overlay_storage(self@, other@),
    {
        if other.wiped {
            HashedStorage { wiped: true, slots: other.slots }
        } else {
            HashedStorage { wiped: self.wiped, slots: other.slots.over(self.slots) }
        }
    }

    /// Hashes the slots of plain storage, in ascending order.
    pub fn from_plain_storage(was_destroyed: bool, slots: &Vec<(B256, U256)>) -> (storage:
        HashedStorage)
        ensures
            storage@.wiped == was_destroyed,
            storage@.slots == hashed_map(collect(slots@)),
    {
        let mut given: Vec<(B256, U256)> = Vec::with_capacity(slots.len());
        let mut i: usize = 0;
        while i < slots.len()
            invariant
                i <= slots@.len(),
                given@ == slots@.take(i as int),
            decreases slots@.len() - i,
        {
            given.push(slots[i]);
            i += 1;
            assert(given@ =~= slots@.take(i as int));
        }
        assert(given@ =~= slots@);
        let sorted = KeyMap::from_entries(given);
        let plain = sorted.entries();
        let mut hashed: Vec<(B256, U256)> = Vec::with_capacity(plain.len());
        let mut i: usize = 0;
        while i < plain.len()
            invariant
                i <= plain@.len(),
                hashed@.len() == i,
                forall|j: int|
                    #![trigger hashed@[j]]
                    #![trigger plain@[j]]
                    0 <= j < i ==> hashed@[j].0@ == keccak256_of(plain@[j].0@) && hashed@[j].1
                        == plain@[j].1,
            decreases plain@.len() - i,
        {
            hashed.push((keccak256(plain[i].0.0.as_slice()), plain[i].1));
            i += 1;
        }
        proof {
            lemma_hashed_slots(plain@, hashed@);
        }
        HashedStorage { wiped: was_destroyed, slots: KeyMap::from_entries(hashed) }
    }
}

/// Hashing the key of every entry in ascending order hashes the slots that the entries describe.
proof fn lemma_hashed_slots(slots: Seq<(B256, U256)>, hashed: Seq<(B256, U256)>)
    requires
        ascending(slots),
        hashed.len() == slots.len(),
        forall|j: int|
            #![trigger hashed[j]]
            #![trigger slots[j]]
            0 <= j < slots.len() ==> hashed[j].0@ == keccak256_of(slots[j].0@) && hashed[j].1
                == slots[j].1,
    ensures
        collect(hashed) == hashed_map(collect(slots)),
{
    let plain = collect(slots);
    let keys = slots.map_values(|slot: (B256, U256)| slot.0@);
    assert forall|i: int|
        #![trigger hashed[i]]
        #![trigger keys[i]]
        0 <= i < keys.len() implies hashed[i].0@ == keccak256_of(keys[i]) && plain.contains_key(
        keys[i],
    ) && plain[keys[i]] == hashed[i].1 by {
        lemma_collect_ascending(slots, i);
        assert(keys[i] == slots[i].0@);
    }
    assert forall|key: Seq<u8>| #[trigger] plain.contains_key(key) implies keys.contains(key) by {
        lemma_collect_key(slots, key);
        let i = choose|i: int| 0 <= i < slots.len() && (#[trigger] slots[i]).0@ == key;
        assert(keys[i] == key);
    }
    assert(keys_ascend(keys)) by {
        assert forall|i: int, j: int|
            #![trigger keys[i], keys[j]]
            0 <= i < j < keys.len() implies precedes(keys[i], keys[j]) by {
            assert(precedes(slots[i].0@, slots[j].0@));
        }
    }
    assert forall|hash: Seq<u8>|
        collect(hashed).contains_key(hash) == #[trigger] hashed_map(plain).contains_key(hash) && (
        collect(hashed).contains_key(hash) ==> collect(hashed)[hash] == hashed_map(
            plain,
        )[hash]) by {
        let at = lemma_hashed_list(plain, keys, hashed, hash);
    }
    assert(collect(hashed) =~= hashed_map(plain));
}

/// The entries of a bundle by padded address.
spec fn lists_accounts(
    plain: Map<Seq<u8>, BundleAccount>,
    sorted: Map<Seq<u8>, BundleEntry>,
) -> bool {
    &&& forall|address: Seq<u8>| #[trigger]
        plain.contains_key(address) ==> sorted.contains_key(padded(address))
    &&& forall|key: Seq<u8>| #[trigger]
        sorted.contains_key(key) ==> {
            &&& key == padded(sorted[key].address@)
            &&& plain.contains_key(sorted[key].address@)
            &&& plain[sorted[key].address@] == sorted[key].account()
            &&& sorted[key].was_destroyed ==> sorted[key].storage_known
        }
}

/// The entries of a bundle in ascending order of their addresses.
fn sorted_entries(bundle: &BundleState) -> (sorted: KeyMap<BundleEntry>)
    ensures
        lists_accounts(bundle_accounts(*bundle), sorted@),
{
    let mut given = entries(bundle);
    let ghost all = given@;
    let ghost plain = bundle_accounts(*bundle);
    let mut keyed: Vec<(B256, BundleEntry)> = Vec::with_capacity(given.len());
    while given.len() > 0
        invariant
            given@.len() <= all.len(),
            given@ == all.take(given@.len() as int),
            keyed@.len() == all.len() - given@.len(),
            forall|j: int|
                #![trigger keyed@[j]]
                0 <= j < keyed@.len() ==> keyed@[j].1 == all[all.len() - 1 - j] && keyed@[j].0@
                    == padded(keyed@[j].1.address@),
        decreases given@.len(),
    {
        if let Some(entry) = given.pop() {
            keyed.push((entry.address.padded(), entry));
        }
    }
    let ghost list = keyed@;
    proof {
        assert forall|address: Seq<u8>| #[trigger] plain.contains_key(address) implies collect(
            list,
        ).contains_key(padded(address)) by {
            let i = choose|i: int| 0 <= i < all.len() && (#[trigger] all[i]).address@ == address;
            assert(list[all.len() - 1 - i].0@ == padded(address));
            lemma_collect_key(list, padded(address));
        }
        assert forall|key: Seq<u8>| #[trigger] collect(list).contains_key(key) implies {
            let found = collect(list)[key];
            &&& key == padded(found.address@)
            &&& plain.contains_key(found.address@)
            &&& plain[found.address@] == found.account()
            &&& found.was_destroyed ==> found.storage_known
        } by {
            lemma_collect_key(list, key);
            let j = choose|j: int|
                0 <= j < list.len() && (#[trigger] list[j]).0@ == key && collect(list)[key]
                    == list[j].1;
            assert(list[j].1 == all[all.len() - 1 - j]);
        }
    }
    KeyMap::from_entries(keyed)
}

impl Clone for HashedPostState {
    fn clone(&self) -> (copy: HashedPostState)
        ensures
            copy@ == self@,
    {
        let given = self.storages.entries();
        let mut storages: Vec<(B256, HashedStorage)> = Vec::with_capacity(given.len());
        let mut i: usize = 0;
        while i < given.len()
            invariant
                i <= given@.len(),
                storages@.len() == i,
                forall|j: int|
                    #![trigger storages@[j]]
                    #![trigger given@[j]]
                    0 <= j < i ==> storages@[j].0@ == given@[j].0@ && storages@[j].1@
                        == given@[j].1@,
            decreases given@.len() - i,
        {
            storages.push((given[i].0, given[i].1.clone()));
            i += 1;
        }
        let ghost list = storages@;
        let copy = HashedPostState {
            accounts: self.accounts.copied(),
            storages: KeyMap::from_entries(storages),
        };
        proof {
            assert forall|hash: Seq<u8>|
                copy.storages@.contains_key(hash) == self.storages@.contains_key(hash) && (
                #[trigger] self.storages@.contains_key(hash) ==> copy.storages@[hash]@
                    == self.storages@[hash]@) by {
                let i = lemma_collect_aligned(given@, list, hash);
            }
            assert(copy@.storages =~= self@.storages);
        }
        copy
    }
}

impl HashedPostState {
    /// The state diff that changes nothing.
    pub fn unchanged() -> (state: HashedPostState)
        ensures
            state@ == unchanged_state(),
    {
        let state = HashedPostState { accounts: KeyMap::empty(), storages: KeyMap::empty() };
        assert(state@.storages =~= Map::<Seq<u8>, HashedStorageView>::empty());
        state
    }

    /// Puts `other` on top of this state.
    pub fn extend(self, other: HashedPostState) -> (merged: HashedPostState)
        ensures
            merged@ == overlay_state(self@, other@),
    {
        let given = other.storages.entries();
        let mut upper: Vec<(B256, HashedStorage)> = Vec::with_capacity(given.len());
        let mut i: usize = 0;
        while i < given.len()
            invariant
                i <= given@.len(),
                upper@.len() == i,
                forall|j: int|
                    #![trigger upper@[j]]
                    #![trigger given@[j]]
                    0 <= j < i ==> {
                        &&& upper@[j].0@ == given@[j].0@
                        &&& upper@[j].1@ == if self.storages@.contains_key(given@[j].0@) {
                            overlay_storage(self.storages@[given@[j].0@]@, given@[j].1@)
                        } else {
                            given@[j].1@
                        }
                    },
            decreases given@.len() - i,
        {
            let storage = match self.storages.get(&given[i].0) {
                Some(under) => under.clone().extend(given[i].1.clone()),
                None => given[i].1.clone(),
            };
            upper.push((given[i].0, storage));
            i += 1;
        }
        let ghost list = upper@;
        let merged = HashedPostState {
            accounts: other.accounts.over(self.accounts),
            storages: KeyMap::from_entries(upper).over(self.storages),
        };
        proof {
            assert forall|hash: Seq<u8>|
                collect(list).contains_key(hash) == other.storages@.contains_key(hash) && (
                #[trigger] other.storages@.contains_key(hash) ==> collect(list)[hash]@ == (
                if self.storages@.contains_key(hash) {
                    overlay_storage(self.storages@[hash]@, other.storages@[hash]@)
                } else {
                    other.storages@[hash]@
                })) by {
                let i = lemma_collect_aligned(given@, list, hash);
            }
            assert(merged@.storages =~= overlay_storages(self@.storages, other@.storages));
        }
        merged
    }

    /// Hashes the accounts and slots of a bundle, in ascending order.
    pub fn from_bundle_state(bundle: &BundleState) -> (state: HashedPostState)
        ensures
            state@ == hashed_form(bundle_accounts(*bundle)),
            is_well_formed(bundle_accounts(*bundle)),
    {
        let sorted = sorted_entries(bundle);
        let given = sorted.entries();
        let ghost plain = bundle_accounts(*bundle);
        let ghost keys = addresses(given@);
        let ghost mut changed: Seq<Seq<u8>> = Seq::empty();
        proof {
            lemma_sorted_addresses(plain, given@);
        }
        let mut accounts: Vec<(B256, Option<Account>)> = Vec::with_capacity(given.len());
        let mut storages: Vec<(B256, HashedStorage)> = Vec::new();
        let mut i: usize = 0;
        while i < given.len()
            invariant
                i <= given@.len(),
                keys == addresses(given@),
                keys_ascend(keys),
                forall|j: int|
                    #![trigger given@[j]]
                    0 <= j < given@.len() ==> plain.contains_key(given@[j].1.address@)
                        && plain[given@[j].1.address@] == given@[j].1.account(),
                accounts@.len() == i,
                forall|j: int|
                    #![trigger accounts@[j]]
                    #![trigger keys[j]]
                    0 <= j < i ==> accounts@[j].0@ == keccak256_of(keys[j]) && accounts@[j].1
                        == optional_account_of(plain[keys[j]].info),
                storages@.len() == changed.len(),
                forall|k: int|
                    #![trigger storages@[k]]
                    #![trigger changed[k]]
                    0 <= k < changed.len() ==> {
                        &&& storages@[k].0@ == keccak256_of(changed[k])
                        &&& storages@[k].1@ == hashed_storage(plain[changed[k]])
                        &&& changed_storages(plain).contains_key(changed[k])
                    },
                keys_ascend(changed),
                forall|k: int, j: int|
                    #![trigger changed[k], keys[j]]
                    0 <= k < changed.len() && i <= j < keys.len() ==> precedes(changed[k], keys[j]),
                forall|j: int|
                    #![trigger keys[j]]
                    0 <= j < i && changes_storage(plain[keys[j]]) ==> changed.contains(keys[j]),
            decreases given@.len() - i,
        {
            let entry = &given[i].1;
            let ghost before = changed;
            assert(keys[i as int] == entry.address@);
            assert(given@[i as int].1 == *entry);
            let hash = keccak256(entry.address.0.as_slice());
            accounts.push((hash, Account::from_info(entry.info)));
            if entry.was_destroyed || entry.slots.len() > 0 {
                let storage = HashedStorage::from_plain_storage(entry.was_destroyed, &entry.slots);
                storages.push((hash, storage));
                proof {
                    changed = changed.push(entry.address@);
                    if entry.slots@.len() > 0 {
                        lemma_collect_key(entry.slots@, entry.slots@[0].0@);
                        assert(entry.account().slots.contains_key(entry.slots@[0].0@));
                    }
                    assert(changes_storage(entry.account()));
                    assert(storage@ == hashed_storage(entry.account()));
                    assert(changed[before.len() as int] == keys[i as int]);
                }
            } else {
                assert(!changes_storage(entry.account()));
            }
            assert forall|j: int|
                #![trigger keys[j]]
                0 <= j < i + 1 && changes_storage(plain[keys[j]]) implies changed.contains(
                keys[j],
            ) by {
                if j < i {
                    let k = choose|k: int| 0 <= k < before.len() && before[k] == keys[j];
                    assert(changed[k] == keys[j]);
                }
            }
            i += 1;
        }
        let ghost account_list = accounts@;
        let ghost storage_list = storages@;
        let state = HashedPostState {
            accounts: KeyMap::from_entries(accounts),
            storages: KeyMap::from_entries(storages),
        };
        proof {
            let read = plain_accounts(plain);
            assert forall|hash: Seq<u8>|
                state@.accounts.contains_key(hash) == #[trigger] hashed_map(read).contains_key(hash)
                    && (state@.accounts.contains_key(hash) ==> state@.accounts[hash] == hashed_map(
                    read,
                )[hash]) by {
                let at = lemma_hashed_list(read, keys, account_list, hash);
            }
            assert(state@.accounts =~= hashed_map(read));
            let stored = changed_storages(plain);
            assert forall|key: Seq<u8>| #[trigger]
                stored.contains_key(key) implies changed.contains(key) by {
                assert(plain.contains_key(key));
                let j = choose|j: int| 0 <= j < keys.len() && keys[j] == key;
                assert(changes_storage(plain[keys[j]]));
            }
            assert forall|hash: Seq<u8>|
                state@.storages.contains_key(hash) == #[trigger] hashed_map(stored).contains_key(
                    hash,
                ) && (state@.storages.contains_key(hash) ==> state@.storages[hash] == hashed_map(
                    stored,
                )[hash]) by {
                let at = lemma_hashed_list(stored, changed, storage_list, hash);
            }
            assert(state@.storages =~= hashed_map(stored));
        }
        state
    }
}

/// The addresses of a list of entries.
spec fn addresses(given: Seq<(B256, BundleEntry)>) -> Seq<Seq<u8>> {
    given.map_values(|entry: (B256, BundleEntry)| entry.1.address@)
}

/// The sorted entries of a bundle have ascending addresses, and name every account.
proof fn lemma_sorted_addresses(
    plain: Map<Seq<u8>, BundleAccount>,
    given: Seq<(B256, BundleEntry)>,
)
    requires
        ascending(given),
        lists_accounts(plain, collect(given)),
    ensures
        keys_ascend(addresses(given)),
        forall|j: int|
            #![trigger given[j]]
            0 <= j < given.len() ==> plain.contains_key(given[j].1.address@)
                && plain[given[j].1.address@] == given[j].1.account(),
        forall|address: Seq<u8>| #[trigger]
            plain.contains_key(address) ==> addresses(given).contains(address),
        is_well_formed(plain),
{
    let keys = addresses(given);
    assert forall|j: int| #![trigger given[j]] 0 <= j < given.len() implies given[j].0@ == padded(
        given[j].1.address@,
    ) && plain.contains_key(given[j].1.address@) && plain[given[j].1.address@]
        == given[j].1.account() && (given[j].1.was_destroyed ==> given[j].1.storage_known) by {
        lemma_collect_ascending(given, j);
    }
    assert forall|i: int, j: int|
        #![trigger keys[i], keys[j]]
        0 <= i < j < keys.len() implies precedes(keys[i], keys[j]) by {
        assert(precedes(given[i].0@, given[j].0@));
        lemma_padding_keeps_order(keys[i], keys[j]);
    }
    assert forall|address: Seq<u8>| #[trigger] plain.contains_key(address) implies keys.contains(
        address,
    ) && address.len() == 20 && has_width(plain[address].slots.dom(), 32) && (
    plain[address].was_destroyed ==> plain[address].storage_known) by {
        let key = padded(address);
        assert(collect(given).contains_key(key));
        lemma_collect_key(given, key);
        let i = choose|i: int| 0 <= i < given.len() && (#[trigger] given[i]).0@ == key;
        lemma_padding_keeps_order(address, given[i].1.address@);
        assert(keys[i] == address);
        lemma_collect_width(given[i].1.slots@);
    }
    lemma_listed_keys_are_finite(plain.dom(), keys);
}

/// What a trie computation starts from: cached trie nodes, a state diff, and the trie paths that
/// the diff invalidates. Only the state diff is read here; nodes and paths are carried through.
#[derive(Debug)]
pub struct TrieInput<N, P> {
    /// Cached trie nodes.
    pub nodes: N,
    /// State diff on top of the state that the computation runs on.
    pub state: HashedPostState,
    /// Trie paths that the diff invalidates.
    pub prefix_sets: P,
}

impl<N, P> TrieInput<N, P> {
    /// Puts `state` underneath the diff that the input already holds.
    pub fn prepend_state(self, state: HashedPostState) -> (input: TrieInput<N, P>)
        ensures
            input.nodes == self.nodes,
            input.prefix_sets == self.prefix_sets,
            input.state@ == overlay_state(state@, self.state@),
    {
        TrieInput {
            nodes: self.nodes,
            state: state.extend(self.state),
            prefix_sets: self.prefix_sets,
        }
    }
}

} // verus!
