//! What the hashed form of a bundle holds, in terms of what the bundle holds.

use std::sync::Arc;

use revm::database::BundleState;
use vstd::prelude::*;
use vstd::set_lib::lemma_len_subset;

use crate::account::keccak256_of;
use crate::bundle::bundle_accounts;
use crate::hashed::{
    changed_storages, changes_storage, hashed_form, hashed_storage, plain_accounts,
    HashedPostState, HashedStorage,
};
use crate::hashing::{
    greatest, has_hash, has_width, hashed_map, is_greatest, lemma_greatest_exists,
    lemma_sole_key_is_greatest,
};
use crate::keyed::{collect, lemma_collect_key, lemma_collect_last};
use crate::pending_state_provider::FlashblocksPendingStateProvider;
use crate::primitives::{B256, U256};

verus! {

/// A hash is in the hashed accounts exactly when an address that the bundle holds has it, and then
/// it holds the data of such an address: nonce, balance, and the code hash unless that is the hash
/// of the empty code. An address without data is there as gone.
pub proof fn law_hashed_accounts_come_from_the_bundle<H>(
    provider: FlashblocksPendingStateProvider<H>,
    state: Arc<HashedPostState>,
    hash: Seq<u8>,
)
    requires
        call_ensures(FlashblocksPendingStateProvider::<H>::hashed_state, (&provider,), state),
    ensures
        state.accounts@.contains_key(hash) <==> exists|address: Seq<u8>| #[trigger]
            bundle_accounts(provider.bundle()).contains_key(address) && keccak256_of(address)
                == hash,
        state.accounts@.contains_key(hash) ==> exists|address: Seq<u8>| #[trigger]
            bundle_accounts(provider.bundle()).contains_key(address) && keccak256_of(address)
                == hash && {
                let held = bundle_accounts(provider.bundle())[address].info;
                let account = state.accounts@[hash];
                &&& account is Some <==> held is Some
                &&& held is Some ==> {
                    &&& account->0.nonce == held->0.nonce
                    &&& account->0.balance == held->0.balance
                    &&& account->0.bytecode_hash is None <==> held->0.code_hash.0@
                        == keccak256_of(Seq::<u8>::empty())
                    &&& account->0.bytecode_hash is Some ==> account->0.bytecode_hash->0
                        == held->0.code_hash
                }
            },
{
    let accounts = bundle_accounts(provider.bundle());
    let read = plain_accounts(accounts);
    assert(read.dom() =~= accounts.dom());
    assert(state@ == hashed_form(accounts));
    assert(state.accounts@ == hashed_map(read));
    if has_hash(accounts.dom(), hash) {
        lemma_greatest_exists(accounts.dom(), 20, hash);
        assert(accounts.contains_key(greatest(accounts.dom(), hash)));
    }
    if exists|address: Seq<u8>| #[trigger]
        accounts.contains_key(address) && keccak256_of(address) == hash {
        let address = choose|address: Seq<u8>| #[trigger]
            accounts.contains_key(address) && keccak256_of(address) == hash;
        assert(accounts.dom().contains(address));
    }
}

/// A hash is in the hashed storages exactly when an address that the bundle holds has it and was
/// destroyed or has a tracked slot. Then it holds the storage of such an address: wiped exactly if
/// that was destroyed, with a value under a hash exactly when a tracked slot has that hash, namely
/// the value of such a slot.
pub proof fn law_hashed_storages_come_from_the_bundle<H>(
    provider: FlashblocksPendingStateProvider<H>,
    state: Arc<HashedPostState>,
    hash: Seq<u8>,
)
    requires
        call_ensures(FlashblocksPendingStateProvider::<H>::hashed_state, (&provider,), state),
    ensures
        state.storages@.contains_key(hash) <==> exists|address: Seq<u8>| #[trigger]
            bundle_accounts(provider.bundle()).contains_key(address) && keccak256_of(address)
                == hash && {
                let held = bundle_accounts(provider.bundle())[address];
                held.was_destroyed || exists|key: Seq<u8>| #[trigger] held.slots.contains_key(key)
            },
        state.storages@.contains_key(hash) ==> exists|address: Seq<u8>| #[trigger]
            bundle_accounts(provider.bundle()).contains_key(address) && keccak256_of(address)
                == hash && {
                let held = bundle_accounts(provider.bundle())[address];
                let storage = state.storages@[hash];
                &&& storage.wiped == held.was_destroyed
                &&& forall|key: Seq<u8>| #[trigger]
                    held.slots.contains_key(key) ==> storage.slots@.contains_key(keccak256_of(key))
                &&& forall|slot: Seq<u8>| #[trigger]
                    storage.slots@.contains_key(slot) ==> exists|key: Seq<u8>| #[trigger]
                        held.slots.contains_key(key) && keccak256_of(key) == slot
                            && storage.slots@[slot] == held.slots[key]
            },
{
    let accounts = bundle_accounts(provider.bundle());
    let stored = changed_storages(accounts);
    assert(state@ == hashed_form(accounts));
    assert(state@.storages.contains_key(hash) == state.storages@.contains_key(hash));
    if state.storages@.contains_key(hash) {
        assert(stored.dom().subset_of(accounts.dom()));
        lemma_len_subset(stored.dom(), accounts.dom());
        lemma_greatest_exists(stored.dom(), 20, hash);
        let address = greatest(stored.dom(), hash);
        assert(is_greatest(stored.dom(), hash, address));
        assert(stored.dom().contains(address));
        assert(accounts.contains_key(address));
        let held = accounts[address];
        let storage = state.storages@[hash];
        assert(storage@ == state@.storages[hash]);
        assert(storage@ == hashed_storage(held));
        assert(storage.slots@ == hashed_map(held.slots));
        lemma_hashed_map_keeps_keys(held.slots, 32);
        assert(changes_storage(held));
    }
    if exists|address: Seq<u8>| #[trigger]
        accounts.contains_key(address) && keccak256_of(address) == hash && {
            let held = accounts[address];
            held.was_destroyed || exists|key: Seq<u8>| #[trigger] held.slots.contains_key(key)
        } {
        let address = choose|address: Seq<u8>| #[trigger]
            accounts.contains_key(address) && keccak256_of(address) == hash && {
                let held = accounts[address];
                held.was_destroyed || exists|key: Seq<u8>| #[trigger] held.slots.contains_key(key)
            };
        assert(changes_storage(accounts[address]));
        assert(stored.dom().contains(address));
    }
}

/// Hashing the keys of a map keeps every key, makes none up, and keeps a value of each hash.
proof fn lemma_hashed_map_keeps_keys<V>(plain: Map<Seq<u8>, V>, width: nat)
    requires
        has_width(plain.dom(), width),
    ensures
        forall|key: Seq<u8>| #[trigger]
            plain.contains_key(key) ==> hashed_map(plain).contains_key(keccak256_of(key)),
        forall|hash: Seq<u8>| #[trigger]
            hashed_map(plain).contains_key(hash) ==> exists|key: Seq<u8>| #[trigger]
                plain.contains_key(key) && keccak256_of(key) == hash && hashed_map(plain)[hash]
                    == plain[key],
{
    assert forall|key: Seq<u8>| #[trigger] plain.contains_key(key) implies hashed_map(
        plain,
    ).contains_key(keccak256_of(key)) by {
        assert(plain.dom().contains(key));
    }
    assert forall|hash: Seq<u8>| #[trigger] hashed_map(plain).contains_key(hash) implies exists|
        key: Seq<u8>,
    | #[trigger]
        plain.contains_key(key) && keccak256_of(key) == hash && hashed_map(plain)[hash]
            == plain[key] by {
        lemma_greatest_exists(plain.dom(), width, hash);
        assert(plain.contains_key(greatest(plain.dom(), hash)));
    }
}

/// An account whose address shares its hash with no other one of the bundle is in the hashed
/// accounts as the bundle holds it: nonce, balance, and the code hash unless that is the hash of
/// the empty code.
pub proof fn law_hashed_account_is_exact<H>(
    provider: FlashblocksPendingStateProvider<H>,
    state: Arc<HashedPostState>,
    address: Seq<u8>,
)
    requires
        call_ensures(FlashblocksPendingStateProvider::<H>::hashed_state, (&provider,), state),
        bundle_accounts(provider.bundle()).contains_key(address),
        forall|other: Seq<u8>| #[trigger]
            bundle_accounts(provider.bundle()).contains_key(other) && keccak256_of(other)
                == keccak256_of(address) ==> other == address,
    ensures
        state.accounts@.contains_key(keccak256_of(address)),
        ({
            let held = bundle_accounts(provider.bundle())[address].info;
            let account = state.accounts@[keccak256_of(address)];
            &&& account is Some <==> held is Some
            &&& held is Some ==> {
                &&& account->0.nonce == held->0.nonce
                &&& account->0.balance == held->0.balance
                &&& account->0.bytecode_hash is None <==> held->0.code_hash.0@ == keccak256_of(
                    Seq::<u8>::empty(),
                )
                &&& account->0.bytecode_hash is Some ==> account->0.bytecode_hash->0
                    == held->0.code_hash
            }
        }),
{
    law_hashed_accounts_come_from_the_bundle(provider, state, keccak256_of(address));
}

/// The storage of an account whose address shares its hash with no other one of the bundle is in
/// the hashed storages exactly if the account was destroyed or has a tracked slot. It is wiped
/// exactly if the account was destroyed, and a tracked slot that shares its hash with no other one
/// is there with the tracked value.
pub proof fn law_hashed_storage_is_exact<H>(
    provider: FlashblocksPendingStateProvider<H>,
    state: Arc<HashedPostState>,
    address: Seq<u8>,
    key: Seq<u8>,
)
    requires
        call_ensures(FlashblocksPendingStateProvider::<H>::hashed_state, (&provider,), state),
        bundle_accounts(provider.bundle()).contains_key(address),
        forall|other: Seq<u8>| #[trigger]
            bundle_accounts(provider.bundle()).contains_key(other) && keccak256_of(other)
                == keccak256_of(address) ==> other == address,
        forall|other: Seq<u8>| #[trigger]
            bundle_accounts(provider.bundle())[address].slots.contains_key(other) && keccak256_of(
                other,
            ) == keccak256_of(key) ==> other == key,
    ensures
        ({
            let held = bundle_accounts(provider.bundle())[address];
            let hash = keccak256_of(address);
            &&& held.was_destroyed ==> state.storages@.contains_key(hash)
            &&& held.slots.contains_key(key) ==> state.storages@.contains_key(hash)
            &&& state.storages@.contains_key(hash) ==> {
                let storage = state.storages@[hash];
                &&& storage.wiped == held.was_destroyed
                &&& storage.slots@.contains_key(keccak256_of(key)) <==> held.slots.contains_key(key)
                &&& held.slots.contains_key(key) ==> storage.slots@[keccak256_of(key)]
                    == held.slots[key]
            }
        }),
{
    let held = bundle_accounts(provider.bundle())[address];
    law_hashed_storages_come_from_the_bundle(provider, state, keccak256_of(address));
}

/// Hashing a bundle outright gives what the provider of that bundle holds.
pub proof fn law_hashing_outright_agrees<H>(
    provider: FlashblocksPendingStateProvider<H>,
    bundle: BundleState,
    kept: Arc<HashedPostState>,
    outright: HashedPostState,
)
    requires
        provider.bundle() == bundle,
        call_ensures(FlashblocksPendingStateProvider::<H>::hashed_state, (&provider,), kept),
        call_ensures(HashedPostState::from_bundle_state, (&bundle,), outright),
    ensures
        outright.accounts@ == kept.accounts@,
        forall|hash: Seq<u8>|
            outright.storages@.contains_key(hash) == #[trigger] kept.storages@.contains_key(hash),
        forall|hash: Seq<u8>| #[trigger]
            kept.storages@.contains_key(hash) ==> {
                &&& outright.storages@[hash].wiped == kept.storages@[hash].wiped
                &&& outright.storages@[hash].slots@ == kept.storages@[hash].slots@
            },
{
    assert(outright@ == kept@);
    assert forall|hash: Seq<u8>| #[trigger]
        kept.storages@.contains_key(hash) implies outright.storages@.contains_key(hash)
        && outright.storages@[hash]@ == kept.storages@[hash]@ by {
        assert(kept@.storages.contains_key(hash));
        assert(outright@.storages.contains_key(hash));
        assert(kept@.storages[hash] == kept.storages@[hash]@);
        assert(outright@.storages[hash] == outright.storages@[hash]@);
    }
    assert forall|hash: Seq<u8>| outright.storages@.contains_key(hash) implies #[trigger]
        kept.storages@.contains_key(hash) by {
        assert(outright@.storages.contains_key(hash));
        assert(kept@.storages.contains_key(hash));
    }
}

/// Hashing plain storage keeps whether it is wiped, and a slot is there exactly when an entry has a
/// key with that hash.
pub proof fn law_hashing_slots_keeps_their_keys(
    was_destroyed: bool,
    slots: Vec<(B256, U256)>,
    storage: HashedStorage,
    hash: Seq<u8>,
)
    requires
        call_ensures(HashedStorage::from_plain_storage, (was_destroyed, &slots), storage),
    ensures
        storage.wiped == was_destroyed,
        storage.slots@.contains_key(hash) <==> exists|i: int|
            0 <= i < slots@.len() && keccak256_of((#[trigger] slots@[i]).0.0@) == hash,
{
    let plain = collect(slots@);
    assert(storage@.slots == hashed_map(plain));
    if has_hash(plain.dom(), hash) {
        let other = choose|other: Seq<u8>| #[trigger]
            plain.dom().contains(other) && keccak256_of(other) == hash;
        lemma_collect_key(slots@, other);
    }
    if exists|i: int| 0 <= i < slots@.len() && keccak256_of((#[trigger] slots@[i]).0.0@) == hash {
        let i = choose|i: int|
            0 <= i < slots@.len() && keccak256_of((#[trigger] slots@[i]).0.0@) == hash;
        lemma_collect_key(slots@, slots@[i].0@);
        assert(plain.dom().contains(slots@[i].0@));
    }
}

/// In hashed plain storage, a key that shares its hash with no other entry's has the value of its
/// last entry.
pub proof fn law_hashing_slots_keeps_their_values(
    was_destroyed: bool,
    slots: Vec<(B256, U256)>,
    storage: HashedStorage,
    at: int,
)
    requires
        call_ensures(HashedStorage::from_plain_storage, (was_destroyed, &slots), storage),
        0 <= at < slots@.len(),
        forall|i: int|
            0 <= i < slots@.len() && keccak256_of((#[trigger] slots@[i]).0.0@) == keccak256_of(
                slots@[at].0.0@,
            ) ==> slots@[i].0.0@ == slots@[at].0.0@ && i <= at,
    ensures
        storage.slots@.contains_key(keccak256_of(slots@[at].0.0@)),
        storage.slots@[keccak256_of(slots@[at].0.0@)] == slots@[at].1,
{
    let plain = collect(slots@);
    let key = slots@[at].0@;
    assert(storage@.slots == hashed_map(plain));
    lemma_collect_last(slots@, at);
    assert forall|other: Seq<u8>| #[trigger]
        plain.dom().contains(other) && keccak256_of(other) == keccak256_of(key) implies other
        == key by {
        lemma_collect_key(slots@, other);
    }
    lemma_sole_key_is_greatest(plain.dom(), key);
}

} // verus!
