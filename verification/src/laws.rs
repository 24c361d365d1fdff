//! What holds of the pending state as a whole.
//!
//! The modules below state, call by call, what comes out in terms of what went in.

pub mod hashing;
pub mod kinds;
pub mod loading;
pub mod maps;
pub mod messages;
pub mod overlays;
pub mod reads;
pub mod texts;

use std::sync::Arc;

use revm::bytecode::Bytecode;
use vstd::prelude::*;
use vstd::set_lib::lemma_len_subset;

use crate::account::{keccak256_of, optional_account_of, Account};
use crate::bundle::{bundle_accounts, is_well_formed, zero_word, BundleAccount};
use crate::hashed::{
    changed_storages, changes_storage, hashed_form, hashed_storage, overlay_state, overlay_storage,
    plain_accounts, unchanged_state, unchanged_storage, HashedPostState, HashedPostStateView,
    HashedStorage, HashedStorageView, TrieInput,
};
use crate::hashing::{greatest, lemma_greatest_exists, lemma_sole_key_is_greatest};
use crate::pending_state::{PendingStateSnapshot, PendingStateSource};
use crate::pending_state_provider::{
    account_lookup, bytecode_lookup, on_pending_state, on_pending_storage, pending_storage,
    storage_lookup, FlashblocksPendingSnapshot, FlashblocksPendingStateProvider, FlashblocksState,
    Lookup,
};
use crate::primitives::{Address, U256};

verus! {

/// An account that the bundle touches reads the same whatever the historical state says: as its
/// final value, or as gone.
pub proof fn law_touched_account_shadows_history<E>(
    accounts: Map<Seq<u8>, BundleAccount>,
    address: Seq<u8>,
    reply: Result<Option<Account>, E>,
)
    requires
        accounts.contains_key(address),
    ensures
        account_lookup(accounts, address).resolved(reply) == Ok::<_, E>(
            optional_account_of(accounts[address].info),
        ),
        accounts[address].info is None ==> account_lookup(accounts, address).resolved(reply)
            == Ok::<Option<Account>, E>(None),
{
}

/// Nothing of an account that the bundle does not touch is hidden: accounts and slots read as the
/// historical state says, errors included.
pub proof fn law_untouched_account_reads_as_history<E>(
    accounts: Map<Seq<u8>, BundleAccount>,
    address: Seq<u8>,
    key: Seq<u8>,
    account: Result<Option<Account>, E>,
    word: Result<Option<U256>, E>,
)
    requires
        !accounts.contains_key(address),
    ensures
        account_lookup(accounts, address).resolved(account) == account,
        storage_lookup(accounts, address, key).resolved(word) == word,
{
}

/// A slot of a created or destroyed account never reaches the historical state: it reads as the
/// tracked value, or as zero.
pub proof fn law_known_storage_shadows_history<E>(
    accounts: Map<Seq<u8>, BundleAccount>,
    address: Seq<u8>,
    key: Seq<u8>,
    reply: Result<Option<U256>, E>,
)
    requires
        accounts.contains_key(address),
        accounts[address].storage_known,
    ensures
        storage_lookup(accounts, address, key).resolved(reply) == Ok::<_, E>(
            Some(
                if accounts[address].slots.contains_key(key) {
                    accounts[address].slots[key]
                } else {
                    zero_word()
                },
            ),
        ),
{
}

/// A contract reads as the bundle holds it, and as the historical state says if the bundle does not
/// hold it. A code hash that the bundle holds never reads as missing.
pub proof fn law_contracts_read_through<E>(
    contracts: Map<Seq<u8>, Bytecode>,
    code_hash: Seq<u8>,
    reply: Result<Option<Bytecode>, E>,
)
    ensures
        contracts.contains_key(code_hash) ==> bytecode_lookup(contracts, code_hash).resolved(reply)
            == Ok::<_, E>(Some(contracts[code_hash])),
        !contracts.contains_key(code_hash) ==> bytecode_lookup(contracts, code_hash).resolved(reply)
            == reply,
{
}

/// Overlaying storages is associative, and the unchanged storage is neutral on both sides.
pub proof fn law_storage_overlays_compose(
    low: HashedStorageView,
    middle: HashedStorageView,
    high: HashedStorageView,
)
    ensures
        overlay_storage(overlay_storage(low, middle), high) == overlay_storage(
            low,
            overlay_storage(middle, high),
        ),
        overlay_storage(unchanged_storage(), low) == low,
        overlay_storage(low, unchanged_storage()) == low,
{
    assert(overlay_storage(overlay_storage(low, middle), high).slots =~= overlay_storage(
        low,
        overlay_storage(middle, high),
    ).slots);
    assert(overlay_storage(unchanged_storage(), low).slots =~= low.slots);
    assert(overlay_storage(low, unchanged_storage()).slots =~= low.slots);
}

/// Overlaying state diffs is associative, and the unchanged state is neutral on both sides. So it
/// does not matter in which order a stack of diffs is put together.
pub proof fn law_state_overlays_compose(
    low: HashedPostStateView,
    middle: HashedPostStateView,
    high: HashedPostStateView,
)
    ensures
        overlay_state(overlay_state(low, middle), high) == overlay_state(
            low,
            overlay_state(middle, high),
        ),
        overlay_state(unchanged_state(), low) == low,
        overlay_state(low, unchanged_state()) == low,
{
    let left = overlay_state(overlay_state(low, middle), high);
    let right = overlay_state(low, overlay_state(middle, high));
    assert(left.accounts =~= right.accounts);
    assert forall|hash: Seq<u8>| #[trigger]
        left.storages.contains_key(hash) implies left.storages[hash] == right.storages[hash] by {
        law_storage_overlays_compose(
            low.storages[hash],
            middle.storages[hash],
            high.storages[hash],
        );
    }
    assert(left.storages =~= right.storages);
    assert(overlay_state(unchanged_state(), low).accounts =~= low.accounts);
    assert(overlay_state(unchanged_state(), low).storages =~= low.storages);
    assert(overlay_state(low, unchanged_state()).accounts =~= low.accounts);
    assert(overlay_state(low, unchanged_state()).storages =~= low.storages);
}

/// The pending diff sits underneath the caller's own: what the caller set stays as the caller set
/// it, nothing pending shows through a storage that the caller wiped, and everything else is as the
/// pending diff has it.
pub proof fn law_pending_sits_underneath(
    accounts: Map<Seq<u8>, BundleAccount>,
    caller: HashedPostStateView,
    hash: Seq<u8>,
    slot: Seq<u8>,
)
    ensures
        ({
            let pending = hashed_form(accounts);
            let result = on_pending_state(accounts, caller);
            &&& result.accounts.contains_key(hash) <==> caller.accounts.contains_key(hash)
                || pending.accounts.contains_key(hash)
            &&& caller.accounts.contains_key(hash) ==> result.accounts[hash]
                == caller.accounts[hash]
            &&& !caller.accounts.contains_key(hash) && pending.accounts.contains_key(hash)
                ==> result.accounts[hash] == pending.accounts[hash]
            &&& result.storages.contains_key(hash) <==> caller.storages.contains_key(hash)
                || pending.storages.contains_key(hash)
            &&& caller.storages.contains_key(hash) && caller.storages[hash].slots.contains_key(slot)
                ==> result.storages[hash].slots.contains_key(slot)
                && result.storages[hash].slots[slot] == caller.storages[hash].slots[slot]
            &&& caller.storages.contains_key(hash) && caller.storages[hash].wiped
                ==> result.storages[hash] == caller.storages[hash]
            &&& !caller.storages.contains_key(hash) && pending.storages.contains_key(hash)
                ==> result.storages[hash] == pending.storages[hash]
        }),
{
}

/// Putting the pending diff underneath twice is putting it there once.
pub proof fn law_prepending_twice_is_once(pending: HashedPostStateView, caller: HashedPostStateView)
    ensures
        overlay_state(pending, overlay_state(pending, caller)) == overlay_state(pending, caller),
{
    let once = overlay_state(pending, caller);
    let twice = overlay_state(pending, once);
    assert(twice.accounts =~= once.accounts);
    assert forall|hash: Seq<u8>| #[trigger] once.storages.contains_key(hash) implies
        twice.storages[hash] == once.storages[hash] by {
        assert(twice.storages[hash].slots =~= once.storages[hash].slots);
    }
    assert(twice.storages =~= once.storages);
}

/// A bundle without accounts leaves the caller's diff as it is, for a state and for any storage.
pub proof fn law_empty_bundle_changes_nothing(
    caller: HashedPostStateView,
    address: Seq<u8>,
    storage: HashedStorageView,
)
    ensures
        hashed_form(Map::empty()) == unchanged_state(),
        on_pending_state(Map::empty(), caller) == caller,
        on_pending_storage(Map::empty(), address, storage) == storage,
{
    let none = hashed_form(Map::empty());
    assert(none.accounts =~= unchanged_state().accounts);
    assert(none.storages =~= unchanged_state().storages);
    law_state_overlays_compose(caller, caller, caller);
    law_storage_overlays_compose(storage, storage, storage);
}

/// Storage may be merged in steps: merging one diff and putting another on top is merging both.
pub proof fn law_storage_merges_in_steps(
    accounts: Map<Seq<u8>, BundleAccount>,
    address: Seq<u8>,
    first: HashedStorageView,
    second: HashedStorageView,
)
    ensures
        on_pending_storage(accounts, address, overlay_storage(first, second)) == overlay_storage(
            on_pending_storage(accounts, address, first),
            second,
        ),
{
    law_storage_overlays_compose(
        pending_storage(hashed_form(accounts), keccak256_of(address)),
        first,
        second,
    );
}

/// Every call of `hashed_state` on one provider gives the same value, hash collisions or not. So it
/// cannot be told whether it was computed anew or kept from before.
pub proof fn law_hashed_state_never_changes<H>(
    provider: FlashblocksPendingStateProvider<H>,
    first: Arc<HashedPostState>,
    second: Arc<HashedPostState>,
)
    requires
        call_ensures(FlashblocksPendingStateProvider::<H>::hashed_state, (&provider,), first),
        call_ensures(FlashblocksPendingStateProvider::<H>::hashed_state, (&provider,), second),
    ensures
        first@ == second@,
        first@ == hashed_form(bundle_accounts(provider.bundle())),
{
}

/// Equal calls of `merged_hashed_storage` on one provider give equal results, whatever was called
/// in between: no call alters the pending diff.
pub proof fn law_equal_merges_agree<H>(
    provider: FlashblocksPendingStateProvider<H>,
    address: Address,
    first: HashedStorage,
    second: HashedStorage,
    first_merged: HashedStorage,
    second_merged: HashedStorage,
)
    requires
        first@ == second@,
        call_ensures(
            FlashblocksPendingStateProvider::<H>::merged_hashed_storage,
            (&provider, &address, first),
            first_merged,
        ),
        call_ensures(
            FlashblocksPendingStateProvider::<H>::merged_hashed_storage,
            (&provider, &address, second),
            second_merged,
        ),
    ensures
        first_merged@ == second_merged@,
{
}

/// Calling `prepend_pending` on what it returned leaves that as it is.
pub proof fn law_prepend_pending_is_idempotent<H, N, P>(
    provider: FlashblocksPendingStateProvider<H>,
    input: TrieInput<N, P>,
    once: TrieInput<N, P>,
    twice: TrieInput<N, P>,
)
    requires
        call_ensures(
            FlashblocksPendingStateProvider::<H>::prepend_pending::<N, P>,
            (&provider, input),
            once,
        ),
        call_ensures(
            FlashblocksPendingStateProvider::<H>::prepend_pending::<N, P>,
            (&provider, once),
            twice,
        ),
    ensures
        twice.state@ == once.state@,
        twice.nodes == once.nodes,
        twice.prefix_sets == once.prefix_sets,
{
    law_prepending_twice_is_once(
        hashed_form(bundle_accounts(provider.bundle())),
        input.state@,
    );
}

/// Looking a storage up in the input of a state computation gives what the storage computations get
/// for the same address: both put the caller's storage on top of the same pending one.
pub proof fn law_storage_and_state_inputs_agree(
    pending: HashedPostStateView,
    caller: HashedPostStateView,
    hash: Seq<u8>,
)
    ensures
        pending_storage(overlay_state(pending, caller), hash) == overlay_storage(
            pending_storage(pending, hash),
            pending_storage(caller, hash),
        ),
{
    law_storage_overlays_compose(
        pending_storage(pending, hash),
        unchanged_storage(),
        unchanged_storage(),
    );
    law_storage_overlays_compose(
        pending_storage(caller, hash),
        unchanged_storage(),
        unchanged_storage(),
    );
}

/// No two addresses of a bundle share a hash, and no two slots of one account do.
pub open spec fn hashes_are_distinct(accounts: Map<Seq<u8>, BundleAccount>) -> bool {
    &&& forall|a: Seq<u8>, b: Seq<u8>|
        #![trigger accounts.contains_key(a), accounts.contains_key(b)]
        accounts.contains_key(a) && accounts.contains_key(b) && keccak256_of(a) == keccak256_of(b)
            ==> a == b
    &&& forall|address: Seq<u8>| #[trigger]
        accounts.contains_key(address) ==> slot_hashes_are_distinct(accounts[address])
}

/// No two slots of an account share a hash.
pub open spec fn slot_hashes_are_distinct(account: BundleAccount) -> bool {
    forall|a: Seq<u8>, b: Seq<u8>|
        #![trigger account.slots.contains_key(a), account.slots.contains_key(b)]
        account.slots.contains_key(a) && account.slots.contains_key(b) && keccak256_of(a)
            == keccak256_of(b) ==> a == b
}

/// As long as no hashes collide, the hashed form of an account reads as the account does: it holds
/// the answer of an account read under the hashed address, and every tracked slot under its hash.
pub proof fn law_hashed_state_agrees_with_reads(
    accounts: Map<Seq<u8>, BundleAccount>,
    address: Seq<u8>,
    key: Seq<u8>,
)
    requires
        hashes_are_distinct(accounts),
        accounts.contains_key(address),
    ensures
        ({
            let state = hashed_form(accounts);
            let storage = pending_storage(state, keccak256_of(address));
            &&& state.accounts.contains_key(keccak256_of(address))
            &&& account_lookup(accounts, address) == Lookup::Answer(
                state.accounts[keccak256_of(address)],
            )
            &&& storage.wiped == accounts[address].was_destroyed
            &&& accounts[address].slots.contains_key(key) ==> {
                &&& storage.slots.contains_key(keccak256_of(key))
                &&& storage_lookup(accounts, address, key) == Lookup::Answer(
                    Some(storage.slots[keccak256_of(key)]),
                )
            }
        }),
{
    let account = accounts[address];
    let read = plain_accounts(accounts);
    let stored = changed_storages(accounts);
    assert forall|other: Seq<u8>| #[trigger]
        read.dom().contains(other) && keccak256_of(other) == keccak256_of(
            address,
        ) implies other == address by {
        assert(accounts.contains_key(other));
    }
    assert(read.dom().contains(address));
    lemma_sole_key_is_greatest(read.dom(), address);
    if stored.contains_key(address) {
        assert forall|other: Seq<u8>| #[trigger]
            stored.dom().contains(other) && keccak256_of(other) == keccak256_of(
                address,
            ) implies other == address by {
            assert(accounts.contains_key(other));
        }
        lemma_sole_key_is_greatest(stored.dom(), address);
    } else if hashed_form(accounts).storages.contains_key(keccak256_of(address)) {
        let other = choose|other: Seq<u8>| #[trigger]
            stored.dom().contains(other) && keccak256_of(other) == keccak256_of(address);
        assert(accounts.contains_key(other));
    }
    if account.slots.contains_key(key) {
        assert(changes_storage(account));
        assert forall|other: Seq<u8>| #[trigger]
            account.slots.dom().contains(other) && keccak256_of(other) == keccak256_of(
                key,
            ) implies other == key by {
            assert(account.slots.contains_key(other));
        }
        lemma_sole_key_is_greatest(account.slots.dom(), key);
    }
}

/// As long as no hashes collide, wiping a storage and reading its slots agree: a slot that a wiped
/// storage does not set reads as zero, and no slot of a wiped storage reaches the historical state.
pub proof fn law_wiped_storage_reads_as_zero(
    accounts: Map<Seq<u8>, BundleAccount>,
    address: Seq<u8>,
    key: Seq<u8>,
)
    requires
        is_well_formed(accounts),
        hashes_are_distinct(accounts),
        accounts.contains_key(address),
        pending_storage(hashed_form(accounts), keccak256_of(address)).wiped,
    ensures
        storage_lookup(accounts, address, key) is Answer,
        !pending_storage(hashed_form(accounts), keccak256_of(address)).slots.contains_key(
            keccak256_of(key),
        ) ==> storage_lookup(accounts, address, key) == Lookup::Answer(Some(zero_word())),
{
    law_hashed_state_agrees_with_reads(accounts, address, key);
}

/// Whether or not hashes collide, every account is there under its hash, and so is every storage
/// with changes. What is there under a hash is that of the greatest address that has it, among all
/// accounts and among those with storage changes.
pub proof fn law_greatest_address_decides(
    accounts: Map<Seq<u8>, BundleAccount>,
    address: Seq<u8>,
)
    requires
        is_well_formed(accounts),
        accounts.contains_key(address),
    ensures
        ({
            let state = hashed_form(accounts);
            let hash = keccak256_of(address);
            let holder = greatest(accounts.dom(), hash);
            &&& state.accounts.contains_key(hash)
            &&& accounts.contains_key(holder) && keccak256_of(holder) == hash
            &&& state.accounts[hash] == optional_account_of(accounts[holder].info)
            &&& changes_storage(accounts[address]) ==> {
                let owner = greatest(changed_storages(accounts).dom(), hash);
                &&& state.storages.contains_key(hash)
                &&& accounts.contains_key(owner) && keccak256_of(owner) == hash
                &&& changes_storage(accounts[owner])
                &&& state.storages[hash] == hashed_storage(accounts[owner])
            }
        }),
{
    let hash = keccak256_of(address);
    assert(plain_accounts(accounts).dom() =~= accounts.dom());
    assert(accounts.dom().contains(address));
    lemma_greatest_exists(accounts.dom(), 20, hash);
    if changes_storage(accounts[address]) {
        let stored = changed_storages(accounts);
        assert(stored.dom().subset_of(accounts.dom()));
        lemma_len_subset(stored.dom(), accounts.dom());
        assert(stored.dom().contains(address));
        lemma_greatest_exists(stored.dom(), 20, hash);
    }
}

/// The same of slots: every slot of an account is there under its hash, with the value of the
/// greatest slot that has it.
pub proof fn law_greatest_slot_decides(
    accounts: Map<Seq<u8>, BundleAccount>,
    address: Seq<u8>,
    key: Seq<u8>,
)
    requires
        is_well_formed(accounts),
        accounts.contains_key(address),
        accounts[address].slots.contains_key(key),
    ensures
        ({
            let slots = accounts[address].slots;
            let holder = greatest(slots.dom(), keccak256_of(key));
            &&& hashed_storage(accounts[address]).slots.contains_key(keccak256_of(key))
            &&& slots.contains_key(holder) && keccak256_of(holder) == keccak256_of(key)
            &&& hashed_storage(accounts[address]).slots[keccak256_of(key)] == slots[holder]
        }),
{
    let slots = accounts[address].slots;
    assert(slots.dom().contains(key));
    lemma_greatest_exists(slots.dom(), 32, keccak256_of(key));
}

/// There is a snapshot to take exactly while there are pending blocks.
pub proof fn law_snapshots_need_pending_blocks(state: FlashblocksState)
    ensures
        state.offers(None) <==> state.pending is None,
{
}

/// The anchor of a snapshot and the bundle of its overlay come from the same pending blocks, and
/// the overlay sits on the historical state it was given.
pub proof fn law_snapshot_is_consistent<H>(
    state: FlashblocksState,
    snapshot: FlashblocksPendingSnapshot,
    historical: H,
    overlay: FlashblocksPendingStateProvider<H>,
)
    requires
        state.offers(Some(snapshot)),
        snapshot.overlays(historical, overlay),
    ensures
        state.pending is Some,
        PendingStateSnapshot::<H>::anchor(&snapshot) == state.pending->0.parent_hash,
        overlay.bundle() == *state.pending->0.bundle_state,
        overlay.base() == historical,
{
}

} // verus!
