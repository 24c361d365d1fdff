//! How diffs are put on top of each other, call by call and slot by slot.

use std::sync::Arc;

use vstd::prelude::*;

use crate::account::keccak256_of;
use crate::bundle::bundle_accounts;
use crate::hashed::{HashedPostState, HashedStorage, TrieInput};
use crate::laws::hashing::law_hashed_storage_is_exact;
use crate::pending_state_provider::FlashblocksPendingStateProvider;
use crate::primitives::Address;

verus! {

/// A storage diff on top of another one: wiped if either is; a slot that the upper one sets has its
/// value; any other slot is as in the lower one, unless the upper one is wiped, and then it is not
/// there.
pub proof fn law_storage_extends_slot_by_slot(
    under: HashedStorage,
    over: HashedStorage,
    merged: HashedStorage,
    slot: Seq<u8>,
)
    requires
        call_ensures(HashedStorage::extend, (under, over), merged),
    ensures
        merged.wiped <==> under.wiped || over.wiped,
        over.slots@.contains_key(slot) ==> merged.slots@.contains_key(slot) && merged.slots@[slot]
            == over.slots@[slot],
        !over.slots@.contains_key(slot) && over.wiped ==> !merged.slots@.contains_key(slot),
        !over.slots@.contains_key(slot) && !over.wiped ==> {
            &&& merged.slots@.contains_key(slot) <==> under.slots@.contains_key(slot)
            &&& under.slots@.contains_key(slot) ==> merged.slots@[slot] == under.slots@[slot]
        },
{
    assert(merged@.wiped == merged.wiped && merged@.slots == merged.slots@);
    assert(under@.slots == under.slots@ && over@.slots == over.slots@);
}

/// A state diff on top of another one. An account that the upper one sets has its value, any other
/// account is as in the lower one. A storage that only one of them holds is as it is there. A
/// storage that both hold is wiped if either is; a slot that the upper one sets has its value; any
/// other slot is as in the lower one, unless the upper one is wiped, and then it is not there.
pub proof fn law_state_extends_slot_by_slot(
    under: HashedPostState,
    over: HashedPostState,
    merged: HashedPostState,
    hash: Seq<u8>,
    slot: Seq<u8>,
)
    requires
        call_ensures(HashedPostState::extend, (under, over), merged),
    ensures
        over.accounts@.contains_key(hash) ==> merged.accounts@.contains_key(hash)
            && merged.accounts@[hash] == over.accounts@[hash],
        !over.accounts@.contains_key(hash) ==> {
            &&& merged.accounts@.contains_key(hash) <==> under.accounts@.contains_key(hash)
            &&& under.accounts@.contains_key(hash) ==> merged.accounts@[hash]
                == under.accounts@[hash]
        },
        merged.storages@.contains_key(hash) <==> under.storages@.contains_key(hash)
            || over.storages@.contains_key(hash),
        under.storages@.contains_key(hash) && !over.storages@.contains_key(hash) ==> {
            &&& merged.storages@[hash].wiped == under.storages@[hash].wiped
            &&& merged.storages@[hash].slots@ == under.storages@[hash].slots@
        },
        over.storages@.contains_key(hash) && !under.storages@.contains_key(hash) ==> {
            &&& merged.storages@[hash].wiped == over.storages@[hash].wiped
            &&& merged.storages@[hash].slots@ == over.storages@[hash].slots@
        },
        over.storages@.contains_key(hash) && under.storages@.contains_key(hash) ==> {
            let low = under.storages@[hash];
            let high = over.storages@[hash];
            let both = merged.storages@[hash];
            &&& both.wiped <==> low.wiped || high.wiped
            &&& high.slots@.contains_key(slot) ==> both.slots@.contains_key(slot)
                && both.slots@[slot] == high.slots@[slot]
            &&& !high.slots@.contains_key(slot) && high.wiped ==> !both.slots@.contains_key(slot)
            &&& !high.slots@.contains_key(slot) && !high.wiped ==> {
                &&& both.slots@.contains_key(slot) <==> low.slots@.contains_key(slot)
                &&& low.slots@.contains_key(slot) ==> both.slots@[slot] == low.slots@[slot]
            }
        },
{
    assert(merged@.storages.contains_key(hash) == merged.storages@.contains_key(hash));
    assert(under@.storages.contains_key(hash) == under.storages@.contains_key(hash));
    assert(over@.storages.contains_key(hash) == over.storages@.contains_key(hash));
    if merged.storages@.contains_key(hash) {
        assert(merged@.storages[hash] == merged.storages@[hash]@);
    }
    if under.storages@.contains_key(hash) {
        assert(under@.storages[hash] == under.storages@[hash]@);
    }
    if over.storages@.contains_key(hash) {
        assert(over@.storages[hash] == over.storages@[hash]@);
    }
}

/// The unchanged storage and the unchanged state hold nothing.
pub proof fn law_unchanged_holds_nothing(
    storage: HashedStorage,
    state: HashedPostState,
    key: Seq<u8>,
)
    requires
        call_ensures(HashedStorage::unchanged, (), storage),
        call_ensures(HashedPostState::unchanged, (), state),
    ensures
        !storage.wiped,
        !storage.slots@.contains_key(key),
        !state.accounts@.contains_key(key),
        !state.storages@.contains_key(key),
{
    assert(storage@.slots == storage.slots@);
    assert(state@.storages.contains_key(key) == state.storages@.contains_key(key));
}

/// A copy of a storage holds the same.
pub proof fn law_storage_copies_agree(storage: HashedStorage, copy: HashedStorage)
    requires
        call_ensures(HashedStorage::clone, (&storage,), copy),
    ensures
        copy.wiped == storage.wiped,
        copy.slots@ == storage.slots@,
{
    assert(copy@.slots == copy.slots@ && storage@.slots == storage.slots@);
    assert(copy@.wiped == copy.wiped && storage@.wiped == storage.wiped);
}

/// A copy of a state diff holds the same.
pub proof fn law_state_copies_agree(state: HashedPostState, copy: HashedPostState, hash: Seq<u8>)
    requires
        call_ensures(HashedPostState::clone, (&state,), copy),
    ensures
        copy.accounts@ == state.accounts@,
        copy.storages@.contains_key(hash) <==> state.storages@.contains_key(hash),
        state.storages@.contains_key(hash) ==> {
            &&& copy.storages@[hash].wiped == state.storages@[hash].wiped
            &&& copy.storages@[hash].slots@ == state.storages@[hash].slots@
        },
{
    assert(copy@ == state@);
    assert(copy@.storages.contains_key(hash) == copy.storages@.contains_key(hash));
    assert(state@.storages.contains_key(hash) == state.storages@.contains_key(hash));
    if state.storages@.contains_key(hash) {
        assert(copy@.storages[hash] == copy.storages@[hash]@);
        assert(state@.storages[hash] == state.storages@[hash]@);
    }
}

/// Prepending a state to an input is extending that state with the diff of the input; nodes and
/// paths stay as they are.
pub proof fn law_prepending_is_extending<N, P>(
    input: TrieInput<N, P>,
    state: HashedPostState,
    prepended: TrieInput<N, P>,
    extended: HashedPostState,
    hash: Seq<u8>,
)
    requires
        call_ensures(TrieInput::<N, P>::prepend_state, (input, state), prepended),
        call_ensures(HashedPostState::extend, (state, input.state), extended),
    ensures
        prepended.nodes == input.nodes,
        prepended.prefix_sets == input.prefix_sets,
        prepended.state.accounts@ == extended.accounts@,
        prepended.state.storages@.contains_key(hash) <==> extended.storages@.contains_key(hash),
        extended.storages@.contains_key(hash) ==> {
            &&& prepended.state.storages@[hash].wiped == extended.storages@[hash].wiped
            &&& prepended.state.storages@[hash].slots@ == extended.storages@[hash].slots@
        },
{
    let result = prepended.state;
    assert(result@ == extended@);
    assert(result@.storages.contains_key(hash) == result.storages@.contains_key(hash));
    assert(extended@.storages.contains_key(hash) == extended.storages@.contains_key(hash));
    if extended.storages@.contains_key(hash) {
        assert(result@.storages[hash] == result.storages@[hash]@);
        assert(extended@.storages[hash] == extended.storages@[hash]@);
    }
}

/// The accounts of an input with the pending diff underneath: those that the caller set as the
/// caller set them, any other one exactly as in the hashed pending state. Nodes and paths stay as
/// they are.
pub proof fn law_pending_accounts_sit_underneath<H, N, P>(
    provider: FlashblocksPendingStateProvider<H>,
    pending: Arc<HashedPostState>,
    input: TrieInput<N, P>,
    prepended: TrieInput<N, P>,
    hash: Seq<u8>,
)
    requires
        call_ensures(FlashblocksPendingStateProvider::<H>::hashed_state, (&provider,), pending),
        call_ensures(
            FlashblocksPendingStateProvider::<H>::prepend_pending::<N, P>,
            (&provider, input),
            prepended,
        ),
    ensures
        prepended.nodes == input.nodes,
        prepended.prefix_sets == input.prefix_sets,
        input.state.accounts@.contains_key(hash) ==> prepended.state.accounts@.contains_key(hash)
            && prepended.state.accounts@[hash] == input.state.accounts@[hash],
        !input.state.accounts@.contains_key(hash) ==> {
            &&& prepended.state.accounts@.contains_key(hash) <==> pending.accounts@.contains_key(
                hash,
            )
            &&& pending.accounts@.contains_key(hash) ==> prepended.state.accounts@[hash]
                == pending.accounts@[hash]
        },
{
}

/// The storages of an input with the pending diff underneath. One that only the caller holds is the
/// caller's, one that only the hashed pending state holds is the pending one. Where both hold it,
/// it is wiped if either is; a slot that the caller sets has the caller's value; any other slot is
/// there exactly when the pending storage sets it, with the pending value, unless the caller wiped
/// the storage, and then it is not there.
pub proof fn law_pending_slots_sit_underneath<H, N, P>(
    provider: FlashblocksPendingStateProvider<H>,
    pending: Arc<HashedPostState>,
    input: TrieInput<N, P>,
    prepended: TrieInput<N, P>,
    hash: Seq<u8>,
    slot: Seq<u8>,
)
    requires
        call_ensures(FlashblocksPendingStateProvider::<H>::hashed_state, (&provider,), pending),
        call_ensures(
            FlashblocksPendingStateProvider::<H>::prepend_pending::<N, P>,
            (&provider, input),
            prepended,
        ),
    ensures
        prepended.state.storages@.contains_key(hash) <==> pending.storages@.contains_key(hash)
            || input.state.storages@.contains_key(hash),
        pending.storages@.contains_key(hash) && !input.state.storages@.contains_key(hash) ==> {
            &&& prepended.state.storages@[hash].wiped == pending.storages@[hash].wiped
            &&& prepended.state.storages@[hash].slots@ == pending.storages@[hash].slots@
        },
        input.state.storages@.contains_key(hash) && !pending.storages@.contains_key(hash) ==> {
            &&& prepended.state.storages@[hash].wiped == input.state.storages@[hash].wiped
            &&& prepended.state.storages@[hash].slots@ == input.state.storages@[hash].slots@
        },
        input.state.storages@.contains_key(hash) && pending.storages@.contains_key(hash) ==> {
            let low = pending.storages@[hash];
            let high = input.state.storages@[hash];
            let both = prepended.state.storages@[hash];
            &&& both.wiped <==> low.wiped || high.wiped
            &&& high.slots@.contains_key(slot) ==> both.slots@.contains_key(slot)
                && both.slots@[slot] == high.slots@[slot]
            &&& !high.slots@.contains_key(slot) && high.wiped ==> !both.slots@.contains_key(slot)
            &&& !high.slots@.contains_key(slot) && !high.wiped ==> {
                &&& both.slots@.contains_key(slot) <==> low.slots@.contains_key(slot)
                &&& low.slots@.contains_key(slot) ==> both.slots@[slot] == low.slots@[slot]
            }
        },
{
    let caller = input.state;
    let result = prepended.state;
    assert(result@.storages.contains_key(hash) == result.storages@.contains_key(hash));
    assert(pending@.storages.contains_key(hash) == pending.storages@.contains_key(hash));
    assert(caller@.storages.contains_key(hash) == caller.storages@.contains_key(hash));
    if result.storages@.contains_key(hash) {
        assert(result@.storages[hash] == result.storages@[hash]@);
    }
    if pending.storages@.contains_key(hash) {
        assert(pending@.storages[hash] == pending.storages@[hash]@);
    }
    if caller.storages@.contains_key(hash) {
        assert(caller@.storages[hash] == caller.storages@[hash]@);
    }
}

/// The caller's storage merged with that of the hashed pending state under the hash of the address.
/// If there is none it is the caller's. Otherwise it is wiped if either is; a slot that the caller
/// sets has the caller's value; any other slot is there exactly when the pending storage sets it,
/// with the pending value, unless the caller wiped the storage, and then it is not there.
pub proof fn law_merging_keeps_pending_slots<H>(
    provider: FlashblocksPendingStateProvider<H>,
    pending: Arc<HashedPostState>,
    address: Address,
    caller: HashedStorage,
    merged: HashedStorage,
    slot: Seq<u8>,
)
    requires
        call_ensures(FlashblocksPendingStateProvider::<H>::hashed_state, (&provider,), pending),
        call_ensures(
            FlashblocksPendingStateProvider::<H>::merged_hashed_storage,
            (&provider, &address, caller),
            merged,
        ),
    ensures
        !pending.storages@.contains_key(keccak256_of(address.0@)) ==> {
            &&& merged.wiped == caller.wiped
            &&& merged.slots@.contains_key(slot) <==> caller.slots@.contains_key(slot)
            &&& caller.slots@.contains_key(slot) ==> merged.slots@[slot] == caller.slots@[slot]
        },
        pending.storages@.contains_key(keccak256_of(address.0@)) ==> {
            let low = pending.storages@[keccak256_of(address.0@)];
            &&& merged.wiped <==> low.wiped || caller.wiped
            &&& caller.slots@.contains_key(slot) ==> merged.slots@.contains_key(slot)
                && merged.slots@[slot] == caller.slots@[slot]
            &&& !caller.slots@.contains_key(slot) && caller.wiped ==> !merged.slots@.contains_key(
                slot,
            )
            &&& !caller.slots@.contains_key(slot) && !caller.wiped ==> {
                &&& merged.slots@.contains_key(slot) <==> low.slots@.contains_key(slot)
                &&& low.slots@.contains_key(slot) ==> merged.slots@[slot] == low.slots@[slot]
            }
        },
{
    let hash = keccak256_of(address.0@);
    assert(pending@.storages.contains_key(hash) == pending.storages@.contains_key(hash));
    if pending.storages@.contains_key(hash) {
        assert(pending@.storages[hash] == pending.storages@[hash]@);
    }
    assert(merged@.slots == merged.slots@ && merged@.wiped == merged.wiped);
    assert(caller@.slots == caller.slots@ && caller@.wiped == caller.wiped);
}

/// What is merged, in terms of the bundle. For an address and a slot that share their hashes with
/// no other ones that the bundle holds: the merged storage is wiped exactly if the account was
/// destroyed or the caller wiped it; a tracked slot that the caller neither sets nor wipes has its
/// tracked value; one that is not tracked is there exactly if the caller sets it.
pub proof fn law_merging_keeps_tracked_slots<H>(
    provider: FlashblocksPendingStateProvider<H>,
    pending: Arc<HashedPostState>,
    address: Address,
    key: Seq<u8>,
    caller: HashedStorage,
    merged: HashedStorage,
)
    requires
        call_ensures(FlashblocksPendingStateProvider::<H>::hashed_state, (&provider,), pending),
        call_ensures(
            FlashblocksPendingStateProvider::<H>::merged_hashed_storage,
            (&provider, &address, caller),
            merged,
        ),
        bundle_accounts(provider.bundle()).contains_key(address.0@),
        forall|other: Seq<u8>| #[trigger]
            bundle_accounts(provider.bundle()).contains_key(other) && keccak256_of(other)
                == keccak256_of(address.0@) ==> other == address.0@,
        forall|other: Seq<u8>| #[trigger]
            bundle_accounts(provider.bundle())[address.0@].slots.contains_key(other)
                && keccak256_of(other) == keccak256_of(key) ==> other == key,
    ensures
        ({
            let held = bundle_accounts(provider.bundle())[address.0@];
            let slot = keccak256_of(key);
            &&& merged.wiped <==> held.was_destroyed || caller.wiped
            &&& caller.slots@.contains_key(slot) ==> merged.slots@.contains_key(slot)
                && merged.slots@[slot] == caller.slots@[slot]
            &&& !caller.slots@.contains_key(slot) && caller.wiped ==> !merged.slots@.contains_key(
                slot,
            )
            &&& !caller.slots@.contains_key(slot) && !caller.wiped ==> {
                &&& merged.slots@.contains_key(slot) <==> held.slots.contains_key(key)
                &&& held.slots.contains_key(key) ==> merged.slots@[slot] == held.slots[key]
            }
        }),
{
    law_hashed_storage_is_exact(provider, pending, address.0@, key);
    law_merging_keeps_pending_slots(
        provider,
        pending,
        address,
        caller,
        merged,
        keccak256_of(key),
    );
}

/// What a trie input holds, in terms of the bundle. For an address and a tracked slot that share
/// their hashes with no other ones that the bundle holds, and a caller who holds no storage there
/// or one that is not wiped and does not set the slot: the slot has its tracked value, and the
/// storage is wiped exactly if the account was destroyed.
pub proof fn law_prepending_keeps_tracked_slots<H, N, P>(
    provider: FlashblocksPendingStateProvider<H>,
    pending: Arc<HashedPostState>,
    input: TrieInput<N, P>,
    prepended: TrieInput<N, P>,
    address: Seq<u8>,
    key: Seq<u8>,
)
    requires
        call_ensures(FlashblocksPendingStateProvider::<H>::hashed_state, (&provider,), pending),
        call_ensures(
            FlashblocksPendingStateProvider::<H>::prepend_pending::<N, P>,
            (&provider, input),
            prepended,
        ),
        bundle_accounts(provider.bundle()).contains_key(address),
        bundle_accounts(provider.bundle())[address].slots.contains_key(key),
        forall|other: Seq<u8>| #[trigger]
            bundle_accounts(provider.bundle()).contains_key(other) && keccak256_of(other)
                == keccak256_of(address) ==> other == address,
        forall|other: Seq<u8>| #[trigger]
            bundle_accounts(provider.bundle())[address].slots.contains_key(other) && keccak256_of(
                other,
            ) == keccak256_of(key) ==> other == key,
        input.state.storages@.contains_key(keccak256_of(address)) ==> {
            let caller = input.state.storages@[keccak256_of(address)];
            !caller.wiped && !caller.slots@.contains_key(keccak256_of(key))
        },
    ensures
        ({
            let held = bundle_accounts(provider.bundle())[address];
            let storage = prepended.state.storages@[keccak256_of(address)];
            &&& prepended.state.storages@.contains_key(keccak256_of(address))
            &&& storage.wiped == held.was_destroyed
            &&& storage.slots@.contains_key(keccak256_of(key))
            &&& storage.slots@[keccak256_of(key)] == held.slots[key]
        }),
{
    law_hashed_storage_is_exact(provider, pending, address, key);
    law_pending_slots_sit_underneath(
        provider,
        pending,
        input,
        prepended,
        keccak256_of(address),
        keccak256_of(key),
    );
}

/// Storage computations and state computations start from the same storage: what is merged for an
/// address is what the trie input with the pending diff underneath holds under its hash, for the
/// same storage of the caller.
pub proof fn law_merging_and_prepending_agree<H, N, P>(
    provider: FlashblocksPendingStateProvider<H>,
    pending: Arc<HashedPostState>,
    address: Address,
    caller: HashedStorage,
    merged: HashedStorage,
    input: TrieInput<N, P>,
    prepended: TrieInput<N, P>,
)
    requires
        call_ensures(FlashblocksPendingStateProvider::<H>::hashed_state, (&provider,), pending),
        call_ensures(
            FlashblocksPendingStateProvider::<H>::merged_hashed_storage,
            (&provider, &address, caller),
            merged,
        ),
        call_ensures(
            FlashblocksPendingStateProvider::<H>::prepend_pending::<N, P>,
            (&provider, input),
            prepended,
        ),
        input.state.storages@.contains_key(keccak256_of(address.0@)),
        input.state.storages@[keccak256_of(address.0@)].wiped == caller.wiped,
        input.state.storages@[keccak256_of(address.0@)].slots@ == caller.slots@,
    ensures
        prepended.state.storages@.contains_key(keccak256_of(address.0@)),
        prepended.state.storages@[keccak256_of(address.0@)].wiped == merged.wiped,
        prepended.state.storages@[keccak256_of(address.0@)].slots@ == merged.slots@,
{
    let hash = keccak256_of(address.0@);
    let slots = prepended.state.storages@[hash].slots@;
    assert forall|slot: Seq<u8>|
        slots.contains_key(slot) == #[trigger] merged.slots@.contains_key(slot) && (
        slots.contains_key(slot) ==> slots[slot] == merged.slots@[slot]) by {
        law_pending_slots_sit_underneath(provider, pending, input, prepended, hash, slot);
        law_merging_keeps_pending_slots(provider, pending, address, caller, merged, slot);
    }
    law_pending_slots_sit_underneath(provider, pending, input, prepended, hash, hash);
    law_merging_keeps_pending_slots(provider, pending, address, caller, merged, hash);
    assert(slots =~= merged.slots@);
}

} // verus!
