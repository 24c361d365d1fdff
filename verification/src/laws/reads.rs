//! What reads of the pending state answer, call by call, in terms of what the bundle holds.

use revm::bytecode::Bytecode;
use vstd::prelude::*;

use crate::account::{keccak256_of, Account};
use crate::bundle::{bundle_accounts, bundle_contracts, AccountInfo};
use crate::pending_state_provider::{FlashblocksPendingStateProvider, Lookup};
use crate::primitives::{Address, B256, U256};

verus! {

/// An account keeps the nonce and the balance of its data, and the code hash unless that is the
/// hash of the empty code. No data is no account.
pub proof fn law_account_keeps_its_data(info: Option<AccountInfo>, account: Option<Account>)
    requires
        call_ensures(Account::from_info, (info,), account),
    ensures
        account is Some <==> info is Some,
        info is Some ==> {
            &&& account->0.nonce == info->0.nonce
            &&& account->0.balance == info->0.balance
            &&& account->0.bytecode_hash is None <==> info->0.code_hash.0@ == keccak256_of(
                Seq::<u8>::empty(),
            )
            &&& account->0.bytecode_hash is Some ==> account->0.bytecode_hash->0
                == info->0.code_hash
        },
{
}

/// An account that the bundle does not hold is left to the historical state. One that it holds
/// without data is answered as gone. One that it holds with data is answered with exactly that
/// nonce and balance, and with that code hash unless it is the hash of the empty code.
pub proof fn law_account_read_answers_the_bundle<H>(
    provider: FlashblocksPendingStateProvider<H>,
    address: Address,
    read: Lookup<Option<Account>>,
)
    requires
        call_ensures(
            FlashblocksPendingStateProvider::<H>::basic_account,
            (&provider, &address),
            read,
        ),
    ensures
        read is Historical <==> !bundle_accounts(provider.bundle()).contains_key(address.0@),
        bundle_accounts(provider.bundle()).contains_key(address.0@) ==> {
            let held = bundle_accounts(provider.bundle())[address.0@].info;
            let answer = read->Answer_0;
            &&& answer is Some <==> held is Some
            &&& held is Some ==> {
                &&& answer->0.nonce == held->0.nonce
                &&& answer->0.balance == held->0.balance
                &&& answer->0.bytecode_hash is None <==> held->0.code_hash.0@ == keccak256_of(
                    Seq::<u8>::empty(),
                )
                &&& answer->0.bytecode_hash is Some ==> answer->0.bytecode_hash->0
                    == held->0.code_hash
            }
        },
{
}

/// A tracked slot is answered with its tracked value. An untracked slot of an account whose storage
/// is fully known is answered with zero. Every other slot, those of an account that was merely
/// changed as well as those of an account that the bundle does not hold, is left to the historical
/// state.
pub proof fn law_slot_read_answers_the_bundle<H>(
    provider: FlashblocksPendingStateProvider<H>,
    address: Address,
    key: B256,
    read: Lookup<Option<U256>>,
)
    requires
        call_ensures(
            FlashblocksPendingStateProvider::<H>::storage,
            (&provider, &address, &key),
            read,
        ),
    ensures
        !bundle_accounts(provider.bundle()).contains_key(address.0@) ==> read is Historical,
        bundle_accounts(provider.bundle()).contains_key(address.0@) ==> {
            let held = bundle_accounts(provider.bundle())[address.0@];
            &&& held.slots.contains_key(key.0@) ==> read == Lookup::Answer(
                Some(held.slots[key.0@]),
            )
            &&& !held.slots.contains_key(key.0@) && held.storage_known ==> {
                &&& read is Answer
                &&& read->Answer_0 is Some
                &&& ({
                    let word = read->Answer_0->0;
                    forall|i: int| 0 <= i < 32 ==> #[trigger] word.0@[i] == 0
                })
            }
            &&& !held.slots.contains_key(key.0@) && !held.storage_known ==> read is Historical
        },
{
}

/// A contract that the bundle holds is answered; any other one is left to the historical state.
pub proof fn law_code_read_answers_the_bundle<H>(
    provider: FlashblocksPendingStateProvider<H>,
    code_hash: B256,
    read: Lookup<Option<Bytecode>>,
)
    requires
        call_ensures(
            FlashblocksPendingStateProvider::<H>::bytecode_by_hash,
            (&provider, &code_hash),
            read,
        ),
    ensures
        bundle_contracts(provider.bundle()).contains_key(code_hash.0@) ==> read == Lookup::Answer(
            Some(bundle_contracts(provider.bundle())[code_hash.0@]),
        ),
        !bundle_contracts(provider.bundle()).contains_key(code_hash.0@) ==> read is Historical,
{
}

/// Completing a read keeps an answer whatever the historical state replied, and otherwise hands
/// that reply on as it is, errors included.
pub proof fn law_resolving_keeps_answers<T, E>(
    read: Lookup<T>,
    reply: Result<T, E>,
    value: Result<T, E>,
)
    requires
        call_ensures(Lookup::<T>::resolve::<E>, (read, reply), value),
    ensures
        read is Answer ==> value is Ok && value->Ok_0 == read->Answer_0,
        read is Historical ==> value == reply,
{
}

/// Read and completed, a slot that the bundle does not determine is what the historical state
/// replied, and a tracked slot is its tracked value whatever it replied.
pub proof fn law_slot_resolves_to_bundle_or_history<H, E>(
    provider: FlashblocksPendingStateProvider<H>,
    address: Address,
    key: B256,
    read: Lookup<Option<U256>>,
    reply: Result<Option<U256>, E>,
    value: Result<Option<U256>, E>,
)
    requires
        call_ensures(
            FlashblocksPendingStateProvider::<H>::storage,
            (&provider, &address, &key),
            read,
        ),
        call_ensures(Lookup::<Option<U256>>::resolve::<E>, (read, reply), value),
    ensures
        !bundle_accounts(provider.bundle()).contains_key(address.0@) ==> value == reply,
        bundle_accounts(provider.bundle()).contains_key(address.0@) ==> {
            let held = bundle_accounts(provider.bundle())[address.0@];
            &&& held.slots.contains_key(key.0@) ==> value == Ok::<_, E>(Some(held.slots[key.0@]))
            &&& !held.slots.contains_key(key.0@) && !held.storage_known ==> value == reply
        },
{
}

/// Read and completed, an account that the bundle does not hold is what the historical state
/// replied, and one that the bundle holds never is: it is there exactly when the bundle has data
/// for it, with that nonce and that balance.
pub proof fn law_account_resolves_to_bundle_or_history<H, E>(
    provider: FlashblocksPendingStateProvider<H>,
    address: Address,
    read: Lookup<Option<Account>>,
    reply: Result<Option<Account>, E>,
    value: Result<Option<Account>, E>,
)
    requires
        call_ensures(
            FlashblocksPendingStateProvider::<H>::basic_account,
            (&provider, &address),
            read,
        ),
        call_ensures(Lookup::<Option<Account>>::resolve::<E>, (read, reply), value),
    ensures
        !bundle_accounts(provider.bundle()).contains_key(address.0@) ==> value == reply,
        bundle_accounts(provider.bundle()).contains_key(address.0@) ==> {
            let held = bundle_accounts(provider.bundle())[address.0@].info;
            &&& value is Ok
            &&& value->Ok_0 is Some <==> held is Some
            &&& held is Some ==> value->Ok_0->0.nonce == held->0.nonce
                && value->Ok_0->0.balance == held->0.balance
        },
{
}

/// The number of touched accounts is the number of accounts that the bundle holds.
pub proof fn law_touched_accounts_are_counted<H>(
    provider: FlashblocksPendingStateProvider<H>,
    count: usize,
)
    requires
        call_ensures(FlashblocksPendingStateProvider::<H>::touched_accounts, (&provider,), count),
    ensures
        count == bundle_accounts(provider.bundle()).dom().len(),
{
}

} // verus!
