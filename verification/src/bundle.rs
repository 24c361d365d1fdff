//! The diff that pending execution leaves behind, as revm's [`BundleState`] holds it.
//!
//! The bundle itself stays opaque. What it holds is spoken of through [`bundle_accounts`] and
//! [`bundle_contracts`], and every read of it goes through one function of this module.

use revm::bytecode::Bytecode;
use revm::database::BundleState;
use vstd::prelude::*;

use crate::hashing::has_width;
use crate::keyed::collect;
use crate::primitives::{Address, B256, U256};

verus! {

/// revm's `BundleState`: the accounts, slots and contracts that were touched.
#[verifier::external_type_specification]
#[verifier::external_body]
pub struct ExBundleState(BundleState);

/// revm's `Bytecode`, carried through unread.
#[verifier::external_type_specification]
#[verifier::external_body]
pub struct ExBytecode(Bytecode);

/// The present account data of a touched account.
#[derive(Clone, Copy, Debug, PartialEq, Eq)]
pub struct AccountInfo {
    /// Account nonce.
    pub nonce: u64,
    /// Account balance.
    pub balance: U256,
    /// Hash of the account's code.
    pub code_hash: B256,
}

/// What a bundle knows of one account.
pub struct BundleAccount {
    /// Present account data, `None` if the account is gone.
    pub info: Option<AccountInfo>,
    /// Present value of every tracked slot.
    pub slots: Map<Seq<u8>, U256>,
    /// Whether the account was destroyed at some point of the diff.
    pub was_destroyed: bool,
    /// Whether every slot that is not tracked is known to be zero.
    pub storage_known: bool,
}

/// One account of a bundle, handed out with its address.
#[derive(Debug)]
pub struct BundleEntry {
    /// Address of the account.
    pub address: Address,
    /// Present account data, `None` if the account is gone.
    pub info: Option<AccountInfo>,
    /// Tracked slots with their present values.
    pub slots: Vec<(B256, U256)>,
    /// Whether the account was destroyed at some point of the diff.
    pub was_destroyed: bool,
    /// Whether every slot that is not tracked is known to be zero.
    pub storage_known: bool,
}

impl BundleEntry {
    /// The account that this entry describes.
    pub open spec fn account(self) -> BundleAccount {
        BundleAccount {
            info: self.info,
            slots: collect(self.slots@),
            was_destroyed: self.was_destroyed,
            storage_known: self.storage_known,
        }
    }
}

/// The accounts that a bundle holds, by address.
pub uninterp spec fn bundle_accounts(bundle: BundleState) -> Map<Seq<u8>, BundleAccount>;

/// The contracts that a bundle holds, by code hash.
pub uninterp spec fn bundle_contracts(bundle: BundleState) -> Map<Seq<u8>, Bytecode>;

/// The word zero.
pub open spec fn zero_word() -> U256 {
    U256(vstd::array::spec_array_fill_for_copy_type::<u8, 32>(0))
}

/// The value of a slot as far as an account of a bundle determines it: the tracked value, zero for
/// an untracked slot of an account whose storage is fully known, nothing otherwise.
pub open spec fn slot_value(account: BundleAccount, key: Seq<u8>) -> Option<U256> {
    if account.slots.contains_key(key) {
        Some(account.slots[key])
    } else if account.storage_known {
        Some(zero_word())
    } else {
        None
    }
}

/// What holds of the accounts of every bundle: there are finitely many, with finitely many slots,
/// under addresses and slots of their widths, and the storage of an account that was destroyed is
/// fully known.
pub open spec fn is_well_formed(accounts: Map<Seq<u8>, BundleAccount>) -> bool {
    &&& has_width(accounts.dom(), 20)
    &&& forall|address: Seq<u8>| #[trigger]
        accounts.contains_key(address) ==> {
            &&& has_width(accounts[address].slots.dom(), 32)
            &&& accounts[address].was_destroyed ==> accounts[address].storage_known
        }
}

/// Calls `BundleState::account` and hands out the present account data. There is an answer exactly
/// for the addresses that the bundle holds, and it is the account data held there.
#[verifier::external_body]
pub(crate) fn account_info(bundle: &BundleState, address: &Address) -> (found: Option<
    Option<AccountInfo>,
>)
    ensures
        found is Some <==> bundle_accounts(*bundle).contains_key(address@),
        found matches Some(info) ==> info == bundle_accounts(*bundle)[address@].info,
{
    bundle.account(&revm::primitives::Address::new(address.0)).map(|account| {
        account.info.as_ref().map(|info| AccountInfo {
            nonce: info.nonce,
            balance: U256(info.balance.to_be_bytes()),
            code_hash: B256(info.code_hash.0),
        })
    })
}

/// Calls `BundleState::storage`. For an address that the bundle does not hold there is no answer;
/// otherwise the answer is that of [`slot_value`].
#[verifier::external_body]
pub(crate) fn storage_value(bundle: &BundleState, address: &Address, key: &B256) -> (value: Option<
    U256,
>)
    ensures
        !bundle_accounts(*bundle).contains_key(address@) ==> value is None,
        bundle_accounts(*bundle).contains_key(address@) ==> value == slot_value(
            bundle_accounts(*bundle)[address@],
            key@,
        ),
{
    let slot = revm::primitives::U256::from_be_bytes(key.0);
    let value = bundle.storage(&revm::primitives::Address::new(address.0), slot);
    value.map(|word| U256(word.to_be_bytes()))
}

/// Calls `BundleState::bytecode`: the contract that the bundle holds under the code hash.
#[verifier::external_body]
pub(crate) fn contract(bundle: &BundleState, code_hash: &B256) -> (code: Option<Bytecode>)
    ensures
        code is Some <==> bundle_contracts(*bundle).contains_key(code_hash@),
        code matches Some(found) ==> found == bundle_contracts(*bundle)[code_hash@],
{
    bundle.bytecode(&revm::primitives::B256::new(code_hash.0))
}

/// Walks `BundleState::state` and hands every account out once, in no particular order. By
/// `AccountStatus`, the storage of an account that was destroyed is known.
#[verifier::external_body]
pub(crate) fn entries(bundle: &BundleState) -> (entries: Vec<BundleEntry>)
    ensures
        forall|i: int|
            #![trigger entries@[i]]
            0 <= i < entries@.len() ==> bundle_accounts(*bundle).contains_key(
                entries@[i].address@,
            ) && bundle_accounts(*bundle)[entries@[i].address@] == entries@[i].account(),
        forall|address: Seq<u8>| #[trigger]
            bundle_accounts(*bundle).contains_key(address) ==> exists|i: int|
                0 <= i < entries@.len() && (#[trigger] entries@[i]).address@ == address,
        forall|i: int, j: int|
            #![trigger entries@[i], entries@[j]]
            0 <= i < j < entries@.len() ==> entries@[i].address@ != entries@[j].address@,
        forall|i: int|
            #![trigger entries@[i]]
            0 <= i < entries@.len() && entries@[i].was_destroyed ==> entries@[i].storage_known,
{
    bundle.state.iter().map(|(address, account)| BundleEntry {
        address: Address(address.0.0),
        info: account.info.as_ref().map(|info| AccountInfo {
            nonce: info.nonce,
            balance: U256(info.balance.to_be_bytes()),
            code_hash: B256(info.code_hash.0),
        }),
        slots: account.storage.iter()
            .map(|(key, slot)| (B256(key.to_be_bytes()), U256(slot.present_value.to_be_bytes())))
            .collect(),
        was_destroyed: account.status.was_destroyed(),
        storage_known: account.status.is_storage_known(),
    }).collect()
}

/// Reads the length of `BundleState::state`: the number of accounts that the bundle holds.
#[verifier::external_body]
pub(crate) fn touched_accounts(bundle: &BundleState) -> (count: usize)
    ensures
        count == bundle_accounts(*bundle).dom().len(),
{
    bundle.state.len()
}

} // verus!
