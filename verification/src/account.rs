//! Accounts as the RPC layer sees them, and the hash that code and trie keys go by.

use vstd::prelude::*;

use crate::bundle::AccountInfo;
use crate::primitives::{B256, U256};

verus! {

/// An account in a form that does not depend on its code being at hand.
#[derive(Clone, Copy, Debug, PartialEq, Eq)]
pub struct Account {
    /// Account nonce.
    pub nonce: u64,
    /// Account balance.
    pub balance: U256,
    /// Hash of the account's code, `None` for an account without code.
    pub bytecode_hash: Option<B256>,
}

/// The Keccak-256 hash of a byte string.
pub uninterp spec fn keccak256_of(data: Seq<u8>) -> Seq<u8>;

/// Calls `alloy_primitives::keccak256`. The hash is a function of the bytes alone.
#[verifier::external_body]
pub(crate) fn keccak256(data: &[u8]) -> (hash: B256)
    ensures
        hash@ == keccak256_of(data@),
{
    B256(alloy_primitives::keccak256(data).0)
}

/// Calls `AccountInfo::is_empty_code_hash` of revm, which compares a code hash with the Keccak-256
/// hash of the empty string.
#[verifier::external_body]
pub(crate) fn is_empty_code_hash(code_hash: &B256) -> (empty: bool)
    ensures
        empty <==> code_hash@ == keccak256_of(Seq::<u8>::empty()),
{
    let code_hash = revm::primitives::B256::new(code_hash.0);
    revm::state::AccountInfo { code_hash, ..Default::default() }.is_empty_code_hash()
}

/// The account that account data of a bundle stands for.
pub open spec fn account_of(info: AccountInfo) -> Account {
    Account {
        nonce: info.nonce,
        balance: info.balance,
        bytecode_hash: if info.code_hash@ == keccak256_of(Seq::<u8>::empty()) {
            None
        } else {
            Some(info.code_hash)
        },
    }
}

/// The account that optional account data stands for; no data stands for no account.
pub open spec fn optional_account_of(info: Option<AccountInfo>) -> Option<Account> {
    match info {
        Some(present) => Some(account_of(present)),
        None => None,
    }
}

impl Account {
    /// Turns account data of a bundle into an account. The code hash is kept unless it is that of
    /// the empty code.
    pub fn from_info(info: Option<AccountInfo>) -> (account: Option<Account>)
        ensures
            account == optional_account_of(info),
    {
        match info {
            Some(present) => {
                let bytecode_hash = if is_empty_code_hash(&present.code_hash) {
                    None
                } else {
                    Some(present.code_hash)
                };
                Some(Account { nonce: present.nonce, balance: present.balance, bytecode_hash })
            },
            None => None,
        }
    }
}

} // verus!
