//! Pending state overlay backed by the flashblocks bundle state.
//!
//! The bundle is computed against the parent of the earliest pending block, which is always a real
//! historical block, and it covers every change from there up to the pending block. Anchoring on
//! that block makes the overlay independent of how far ahead flashblocks runs.
//!
//! The historical state is a handle that is carried through. Each read either answers from the
//! bundle or says that the historical state has to be asked; each trie computation says what the
//! historical state has to be asked with.

use std::sync::Arc;

use revm::bytecode::Bytecode;
use revm::database::BundleState;
use vstd::prelude::*;
use vstd::rwlock::{RwLock, RwLockPredicate};

use crate::account::{keccak256, keccak256_of, optional_account_of, Account};
use crate::bundle::{
    account_info, bundle_accounts, bundle_contracts, contract, is_well_formed, slot_value,
    storage_value, touched_accounts, BundleAccount,
};
use crate::hashed::{
    hashed_form, overlay_state, overlay_storage, unchanged_storage, HashedPostState,
    HashedPostStateView, HashedStorage, HashedStorageView, TrieInput,
};
use crate::pending_state::{PendingStateSnapshot, PendingStateSource};
use crate::primitives::{Address, B256, U256};

verus! {

/// The pending blocks at one point of the flashblocks stream.
#[derive(Debug)]
pub struct PendingBlocks {
    /// Parent of the earliest pending block: the block the bundle was computed against.
    pub parent_hash: B256,
    /// Number of the latest pending block.
    pub latest_block_number: u64,
    /// Every change from the earliest pending block up to the latest one.
    pub bundle_state: Arc<BundleState>,
}

impl PendingBlocks {
    /// Parent of the earliest pending block.
    pub fn parent_hash(&self) -> (hash: B256)
        ensures
            hash == self.parent_hash,
    {
        self.parent_hash
    }

    /// Number of the latest pending block.
    pub fn latest_block_number(&self) -> (number: u64)
        ensures
            number == self.latest_block_number,
    {
        self.latest_block_number
    }

    /// The bundle, shared.
    pub fn get_bundle_state(&self) -> (bundle: Arc<BundleState>)
        ensures
            bundle == self.bundle_state,
    {
        self.bundle_state.clone()
    }
}

/// What one read of the shared flashblocks state yields.
#[derive(Debug)]
pub struct FlashblocksState {
    /// The pending blocks, `None` while there are none.
    pub pending: Option<Arc<PendingBlocks>>,
}

impl FlashblocksState {
    /// The pending blocks, shared.
    pub fn get_pending_blocks(&self) -> (pending: Option<Arc<PendingBlocks>>)
        ensures
            pending == self.pending,
    {
        match &self.pending {
            Some(pending) => Some(pending.clone()),
            None => None,
        }
    }
}

/// Snapshot handed to the RPC layer so the anchor and the diff always come from the same
/// `PendingBlocks`; reading them separately could straddle a flashblock update.
pub struct FlashblocksPendingSnapshot {
    pending: Arc<PendingBlocks>,
}

/// The values that a memo of the hashed bundle may hold.
pub struct HashedBundle {
    /// The accounts that were hashed.
    pub accounts: Map<Seq<u8>, BundleAccount>,
}

impl HashedBundle {
    /// The values that the memo of a bundle may hold.
    pub open spec fn of(bundle: &Arc<BundleState>) -> HashedBundle {
        HashedBundle { accounts: bundle_accounts(**bundle) }
    }
}

impl RwLockPredicate<Option<Arc<HashedPostState>>> for HashedBundle {
    open spec fn inv(self, memo: Option<Arc<HashedPostState>>) -> bool {
        memo matches Some(state) ==> state@ == hashed_form(self.accounts) && is_well_formed(
            self.accounts,
        )
    }
}

/// State at the anchor with the flashblocks bundle layered on top.
pub struct FlashblocksPendingStateProvider<H> {
    historical: H,
    bundle: Arc<BundleState>,
    hashed_state: RwLock<Option<Arc<HashedPostState>>, HashedBundle>,
}

impl<H> FlashblocksPendingStateProvider<H> {
    #[verifier::type_invariant]
    spec fn memo_is_of_bundle(self) -> bool {
        self.hashed_state.pred().accounts == bundle_accounts(*self.bundle)
    }

    /// The bundle that is layered on top.
    pub closed spec fn bundle(&self) -> BundleState {
        *self.bundle
    }

    /// The state underneath.
    pub closed spec fn base(&self) -> H {
        self.historical
    }

    /// The state underneath, for the questions that are passed on to it.
    pub fn historical(&self) -> (historical: &H)
        ensures
            *historical == self.base(),
    {
        &self.historical
    }

    /// Number of accounts that the bundle touches.
    pub fn touched_accounts(&self) -> (count: usize)
        ensures
            count == bundle_accounts(self.bundle()).dom().len(),
    {
        touched_accounts(&self.bundle)
    }

    /// Hashed form of the bundle, the same at every call. Plain reads never reach this; only roots
    /// and proofs do, so the hashing cost is paid once, and solely by callers that actually ask for
    /// them. The contract speaks of the value; that it is computed once is the work of the memo.
    pub fn hashed_state(&self) -> (state: Arc<HashedPostState>)
        ensures
            state@ == hashed_form(bundle_accounts(self.bundle())),
            is_well_formed(bundle_accounts(self.bundle())),
    {
        proof {
            use_type_invariant(self);
        }
        let (memo, handle) = self.hashed_state.acquire_write();
        let state = match memo {
            Some(state) => state,
            None => Arc::new(HashedPostState::from_bundle_state(&self.bundle)),
        };
        let shared = state.clone();
        handle.release_write(Some(state));
        shared
    }

    /// Puts the pending diff underneath the diff that a trie computation already starts from. The
    /// pending diff has to sit underneath the caller's own overlay, so it is prepended rather than
    /// extended onto.
    pub fn prepend_pending<N, P>(&self, input: TrieInput<N, P>) -> (prepended: TrieInput<N, P>)
        ensures
            prepended.nodes == input.nodes,
            prepended.prefix_sets == input.prefix_sets,
            prepended.state@ == on_pending_state(bundle_accounts(self.bundle()), input.state@),
    {
        let pending = self.hashed_state();
        let state: &HashedPostState = &pending;
        input.prepend_state(state.clone())
    }

    /// The storage of an account with the caller's changes on top of the pending ones.
    pub fn merged_hashed_storage(&self, address: &Address, storage: HashedStorage) -> (merged:
        HashedStorage)
        ensures
            merged@ == on_pending_storage(bundle_accounts(self.bundle()), address@, storage@),
    {
        let pending = self.hashed_state();
        let state: &HashedPostState = &pending;
        let hash = keccak256(address.0.as_slice());
        let hashed = match state.storages.get(&hash) {
            Some(found) => found.clone(),
            None => HashedStorage::unchanged(),
        };
        assert(hashed@ == pending_storage(state@, keccak256_of(address@)));
        hashed.extend(storage)
    }

    /// Reads an account. Present in the bundle means the account was touched between the anchor and
    /// the pending block, so the bundle holds its final value, and no account data means that it is
    /// gone. Any other account is left to the historical state.
    pub fn basic_account(&self, address: &Address) -> (account: Lookup<Option<Account>>)
        ensures
            account == account_lookup(bundle_accounts(self.bundle()), address@),
    {
        match account_info(&self.bundle, address) {
            Some(info) => Lookup::Answer(Account::from_info(info)),
            None => Lookup::Historical,
        }
    }

    /// Reads a storage slot. The bundle answers for the slots it tracks, and with zero for the
    /// untracked slots of an account whose storage it fully knows. Any other slot is left to the
    /// historical state.
    pub fn storage(&self, address: &Address, storage_key: &B256) -> (value: Lookup<Option<U256>>)
        ensures
            value == storage_lookup(bundle_accounts(self.bundle()), address@, storage_key@),
    {
        match storage_value(&self.bundle, address, storage_key) {
            Some(value) => Lookup::Answer(Some(value)),
            None => Lookup::Historical,
        }
    }

    /// Reads a contract. A contract that the bundle does not hold is left to the historical state.
    pub fn bytecode_by_hash(&self, code_hash: &B256) -> (code: Lookup<Option<Bytecode>>)
        ensures
            code == bytecode_lookup(bundle_contracts(self.bundle()), code_hash@),
    {
        match contract(&self.bundle, code_hash) {
            Some(code) => Lookup::Answer(Some(code)),
            None => Lookup::Historical,
        }
    }
}

/// What the overlay makes of a read.
#[derive(Debug)]
pub enum Lookup<T> {
    /// The bundle determines the value.
    Answer(T),
    /// The bundle cannot tell; the same question goes to the historical state.
    Historical,
}

impl<T> Lookup<T> {
    /// The value of the read, given what the historical state replied where it had to be asked.
    pub open spec fn resolved<E>(self, reply: Result<T, E>) -> Result<T, E> {
        match self {
            Lookup::Answer(value) => Ok(value),
            Lookup::Historical => reply,
        }
    }

    /// Completes a read with the reply of the historical state.
    pub fn resolve<E>(self, reply: Result<T, E>) -> (value: Result<T, E>)
        ensures
            value == self.resolved(reply),
    {
        match self {
            Lookup::Answer(value) => Ok(value),
            Lookup::Historical => reply,
        }
    }
}

/// The read of an account through a bundle.
pub open spec fn account_lookup(
    accounts: Map<Seq<u8>, BundleAccount>,
    address: Seq<u8>,
) -> Lookup<Option<Account>> {
    if accounts.contains_key(address) {
        Lookup::Answer(optional_account_of(accounts[address].info))
    } else {
        Lookup::Historical
    }
}

/// The read of a slot through a bundle: a determined slot is answered, any other one is left to the
/// historical state.
pub open spec fn storage_lookup(
    accounts: Map<Seq<u8>, BundleAccount>,
    address: Seq<u8>,
    key: Seq<u8>,
) -> Lookup<Option<U256>> {
    if accounts.contains_key(address) && slot_value(accounts[address], key) is Some {
        Lookup::Answer(slot_value(accounts[address], key))
    } else {
        Lookup::Historical
    }
}

/// The read of a contract through a bundle.
pub open spec fn bytecode_lookup(
    contracts: Map<Seq<u8>, Bytecode>,
    code_hash: Seq<u8>,
) -> Lookup<Option<Bytecode>> {
    if contracts.contains_key(code_hash) {
        Lookup::Answer(Some(contracts[code_hash]))
    } else {
        Lookup::Historical
    }
}

/// The storage that a hashed diff holds under a hashed address, unchanged if there is none.
pub open spec fn pending_storage(
    pending: HashedPostStateView,
    hash: Seq<u8>,
) -> HashedStorageView {
    if pending.storages.contains_key(hash) {
        pending.storages[hash]
    } else {
        unchanged_storage()
    }
}

/// The caller's diff on top of the hashed form of the accounts of a bundle.
pub open spec fn on_pending_state(
    accounts: Map<Seq<u8>, BundleAccount>,
    caller: HashedPostStateView,
) -> HashedPostStateView {
    overlay_state(hashed_form(accounts), caller)
}

/// The caller's storage on top of the hashed form of what a bundle holds at an address.
pub open spec fn on_pending_storage(
    accounts: Map<Seq<u8>, BundleAccount>,
    address: Seq<u8>,
    caller: HashedStorageView,
) -> HashedStorageView {
    overlay_storage(pending_storage(hashed_form(accounts), keccak256_of(address)), caller)
}

impl FlashblocksPendingSnapshot {
    /// The pending blocks that the snapshot was taken of.
    pub closed spec fn pending(&self) -> PendingBlocks {
        *self.pending
    }

    /// Number of the latest pending block.
    pub fn pending_block(&self) -> (number: u64)
        ensures
            number == self.pending().latest_block_number,
    {
        self.pending.latest_block_number()
    }
}

impl<H> PendingStateSnapshot<H> for FlashblocksPendingSnapshot {
    type Overlay = FlashblocksPendingStateProvider<H>;

    open spec fn anchor(&self) -> B256 {
        self.pending().parent_hash
    }

    open spec fn overlays(
        &self,
        historical: H,
        overlay: FlashblocksPendingStateProvider<H>,
    ) -> bool {
        &&& overlay.base() == historical
        &&& overlay.bundle() == *self.pending().bundle_state
    }

    fn anchor_hash(&self) -> (hash: B256) {
        self.pending.parent_hash()
    }

    fn overlay(self, historical: H) -> (overlay: FlashblocksPendingStateProvider<H>) {
        let bundle = self.pending.get_bundle_state();
        FlashblocksPendingStateProvider {
            historical,
            hashed_state: RwLock::new(None, Ghost(HashedBundle::of(&bundle))),
            bundle,
        }
    }
}

impl PendingStateSource for FlashblocksState {
    type Snapshot = FlashblocksPendingSnapshot;

    open spec fn offers(&self, snapshot: Option<FlashblocksPendingSnapshot>) -> bool {
        match snapshot {
            Some(taken) => self.pending is Some && taken.pending() == *self.pending->0,
            None => self.pending is None,
        }
    }

    fn snapshot(&self) -> (snapshot: Option<FlashblocksPendingSnapshot>) {
        match self.get_pending_blocks() {
            Some(pending) => Some(FlashblocksPendingSnapshot { pending }),
            None => None,
        }
    }
}

} // verus!
