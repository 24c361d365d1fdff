//! Reads, snapshots and trie inputs of the pending state.

use std::sync::Arc;

use alloy_primitives::keccak256;
use flashblocks_pending::account::Account;
use flashblocks_pending::hashed::{HashedPostState, HashedStorage, TrieInput};
use flashblocks_pending::keyed::KeyMap;
use flashblocks_pending::pending_block::{
    block_and_receipts, local_pending_block, local_pending_state, overlay_history,
    BlockAndReceipts, LatestBlockError, PendingStateOutcome, PendingStateStep,
};
use flashblocks_pending::pending_state::{PendingStateSnapshot, PendingStateSource};
use flashblocks_pending::pending_state_provider::{
    FlashblocksPendingSnapshot, FlashblocksPendingStateProvider, FlashblocksState, Lookup,
    PendingBlocks,
};
use flashblocks_pending::primitives::{Address, B256, U256};
use revm::bytecode::Bytecode;
use revm::database::states::StorageSlot;
use revm::database::{AccountStatus, BundleAccount, BundleState};
use revm::state::AccountInfo;

/// The historical state of these tests: a label.
type History = &'static str;

type Provider = FlashblocksPendingStateProvider<History>;

const CHANGED: u8 = 0x01;
const CONTRACT: u8 = 0x02;
const GONE: u8 = 0x03;
const CREATED: u8 = 0x04;
const UNTOUCHED: u8 = 0x05;

fn address(byte: u8) -> Address {
    let mut bytes = [0u8; 20];
    bytes[19] = byte;
    Address(bytes)
}

fn key(byte: u8) -> B256 {
    let mut bytes = [0u8; 32];
    bytes[31] = byte;
    B256(bytes)
}

fn word(value: u64) -> U256 {
    U256(alloy_primitives::U256::from(value).to_be_bytes())
}

fn address_hash(byte: u8) -> B256 {
    B256(keccak256(address(byte).0).0)
}

fn slot_hash(byte: u8) -> B256 {
    B256(keccak256(key(byte).0).0)
}

fn code() -> Bytecode {
    Bytecode::new_raw(alloy_primitives::Bytes::from_static(&[0x60, 0x00, 0x00]))
}

fn code_hash() -> B256 {
    B256(code().hash_slow().0)
}

fn info(nonce: u64, balance: u64, code_hash: alloy_primitives::B256) -> AccountInfo {
    AccountInfo {
        nonce,
        balance: alloy_primitives::U256::from(balance),
        code_hash,
        ..Default::default()
    }
}

fn insert(
    bundle: &mut BundleState,
    byte: u8,
    info: Option<AccountInfo>,
    slots: &[(u8, u64)],
    status: AccountStatus,
) {
    let storage = slots
        .iter()
        .map(|(slot, value)| {
            let present = alloy_primitives::U256::from(*value);
            let original = alloy_primitives::U256::from(99u64);
            (
                alloy_primitives::U256::from(*slot),
                StorageSlot::new_changed(original, present),
            )
        })
        .collect();
    let account = BundleAccount::new(None, info, storage, status);
    bundle.state.insert(alloy_primitives::Address::new(address(byte).0), account);
}

/// A changed account with slots 1 and 2, a contract, a destroyed account and a created one with
/// slot 1.
fn bundle() -> BundleState {
    let empty = alloy_primitives::KECCAK256_EMPTY;
    let full = alloy_primitives::B256::new(code_hash().0);
    let mut bundle = BundleState::default();
    let changed = Some(info(7, 1_000, empty));
    insert(&mut bundle, CHANGED, changed, &[(1, 11), (2, 0)], AccountStatus::Changed);
    insert(&mut bundle, CONTRACT, Some(info(1, 0, full)), &[], AccountStatus::Changed);
    insert(&mut bundle, GONE, None, &[], AccountStatus::Destroyed);
    let created = Some(info(0, 5, empty));
    insert(&mut bundle, CREATED, created, &[(1, 44)], AccountStatus::InMemoryChange);
    bundle.contracts.insert(full, code());
    bundle
}

fn pending_blocks() -> PendingBlocks {
    PendingBlocks {
        parent_hash: key(0xAA),
        latest_block_number: 42,
        bundle_state: Arc::new(bundle()),
    }
}

fn state() -> FlashblocksState {
    FlashblocksState { pending: Some(Arc::new(pending_blocks())) }
}

fn provider() -> Provider {
    state().snapshot().expect("there are pending blocks").overlay("history")
}

/// Resolves a read with a reply that stands out.
fn resolved<T>(lookup: Lookup<T>, reply: T) -> T {
    lookup.resolve::<()>(Ok(reply)).expect("the reply is no error")
}

fn marker_account() -> Option<Account> {
    Some(Account { nonce: 1234, balance: word(1234), bytecode_hash: None })
}

#[test]
fn snapshot_reads_anchor_and_bundle_together() {
    let source = state();
    let snapshot = source.snapshot().expect("there are pending blocks");
    assert_eq!(snapshot.pending_block(), 42);
    let anchor = PendingStateSnapshot::<History>::anchor_hash(&snapshot);
    assert_eq!(anchor, key(0xAA));
    let overlay = snapshot.overlay("history");
    assert_eq!(*overlay.historical(), "history");
    assert_eq!(overlay.touched_accounts(), 4);
}

#[test]
fn no_pending_blocks_means_no_snapshot() {
    let source = FlashblocksState { pending: None };
    assert!(source.get_pending_blocks().is_none());
    assert!(source.snapshot().is_none());
}

#[test]
fn pending_blocks_share_their_bundle() {
    let blocks = pending_blocks();
    assert_eq!(blocks.parent_hash(), key(0xAA));
    assert_eq!(blocks.latest_block_number(), 42);
    assert!(Arc::ptr_eq(&blocks.get_bundle_state(), &blocks.bundle_state));
}

#[test]
fn touched_accounts_read_as_their_final_value() {
    let provider = provider();
    let changed = resolved(provider.basic_account(&address(CHANGED)), marker_account());
    assert_eq!(
        changed,
        Some(Account { nonce: 7, balance: word(1_000), bytecode_hash: None })
    );
    let contract = resolved(provider.basic_account(&address(CONTRACT)), marker_account());
    assert_eq!(
        contract,
        Some(Account { nonce: 1, balance: word(0), bytecode_hash: Some(code_hash()) })
    );
}

#[test]
fn destroyed_account_reads_as_gone() {
    let provider = provider();
    assert_eq!(resolved(provider.basic_account(&address(GONE)), marker_account()), None);
}

#[test]
fn untouched_account_is_left_to_history() {
    let provider = provider();
    let lookup = provider.basic_account(&address(UNTOUCHED));
    assert!(matches!(lookup, Lookup::Historical));
    assert_eq!(resolved(lookup, marker_account()), marker_account());
    let lookup = provider.storage(&address(UNTOUCHED), &key(1));
    assert_eq!(lookup.resolve(Err("closed")), Err("closed"));
}

#[test]
fn tracked_slots_are_answered() {
    let provider = provider();
    let reply = Some(word(77));
    assert_eq!(resolved(provider.storage(&address(CHANGED), &key(1)), reply), Some(word(11)));
    assert_eq!(resolved(provider.storage(&address(CHANGED), &key(2)), reply), Some(word(0)));
    assert_eq!(resolved(provider.storage(&address(CREATED), &key(1)), reply), Some(word(44)));
}

#[test]
fn untracked_slots_of_known_storage_are_zero() {
    let provider = provider();
    let reply = Some(word(77));
    assert_eq!(resolved(provider.storage(&address(CREATED), &key(9)), reply), Some(word(0)));
    assert_eq!(resolved(provider.storage(&address(GONE), &key(1)), reply), Some(word(0)));
}

#[test]
fn untracked_slots_of_changed_account_are_left_to_history() {
    let provider = provider();
    let lookup = provider.storage(&address(CHANGED), &key(9));
    assert!(matches!(lookup, Lookup::Historical));
    assert_eq!(resolved(lookup, Some(word(77))), Some(word(77)));
}

#[test]
fn contracts_are_found_by_code_hash() {
    let provider = provider();
    let found = resolved(provider.bytecode_by_hash(&code_hash()), None);
    assert_eq!(found, Some(code()));
    assert!(matches!(provider.bytecode_by_hash(&key(1)), Lookup::Historical));
}

#[test]
fn hashed_state_holds_every_account_under_its_hash() {
    let state = provider().hashed_state();
    assert_eq!(state.accounts.entries().len(), 4);
    let changed = Account { nonce: 7, balance: word(1_000), bytecode_hash: None };
    assert_eq!(state.accounts.get(&address_hash(CHANGED)), Some(&Some(changed)));
    assert_eq!(state.accounts.get(&address_hash(GONE)), Some(&None));
    assert_eq!(state.accounts.get(&address_hash(UNTOUCHED)), None);
}

#[test]
fn hashed_state_holds_changed_storages_only() {
    let state = provider().hashed_state();
    assert_eq!(state.storages.entries().len(), 3);
    assert!(state.storages.get(&address_hash(CONTRACT)).is_none());

    let changed = state.storages.get(&address_hash(CHANGED)).expect("has changed slots");
    assert!(!changed.wiped);
    assert_eq!(changed.slots.entries().len(), 2);
    assert_eq!(changed.slots.get(&slot_hash(1)), Some(&word(11)));
    assert_eq!(changed.slots.get(&slot_hash(2)), Some(&word(0)));

    let gone = state.storages.get(&address_hash(GONE)).expect("was wiped");
    assert!(gone.wiped);
    assert!(gone.slots.entries().is_empty());
}

#[test]
fn hashed_state_is_kept() {
    let provider = provider();
    assert!(Arc::ptr_eq(&provider.hashed_state(), &provider.hashed_state()));
}

fn storage(wiped: bool, slots: &[(u8, u64)]) -> HashedStorage {
    let entries = slots.iter().map(|(slot, value)| (slot_hash(*slot), word(*value))).collect();
    HashedStorage { wiped, slots: KeyMap::from_entries(entries) }
}

fn slots_of(storage: &HashedStorage) -> Vec<(B256, U256)> {
    storage.slots.entries().clone()
}

#[test]
fn storage_changes_go_on_top_of_pending_ones() {
    let provider = provider();
    let mine = storage(false, &[(2, 5), (3, 6)]);
    let merged = provider.merged_hashed_storage(&address(CHANGED), mine);
    assert!(!merged.wiped);
    assert_eq!(merged.slots.entries().len(), 3);
    assert_eq!(merged.slots.get(&slot_hash(1)), Some(&word(11)));
    assert_eq!(merged.slots.get(&slot_hash(2)), Some(&word(5)));
    assert_eq!(merged.slots.get(&slot_hash(3)), Some(&word(6)));
}

#[test]
fn nothing_pending_shows_through_a_wipe() {
    let provider = provider();
    let merged = provider.merged_hashed_storage(&address(CHANGED), storage(true, &[(3, 6)]));
    assert!(merged.wiped);
    assert_eq!(slots_of(&merged), [(slot_hash(3), word(6))]);

    let merged = provider.merged_hashed_storage(&address(GONE), storage(false, &[(3, 6)]));
    assert!(merged.wiped);
    assert_eq!(slots_of(&merged), [(slot_hash(3), word(6))]);
}

#[test]
fn storage_merges_in_steps() {
    let provider = provider();
    let (first, second) = (storage(false, &[(1, 5), (3, 6)]), storage(false, &[(3, 7)]));
    let joined = first.clone().extend(second.clone());
    let both = provider.merged_hashed_storage(&address(CHANGED), joined);
    let steps = provider.merged_hashed_storage(&address(CHANGED), first).extend(second);
    assert_eq!(both.wiped, steps.wiped);
    assert_eq!(slots_of(&both), slots_of(&steps));
    assert_eq!(both.slots.get(&slot_hash(3)), Some(&word(7)));
}

#[test]
fn equal_merges_agree() {
    let provider = provider();
    let once = provider.merged_hashed_storage(&address(CHANGED), storage(false, &[(2, 5)]));
    let wiped = provider.merged_hashed_storage(&address(CHANGED), storage(true, &[]));
    assert!(slots_of(&wiped).is_empty());
    let again = provider.merged_hashed_storage(&address(CHANGED), storage(false, &[(2, 5)]));
    assert_eq!(slots_of(&once), slots_of(&again));
}

#[test]
fn prepending_twice_is_once() {
    let provider = provider();
    let input = TrieInput { nodes: (), state: caller_state(), prefix_sets: () };
    let once = provider.prepend_pending(input);
    let first = once.state.clone();
    let twice = provider.prepend_pending(once);
    same_state(&first, &twice.state);
}

#[test]
fn empty_bundle_changes_nothing() {
    let blocks = PendingBlocks {
        parent_hash: key(0xAA),
        latest_block_number: 42,
        bundle_state: Arc::new(BundleState::default()),
    };
    let source = FlashblocksState { pending: Some(Arc::new(blocks)) };
    let provider = source.snapshot().expect("there are pending blocks").overlay("history");
    let input = TrieInput { nodes: (), state: caller_state(), prefix_sets: () };
    same_state(&provider.prepend_pending(input).state, &caller_state());
}

#[test]
fn hashed_state_is_the_same_for_every_provider_of_a_bundle() {
    same_state(&provider().hashed_state(), &provider().hashed_state());
}

#[test]
fn padded_address_has_zeros_in_front() {
    assert_eq!(address(CHANGED).padded(), key(CHANGED));
    let mut bytes = [0xFFu8; 32];
    bytes[..12].fill(0);
    assert_eq!(Address([0xFF; 20]).padded(), B256(bytes));
}

#[test]
fn entries_ascend() {
    let state = provider().hashed_state();
    let hashes: Vec<[u8; 32]> = state.accounts.entries().iter().map(|entry| entry.0 .0).collect();
    let mut sorted = hashes.clone();
    sorted.sort();
    assert_eq!(hashes, sorted);
}

#[test]
fn storage_without_pending_changes_is_the_callers() {
    let provider = provider();
    let merged = provider.merged_hashed_storage(&address(UNTOUCHED), storage(false, &[(3, 6)]));
    assert!(!merged.wiped);
    assert_eq!(slots_of(&merged), [(slot_hash(3), word(6))]);
}

fn caller_state() -> HashedPostState {
    let mine = Account { nonce: 8, balance: word(1), bytecode_hash: None };
    HashedPostState {
        accounts: KeyMap::from_entries(vec![
            (address_hash(CHANGED), Some(mine)),
            (address_hash(UNTOUCHED), None),
        ]),
        storages: KeyMap::from_entries(vec![
            (address_hash(CHANGED), storage(false, &[(1, 12)])),
            (address_hash(CREATED), storage(true, &[])),
        ]),
    }
}

#[test]
fn pending_diff_sits_underneath_the_callers() {
    let input = TrieInput { nodes: "nodes", state: caller_state(), prefix_sets: "paths" };
    let input = provider().prepend_pending(input);
    assert_eq!(input.nodes, "nodes");
    assert_eq!(input.prefix_sets, "paths");

    assert_eq!(input.state.accounts.entries().len(), 5);
    let mine = Account { nonce: 8, balance: word(1), bytecode_hash: None };
    assert_eq!(input.state.accounts.get(&address_hash(CHANGED)), Some(&Some(mine)));
    assert_eq!(input.state.accounts.get(&address_hash(UNTOUCHED)), Some(&None));
    assert_eq!(input.state.accounts.get(&address_hash(GONE)), Some(&None));

    assert_eq!(input.state.storages.entries().len(), 3);
    let changed = input.state.storages.get(&address_hash(CHANGED)).expect("is set");
    assert_eq!(changed.slots.get(&slot_hash(1)), Some(&word(12)));
    assert_eq!(changed.slots.get(&slot_hash(2)), Some(&word(0)));
    let created = input.state.storages.get(&address_hash(CREATED)).expect("is set");
    assert!(created.wiped);
    assert!(created.slots.entries().is_empty());
}

#[test]
fn storage_and_state_inputs_agree() {
    let provider = provider();
    let input = TrieInput { nodes: (), state: caller_state(), prefix_sets: () };
    let state = provider.prepend_pending(input).state;
    let alone = provider.merged_hashed_storage(&address(CHANGED), storage(false, &[(1, 12)]));
    let within = state.storages.get(&address_hash(CHANGED)).expect("is set");
    assert_eq!(alone.wiped, within.wiped);
    assert_eq!(slots_of(&alone), slots_of(within));
}

fn same_state(left: &HashedPostState, right: &HashedPostState) {
    assert_eq!(left.accounts.entries(), right.accounts.entries());
    assert_eq!(left.storages.entries().len(), right.storages.entries().len());
    for (one, other) in left.storages.entries().iter().zip(right.storages.entries()) {
        assert_eq!(one.0, other.0);
        assert_eq!(one.1.wiped, other.1.wiped);
        assert_eq!(slots_of(&one.1), slots_of(&other.1));
    }
}

#[test]
fn overlays_compose() {
    let low = HashedPostState::from_bundle_state(&bundle());
    let middle = caller_state();
    let high = HashedPostState {
        accounts: KeyMap::empty(),
        storages: KeyMap::from_entries(vec![(address_hash(CHANGED), storage(true, &[(4, 4)]))]),
    };
    let left = low.clone().extend(middle.clone()).extend(high.clone());
    let right = low.clone().extend(middle.extend(high));
    same_state(&left, &right);
    same_state(&HashedPostState::unchanged().extend(low.clone()), &low);
    same_state(&low.clone().extend(HashedPostState::unchanged()), &low);
}

#[test]
fn later_entries_win() {
    let map = KeyMap::from_entries(vec![(key(2), 1u8), (key(1), 2), (key(2), 3)]);
    assert_eq!(*map.entries(), [(key(1), 2), (key(2), 3)]);
}

#[test]
fn hashing_agrees_with_reads() {
    let provider = provider();
    let state = provider.hashed_state();
    for byte in [CHANGED, CONTRACT, GONE, CREATED] {
        let read = resolved(provider.basic_account(&address(byte)), marker_account());
        assert_eq!(state.accounts.get(&address_hash(byte)), Some(&read));
    }
    let read = resolved(provider.storage(&address(CREATED), &key(1)), None);
    let storage = state.storages.get(&address_hash(CREATED)).expect("is set");
    assert_eq!(storage.slots.get(&slot_hash(1)).copied(), read);
}

#[test]
fn wiped_storage_reads_as_zero() {
    let provider = provider();
    let state = provider.hashed_state();
    let gone = state.storages.get(&address_hash(GONE)).expect("was wiped");
    assert!(gone.wiped);
    assert_eq!(gone.slots.get(&slot_hash(7)), None);
    let read = resolved(provider.storage(&address(GONE), &key(7)), Some(word(77)));
    assert_eq!(read, Some(word(0)));
}

#[test]
fn without_a_source_there_is_no_pending_state() {
    let step = local_pending_state::<History, FlashblocksPendingSnapshot, FlashblocksState>(None);
    assert!(matches!(step, PendingStateStep::Fallback));
    let source = FlashblocksState { pending: None };
    let step = local_pending_state::<History, _, _>(Some(&source));
    assert!(matches!(step, PendingStateStep::Fallback));
}

#[test]
fn history_is_opened_at_the_anchor() {
    let source = state();
    let (snapshot, anchor) = match local_pending_state::<History, _, _>(Some(&source)) {
        PendingStateStep::OpenHistory { snapshot, anchor } => (snapshot, anchor),
        PendingStateStep::Fallback => panic!("there are pending blocks"),
    };
    assert_eq!(anchor, key(0xAA));
    let outcome = overlay_history::<History, _, ()>(snapshot, Ok("history"));
    let overlay = outcome.into_state().expect("the anchor is available");
    assert_eq!(*overlay.historical(), "history");
    assert_eq!(overlay.touched_accounts(), 4);
}

#[test]
fn missing_anchor_falls_back() {
    let snapshot = state().snapshot().expect("there are pending blocks");
    let outcome = overlay_history::<History, _, _>(snapshot, Err("block not found"));
    match &outcome {
        PendingStateOutcome::AnchorUnavailable { anchor, error } => {
            assert_eq!(*anchor, key(0xAA));
            assert_eq!(*error, "block not found");
        }
        PendingStateOutcome::Overlay(_) => panic!("there is no history to overlay"),
    }
    assert!(outcome.into_state().is_none());
}

#[test]
fn local_pending_block_is_the_latest() {
    assert_eq!(local_pending_block::<()>(Ok(Some(key(3)))).ok(), Some(key(3)));
    let missing = local_pending_block::<()>(Ok(None));
    assert!(matches!(missing, Err(LatestBlockError::HeaderNotFound)));
    let failed = local_pending_block(Err("closed"));
    assert!(matches!(failed, Err(LatestBlockError::Provider("closed"))));
}

#[test]
fn block_comes_with_its_receipts() {
    let found = block_and_receipts::<_, _, ()>(Ok(Some(("block", "receipts"))));
    assert!(matches!(
        found,
        Ok(Some(BlockAndReceipts { block: "block", receipts: "receipts" }))
    ));
    assert!(matches!(block_and_receipts::<(), (), ()>(Ok(None)), Ok(None)));
    assert!(matches!(block_and_receipts::<(), (), _>(Err("closed")), Err("closed")));
}

fn shareable<T: Send + Sync>(_value: &T) {}

#[test]
fn pending_state_is_shared_between_threads() {
    shareable(&state());
    shareable(&provider());
}
