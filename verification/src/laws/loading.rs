//! How pending state and the pending block are loaded, from the shared state to the overlay.

use std::sync::Arc;

use revm::database::BundleState;
use vstd::prelude::*;

use crate::pending_block::{
    block_and_receipts, local_pending_block, local_pending_state, overlay_history,
    BlockAndReceipts, LatestBlockError, PendingStateOutcome, PendingStateStep,
};
use crate::pending_state::{PendingStateSnapshot, PendingStateSource};
use crate::pending_state_provider::{
    FlashblocksPendingSnapshot, FlashblocksPendingStateProvider, FlashblocksState, PendingBlocks,
};
use crate::primitives::B256;

verus! {

/// The pending blocks hand out what they hold.
pub proof fn law_pending_blocks_hand_out_what_they_hold(
    blocks: PendingBlocks,
    hash: B256,
    number: u64,
    bundle: Arc<BundleState>,
)
    requires
        call_ensures(PendingBlocks::parent_hash, (&blocks,), hash),
        call_ensures(PendingBlocks::latest_block_number, (&blocks,), number),
        call_ensures(PendingBlocks::get_bundle_state, (&blocks,), bundle),
    ensures
        hash == blocks.parent_hash,
        number == blocks.latest_block_number,
        bundle == blocks.bundle_state,
{
}

/// A read of the shared state yields the pending blocks that it holds, and none while there are
/// none.
pub proof fn law_shared_state_hands_out_its_blocks(
    state: FlashblocksState,
    pending: Option<Arc<PendingBlocks>>,
)
    requires
        call_ensures(FlashblocksState::get_pending_blocks, (&state,), pending),
    ensures
        pending == state.pending,
{
}

/// From one read of the shared state to the overlay. There is a snapshot exactly while there are
/// pending blocks. Its anchor is the parent of the earliest one, its pending block the latest one,
/// and its overlay has the bundle of the same pending blocks on top of the historical state that it
/// was given.
pub proof fn law_snapshot_reads_one_set_of_blocks<H>(
    state: FlashblocksState,
    snapshot: Option<FlashblocksPendingSnapshot>,
)
    requires
        call_ensures(
            <FlashblocksState as PendingStateSource>::snapshot,
            (&state,),
            snapshot,
        ),
    ensures
        snapshot is Some <==> state.pending is Some,
        forall|hash: B256|
            snapshot is Some && #[trigger] call_ensures(
                <FlashblocksPendingSnapshot as PendingStateSnapshot<H>>::anchor_hash,
                (&snapshot->0,),
                hash,
            ) ==> hash == state.pending->0.parent_hash,
        forall|number: u64|
            snapshot is Some && #[trigger] call_ensures(
                FlashblocksPendingSnapshot::pending_block,
                (&snapshot->0,),
                number,
            ) ==> number == state.pending->0.latest_block_number,
        forall|historical: H, overlay: FlashblocksPendingStateProvider<H>, found: &H|
            #![trigger call_ensures(
                <FlashblocksPendingSnapshot as PendingStateSnapshot<H>>::overlay,
                (snapshot->0, historical),
                overlay,
            ), call_ensures(
                FlashblocksPendingStateProvider::<H>::historical,
                (&overlay,),
                found,
            )]
            snapshot is Some && call_ensures(
                <FlashblocksPendingSnapshot as PendingStateSnapshot<H>>::overlay,
                (snapshot->0, historical),
                overlay,
            ) && call_ensures(FlashblocksPendingStateProvider::<H>::historical, (&overlay,), found)
                ==> overlay.bundle() == *state.pending->0.bundle_state && *found == historical,
{
}

/// Without a source, and without pending blocks, there is nothing to overlay. Otherwise the
/// historical state is opened at the parent of the earliest pending block, and if that works the
/// pending state is the bundle of those blocks on top of it. If it does not, callers get no pending
/// state, and the anchor and the error are handed on as they are.
pub proof fn law_pending_state_is_anchored<H, E>(
    source: Option<&FlashblocksState>,
    step: PendingStateStep<FlashblocksPendingSnapshot>,
    history: Result<H, E>,
)
    requires
        call_ensures(
            local_pending_state::<H, FlashblocksPendingSnapshot, FlashblocksState>,
            (source,),
            step,
        ),
    ensures
        step is Fallback <==> source is None || source->0.pending is None,
        step is OpenHistory ==> step->anchor == source->0.pending->0.parent_hash,
        forall|outcome: PendingStateOutcome<FlashblocksPendingStateProvider<H>, E>|
            step is OpenHistory && #[trigger] call_ensures(
                overlay_history::<H, FlashblocksPendingSnapshot, E>,
                (step->snapshot, history),
                outcome,
            ) ==> match history {
                Ok(historical) => outcome is Overlay && outcome->Overlay_0.bundle()
                    == *source->0.pending->0.bundle_state && outcome->Overlay_0.base()
                    == historical,
                Err(error) => outcome is AnchorUnavailable && outcome->AnchorUnavailable_anchor
                    == source->0.pending->0.parent_hash && outcome->error == error,
            },
{
}

/// Callers get the overlay if there is one, and nothing if the anchor was not available.
pub proof fn law_callers_get_the_overlay<O, E>(
    outcome: PendingStateOutcome<O, E>,
    state: Option<O>,
)
    requires
        call_ensures(PendingStateOutcome::<O, E>::into_state, (outcome,), state),
    ensures
        outcome is Overlay ==> state is Some && state->0 == outcome->Overlay_0,
        outcome is AnchorUnavailable ==> state is None,
{
}

/// For any source and any snapshot: what is opened is the anchor of a snapshot that the source
/// offers, there is nothing to open only if the source offers none, and what becomes of the history
/// is what the snapshot makes of it.
pub proof fn law_any_source_is_anchored<H, S, Source, E>(
    source: Option<&Source>,
    step: PendingStateStep<S>,
    snapshot: S,
    history: Result<H, E>,
    outcome: PendingStateOutcome<S::Overlay, E>,
) where S: PendingStateSnapshot<H>, Source: PendingStateSource<Snapshot = S>
    requires
        call_ensures(local_pending_state::<H, S, Source>, (source,), step),
        call_ensures(overlay_history::<H, S, E>, (snapshot, history), outcome),
    ensures
        source is None ==> step is Fallback,
        source is Some && step is Fallback ==> source->0.offers(None),
        step is OpenHistory ==> source is Some && source->0.offers(Some(step->snapshot))
            && step->anchor == step->snapshot.anchor(),
        history is Ok ==> outcome is Overlay && snapshot.overlays(
            history->Ok_0,
            outcome->Overlay_0,
        ),
        history is Err ==> outcome is AnchorUnavailable && outcome->AnchorUnavailable_anchor
            == snapshot.anchor() && outcome->error == history->Err_0,
{
}

/// The local pending block is the latest one: the block to read is that of the latest header, a
/// missing header is an error of its own, and a failed read keeps its error.
pub proof fn law_pending_block_is_the_latest<E>(
    latest: Result<Option<B256>, E>,
    block: Result<B256, LatestBlockError<E>>,
)
    requires
        call_ensures(local_pending_block::<E>, (latest,), block),
    ensures
        latest is Ok && latest->Ok_0 is Some ==> block is Ok && block->Ok_0 == latest->Ok_0->0,
        latest is Ok && latest->Ok_0 is None ==> block is Err && block->Err_0 is HeaderNotFound,
        latest is Err ==> block is Err && block->Err_0 is Provider && block->Err_0->Provider_0
            == latest->Err_0,
{
}

/// A block that was found comes with its receipts, one that was not is no error, and a failed read
/// keeps its error.
pub proof fn law_block_comes_with_its_receipts<B, R, E>(
    found: Result<Option<(B, R)>, E>,
    loaded: Result<Option<BlockAndReceipts<B, R>>, E>,
)
    requires
        call_ensures(block_and_receipts::<B, R, E>, (found,), loaded),
    ensures
        found is Ok ==> loaded is Ok && (loaded->Ok_0 is Some <==> found->Ok_0 is Some),
        found is Ok && found->Ok_0 is Some ==> ({
            let pair = found->Ok_0->0;
            let whole = loaded->Ok_0->0;
            whole.block == pair.0 && whole.receipts == pair.1
        }),
        found is Err ==> loaded is Err && loaded->Err_0 == found->Err_0,
{
}

} // verus!
