//! Hook for supplying pending state from outside.
//!
//! The pending block's parent chain is often incomplete: a pre-confirmation source runs ahead of
//! canonical ingestion, so walking that chain down to a block the node holds can fail. A source
//! that knows which block its diff was computed against anchors the state there instead.

use vstd::prelude::*;

use crate::primitives::B256;

verus! {

/// Supplies the pending state overlay, if one is currently available.
pub trait PendingStateSource: Send + Sync + 'static {
    /// What the source hands out.
    type Snapshot;

    /// The source may hand out `snapshot` at this point.
    spec fn offers(&self, snapshot: Option<Self::Snapshot>) -> bool;

    /// Takes a consistent snapshot. Returns `None` when there is no pending state, in which case
    /// `pending` is equivalent to `latest`.
    fn snapshot(&self) -> (snapshot: Option<Self::Snapshot>)
        ensures
            self.offers(snapshot),
    ;
}

/// One snapshot of pending state. The anchor and the diff are read together so they cannot
/// straddle an update. `H` is the historical state that the diff goes on top of.
pub trait PendingStateSnapshot<H>: Send + Sync + Sized {
    /// The historical state with the diff on top.
    type Overlay;

    /// Hash of the block the diff was computed against.
    spec fn anchor(&self) -> B256;

    /// `overlay` is `historical` with the diff of this snapshot on top.
    spec fn overlays(&self, historical: H, overlay: Self::Overlay) -> bool;

    /// Hash of the block the diff was computed against. Must be a block the node holds.
    fn anchor_hash(&self) -> (hash: B256)
        ensures
            hash == self.anchor(),
    ;

    /// Layers the diff on top of the historical state at [`Self::anchor_hash`].
    fn overlay(self, historical: H) -> (overlay: Self::Overlay)
        ensures
            self.overlays(historical, overlay),
    ;
}

} // verus!
