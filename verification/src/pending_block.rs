//! Decisions behind loading the pending block and the pending state for an RPC response.
//!
//! Opening historical state and reading the block cache happen elsewhere. This module decides what
//! is asked for, and what becomes of the reply.

use vstd::prelude::*;

use crate::pending_state::{PendingStateSnapshot, PendingStateSource};
use crate::primitives::B256;

verus! {

/// How loading the pending state begins.
#[derive(Debug)]
pub enum PendingStateStep<S> {
    /// There is no pending state: callers fall back to the provider.
    Fallback,
    /// The historical state at the anchor has to be opened.
    OpenHistory {
        /// The snapshot whose diff goes on top.
        snapshot: S,
        /// Block to open the historical state at.
        anchor: B256,
    },
}

/// How loading the pending state ends.
#[derive(Debug)]
pub enum PendingStateOutcome<O, E> {
    /// The pending state: the historical state at the anchor with the diff on top.
    Overlay(O),
    /// The historical state at the anchor could not be opened: callers fall back to the provider.
    /// They discard the error, so it has to be reported before.
    AnchorUnavailable {
        /// The anchor that is missing.
        anchor: B256,
        /// Why it could not be opened.
        error: E,
    },
}

impl<O, E> PendingStateOutcome<O, E> {
    /// The pending state that callers get, if any.
    pub open spec fn state(self) -> Option<O> {
        match self {
            PendingStateOutcome::Overlay(overlay) => Some(overlay),
            PendingStateOutcome::AnchorUnavailable { .. } => None,
        }
    }

    /// The pending state that callers get. Without one they fall back to the provider, so a missing
    /// anchor is no error of its own.
    pub fn into_state(self) -> (state: Option<O>)
        ensures
            state == self.state(),
    {
        match self {
            PendingStateOutcome::Overlay(overlay) => Some(overlay),
            PendingStateOutcome::AnchorUnavailable { .. } => None,
        }
    }
}

/// Begins loading the pending state from the configured source, if any.
///
/// This is consulted before the provider, which keeps pending resolution off the parent-chain
/// walk: a pre-confirmation source runs ahead of canonical ingestion, so that walk would hit blocks
/// the node does not hold yet. There is no block built from the mem-pool, so without a source there
/// is nothing to return.
pub fn local_pending_state<H, S, Source>(source: Option<&Source>) -> (step: PendingStateStep<S>)
    where S: PendingStateSnapshot<H>, Source: PendingStateSource<Snapshot = S>
    ensures
        source is None ==> step is Fallback,
        source matches Some(configured) ==> match step {
            PendingStateStep::Fallback => configured.offers(None),
            PendingStateStep::OpenHistory { snapshot, anchor } => {
                &&& configured.offers(Some(snapshot))
                &&& anchor == snapshot.anchor()
            },
        },
{
    match source {
        Some(configured) => match configured.snapshot() {
            Some(snapshot) => {
                let anchor = snapshot.anchor_hash();
                PendingStateStep::OpenHistory { snapshot, anchor }
            },
            None => PendingStateStep::Fallback,
        },
        None => PendingStateStep::Fallback,
    }
}

/// Ends loading the pending state, given the attempt to open the historical state at the anchor of
/// the snapshot.
pub fn overlay_history<H, S, E>(snapshot: S, history: Result<H, E>) -> (outcome:
    PendingStateOutcome<S::Overlay, E>) where S: PendingStateSnapshot<H>
    ensures
        match history {
            Ok(historical) => outcome matches PendingStateOutcome::Overlay(overlay)
                && snapshot.overlays(historical, overlay),
            Err(error) => outcome == (PendingStateOutcome::<S::Overlay, E>::AnchorUnavailable {
                anchor: snapshot.anchor(),
                error,
            }),
        },
{
    match history {
        Ok(historical) => PendingStateOutcome::Overlay(snapshot.overlay(historical)),
        Err(error) => {
            let anchor = snapshot.anchor_hash();
            PendingStateOutcome::AnchorUnavailable { anchor, error }
        },
    }
}

/// Why there is no latest block to serve as the local pending block.
#[derive(Debug)]
pub enum LatestBlockError<E> {
    /// The latest header could not be read.
    Provider(E),
    /// There is no header of the latest block.
    HeaderNotFound,
}

/// A block with its receipts.
#[derive(Debug)]
pub struct BlockAndReceipts<B, R> {
    /// The block.
    pub block: B,
    /// The receipts of its transactions.
    pub receipts: R,
}

/// Begins loading the local pending block, which is the latest block: decides, given the hash of
/// the latest header, which block is read.
pub fn local_pending_block<E>(latest: Result<Option<B256>, E>) -> (block: Result<
    B256,
    LatestBlockError<E>,
>)
    ensures
        block == match latest {
            Ok(Some(hash)) => Ok(hash),
            Ok(None) => Err(LatestBlockError::HeaderNotFound),
            Err(error) => Err(LatestBlockError::Provider(error)),
        },
{
    match latest {
        Ok(Some(hash)) => Ok(hash),
        Ok(None) => Err(LatestBlockError::HeaderNotFound),
        Err(error) => Err(LatestBlockError::Provider(error)),
    }
}

/// Ends loading the local pending block, given what was found under its hash. A block that is not
/// there is no error.
pub fn block_and_receipts<B, R, E>(found: Result<Option<(B, R)>, E>) -> (loaded: Result<
    Option<BlockAndReceipts<B, R>>,
    E,
>)
    ensures
        loaded == match found {
            Ok(Some((block, receipts))) => Ok(Some(BlockAndReceipts { block, receipts })),
            Ok(None) => Ok(None),
            Err(error) => Err(error),
        },
{
    match found {
        Ok(Some((block, receipts))) => Ok(Some(BlockAndReceipts { block, receipts })),
        Ok(None) => Ok(None),
        Err(error) => Err(error),
    }
}

} // verus!
