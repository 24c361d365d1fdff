//! Subscription kinds of the `eth_` pub-sub extension.

use alloy_rpc_types_eth::pubsub::SubscriptionKind;
use serde::Deserialize;
use vstd::prelude::*;
use vstd::std_specs::convert::FromSpecImpl;

verus! {

/// alloy's `SubscriptionKind`, carried through unread.
#[verifier::external_type_specification]
#[verifier::external_body]
pub struct ExSubscriptionKind(SubscriptionKind);

/// Base-specific subscription types for flashblocks.
#[derive(Clone, Copy, Debug, PartialEq, Eq, Hash, Structural)]
pub enum BaseSubscriptionKind {
    /// New flashblocks subscription.
    ///
    /// Fires a notification each time a new flashblock is processed, providing the current
    /// pending block state. Each flashblock represents an incremental update to the pending
    /// block, so multiple notifications may be emitted for the same block height as new
    /// flashblocks arrive.
    NewFlashblocks,
    /// Pending logs subscription.
    ///
    /// Returns logs from flashblocks pending state that match the given filter criteria.
    /// Unlike the standard `logs` subscription, which only covers confirmed blocks, this covers
    /// the current pending flashblock state.
    PendingLogs,
    /// New flashblock transactions subscription.
    ///
    /// Returns transactions from flashblocks as they are sequenced. They have been included by the
    /// sequencer and are effectively preconfirmed, unlike those of `newPendingTransactions`.
    ///
    /// Accepts an optional parameter:
    /// - `true`: full transaction objects with their associated logs
    /// - `false` (default): only transaction hashes
    /// - a log filter object: full transaction objects where at least one log matches the filter,
    ///   with all logs, not just the matching ones
    NewFlashblockTransactions,
    /// Pending logs delivered one flashblock at a time.
    ///
    /// Same filter semantics as [`Self::PendingLogs`], but each notification carries every
    /// matching log from one flashblock together with the pending block revision they came from.
    /// A flashblock with no matching logs still produces a notification, so the stream doubles as a
    /// liveness signal.
    PendingLogsBundle,
}

/// Extended subscription kind that covers both standard Ethereum subscription types and
/// flashblocks-specific types.
#[derive(Clone, Copy, Debug, PartialEq, Eq, Hash)]
pub enum ExtendedSubscriptionKind {
    /// Standard Ethereum subscription types, proxied to the node's own pub-sub.
    Standard(SubscriptionKind),
    /// Base-specific subscription types for flashblocks.
    Base(BaseSubscriptionKind),
}

/// The standard kind that an extended kind is, if it is one.
pub open spec fn standard_part(kind: ExtendedSubscriptionKind) -> Option<SubscriptionKind> {
    match kind {
        ExtendedSubscriptionKind::Standard(standard) => Some(standard),
        ExtendedSubscriptionKind::Base(_) => None,
    }
}

impl ExtendedSubscriptionKind {
    /// Returns the standard subscription kind if this is a standard subscription type.
    pub fn as_standard(&self) -> (kind: Option<SubscriptionKind>)
        ensures
            kind == standard_part(*self),
    {
        match self {
            ExtendedSubscriptionKind::Standard(kind) => Some(*kind),
            ExtendedSubscriptionKind::Base(_) => None,
        }
    }

    /// Returns true if this is a flashblocks-specific subscription.
    pub fn is_flashblocks(&self) -> (flashblocks: bool)
        ensures
            flashblocks <==> self is Base,
    {
        matches!(self, ExtendedSubscriptionKind::Base(_))
    }
}

impl From<SubscriptionKind> for ExtendedSubscriptionKind {
    fn from(kind: SubscriptionKind) -> (extended: ExtendedSubscriptionKind) {
        ExtendedSubscriptionKind::Standard(kind)
    }
}

impl FromSpecImpl<SubscriptionKind> for ExtendedSubscriptionKind {
    open spec fn obeys_from_spec() -> bool {
        true
    }

    open spec fn from_spec(kind: SubscriptionKind) -> ExtendedSubscriptionKind {
        ExtendedSubscriptionKind::Standard(kind)
    }
}

impl From<BaseSubscriptionKind> for ExtendedSubscriptionKind {
    fn from(kind: BaseSubscriptionKind) -> (extended: ExtendedSubscriptionKind) {
        ExtendedSubscriptionKind::Base(kind)
    }
}

impl FromSpecImpl<BaseSubscriptionKind> for ExtendedSubscriptionKind {
    open spec fn obeys_from_spec() -> bool {
        true
    }

    open spec fn from_spec(kind: BaseSubscriptionKind) -> ExtendedSubscriptionKind {
        ExtendedSubscriptionKind::Base(kind)
    }
}

/// The name of a Base-specific kind on the wire.
pub open spec fn base_name(kind: BaseSubscriptionKind) -> Seq<char> {
    match kind {
        BaseSubscriptionKind::NewFlashblocks => "newFlashblocks"@,
        BaseSubscriptionKind::PendingLogs => "pendingLogs"@,
        BaseSubscriptionKind::NewFlashblockTransactions => "newFlashblockTransactions"@,
        BaseSubscriptionKind::PendingLogsBundle => "pendingLogsBundle"@,
    }
}

/// The Base-specific kind that goes by a name on the wire.
pub open spec fn base_kind(name: Seq<char>) -> Option<BaseSubscriptionKind> {
    if name == base_name(BaseSubscriptionKind::NewFlashblocks) {
        Some(BaseSubscriptionKind::NewFlashblocks)
    } else if name == base_name(BaseSubscriptionKind::PendingLogs) {
        Some(BaseSubscriptionKind::PendingLogs)
    } else if name == base_name(BaseSubscriptionKind::NewFlashblockTransactions) {
        Some(BaseSubscriptionKind::NewFlashblockTransactions)
    } else if name == base_name(BaseSubscriptionKind::PendingLogsBundle) {
        Some(BaseSubscriptionKind::PendingLogsBundle)
    } else {
        None
    }
}

/// The name of an extended kind on the wire.
pub open spec fn extended_name(kind: ExtendedSubscriptionKind) -> Seq<char> {
    match kind {
        ExtendedSubscriptionKind::Standard(standard) => standard_name(standard),
        ExtendedSubscriptionKind::Base(base) => base_name(base),
    }
}

/// The name of a standard kind on the wire.
pub uninterp spec fn standard_name(kind: SubscriptionKind) -> Seq<char>;

/// The names of the standard kinds.
pub open spec fn is_standard_name(name: Seq<char>) -> bool {
    ||| name == "newHeads"@
    ||| name == "logs"@
    ||| name == "newPendingTransactions"@
    ||| name == "syncing"@
    ||| name == "transactionReceipts"@
}

/// Calls the `Serialize` impl of `SubscriptionKind`: a kind is written as its name, which is one of
/// [`is_standard_name`].
#[verifier::external_body]
fn standard_wire_name(kind: &SubscriptionKind) -> (name: String)
    ensures
        name@ == standard_name(*kind),
        is_standard_name(name@),
{
    let value = serde_json::to_value(kind);
    value.ok().and_then(|name| name.as_str().map(str::to_owned)).unwrap_or_default()
}

/// Calls the `Deserialize` impl of `SubscriptionKind` on a name: there is a kind exactly for the
/// names of [`is_standard_name`], namely the one that is written as that name.
#[verifier::external_body]
fn standard_kind(name: &str) -> (kind: Option<SubscriptionKind>)
    ensures
        kind is Some <==> is_standard_name(name@),
        kind matches Some(found) ==> standard_name(found) == name@,
        forall|written: SubscriptionKind| #[trigger]
            standard_name(written) == name@ ==> kind == Some(written),
{
    let name = serde::de::value::StrDeserializer::<serde::de::value::Error>::new(name);
    SubscriptionKind::deserialize(name).ok()
}

/// Compares a text with a name.
fn is_name(text: &str, name: &str) -> (same: bool)
    ensures
        same <==> text@ == name@,
{
    text.to_owned() == name.to_owned()
}

impl BaseSubscriptionKind {
    /// The name that the kind goes by on the wire.
    pub fn wire_name(&self) -> (name: &'static str)
        ensures
            name@ == base_name(*self),
    {
        match self {
            BaseSubscriptionKind::NewFlashblocks => "newFlashblocks",
            BaseSubscriptionKind::PendingLogs => "pendingLogs",
            BaseSubscriptionKind::NewFlashblockTransactions => "newFlashblockTransactions",
            BaseSubscriptionKind::PendingLogsBundle => "pendingLogsBundle",
        }
    }

    /// The kind that goes by a name on the wire.
    pub fn from_wire_name(name: &str) -> (kind: Option<BaseSubscriptionKind>)
        ensures
            kind == base_kind(name@),
    {
        if is_name(name, "newFlashblocks") {
            Some(BaseSubscriptionKind::NewFlashblocks)
        } else if is_name(name, "pendingLogs") {
            Some(BaseSubscriptionKind::PendingLogs)
        } else if is_name(name, "newFlashblockTransactions") {
            Some(BaseSubscriptionKind::NewFlashblockTransactions)
        } else if is_name(name, "pendingLogsBundle") {
            Some(BaseSubscriptionKind::PendingLogsBundle)
        } else {
            None
        }
    }
}

impl ExtendedSubscriptionKind {
    /// The name that the kind goes by on the wire.
    pub fn wire_name(&self) -> (name: String)
        ensures
            name@ == extended_name(*self),
            self is Standard <==> is_standard_name(name@),
    {
        match self {
            ExtendedSubscriptionKind::Standard(kind) => standard_wire_name(kind),
            ExtendedSubscriptionKind::Base(kind) => {
                proof {
                    law_base_names_are_not_standard(*kind);
                }
                kind.wire_name().to_owned()
            },
        }
    }

    /// The kind that goes by a name on the wire. A standard name always means the standard kind.
    pub fn from_wire_name(name: &str) -> (kind: Option<ExtendedSubscriptionKind>)
        ensures
            is_standard_name(name@) ==> (kind matches Some(
                ExtendedSubscriptionKind::Standard(found),
            ) && standard_name(found) == name@),
            !is_standard_name(name@) ==> kind == match base_kind(name@) {
                Some(base) => Some(ExtendedSubscriptionKind::Base(base)),
                None => None,
            },
            forall|written: ExtendedSubscriptionKind| #[trigger]
                extended_name(written) == name@ ==> kind == Some(written),
    {
        let kind = match standard_kind(name) {
            Some(standard) => Some(ExtendedSubscriptionKind::Standard(standard)),
            None => match BaseSubscriptionKind::from_wire_name(name) {
                Some(base) => Some(ExtendedSubscriptionKind::Base(base)),
                None => None,
            },
        };
        assert forall|written: ExtendedSubscriptionKind| #[trigger]
            extended_name(written) == name@ implies kind == Some(written) by {
            match written {
                ExtendedSubscriptionKind::Standard(standard) => {
                    assert(standard_name(standard) == name@);
                },
                ExtendedSubscriptionKind::Base(base) => {
                    law_base_names_are_not_standard(base);
                    law_base_names_are_read_back(base);
                },
            }
        }
        kind
    }
}

/// Every kind is either standard or flashblocks-specific, never both.
pub proof fn law_kinds_split(kind: ExtendedSubscriptionKind)
    ensures
        standard_part(kind) is None <==> kind is Base,
{
}

/// A Base-specific kind is found again under its name.
pub proof fn law_base_names_are_read_back(kind: BaseSubscriptionKind)
    ensures
        base_kind(base_name(kind)) == Some(kind),
{
    reveal_strlit("newFlashblocks");
    reveal_strlit("pendingLogs");
    reveal_strlit("newFlashblockTransactions");
    reveal_strlit("pendingLogsBundle");
    assert("newFlashblocks"@.len() == 14);
    assert("pendingLogs"@.len() == 11);
    assert("newFlashblockTransactions"@.len() == 25);
    assert("pendingLogsBundle"@.len() == 17);
}

/// No Base-specific kind goes by the name of a standard one, so none is captured by the standard
/// kinds, although those are tried first.
pub proof fn law_base_names_are_not_standard(kind: BaseSubscriptionKind)
    ensures
        !is_standard_name(base_name(kind)),
{
    reveal_strlit("newFlashblocks");
    reveal_strlit("pendingLogs");
    reveal_strlit("newFlashblockTransactions");
    reveal_strlit("pendingLogsBundle");
    reveal_strlit("newHeads");
    reveal_strlit("logs");
    reveal_strlit("newPendingTransactions");
    reveal_strlit("syncing");
    reveal_strlit("transactionReceipts");
    assert("newFlashblocks"@.len() == 14);
    assert("pendingLogs"@.len() == 11);
    assert("newFlashblockTransactions"@.len() == 25);
    assert("pendingLogsBundle"@.len() == 17);
    assert("newHeads"@.len() == 8);
    assert("logs"@.len() == 4);
    assert("newPendingTransactions"@.len() == 22);
    assert("syncing"@.len() == 7);
    assert("transactionReceipts"@.len() == 19);
}

} // verus!
