//! What the subscription kinds are called on the wire, and which kind a name means.

use alloy_rpc_types_eth::pubsub::SubscriptionKind;
use vstd::prelude::*;

use crate::subscription::{
    law_base_names_are_not_standard, law_base_names_are_read_back, standard_name,
    BaseSubscriptionKind, ExtendedSubscriptionKind,
};

verus! {

/// Each flashblocks-specific kind goes by its name.
pub proof fn law_base_kinds_go_by_their_names(kind: BaseSubscriptionKind, name: &'static str)
    requires
        call_ensures(BaseSubscriptionKind::wire_name, (&kind,), name),
    ensures
        kind is NewFlashblocks ==> name@ == "newFlashblocks"@,
        kind is PendingLogs ==> name@ == "pendingLogs"@,
        kind is NewFlashblockTransactions ==> name@ == "newFlashblockTransactions"@,
        kind is PendingLogsBundle ==> name@ == "pendingLogsBundle"@,
{
}

/// A name means the flashblocks-specific kind that goes by it, and any other name means none.
pub proof fn law_names_mean_base_kinds(name: &str, kind: Option<BaseSubscriptionKind>)
    requires
        call_ensures(BaseSubscriptionKind::from_wire_name, (name,), kind),
    ensures
        kind == Some(BaseSubscriptionKind::NewFlashblocks) <==> name@ == "newFlashblocks"@,
        kind == Some(BaseSubscriptionKind::PendingLogs) <==> name@ == "pendingLogs"@,
        kind == Some(BaseSubscriptionKind::NewFlashblockTransactions) <==> name@
            == "newFlashblockTransactions"@,
        kind == Some(BaseSubscriptionKind::PendingLogsBundle) <==> name@ == "pendingLogsBundle"@,
{
    law_base_names_are_read_back(BaseSubscriptionKind::NewFlashblocks);
    law_base_names_are_read_back(BaseSubscriptionKind::PendingLogs);
    law_base_names_are_read_back(BaseSubscriptionKind::NewFlashblockTransactions);
    law_base_names_are_read_back(BaseSubscriptionKind::PendingLogsBundle);
}

/// The names of the flashblocks-specific kinds mean those kinds among all kinds, and the names of
/// the standard kinds mean standard ones. No other name means a kind.
pub proof fn law_names_route_to_kinds(name: &str, kind: Option<ExtendedSubscriptionKind>)
    requires
        call_ensures(ExtendedSubscriptionKind::from_wire_name, (name,), kind),
    ensures
        name@ == "newFlashblocks"@ <==> kind == Some(
            ExtendedSubscriptionKind::Base(BaseSubscriptionKind::NewFlashblocks),
        ),
        name@ == "pendingLogs"@ <==> kind == Some(
            ExtendedSubscriptionKind::Base(BaseSubscriptionKind::PendingLogs),
        ),
        name@ == "newFlashblockTransactions"@ <==> kind == Some(
            ExtendedSubscriptionKind::Base(BaseSubscriptionKind::NewFlashblockTransactions),
        ),
        name@ == "pendingLogsBundle"@ <==> kind == Some(
            ExtendedSubscriptionKind::Base(BaseSubscriptionKind::PendingLogsBundle),
        ),
        (kind is Some && kind->0 is Standard) <==> (name@ == "newHeads"@ || name@ == "logs"@
            || name@ == "newPendingTransactions"@ || name@ == "syncing"@ || name@
            == "transactionReceipts"@),
        kind is Some && kind->0 is Standard ==> standard_name(kind->0->Standard_0) == name@,
{
    law_base_names_are_read_back(BaseSubscriptionKind::NewFlashblocks);
    law_base_names_are_read_back(BaseSubscriptionKind::PendingLogs);
    law_base_names_are_read_back(BaseSubscriptionKind::NewFlashblockTransactions);
    law_base_names_are_read_back(BaseSubscriptionKind::PendingLogsBundle);
    law_base_names_are_not_standard(BaseSubscriptionKind::NewFlashblocks);
    law_base_names_are_not_standard(BaseSubscriptionKind::PendingLogs);
    law_base_names_are_not_standard(BaseSubscriptionKind::NewFlashblockTransactions);
    law_base_names_are_not_standard(BaseSubscriptionKind::PendingLogsBundle);
}

/// A kind among all kinds goes by the same name as it does alone: a flashblocks-specific one by
/// its own, a standard one by one of the standard names.
pub proof fn law_kinds_keep_their_names(
    kind: ExtendedSubscriptionKind,
    name: String,
    base_name: &'static str,
)
    requires
        call_ensures(ExtendedSubscriptionKind::wire_name, (&kind,), name),
        kind is Base ==> call_ensures(
            BaseSubscriptionKind::wire_name,
            (&kind->Base_0,),
            base_name,
        ),
    ensures
        kind is Base ==> name@ == base_name@,
        kind is Standard ==> name@ == standard_name(kind->Standard_0),
        kind is Standard <==> (name@ == "newHeads"@ || name@ == "logs"@ || name@
            == "newPendingTransactions"@ || name@ == "syncing"@ || name@
            == "transactionReceipts"@),
{
}

/// Every kind is found again under its name.
pub proof fn law_kinds_are_found_by_their_names(
    kind: ExtendedSubscriptionKind,
    name: String,
    text: &str,
    found: Option<ExtendedSubscriptionKind>,
)
    requires
        call_ensures(ExtendedSubscriptionKind::wire_name, (&kind,), name),
        text@ == name@,
        call_ensures(ExtendedSubscriptionKind::from_wire_name, (text,), found),
    ensures
        found == Some(kind),
{
}

/// A standard kind is its own standard part and not flashblocks-specific; a flashblocks-specific
/// kind has no standard part.
pub proof fn law_standard_and_base_kinds_are_told_apart(
    kind: ExtendedSubscriptionKind,
    standard: Option<SubscriptionKind>,
    flashblocks: bool,
)
    requires
        call_ensures(ExtendedSubscriptionKind::as_standard, (&kind,), standard),
        call_ensures(ExtendedSubscriptionKind::is_flashblocks, (&kind,), flashblocks),
    ensures
        kind is Standard ==> standard == Some(kind->Standard_0) && !flashblocks,
        kind is Base ==> standard is None && flashblocks,
{
}

/// A kind of either sort becomes the kind among all kinds that it is.
pub proof fn law_kinds_convert_to_themselves(
    standard: SubscriptionKind,
    base: BaseSubscriptionKind,
    from_standard: ExtendedSubscriptionKind,
    from_base: ExtendedSubscriptionKind,
)
    requires
        call_ensures(
            <ExtendedSubscriptionKind as From<SubscriptionKind>>::from,
            (standard,),
            from_standard,
        ),
        call_ensures(
            <ExtendedSubscriptionKind as From<BaseSubscriptionKind>>::from,
            (base,),
            from_base,
        ),
    ensures
        from_standard == ExtendedSubscriptionKind::Standard(standard),
        from_base == ExtendedSubscriptionKind::Base(base),
{
}

} // verus!
