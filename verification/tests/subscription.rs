//! Subscription kinds and their names on the wire.

use alloy_rpc_types_eth::pubsub::SubscriptionKind;
use flashblocks_pending::subscription::{BaseSubscriptionKind, ExtendedSubscriptionKind};

const BASE_KINDS: [(BaseSubscriptionKind, &str); 4] = [
    (BaseSubscriptionKind::NewFlashblocks, "newFlashblocks"),
    (BaseSubscriptionKind::PendingLogs, "pendingLogs"),
    (BaseSubscriptionKind::NewFlashblockTransactions, "newFlashblockTransactions"),
    (BaseSubscriptionKind::PendingLogsBundle, "pendingLogsBundle"),
];

const STANDARD_KINDS: [(SubscriptionKind, &str); 5] = [
    (SubscriptionKind::NewHeads, "newHeads"),
    (SubscriptionKind::Logs, "logs"),
    (SubscriptionKind::NewPendingTransactions, "newPendingTransactions"),
    (SubscriptionKind::Syncing, "syncing"),
    (SubscriptionKind::TransactionReceipts, "transactionReceipts"),
];

/// Decodes a JSON string.
fn decoded(json: &str) -> String {
    serde_json::from_str(json).expect("should be a JSON string")
}

#[test]
fn pending_logs_bundle_subscription_kind_wire_name() {
    let kind = BaseSubscriptionKind::from_wire_name(&decoded("\"pendingLogsBundle\""))
        .expect("wire name should deserialize");
    assert_eq!(kind, BaseSubscriptionKind::PendingLogsBundle);
    assert_eq!(
        serde_json::to_string(BaseSubscriptionKind::PendingLogsBundle.wire_name())
            .expect("serialization should succeed"),
        "\"pendingLogsBundle\""
    );
}

#[test]
fn pending_logs_bundle_routes_to_the_base_variant() {
    let kind = ExtendedSubscriptionKind::from_wire_name(&decoded("\"pendingLogsBundle\""))
        .expect("wire name should deserialize");
    assert_eq!(
        kind,
        ExtendedSubscriptionKind::Base(BaseSubscriptionKind::PendingLogsBundle),
        "pendingLogsBundle must not be captured by the standard variant"
    );
    assert!(kind.as_standard().is_none());
    assert!(kind.is_flashblocks());
}

#[test]
fn base_kinds_are_read_back_from_their_names() {
    for (kind, name) in BASE_KINDS {
        assert_eq!(kind.wire_name(), name);
        assert_eq!(BaseSubscriptionKind::from_wire_name(name), Some(kind));
        let extended = ExtendedSubscriptionKind::from(kind);
        assert_eq!(extended, ExtendedSubscriptionKind::Base(kind));
        assert_eq!(extended.wire_name(), name);
        assert_eq!(ExtendedSubscriptionKind::from_wire_name(name), Some(extended));
    }
}

#[test]
fn standard_kinds_are_read_back_from_their_names() {
    for (kind, name) in STANDARD_KINDS {
        let extended = ExtendedSubscriptionKind::from(kind);
        assert_eq!(extended, ExtendedSubscriptionKind::Standard(kind));
        assert_eq!(extended.wire_name(), name);
        assert_eq!(ExtendedSubscriptionKind::from_wire_name(name), Some(extended));
        assert_eq!(BaseSubscriptionKind::from_wire_name(name), None);
        assert_eq!(extended.as_standard(), Some(kind));
        assert!(!extended.is_flashblocks());
    }
}

#[test]
fn unknown_names_have_no_kind() {
    for name in ["", "NewHeads", "pendinglogs", "pendingLogsBundle ", "newFlashblock"] {
        assert_eq!(ExtendedSubscriptionKind::from_wire_name(name), None);
        assert_eq!(BaseSubscriptionKind::from_wire_name(name), None);
    }
}
