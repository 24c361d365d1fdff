//! Wire format of the subscription messages.

use alloy_consensus::transaction::Recovered;
use alloy_consensus::{Signed, TxEnvelope};
use alloy_primitives::{Bytes, Log as PrimitiveLog, LogData, Signature, TxKind};
use alloy_rpc_types_eth::{Log, Transaction};
use flashblocks_pending::messages::{
    transaction_fields, Bloom, Eip658Value, PendingLogsBundle, TransactionWithLogs,
};
use flashblocks_pending::primitives::{Address, B256};
use flashblocks_pending::wire::{Field, FieldName, WireError};

/// Assembles the JSON text of an object from its members.
fn object_text(fields: &[Field]) -> String {
    let members: Vec<String> = fields
        .iter()
        .map(|field| format!("{}:{}", serde_json::to_string(&field.name).unwrap(), field.value))
        .collect();
    format!("{{{}}}", members.join(","))
}

/// Parses the JSON text of an object.
fn parsed(fields: &[Field]) -> serde_json::Value {
    serde_json::from_str(&object_text(fields)).expect("members should make up an object")
}

/// Splits a JSON object into its members.
fn fields_of(value: &serde_json::Value) -> Vec<Field> {
    let object = value.as_object().expect("should be a JSON object");
    object
        .iter()
        .map(|(name, value)| Field { name: name.clone(), value: value.to_string() })
        .collect()
}

fn last_byte_address(byte: u8) -> Address {
    Address(alloy_primitives::Address::with_last_byte(byte).0 .0)
}

fn test_transaction() -> Transaction {
    let legacy = alloy_consensus::TxLegacy {
        chain_id: Some(1),
        nonce: 7,
        gas_price: 1_000_000_000,
        gas_limit: 21_000,
        to: TxKind::Call(alloy_primitives::Address::with_last_byte(0xBB)),
        value: alloy_primitives::U256::from(1_000_000u64),
        input: Bytes::new(),
    };
    let hash = alloy_primitives::B256::with_last_byte(0xAA);
    let envelope =
        TxEnvelope::Legacy(Signed::new_unchecked(legacy, Signature::test_signature(), hash));
    let from = alloy_primitives::Address::with_last_byte(0xCC);
    Transaction {
        inner: Recovered::new_unchecked(envelope, from),
        block_hash: Some(alloy_primitives::B256::ZERO),
        block_number: Some(42),
        block_timestamp: None,
        transaction_index: Some(3),
        effective_gas_price: Some(1_000_000_000),
    }
}

fn test_transaction_with_logs() -> TransactionWithLogs<Transaction> {
    let log = Log {
        inner: PrimitiveLog {
            address: alloy_primitives::Address::with_last_byte(0xDD),
            data: LogData::new_unchecked(
                vec![alloy_primitives::B256::with_last_byte(0xEE)],
                Bytes::from_static(&[0x01, 0x02]),
            ),
        },
        block_hash: Some(alloy_primitives::B256::ZERO),
        block_number: Some(42),
        block_timestamp: None,
        transaction_hash: Some(alloy_primitives::B256::with_last_byte(0xAA)),
        transaction_index: Some(3),
        log_index: Some(0),
        removed: false,
    };
    TransactionWithLogs {
        transaction: test_transaction(),
        logs: vec![log],
        gas_used: 21_000,
        status: Eip658Value::Eip658(true),
        cumulative_gas_used: 42_000,
        contract_address: Some(last_byte_address(0xEF)),
        logs_bloom: Bloom([0x11; 256]),
    }
}

fn message_fields(message: &TransactionWithLogs<Transaction>) -> Vec<Field> {
    let transaction = serde_json::to_value(&message.transaction).expect("should serialize");
    message.to_fields(fields_of(&transaction))
}

/// Reads the transaction of a message from the members that are left to it.
fn transaction_of(fields: &Vec<Field>) -> Transaction {
    serde_json::from_str(&object_text(&transaction_fields(fields))).expect("should deserialize")
}

#[test]
fn transaction_with_logs_json_format() {
    let twl = test_transaction_with_logs();
    let json = parsed(&message_fields(&twl));
    let obj = json.as_object().expect("should be a JSON object");

    assert!(obj.contains_key("logs"), "missing 'logs' field");
    assert!(obj.contains_key("gasUsed"), "missing 'gasUsed' field");
    assert!(obj.contains_key("status"), "missing 'status' field");
    assert!(obj.contains_key("cumulativeGasUsed"), "missing 'cumulativeGasUsed' field");
    assert!(obj.contains_key("contractAddress"), "missing 'contractAddress' field");
    assert!(obj.contains_key("logsBloom"), "missing 'logsBloom' field");
    assert!(obj.contains_key("nonce"), "missing flattened tx 'nonce' field");
    assert!(obj.contains_key("gasPrice"), "missing flattened tx 'gasPrice' field");
    assert!(obj.contains_key("hash"), "missing flattened tx 'hash' field");
    assert!(obj.contains_key("from"), "missing flattened tx 'from' field");
    assert!(obj.contains_key("to"), "missing flattened tx 'to' field");
    assert!(obj.contains_key("value"), "missing flattened tx 'value' field");
    assert!(obj.contains_key("blockNumber"), "missing flattened tx 'blockNumber' field");

    assert_eq!(obj["gasUsed"], "0x5208", "gasUsed should use receipt quantity encoding");
    assert_eq!(obj["status"], "0x1", "status should use receipt quantity encoding");
    assert_eq!(
        obj["cumulativeGasUsed"], "0xa410",
        "cumulativeGasUsed should use receipt quantity encoding"
    );
    assert_eq!(
        obj["contractAddress"],
        format!("{:#x}", alloy_primitives::Address::with_last_byte(0xEF)),
        "contractAddress should serialize as an address"
    );
    assert_eq!(
        obj["logsBloom"],
        format!("0x{}", "11".repeat(256)),
        "logsBloom should serialize as a bloom hex string"
    );

    let logs = obj["logs"].as_array().expect("logs should be an array");
    assert_eq!(logs.len(), 1);
    let log = logs[0].as_object().expect("log should be a JSON object");
    assert!(log.contains_key("address"), "log missing 'address' field");
    assert!(log.contains_key("topics"), "log missing 'topics' field");
    assert!(log.contains_key("data"), "log missing 'data' field");
    assert!(log.contains_key("transactionHash"), "log missing 'transactionHash' field");
}

#[test]
fn transaction_with_logs_json_roundtrip() {
    let original = test_transaction_with_logs();
    let json = parsed(&message_fields(&original));
    let fields = fields_of(&json);
    let deserialized = TransactionWithLogs::from_fields(transaction_of(&fields), &fields)
        .expect("deserialization should succeed");

    assert_eq!(original, deserialized);
}

#[test]
fn transaction_with_logs_json_string_contains_expected_fields() {
    let twl = test_transaction_with_logs();
    let json_str = object_text(&message_fields(&twl));

    assert!(
        json_str.contains("\"gasUsed\":\"0x5208\""),
        "JSON must contain gasUsed key with quantity encoding"
    );
    assert!(json_str.contains("\"status\":\"0x1\""), "JSON must contain status key");
    assert!(
        json_str.contains("\"cumulativeGasUsed\":\"0xa410\""),
        "JSON must contain cumulativeGasUsed key"
    );
    assert!(json_str.contains("\"contractAddress\""), "JSON must contain contractAddress key");
    assert!(json_str.contains("\"logsBloom\""), "JSON must contain logsBloom key");
    assert!(json_str.contains("\"logs\""), "JSON must contain logs key");
    assert!(json_str.contains("\"gasPrice\""), "JSON must contain gasPrice key");
    assert!(json_str.contains("\"nonce\""), "JSON must contain nonce key");
    assert!(json_str.contains("\"hash\""), "JSON must contain hash key");
    assert!(json_str.contains("\"from\""), "JSON must contain from key");
    assert!(json_str.contains("\"to\""), "JSON must contain to key");
    assert!(json_str.contains("\"blockNumber\""), "JSON must contain blockNumber key");
    assert!(json_str.contains("\"topics\""), "JSON must contain topics key in logs");
    assert!(json_str.contains("\"address\""), "JSON must contain address key in logs");
    assert!(
        json_str.contains("\"transactionHash\""),
        "JSON must contain transactionHash key in logs"
    );
}

#[test]
fn transaction_with_logs_contract_address_none_serialization() {
    let mut twl = test_transaction_with_logs();
    twl.contract_address = None;
    let json = parsed(&message_fields(&twl));
    let obj = json.as_object().expect("should be a JSON object");

    assert!(
        obj.contains_key("contractAddress"),
        "contractAddress key should be present even when None"
    );
    assert!(obj["contractAddress"].is_null(), "contractAddress should be null when None");
    assert_eq!(obj["gasUsed"], "0x5208", "gasUsed should remain a required quantity field");
    assert_eq!(obj["status"], "0x1", "status should remain a required receipt field");
    assert_eq!(
        obj["cumulativeGasUsed"], "0xa410",
        "cumulativeGasUsed should remain a required quantity field"
    );
    assert_eq!(
        obj["logsBloom"],
        format!("0x{}", "11".repeat(256)),
        "logsBloom should remain a required bloom field"
    );
}

fn test_log() -> Log {
    Log {
        inner: PrimitiveLog {
            address: alloy_primitives::Address::with_last_byte(0xAB),
            data: LogData::new_unchecked(
                vec![alloy_primitives::B256::with_last_byte(0x01)],
                Bytes::new(),
            ),
        },
        block_hash: Some(alloy_primitives::B256::with_last_byte(0x02)),
        block_number: Some(0x64),
        block_timestamp: Some(0xC8),
        transaction_hash: Some(alloy_primitives::B256::with_last_byte(0x03)),
        transaction_index: Some(0),
        log_index: Some(0),
        removed: false,
    }
}

fn test_pending_logs_bundle() -> PendingLogsBundle {
    PendingLogsBundle {
        block_number: 0x64,
        block_timestamp: 0xC8,
        flashblock_index: 7,
        pending_tx_count: 0x2a,
        logs: vec![test_log()],
    }
}

#[test]
fn pending_logs_bundle_json_format() {
    let bundle = test_pending_logs_bundle();
    let json = parsed(&bundle.to_fields());
    let obj = json.as_object().expect("should be a JSON object");

    assert_eq!(obj["blockNumber"], "0x64", "blockNumber should use quantity encoding");
    assert_eq!(obj["blockTimestamp"], "0xc8", "blockTimestamp should use quantity encoding");
    assert_eq!(obj["flashblockIndex"], "0x7", "flashblockIndex should use quantity encoding");
    assert_eq!(obj["pendingTxCount"], "0x2a", "pendingTxCount should use quantity encoding");

    let logs = obj["logs"].as_array().expect("logs should be an array");
    assert_eq!(logs.len(), 1);
}

#[test]
fn pending_logs_bundle_json_roundtrip() {
    let original = test_pending_logs_bundle();
    let json = parsed(&original.to_fields());
    let deserialized =
        PendingLogsBundle::from_fields(&fields_of(&json)).expect("deserialization should succeed");

    assert_eq!(original, deserialized);
}

#[test]
fn pending_logs_bundle_keeps_empty_logs() {
    let mut bundle = test_pending_logs_bundle();
    bundle.logs.clear();
    let json = parsed(&bundle.to_fields());
    let obj = json.as_object().expect("should be a JSON object");

    assert!(obj.contains_key("logs"), "logs key should be present when empty");
    assert_eq!(obj["logs"].as_array().expect("logs should be an array").len(), 0);
}

#[test]
fn quantities_have_no_leading_zeros() {
    let mut bundle = test_pending_logs_bundle();
    bundle.block_number = 0;
    bundle.block_timestamp = u64::MAX;
    bundle.flashblock_index = 16;
    bundle.pending_tx_count = 0x0123_4567_89ab_cdef;
    let fields = bundle.to_fields();
    let values: Vec<&str> = fields.iter().map(|field| field.value.as_str()).collect();
    assert_eq!(
        values[..4],
        ["\"0x0\"", "\"0xffffffffffffffff\"", "\"0x10\"", "\"0x123456789abcdef\""]
    );
    assert_eq!(PendingLogsBundle::from_fields(&fields), Ok(bundle));
}

#[test]
fn members_stand_in_declaration_order() {
    let names: Vec<String> =
        test_pending_logs_bundle().to_fields().into_iter().map(|field| field.name).collect();
    assert_eq!(
        names,
        ["blockNumber", "blockTimestamp", "flashblockIndex", "pendingTxCount", "logs"]
    );
    let names: Vec<String> = test_transaction_with_logs()
        .to_fields(vec![])
        .into_iter()
        .map(|field| field.name)
        .collect();
    assert_eq!(
        names,
        ["logs", "gasUsed", "status", "cumulativeGasUsed", "contractAddress", "logsBloom"]
    );
}

#[test]
fn bundle_is_read_from_its_values_alone() {
    let bundle = test_pending_logs_bundle();
    let values: Vec<String> = bundle.to_fields().into_iter().map(|field| field.value).collect();
    let named = PendingLogsBundle::named_fields(values.clone()).expect("all values are there");
    assert_eq!(named, bundle.to_fields());
    assert_eq!(PendingLogsBundle::from_fields(&named), Ok(bundle));
    assert_eq!(PendingLogsBundle::named_fields(values[..4].to_vec()), None);
}

#[test]
fn unknown_members_are_ignored() {
    let bundle = test_pending_logs_bundle();
    let mut fields = bundle.to_fields();
    fields.insert(2, Field { name: "extra".to_string(), value: "1".to_string() });
    assert_eq!(PendingLogsBundle::from_fields(&fields), Ok(bundle));
}

#[test]
fn missing_member_is_reported() {
    let mut fields = test_pending_logs_bundle().to_fields();
    fields.remove(3);
    assert_eq!(
        PendingLogsBundle::from_fields(&fields),
        Err(WireError::Missing(FieldName::PendingTxCount))
    );
    fields.remove(3);
    fields.remove(0);
    assert_eq!(
        PendingLogsBundle::from_fields(&fields),
        Err(WireError::Missing(FieldName::BlockNumber))
    );
}

#[test]
fn duplicate_member_is_reported() {
    let mut fields = test_pending_logs_bundle().to_fields();
    let again = fields[1].clone();
    fields.push(again);
    assert_eq!(
        PendingLogsBundle::from_fields(&fields),
        Err(WireError::Duplicate(FieldName::BlockTimestamp))
    );
}

#[test]
fn unreadable_member_is_reported() {
    let mut fields = test_pending_logs_bundle().to_fields();
    fields[2].value = "null".to_string();
    assert_eq!(
        PendingLogsBundle::from_fields(&fields),
        Err(WireError::Invalid(FieldName::FlashblockIndex))
    );
    let mut fields = test_pending_logs_bundle().to_fields();
    fields[4].value = "[{}]".to_string();
    assert_eq!(
        PendingLogsBundle::from_fields(&fields),
        Err(WireError::Invalid(FieldName::Logs))
    );
}

#[test]
fn failed_status_and_post_state_roots_are_read_back() {
    let mut twl = test_transaction_with_logs();
    twl.status = Eip658Value::Eip658(false);
    let fields = message_fields(&twl);
    assert_eq!(parsed(&fields)["status"], "0x0");
    assert_eq!(TransactionWithLogs::from_fields(twl.transaction.clone(), &fields), Ok(twl.clone()));

    twl.status = Eip658Value::PostState(B256([0x01; 32]));
    let fields = message_fields(&twl);
    let json = parsed(&fields);
    assert_eq!(json["root"], format!("0x{}", "01".repeat(32)));
    assert!(json.get("status").is_none());
    assert_eq!(TransactionWithLogs::from_fields(twl.transaction.clone(), &fields), Ok(twl));
}

#[test]
fn status_is_preferred_to_root() {
    let twl = test_transaction_with_logs();
    let mut fields = message_fields(&twl);
    let root = Field { name: "root".to_string(), value: format!("\"0x{}\"", "01".repeat(32)) };
    fields.insert(0, root);
    let read = TransactionWithLogs::from_fields((), &fields).expect("should be readable");
    assert_eq!(read.status, Eip658Value::Eip658(true));

    for field in fields.iter_mut() {
        if field.name == "status" {
            field.value = "\"0x7\"".to_string();
        }
    }
    let read = TransactionWithLogs::from_fields((), &fields).expect("should be readable");
    assert_eq!(read.status, Eip658Value::PostState(B256([0x01; 32])));

    fields.remove(0);
    assert_eq!(
        TransactionWithLogs::from_fields((), &fields),
        Err(WireError::Invalid(FieldName::Status))
    );
}

#[test]
fn contract_address_may_be_absent() {
    let mut twl = test_transaction_with_logs();
    let mut fields = message_fields(&twl);
    fields.retain(|field| field.name != "contractAddress");
    twl.contract_address = None;
    assert_eq!(TransactionWithLogs::from_fields(twl.transaction.clone(), &fields), Ok(twl));

    let value = "\"0x01\"".to_string();
    fields.push(Field { name: "contractAddress".to_string(), value });
    assert_eq!(
        TransactionWithLogs::from_fields((), &fields),
        Err(WireError::Invalid(FieldName::ContractAddress))
    );
}

#[test]
fn bloom_is_required() {
    let twl = test_transaction_with_logs();
    let mut fields = message_fields(&twl);
    let bloom = fields.pop().expect("the bloom comes last");
    assert_eq!(bloom.name, "logsBloom");
    assert_eq!(
        TransactionWithLogs::from_fields((), &fields),
        Err(WireError::Missing(FieldName::LogsBloom))
    );
    fields.push(Field { name: bloom.name, value: "\"0x11\"".to_string() });
    assert_eq!(
        TransactionWithLogs::from_fields((), &fields),
        Err(WireError::Invalid(FieldName::LogsBloom))
    );
}

#[test]
fn transaction_members_are_left_to_the_transaction() {
    let twl = test_transaction_with_logs();
    let transaction = fields_of(&serde_json::to_value(&twl.transaction).unwrap());
    let mut expected = transaction.clone();
    expected.push(Field { name: "status".to_string(), value: "\"0x1\"".to_string() });
    assert_eq!(transaction_fields(&twl.to_fields(transaction)), expected);
}
