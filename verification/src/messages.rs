//! Messages of the flashblocks subscriptions, and the JSON objects they are sent as.

use alloy_rpc_types_eth::Log;
use vstd::prelude::*;

use crate::primitives::{Address, B256};
use crate::wire::{
    bytes_from_json, bytes_json, bytes_text, find, flag_from_json, flag_json,
    lemma_names_are_distinct, lemma_no_value, lemma_one_value, logs_field, logs_json, logs_of,
    logs_text, members, name_text, quantity_field, quantity_json, quantity_of, quantity_text,
    read_bytes, read_flag, value_of, values, Field, FieldName, WireError,
};

verus! {

/// One flashblock's worth of logs matching a filter, delivered as a single message.
///
/// A message for each log would leave the client inferring where one flashblock ends and the next
/// begins. The node already knows, so it says so. The header fields identify which revision of the
/// pending block the logs came from.
#[derive(Clone, Debug, PartialEq, Eq)]
pub struct PendingLogsBundle {
    /// Number of the pending block these logs belong to.
    pub block_number: u64,
    /// Timestamp of the pending block these logs belong to.
    pub block_timestamp: u64,
    /// Index of the flashblock within the pending block.
    pub flashblock_index: u64,
    /// Transactions in the pending block up to and including this flashblock.
    ///
    /// Monotonic within a block, so a consumer can tell whether the state it is about to simulate
    /// against has moved past the logs that prompted it.
    pub pending_tx_count: u64,
    /// Logs from this flashblock matching the subscription filter. Empty is a real answer: the
    /// flashblock arrived and contained nothing of interest, which is not the same as no
    /// flashblock arriving.
    pub logs: Vec<Log>,
}

/// A bundle of pending logs as a mathematical value.
pub struct PendingLogsBundleView {
    /// Number of the pending block.
    pub block_number: u64,
    /// Timestamp of the pending block.
    pub block_timestamp: u64,
    /// Index of the flashblock.
    pub flashblock_index: u64,
    /// Transactions up to and including this flashblock.
    pub pending_tx_count: u64,
    /// Logs of this flashblock.
    pub logs: Seq<Log>,
}

impl View for PendingLogsBundle {
    type V = PendingLogsBundleView;

    open spec fn view(&self) -> PendingLogsBundleView {
        PendingLogsBundleView {
            block_number: self.block_number,
            block_timestamp: self.block_timestamp,
            flashblock_index: self.flashblock_index,
            pending_tx_count: self.pending_tx_count,
            logs: self.logs@,
        }
    }
}

/// The members of the object that a bundle is sent as. All are there, whatever the values.
pub open spec fn bundle_members(bundle: PendingLogsBundleView) -> Seq<(Seq<char>, Seq<char>)> {
    seq![
        (name_text(FieldName::BlockNumber), quantity_text(bundle.block_number as nat)),
        (name_text(FieldName::BlockTimestamp), quantity_text(bundle.block_timestamp as nat)),
        (name_text(FieldName::FlashblockIndex), quantity_text(bundle.flashblock_index as nat)),
        (name_text(FieldName::PendingTxCount), quantity_text(bundle.pending_tx_count as nat)),
        (name_text(FieldName::Logs), logs_text(bundle.logs)),
    ]
}

/// The bundle that the members of an object make up. Members with other names do not count. Of
/// several faults the first one in the order of the fields is reported.
pub open spec fn bundle_of(members: Seq<(Seq<char>, Seq<char>)>) -> Result<
    PendingLogsBundleView,
    WireError,
> {
    match quantity_of(members, FieldName::BlockNumber) {
        Ok(block_number) => match quantity_of(members, FieldName::BlockTimestamp) {
            Ok(block_timestamp) => match quantity_of(members, FieldName::FlashblockIndex) {
                Ok(flashblock_index) => match quantity_of(members, FieldName::PendingTxCount) {
                    Ok(pending_tx_count) => match logs_of(members) {
                        Ok(logs) => Ok(
                            PendingLogsBundleView {
                                block_number,
                                block_timestamp,
                                flashblock_index,
                                pending_tx_count,
                                logs,
                            },
                        ),
                        Err(error) => Err(error),
                    },
                    Err(error) => Err(error),
                },
                Err(error) => Err(error),
            },
            Err(error) => Err(error),
        },
        Err(error) => Err(error),
    }
}

impl PendingLogsBundle {
    /// The members of the object that the bundle is sent as.
    pub fn to_fields(&self) -> (fields: Vec<Field>)
        ensures
            members(fields@) == bundle_members(self@),
            self.logs@.len() == 0 ==> members(fields@).last() == (
                name_text(FieldName::Logs),
                seq!['[', ']'],
            ),
    {
        let mut fields: Vec<Field> = Vec::new();
        fields.push(FieldName::BlockNumber.with(quantity_json(self.block_number)));
        fields.push(FieldName::BlockTimestamp.with(quantity_json(self.block_timestamp)));
        fields.push(FieldName::FlashblockIndex.with(quantity_json(self.flashblock_index)));
        fields.push(FieldName::PendingTxCount.with(quantity_json(self.pending_tx_count)));
        fields.push(FieldName::Logs.with(logs_json(&self.logs)));
        assert(members(fields@) =~= bundle_members(self@));
        fields
    }

    /// The members that the values of an array stand for. A bundle is also read from the values
    /// alone, all of them and in the order of the fields.
    pub fn named_fields(values: Vec<String>) -> (fields: Option<Vec<Field>>)
        ensures
            fields is Some <==> values@.len() == 5,
            fields matches Some(named) ==> members(named@) == Seq::new(
                5,
                |i: int| (name_text(bundle_name(i)), values@[i]@),
            ),
    {
        if values.len() != 5 {
            return None;
        }
        let mut fields: Vec<Field> = Vec::new();
        fields.push(FieldName::BlockNumber.with(values[0].clone()));
        fields.push(FieldName::BlockTimestamp.with(values[1].clone()));
        fields.push(FieldName::FlashblockIndex.with(values[2].clone()));
        fields.push(FieldName::PendingTxCount.with(values[3].clone()));
        fields.push(FieldName::Logs.with(values[4].clone()));
        assert(members(fields@) =~= Seq::new(
            5,
            |i: int| (name_text(bundle_name(i)), values@[i]@),
        ));
        Some(fields)
    }

    /// The bundle that the members of an object make up. What [`Self::to_fields`] wrote is read
    /// back unchanged.
    pub fn from_fields(fields: &Vec<Field>) -> (bundle: Result<PendingLogsBundle, WireError>)
        ensures
            match bundle {
                Ok(found) => bundle_of(members(fields@)) == Ok::<_, WireError>(found@),
                Err(error) => bundle_of(members(fields@)) == Err::<PendingLogsBundleView, _>(error),
            },
            forall|written: PendingLogsBundleView|
                members(fields@) == #[trigger] bundle_members(written) ==> bundle is Ok
                    && bundle->Ok_0@ == written,
            forall|written: PendingLogsBundleView| #[trigger]
                written_bundle(members(fields@), written) ==> bundle is Ok && bundle->Ok_0@
                    == written,
    {
        proof {
            assert forall|written: PendingLogsBundleView|
                members(fields@) == #[trigger] bundle_members(written) implies written_bundle(
                members(fields@),
                written,
            ) by {
                law_bundle_has_every_member(written);
            }
        }
        let block_number = match quantity_field(fields, FieldName::BlockNumber) {
            Ok(value) => value,
            Err(error) => return Err(error),
        };
        let block_timestamp = match quantity_field(fields, FieldName::BlockTimestamp) {
            Ok(value) => value,
            Err(error) => return Err(error),
        };
        let flashblock_index = match quantity_field(fields, FieldName::FlashblockIndex) {
            Ok(value) => value,
            Err(error) => return Err(error),
        };
        let pending_tx_count = match quantity_field(fields, FieldName::PendingTxCount) {
            Ok(value) => value,
            Err(error) => return Err(error),
        };
        let logs = match logs_field(fields) {
            Ok(logs) => logs,
            Err(error) => return Err(error),
        };
        Ok(
            PendingLogsBundle {
                block_number,
                block_timestamp,
                flashblock_index,
                pending_tx_count,
                logs,
            },
        )
    }
}

/// Every member of a bundle has one value, the one that was written.
pub open spec fn written_bundle(
    members: Seq<(Seq<char>, Seq<char>)>,
    bundle: PendingLogsBundleView,
) -> bool {
    &&& values(members, name_text(FieldName::BlockNumber)) == seq![
        quantity_text(bundle.block_number as nat),
    ]
    &&& values(members, name_text(FieldName::BlockTimestamp)) == seq![
        quantity_text(bundle.block_timestamp as nat),
    ]
    &&& values(members, name_text(FieldName::FlashblockIndex)) == seq![
        quantity_text(bundle.flashblock_index as nat),
    ]
    &&& values(members, name_text(FieldName::PendingTxCount)) == seq![
        quantity_text(bundle.pending_tx_count as nat),
    ]
    &&& values(members, name_text(FieldName::Logs)) == seq![logs_text(bundle.logs)]
}

/// The name of the member at each position of a bundle.
pub open spec fn bundle_name(at: int) -> FieldName {
    if at == 0 {
        FieldName::BlockNumber
    } else if at == 1 {
        FieldName::BlockTimestamp
    } else if at == 2 {
        FieldName::FlashblockIndex
    } else if at == 3 {
        FieldName::PendingTxCount
    } else {
        FieldName::Logs
    }
}

/// The object that a bundle is sent as has every member exactly once, whatever the values. In
/// particular the logs are there when there are none.
pub proof fn law_bundle_has_every_member(bundle: PendingLogsBundleView)
    ensures
        written_bundle(bundle_members(bundle), bundle),
{
    let list = bundle_members(bundle);
    assert forall|at: int| 0 <= at < 5 implies values(list, name_text(#[trigger] bundle_name(at)))
        == seq![list[at].1] by {
        assert(list[at].0 == name_text(bundle_name(at)));
        assert forall|i: int| 0 <= i < list.len() && i != at implies (#[trigger] list[i]).0
            != name_text(bundle_name(at)) by {
            assert(list[i].0 == name_text(bundle_name(i)));
            if name_text(bundle_name(i)) == name_text(bundle_name(at)) {
                lemma_names_are_distinct(bundle_name(i), bundle_name(at));
            }
        }
        lemma_one_value(list, name_text(bundle_name(at)), at);
    }
    assert(bundle_name(0) == FieldName::BlockNumber);
    assert(bundle_name(1) == FieldName::BlockTimestamp);
    assert(bundle_name(2) == FieldName::FlashblockIndex);
    assert(bundle_name(3) == FieldName::PendingTxCount);
    assert(bundle_name(4) == FieldName::Logs);
}

/// Naming the values of a bundle gives its members back, so a bundle is read from its values as
/// from its members.
pub proof fn law_bundle_values_name_its_members(bundle: PendingLogsBundleView)
    ensures
        bundle_members(bundle) == Seq::new(
            5,
            |i: int| (name_text(bundle_name(i)), bundle_members(bundle)[i].1),
        ),
{
    assert(bundle_members(bundle) =~= Seq::new(
        5,
        |i: int| (name_text(bundle_name(i)), bundle_members(bundle)[i].1),
    ));
}

/// A 2048-bit bloom filter over logs.
#[derive(Clone, Copy, Debug, PartialEq, Eq)]
pub struct Bloom(pub [u8; 256]);

/// The outcome of a transaction.
#[derive(Clone, Copy, Debug, PartialEq, Eq)]
pub enum Eip658Value {
    /// Whether the transaction succeeded.
    Eip658(bool),
    /// State root after the transaction, as older receipts hold it.
    PostState(B256),
}

/// The outcome of a transaction as a mathematical value.
pub enum StatusView {
    /// Whether the transaction succeeded.
    Eip658(bool),
    /// State root after the transaction.
    PostState(Seq<u8>),
}

impl View for Eip658Value {
    type V = StatusView;

    open spec fn view(&self) -> StatusView {
        match *self {
            Eip658Value::Eip658(success) => StatusView::Eip658(success),
            Eip658Value::PostState(root) => StatusView::PostState(root@),
        }
    }
}

/// A full transaction object with its associated logs and receipt-equivalent fields.
///
/// This is returned by the `newFlashblockTransactions` subscription when full objects are asked for
/// or a log filter is provided, giving the transaction details, the logs emitted by its execution,
/// and receipt-derived fields already available from flashblock execution.
#[derive(Clone, Debug, PartialEq, Eq)]
pub struct TransactionWithLogs<T> {
    /// The full transaction object.
    pub transaction: T,
    /// Logs emitted by this transaction.
    pub logs: Vec<Log>,
    /// Gas consumed by this transaction's execution.
    pub gas_used: u64,
    /// Status of the transaction, sent the same way as in a receipt.
    pub status: Eip658Value,
    /// Cumulative gas used in the block up to and including this transaction.
    pub cumulative_gas_used: u64,
    /// Contract address created, if this was a contract creation transaction.
    pub contract_address: Option<Address>,
    /// Bloom filter for all logs emitted by this transaction.
    pub logs_bloom: Bloom,
}

/// The receipt-equivalent part of a transaction message as a mathematical value.
pub struct ReceiptView {
    /// Logs emitted.
    pub logs: Seq<Log>,
    /// Gas consumed.
    pub gas_used: u64,
    /// Outcome.
    pub status: StatusView,
    /// Cumulative gas used.
    pub cumulative_gas_used: u64,
    /// Contract address created.
    pub contract_address: Option<Seq<u8>>,
    /// Bloom filter for all logs.
    pub logs_bloom: Seq<u8>,
}

impl<T> TransactionWithLogs<T> {
    /// The receipt-equivalent part.
    pub open spec fn receipt(&self) -> ReceiptView {
        ReceiptView {
            logs: self.logs@,
            gas_used: self.gas_used,
            status: self.status@,
            cumulative_gas_used: self.cumulative_gas_used,
            contract_address: match self.contract_address {
                Some(address) => Some(address@),
                None => None,
            },
            logs_bloom: self.logs_bloom.0@,
        }
    }
}

/// The member that an outcome is sent as: `status` with one or zero, or `root` with the state root.
pub open spec fn status_member(status: StatusView) -> (Seq<char>, Seq<char>) {
    match status {
        StatusView::Eip658(success) => (
            name_text(FieldName::Status),
            quantity_text(if success { 1 } else { 0 }),
        ),
        StatusView::PostState(root) => (name_text(FieldName::Root), bytes_text(root)),
    }
}

/// The JSON text of an optional address: `null`, or a hexadecimal string.
pub open spec fn address_text(address: Option<Seq<u8>>) -> Seq<char> {
    match address {
        Some(bytes) => bytes_text(bytes),
        None => "null"@,
    }
}

/// The members that the receipt-equivalent part is sent as. All are there, whatever the values.
pub open spec fn receipt_members(receipt: ReceiptView) -> Seq<(Seq<char>, Seq<char>)> {
    seq![
        (name_text(FieldName::Logs), logs_text(receipt.logs)),
        (name_text(FieldName::GasUsed), quantity_text(receipt.gas_used as nat)),
        status_member(receipt.status),
        (
            name_text(FieldName::CumulativeGasUsed),
            quantity_text(receipt.cumulative_gas_used as nat),
        ),
        (name_text(FieldName::ContractAddress), address_text(receipt.contract_address)),
        (name_text(FieldName::LogsBloom), bytes_text(receipt.logs_bloom)),
    ]
}

/// The outcome that the members of an object hold. A readable `status` is preferred; otherwise a
/// readable `root` counts.
pub open spec fn status_of(members: Seq<(Seq<char>, Seq<char>)>) -> Result<StatusView, WireError> {
    match flag_of(members) {
        Some(success) => Ok(StatusView::Eip658(success)),
        None => match root_of(members) {
            Some(root) => Ok(StatusView::PostState(root)),
            None => Err(WireError::Invalid(FieldName::Status)),
        },
    }
}

/// The flag that a sole member `status` holds, if it is readable.
pub open spec fn flag_of(members: Seq<(Seq<char>, Seq<char>)>) -> Option<bool> {
    match value_of(members, FieldName::Status) {
        Ok(Some(text)) => read_flag(text),
        _ => None,
    }
}

/// The state root that a sole member `root` holds, if it is readable.
pub open spec fn root_of(members: Seq<(Seq<char>, Seq<char>)>) -> Option<Seq<u8>> {
    match value_of(members, FieldName::Root) {
        Ok(Some(text)) => read_bytes(text, 32),
        _ => None,
    }
}

/// The address that the member `contractAddress` holds. Without the member, and where it is `null`,
/// there is none.
pub open spec fn address_of(members: Seq<(Seq<char>, Seq<char>)>) -> Result<
    Option<Seq<u8>>,
    WireError,
> {
    match value_of(members, FieldName::ContractAddress) {
        Ok(Some(text)) => if text == "null"@ {
            Ok(None)
        } else {
            match read_bytes(text, 20) {
                Some(bytes) => Ok(Some(bytes)),
                None => Err(WireError::Invalid(FieldName::ContractAddress)),
            }
        },
        Ok(None) => Ok(None),
        Err(error) => Err(error),
    }
}

/// The bloom filter that the member `logsBloom` holds.
pub open spec fn bloom_of(members: Seq<(Seq<char>, Seq<char>)>) -> Result<Seq<u8>, WireError> {
    match value_of(members, FieldName::LogsBloom) {
        Ok(Some(text)) => match read_bytes(text, 256) {
            Some(bytes) => Ok(bytes),
            None => Err(WireError::Invalid(FieldName::LogsBloom)),
        },
        Ok(None) => Err(WireError::Missing(FieldName::LogsBloom)),
        Err(error) => Err(error),
    }
}

/// The receipt-equivalent part that the members of an object make up. Members with other names do
/// not count. Of several faults the first one in the order of the fields is reported.
pub open spec fn receipt_of(members: Seq<(Seq<char>, Seq<char>)>) -> Result<
    ReceiptView,
    WireError,
> {
    match logs_of(members) {
        Ok(logs) => match quantity_of(members, FieldName::GasUsed) {
            Ok(gas_used) => match status_of(members) {
                Ok(status) => match quantity_of(members, FieldName::CumulativeGasUsed) {
                    Ok(cumulative_gas_used) => match address_of(members) {
                        Ok(contract_address) => match bloom_of(members) {
                            Ok(logs_bloom) => Ok(
                                ReceiptView {
                                    logs,
                                    gas_used,
                                    status,
                                    cumulative_gas_used,
                                    contract_address,
                                    logs_bloom,
                                },
                            ),
                            Err(error) => Err(error),
                        },
                        Err(error) => Err(error),
                    },
                    Err(error) => Err(error),
                },
                Err(error) => Err(error),
            },
            Err(error) => Err(error),
        },
        Err(error) => Err(error),
    }
}

/// The names that belong to the receipt-equivalent part alone. The outcome shares the object's
/// other names with the transaction.
pub open spec fn is_receipt_name(name: Seq<char>) -> bool {
    ||| name == name_text(FieldName::Logs)
    ||| name == name_text(FieldName::GasUsed)
    ||| name == name_text(FieldName::CumulativeGasUsed)
    ||| name == name_text(FieldName::ContractAddress)
    ||| name == name_text(FieldName::LogsBloom)
}

/// The names that the members of a transaction must leave to the receipt-equivalent part.
pub open spec fn is_reserved_name(name: Seq<char>) -> bool {
    ||| is_receipt_name(name)
    ||| name == name_text(FieldName::Status)
    ||| name == name_text(FieldName::Root)
}

/// The byte strings have the widths of a hash, an address and a bloom filter.
pub open spec fn has_widths(receipt: ReceiptView) -> bool {
    &&& receipt.status matches StatusView::PostState(root) ==> root.len() == 32
    &&& receipt.contract_address matches Some(address) ==> address.len() == 20
    &&& receipt.logs_bloom.len() == 256
}

/// `list` is what was written for a transaction with the given members and a receipt-equivalent
/// part.
pub open spec fn is_written(
    list: Seq<(Seq<char>, Seq<char>)>,
    transaction: Seq<(Seq<char>, Seq<char>)>,
    receipt: ReceiptView,
) -> bool {
    &&& has_widths(receipt)
    &&& leaves_receipt_names(transaction)
    &&& list == transaction + receipt_members(receipt)
}

/// None of the members of a transaction has a reserved name.
pub open spec fn leaves_receipt_names(transaction: Seq<(Seq<char>, Seq<char>)>) -> bool {
    forall|i: int| 0 <= i < transaction.len() ==> !is_reserved_name((#[trigger] transaction[i]).0)
}

/// Every member of a receipt-equivalent part has one value, the one that was written.
pub open spec fn written_receipt(
    members: Seq<(Seq<char>, Seq<char>)>,
    receipt: ReceiptView,
) -> bool {
    &&& values(members, name_text(FieldName::Logs)) == seq![logs_text(receipt.logs)]
    &&& values(members, name_text(FieldName::GasUsed)) == seq![
        quantity_text(receipt.gas_used as nat),
    ]
    &&& receipt.status matches StatusView::Eip658(success) ==> values(
        members,
        name_text(FieldName::Status),
    ) == seq![quantity_text(if success { 1 } else { 0 })]
    &&& receipt.status matches StatusView::PostState(root) ==> values(
        members,
        name_text(FieldName::Status),
    ) == Seq::<Seq<char>>::empty() && values(members, name_text(FieldName::Root)) == seq![
        bytes_text(root),
    ]
    &&& values(members, name_text(FieldName::CumulativeGasUsed)) == seq![
        quantity_text(receipt.cumulative_gas_used as nat),
    ]
    &&& values(members, name_text(FieldName::ContractAddress)) == seq![
        address_text(receipt.contract_address),
    ]
    &&& values(members, name_text(FieldName::LogsBloom)) == seq![bytes_text(receipt.logs_bloom)]
}

/// The name of the member at each position of a receipt-equivalent part.
spec fn receipt_name(receipt: ReceiptView, at: int) -> FieldName {
    if at == 0 {
        FieldName::Logs
    } else if at == 1 {
        FieldName::GasUsed
    } else if at == 2 {
        if receipt.status is Eip658 {
            FieldName::Status
        } else {
            FieldName::Root
        }
    } else if at == 3 {
        FieldName::CumulativeGasUsed
    } else if at == 4 {
        FieldName::ContractAddress
    } else {
        FieldName::LogsBloom
    }
}

/// The object that a transaction message is sent as has every member of the receipt-equivalent part
/// exactly once, whatever the values. In particular the contract address is there when there is
/// none.
pub proof fn law_message_has_every_member(
    transaction: Seq<(Seq<char>, Seq<char>)>,
    receipt: ReceiptView,
)
    requires
        leaves_receipt_names(transaction),
    ensures
        written_receipt(transaction + receipt_members(receipt), receipt),
{
    let part = receipt_members(receipt);
    let list = transaction + part;
    let start = transaction.len() as int;
    assert forall|at: int| 0 <= at < 6 implies part[at].0 == name_text(
        #[trigger] receipt_name(receipt, at),
    ) by {}
    assert forall|i: int, name: FieldName|
        0 <= i < list.len() && #[trigger] list[i].0 == #[trigger] name_text(name)
            && is_reserved_name(name_text(name)) implies start <= i && name == receipt_name(
        receipt,
        i - start,
    ) by {
        if i < start {
            assert(list[i] == transaction[i]);
        } else {
            assert(list[i] == part[i - start]);
            lemma_names_are_distinct(receipt_name(receipt, i - start), name);
        }
    }
    assert forall|at: int| 0 <= at < 6 implies values(
        list,
        name_text(#[trigger] receipt_name(receipt, at)),
    ) == seq![part[at].1] by {
        let name = receipt_name(receipt, at);
        assert(list[start + at] == part[at]);
        assert forall|i: int| 0 <= i < list.len() && i != start + at implies (#[trigger] list[i]).0
            != name_text(name) by {
            if list[i].0 == name_text(name) {
                assert(receipt_name(receipt, i - start) == name);
            }
        }
        lemma_one_value(list, name_text(name), start + at);
    }
    if receipt.status is PostState {
        let name = FieldName::Status;
        assert forall|i: int| 0 <= i < list.len() implies (#[trigger] list[i]).0 != name_text(
            name,
        ) by {
            if list[i].0 == name_text(name) {
                assert(receipt_name(receipt, i - start) == name);
            }
        }
        lemma_no_value(list, name_text(name));
    }
    assert(receipt_name(receipt, 0) == FieldName::Logs);
    assert(receipt_name(receipt, 1) == FieldName::GasUsed);
    assert(receipt.status is Eip658 ==> receipt_name(receipt, 2) == FieldName::Status);
    assert(receipt.status is PostState ==> receipt_name(receipt, 2) == FieldName::Root);
    assert(receipt_name(receipt, 3) == FieldName::CumulativeGasUsed);
    assert(receipt_name(receipt, 4) == FieldName::ContractAddress);
    assert(receipt_name(receipt, 5) == FieldName::LogsBloom);
}

/// The member that an outcome is sent as.
fn status_field(status: &Eip658Value) -> (field: Field)
    ensures
        field@ == status_member(status@),
{
    match status {
        Eip658Value::Eip658(success) => FieldName::Status.with(flag_json(*success)),
        Eip658Value::PostState(root) => FieldName::Root.with(bytes_json(&root.0)),
    }
}

/// Reads the outcome that the members of an object hold.
fn read_status(fields: &Vec<Field>) -> (status: Result<Eip658Value, WireError>)
    ensures
        match status {
            Ok(found) => status_of(members(fields@)) == Ok::<_, WireError>(found@),
            Err(error) => status_of(members(fields@)) == Err::<StatusView, _>(error),
        },
        forall|receipt: ReceiptView|
            #[trigger] written_receipt(members(fields@), receipt) && has_widths(receipt)
                ==> status is Ok && status->Ok_0@ == receipt.status,
{
    let flag = match find(fields, FieldName::Status) {
        Ok(Some(text)) => flag_from_json(text.as_str()),
        _ => None,
    };
    if let Some(success) = flag {
        return Ok(Eip658Value::Eip658(success));
    }
    let root: Option<[u8; 32]> = match find(fields, FieldName::Root) {
        Ok(Some(text)) => bytes_from_json(text.as_str()),
        _ => None,
    };
    match root {
        Some(bytes) => Ok(Eip658Value::PostState(B256(bytes))),
        None => Err(WireError::Invalid(FieldName::Status)),
    }
}

/// Reads the address that the member `contractAddress` holds.
fn read_address(fields: &Vec<Field>) -> (address: Result<Option<Address>, WireError>)
    ensures
        match address {
            Ok(Some(found)) => address_of(members(fields@)) == Ok::<_, WireError>(Some(found@)),
            Ok(None) => address_of(members(fields@)) == Ok::<Option<Seq<u8>>, WireError>(None),
            Err(error) => address_of(members(fields@)) == Err::<Option<Seq<u8>>, _>(error),
        },
        forall|receipt: ReceiptView|
            #[trigger] written_receipt(members(fields@), receipt) && has_widths(receipt)
                ==> address is Ok && match address->Ok_0 {
                Some(found) => receipt.contract_address == Some(found@),
                None => receipt.contract_address is None,
            },
{
    proof {
        reveal_strlit("null");
        assert("null"@[0] == 'n');
        assert(forall|bytes: Seq<u8>| (#[trigger] bytes_text(bytes))[0] == '"');
    }
    match find(fields, FieldName::ContractAddress) {
        Ok(Some(text)) => if *text == "null".to_owned() {
            Ok(None)
        } else {
            match bytes_from_json(text.as_str()) {
                Some(bytes) => Ok(Some(Address(bytes))),
                None => Err(WireError::Invalid(FieldName::ContractAddress)),
            }
        },
        Ok(None) => Ok(None),
        Err(error) => Err(error),
    }
}

/// Reads the bloom filter that the member `logsBloom` holds.
fn read_bloom(fields: &Vec<Field>) -> (bloom: Result<Bloom, WireError>)
    ensures
        match bloom {
            Ok(found) => bloom_of(members(fields@)) == Ok::<_, WireError>(found.0@),
            Err(error) => bloom_of(members(fields@)) == Err::<Seq<u8>, _>(error),
        },
        forall|receipt: ReceiptView|
            #[trigger] written_receipt(members(fields@), receipt) && has_widths(receipt)
                ==> bloom is Ok && bloom->Ok_0.0@ == receipt.logs_bloom,
{
    match find(fields, FieldName::LogsBloom) {
        Ok(Some(text)) => match bytes_from_json(text.as_str()) {
            Some(bytes) => Ok(Bloom(bytes)),
            None => Err(WireError::Invalid(FieldName::LogsBloom)),
        },
        Ok(None) => Err(WireError::Missing(FieldName::LogsBloom)),
        Err(error) => Err(error),
    }
}

impl<T> TransactionWithLogs<T> {
    /// The members of the object that the message is sent as, given those of the transaction: the
    /// transaction's own members come first, unchanged.
    pub fn to_fields(&self, transaction: Vec<Field>) -> (fields: Vec<Field>)
        ensures
            members(fields@) == members(transaction@) + receipt_members(self.receipt()),
            leaves_receipt_names(members(transaction@)) ==> is_written(
                members(fields@),
                members(transaction@),
                self.receipt(),
            ),
    {
        let address = match &self.contract_address {
            Some(address) => bytes_json(&address.0),
            None => "null".to_owned(),
        };
        let ghost given = members(transaction@);
        let mut fields = transaction;
        fields.push(FieldName::Logs.with(logs_json(&self.logs)));
        fields.push(FieldName::GasUsed.with(quantity_json(self.gas_used)));
        fields.push(status_field(&self.status));
        fields.push(FieldName::CumulativeGasUsed.with(quantity_json(self.cumulative_gas_used)));
        fields.push(FieldName::ContractAddress.with(address));
        fields.push(FieldName::LogsBloom.with(bytes_json(&self.logs_bloom.0)));
        assert(members(fields@) =~= given + receipt_members(self.receipt()));
        fields
    }

    /// The message that the members of an object make up, given the transaction that was read from
    /// the members of [`transaction_fields`].
    pub fn from_fields(transaction: T, fields: &Vec<Field>) -> (message: Result<
        TransactionWithLogs<T>,
        WireError,
    >)
        ensures
            match message {
                Ok(found) => found.transaction == transaction && receipt_of(members(fields@))
                    == Ok::<_, WireError>(found.receipt()),
                Err(error) => receipt_of(members(fields@)) == Err::<ReceiptView, _>(error),
            },
            forall|written: Seq<(Seq<char>, Seq<char>)>, receipt: ReceiptView| #[trigger]
                is_written(members(fields@), written, receipt) ==> message is Ok
                    && message->Ok_0.receipt() == receipt,
            forall|receipt: ReceiptView| #[trigger]
                written_receipt(members(fields@), receipt) && has_widths(receipt) ==> message is Ok
                    && message->Ok_0.receipt() == receipt,
    {
        proof {
            assert forall|written: Seq<(Seq<char>, Seq<char>)>, receipt: ReceiptView| #[trigger]
                is_written(members(fields@), written, receipt) implies written_receipt(
                members(fields@),
                receipt,
            ) by {
                law_message_has_every_member(written, receipt);
            }
        }
        let logs = match logs_field(fields) {
            Ok(logs) => logs,
            Err(error) => return Err(error),
        };
        let gas_used = match quantity_field(fields, FieldName::GasUsed) {
            Ok(value) => value,
            Err(error) => return Err(error),
        };
        let status = match read_status(fields) {
            Ok(status) => status,
            Err(error) => return Err(error),
        };
        let cumulative_gas_used = match quantity_field(fields, FieldName::CumulativeGasUsed) {
            Ok(value) => value,
            Err(error) => return Err(error),
        };
        let contract_address = match read_address(fields) {
            Ok(address) => address,
            Err(error) => return Err(error),
        };
        let logs_bloom = match read_bloom(fields) {
            Ok(bloom) => bloom,
            Err(error) => return Err(error),
        };
        Ok(
            TransactionWithLogs {
                transaction,
                logs,
                gas_used,
                status,
                cumulative_gas_used,
                contract_address,
                logs_bloom,
            },
        )
    }
}

/// The members of an object that do not belong to the receipt-equivalent part alone, in order.
pub open spec fn transaction_members(list: Seq<(Seq<char>, Seq<char>)>) -> Seq<
    (Seq<char>, Seq<char>),
>
    decreases list.len(),
{
    if list.len() == 0 {
        Seq::empty()
    } else if is_receipt_name(list.last().0) {
        transaction_members(list.drop_last())
    } else {
        transaction_members(list.drop_last()).push(list.last())
    }
}

/// What is left to the transaction are the members with other names.
pub proof fn lemma_filtered_members(list: Seq<(Seq<char>, Seq<char>)>)
    ensures
        transaction_members(list) == list.filter(
            |member: (Seq<char>, Seq<char>)|
                member.0 != "logs"@ && member.0 != "gasUsed"@ && member.0 != "cumulativeGasUsed"@
                    && member.0 != "contractAddress"@ && member.0 != "logsBloom"@,
        ),
    decreases list.len(),
{
    reveal(Seq::filter);
    if list.len() > 0 {
        lemma_filtered_members(list.drop_last());
    }
}

/// Tells whether a name belongs to the receipt-equivalent part alone.
fn names_receipt(name: &String) -> (receipt: bool)
    ensures
        receipt <==> is_receipt_name(name@),
{
    *name == FieldName::Logs.text().to_owned() || *name == FieldName::GasUsed.text().to_owned()
        || *name == FieldName::CumulativeGasUsed.text().to_owned() || *name
        == FieldName::ContractAddress.text().to_owned() || *name
        == FieldName::LogsBloom.text().to_owned()
}

/// The members of an object that the transaction is read from: all but those that belong to the
/// receipt-equivalent part alone.
pub fn transaction_fields(fields: &Vec<Field>) -> (transaction: Vec<Field>)
    ensures
        members(transaction@) == transaction_members(members(fields@)),
{
    let ghost all = members(fields@);
    let mut transaction: Vec<Field> = Vec::new();
    let mut i: usize = 0;
    while i < fields.len()
        invariant
            i <= fields@.len(),
            all == members(fields@),
            members(transaction@) == transaction_members(all.take(i as int)),
        decreases fields@.len() - i,
    {
        let ghost before = transaction@;
        let field = &fields[i];
        assert(all.take(i + 1).drop_last() =~= all.take(i as int));
        assert(all.take(i + 1).last() == field@);
        if !names_receipt(&field.name) {
            transaction.push(Field { name: field.name.clone(), value: field.value.clone() });
            assert(members(transaction@) =~= members(before).push(field@));
        }
        i += 1;
    }
    assert(all.take(i as int) =~= all);
    transaction
}

/// The members of the transaction are found again, unchanged and in order, in what was written for
/// a message; only the outcome follows them.
pub proof fn law_transaction_members_are_read_back(
    list: Seq<(Seq<char>, Seq<char>)>,
    transaction: Seq<(Seq<char>, Seq<char>)>,
    receipt: ReceiptView,
)
    requires
        is_written(list, transaction, receipt),
    ensures
        transaction_members(list) == transaction.push(status_member(receipt.status)),
{
    let part = receipt_members(receipt);
    lemma_transaction_members(transaction);
    assert(!is_receipt_name(status_member(receipt.status).0)) by {
        let name = if receipt.status is Eip658 { FieldName::Status } else { FieldName::Root };
        assert forall|other: FieldName| #[trigger] name_text(other) == name_text(name) implies other
            == name by {
            lemma_names_are_distinct(other, name);
        }
    }
    let first = transaction.push(part[0]);
    let second = first.push(part[1]);
    let third = second.push(part[2]);
    let fourth = third.push(part[3]);
    let fifth = fourth.push(part[4]);
    assert(list =~= fifth.push(part[5]));
    assert(list.drop_last() =~= fifth);
    assert(fifth.drop_last() =~= fourth);
    assert(fourth.drop_last() =~= third);
    assert(third.drop_last() =~= second);
    assert(second.drop_last() =~= first);
    assert(first.drop_last() =~= transaction);
    assert(transaction_members(first) == transaction);
    assert(transaction_members(second) == transaction);
    assert(transaction_members(third) == transaction.push(part[2]));
    assert(transaction_members(fourth) == transaction_members(third));
    assert(transaction_members(fifth) == transaction_members(fourth));
}

proof fn lemma_transaction_members(transaction: Seq<(Seq<char>, Seq<char>)>)
    requires
        leaves_receipt_names(transaction),
    ensures
        transaction_members(transaction) == transaction,
    decreases transaction.len(),
{
    if transaction.len() > 0 {
        let init = transaction.drop_last();
        assert forall|i: int| 0 <= i < init.len() implies !is_reserved_name(
            (#[trigger] init[i]).0,
        ) by {
            assert(init[i] == transaction[i]);
        }
        lemma_transaction_members(init);
        assert(!is_reserved_name(transaction[transaction.len() - 1].0));
        assert(init.push(transaction.last()) =~= transaction);
    } else {
        assert(transaction =~= Seq::empty());
    }
}

} // verus!
