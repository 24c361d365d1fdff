//! What the subscription messages look like on the wire, member by member, and what is read from
//! them.

use alloy_rpc_types_eth::Log;
use vstd::prelude::*;

use crate::messages::{
    address_text, bundle_members, bundle_of, has_widths, is_reserved_name, lemma_filtered_members,
    receipt_members, receipt_of, transaction_fields, written_bundle, written_receipt, Bloom,
    Eip658Value, PendingLogsBundle, PendingLogsBundleView, ReceiptView, TransactionWithLogs,
};
use crate::primitives::Address;
use crate::wire::{
    bytes_text, lemma_no_value, lemma_one_value, logs_text, members, name_text, quantity_text,
    read_bytes, read_flag, read_logs, read_quantity, values, Field, FieldName, WireError,
};

verus! {

/// The field at `at` has the name, and no other field does.
pub open spec fn is_sole(fields: Seq<Field>, name: Seq<char>, at: int) -> bool {
    &&& 0 <= at < fields.len()
    &&& fields[at].name@ == name
    &&& forall|i: int| 0 <= i < fields.len() && i != at ==> (#[trigger] fields[i]).name@ != name
}

/// No field has the name.
pub open spec fn is_absent(fields: Seq<Field>, name: Seq<char>) -> bool {
    forall|i: int| 0 <= i < fields.len() ==> (#[trigger] fields[i]).name@ != name
}

/// Some field is the only one with the name, and its value reads as a quantity.
pub open spec fn has_quantity(fields: Seq<Field>, name: Seq<char>) -> bool {
    exists|at: int| #[trigger]
        is_sole(fields, name, at) && read_quantity(fields[at].value@) is Some
}

/// Some field is the only one with the name, and its value reads as logs.
pub open spec fn has_logs(fields: Seq<Field>, name: Seq<char>) -> bool {
    exists|at: int| #[trigger] is_sole(fields, name, at) && read_logs(fields[at].value@) is Some
}

/// Some field is the only one with the name, and its value reads as a flag.
pub open spec fn has_flag(fields: Seq<Field>, name: Seq<char>) -> bool {
    exists|at: int| #[trigger] is_sole(fields, name, at) && read_flag(fields[at].value@) is Some
}

/// Some field is the only one with the name, and its value reads as that many bytes.
pub open spec fn has_bytes(fields: Seq<Field>, name: Seq<char>, width: nat) -> bool {
    exists|at: int| #[trigger]
        is_sole(fields, name, at) && read_bytes(fields[at].value@, width) is Some
}

/// Some field is the only one with the name, and its value is `null`.
pub open spec fn has_null(fields: Seq<Field>, name: Seq<char>) -> bool {
    exists|at: int| #[trigger] is_sole(fields, name, at) && fields[at].value@ == "null"@
}

/// Of a name that several members have, two can be pointed out; of a name that has one value, the
/// only member.
proof fn lemma_values_count(list: Seq<(Seq<char>, Seq<char>)>, name: Seq<char>)
    ensures
        values(list, name).len() == 0 ==> forall|i: int|
            0 <= i < list.len() ==> (#[trigger] list[i]).0 != name,
        values(list, name).len() == 1 ==> exists|at: int|
            0 <= at < list.len() && (#[trigger] list[at]).0 == name && forall|i: int|
                0 <= i < list.len() && i != at ==> (#[trigger] list[i]).0 != name,
        values(list, name).len() > 1 ==> exists|i: int, j: int|
            0 <= i < j < list.len() && (#[trigger] list[i]).0 == name && (#[trigger] list[j]).0
                == name,
    decreases list.len(),
{
    if list.len() > 0 {
        let init = list.drop_last();
        let last = list.len() - 1;
        lemma_values_count(init, name);
        assert forall|i: int| 0 <= i < init.len() implies init[i] == #[trigger] list[i] by {}
        if list.last().0 == name {
            assert(list[last].0 == name);
            if values(init, name).len() == 1 {
                let at = choose|at: int|
                    0 <= at < init.len() && (#[trigger] init[at]).0 == name && forall|i: int|
                        0 <= i < init.len() && i != at ==> (#[trigger] init[i]).0 != name;
                assert(list[at].0 == name && list[last].0 == name);
            } else if values(init, name).len() > 1 {
                let (i, j) = choose|i: int, j: int|
                    0 <= i < j < init.len() && (#[trigger] init[i]).0 == name && (
                    #[trigger] init[j]).0 == name;
                assert(list[i].0 == name && list[j].0 == name);
            } else {
                assert forall|i: int| 0 <= i < list.len() && i != last implies (
                #[trigger] list[i]).0 != name by {
                    assert(init[i].0 != name);
                }
            }
        } else {
            if values(init, name).len() == 0 {
                assert forall|i: int| 0 <= i < list.len() implies (#[trigger] list[i]).0
                    != name by {
                    if i < last {
                        assert(init[i].0 != name);
                    }
                }
            } else if values(init, name).len() == 1 {
                let at = choose|at: int|
                    0 <= at < init.len() && (#[trigger] init[at]).0 == name && forall|i: int|
                        0 <= i < init.len() && i != at ==> (#[trigger] init[i]).0 != name;
                assert(list[at].0 == name);
                assert forall|i: int| 0 <= i < list.len() && i != at implies (#[trigger] list[i]).0
                    != name by {
                    if i < last {
                        assert(init[i].0 != name);
                    }
                }
            } else {
                let (i, j) = choose|i: int, j: int|
                    0 <= i < j < init.len() && (#[trigger] init[i]).0 == name && (
                    #[trigger] init[j]).0 == name;
                assert(list[i].0 == name && list[j].0 == name);
            }
        }
    }
}

/// The values of a name, in terms of the fields.
proof fn lemma_field_values(fields: Seq<Field>, name: Seq<char>)
    ensures
        values(members(fields), name).len() == 0 <==> is_absent(fields, name),
        values(members(fields), name).len() == 1 <==> exists|at: int| is_sole(fields, name, at),
        forall|at: int| #[trigger]
            is_sole(fields, name, at) ==> values(members(fields), name) == seq![fields[at].value@],
        values(members(fields), name).len() > 1 ==> exists|i: int, j: int|
            0 <= i < j < fields.len() && (#[trigger] fields[i]).name@ == name && (
            #[trigger] fields[j]).name@ == name,
{
    let list = members(fields);
    lemma_values_count(list, name);
    assert forall|i: int| 0 <= i < fields.len() implies #[trigger] list[i] == (
        fields[i].name@,
        fields[i].value@,
    ) by {}
    if is_absent(fields, name) {
        assert forall|i: int| 0 <= i < list.len() implies (#[trigger] list[i]).0 != name by {
            assert(fields[i].name@ != name);
        }
        lemma_no_value(list, name);
    }
    assert forall|at: int| #[trigger] is_sole(fields, name, at) implies values(list, name)
        == seq![fields[at].value@] by {
        assert forall|i: int| 0 <= i < list.len() && i != at implies (#[trigger] list[i]).0
            != name by {
            assert(fields[i].name@ != name);
        }
        assert(list[at].0 == name);
        lemma_one_value(list, name, at);
    }
    if values(list, name).len() == 0 {
        assert forall|i: int| 0 <= i < fields.len() implies (#[trigger] fields[i]).name@
            != name by {
            assert(list[i].0 != name);
        }
    }
    if values(list, name).len() == 1 {
        let at = choose|at: int|
            0 <= at < list.len() && (#[trigger] list[at]).0 == name && forall|i: int|
                0 <= i < list.len() && i != at ==> (#[trigger] list[i]).0 != name;
        assert forall|i: int| 0 <= i < fields.len() && i != at implies (
        #[trigger] fields[i]).name@ != name by {
            assert(list[i].0 != name);
        }
        assert(is_sole(fields, name, at));
    }
    if values(list, name).len() > 1 {
        let (i, j) = choose|i: int, j: int|
            0 <= i < j < list.len() && (#[trigger] list[i]).0 == name && (#[trigger] list[j]).0
                == name;
        assert(fields[i].name@ == name && fields[j].name@ == name);
    }
}

/// Each name is the text that it stands for.
pub proof fn law_names_are_their_texts(name: FieldName, text: &'static str)
    requires
        call_ensures(FieldName::text, (&name,), text),
    ensures
        text@ == name_text(name),
        name is BlockNumber ==> text@ == "blockNumber"@,
        name is BlockTimestamp ==> text@ == "blockTimestamp"@,
        name is FlashblockIndex ==> text@ == "flashblockIndex"@,
        name is PendingTxCount ==> text@ == "pendingTxCount"@,
        name is Logs ==> text@ == "logs"@,
        name is GasUsed ==> text@ == "gasUsed"@,
        name is Status ==> text@ == "status"@,
        name is Root ==> text@ == "root"@,
        name is CumulativeGasUsed ==> text@ == "cumulativeGasUsed"@,
        name is ContractAddress ==> text@ == "contractAddress"@,
        name is LogsBloom ==> text@ == "logsBloom"@,
{
}

/// A bundle is sent with all its members, whatever the values: four quantities and the logs, which
/// are an empty array if there are none.
pub proof fn law_bundle_is_sent_member_by_member(bundle: PendingLogsBundle, fields: Vec<Field>)
    requires
        call_ensures(PendingLogsBundle::to_fields, (&bundle,), fields),
    ensures
        fields@.len() == 5,
        fields@[0].name@ == "blockNumber"@,
        fields@[0].value@ == quantity_text(bundle.block_number as nat),
        fields@[1].name@ == "blockTimestamp"@,
        fields@[1].value@ == quantity_text(bundle.block_timestamp as nat),
        fields@[2].name@ == "flashblockIndex"@,
        fields@[2].value@ == quantity_text(bundle.flashblock_index as nat),
        fields@[3].name@ == "pendingTxCount"@,
        fields@[3].value@ == quantity_text(bundle.pending_tx_count as nat),
        fields@[4].name@ == "logs"@,
        fields@[4].value@ == logs_text(bundle.logs@),
        bundle.logs@.len() == 0 ==> fields@[4].value@ == seq!['[', ']'],
{
    let list = members(fields@);
    assert(list == bundle_members(bundle@));
    assert(list.len() == fields@.len());
    assert forall|i: int| 0 <= i < fields@.len() implies #[trigger] list[i] == (
        fields@[i].name@,
        fields@[i].value@,
    ) by {}
    assert(list[0] == bundle_members(bundle@)[0]);
    assert(list[1] == bundle_members(bundle@)[1]);
    assert(list[2] == bundle_members(bundle@)[2]);
    assert(list[3] == bundle_members(bundle@)[3]);
    assert(list[4] == bundle_members(bundle@)[4]);
}

/// A bundle is read exactly if each of its five names has one member with a readable value, and
/// then each part of it is what its own member reads as.
pub proof fn law_bundle_is_read_member_by_member(
    fields: Vec<Field>,
    bundle: Result<PendingLogsBundle, WireError>,
)
    requires
        call_ensures(PendingLogsBundle::from_fields, (&fields,), bundle),
    ensures
        bundle is Ok <==> has_quantity(fields@, "blockNumber"@) && has_quantity(
            fields@,
            "blockTimestamp"@,
        ) && has_quantity(fields@, "flashblockIndex"@) && has_quantity(fields@, "pendingTxCount"@)
            && has_logs(fields@, "logs"@),
        forall|at: int| #[trigger]
            is_sole(fields@, "blockNumber"@, at) && bundle is Ok ==> read_quantity(
                fields@[at].value@,
            ) == Some(bundle->Ok_0.block_number),
        forall|at: int| #[trigger]
            is_sole(fields@, "blockTimestamp"@, at) && bundle is Ok ==> read_quantity(
                fields@[at].value@,
            ) == Some(bundle->Ok_0.block_timestamp),
        forall|at: int| #[trigger]
            is_sole(fields@, "flashblockIndex"@, at) && bundle is Ok ==> read_quantity(
                fields@[at].value@,
            ) == Some(bundle->Ok_0.flashblock_index),
        forall|at: int| #[trigger]
            is_sole(fields@, "pendingTxCount"@, at) && bundle is Ok ==> read_quantity(
                fields@[at].value@,
            ) == Some(bundle->Ok_0.pending_tx_count),
        forall|at: int| #[trigger]
            is_sole(fields@, "logs"@, at) && bundle is Ok ==> read_logs(fields@[at].value@) == Some(
                bundle->Ok_0.logs@,
            ),
{
    lemma_field_values(fields@, "blockNumber"@);
    lemma_field_values(fields@, "blockTimestamp"@);
    lemma_field_values(fields@, "flashblockIndex"@);
    lemma_field_values(fields@, "pendingTxCount"@);
    lemma_field_values(fields@, "logs"@);
    let list = members(fields@);
    if bundle is Ok {
        assert(bundle_of(list) == Ok::<_, WireError>(bundle->Ok_0@));
    } else {
        assert(bundle_of(list) == Err::<PendingLogsBundleView, _>(bundle->Err_0));
    }
}

/// An error names what is wrong: a member that is missing is not there, one that is called double
/// is there twice, and one that is called invalid is there once and cannot be read.
pub proof fn law_bundle_errors_are_true(
    fields: Vec<Field>,
    bundle: Result<PendingLogsBundle, WireError>,
)
    requires
        call_ensures(PendingLogsBundle::from_fields, (&fields,), bundle),
        bundle is Err,
    ensures
        match bundle->Err_0 {
            WireError::Missing(name) => is_absent(fields@, name_text(name)),
            WireError::Duplicate(name) => exists|i: int, j: int|
                0 <= i < j < fields@.len() && (#[trigger] fields@[i]).name@ == name_text(name) && (
                #[trigger] fields@[j]).name@ == name_text(name),
            WireError::Invalid(name) => exists|at: int| #[trigger]
                is_sole(fields@, name_text(name), at) && if name is Logs {
                    read_logs(fields@[at].value@) is None
                } else {
                    read_quantity(fields@[at].value@) is None
                },
        },
{
    let list = members(fields@);
    assert(bundle_of(list) == Err::<PendingLogsBundleView, _>(bundle->Err_0));
    lemma_field_values(fields@, name_text(FieldName::BlockNumber));
    lemma_field_values(fields@, name_text(FieldName::BlockTimestamp));
    lemma_field_values(fields@, name_text(FieldName::FlashblockIndex));
    lemma_field_values(fields@, name_text(FieldName::PendingTxCount));
    lemma_field_values(fields@, name_text(FieldName::Logs));
}

/// Members with the texts of numbers and logs, each there once, in any order and among any others,
/// are read as the bundle with exactly those numbers and logs.
pub proof fn law_bundle_reads_written_values(
    fields: Vec<Field>,
    bundle: Result<PendingLogsBundle, WireError>,
    number_at: int,
    timestamp_at: int,
    index_at: int,
    count_at: int,
    logs_at: int,
    block_number: u64,
    block_timestamp: u64,
    flashblock_index: u64,
    pending_tx_count: u64,
    logs: Seq<Log>,
)
    requires
        call_ensures(PendingLogsBundle::from_fields, (&fields,), bundle),
        is_sole(fields@, "blockNumber"@, number_at),
        fields@[number_at].value@ == quantity_text(block_number as nat),
        is_sole(fields@, "blockTimestamp"@, timestamp_at),
        fields@[timestamp_at].value@ == quantity_text(block_timestamp as nat),
        is_sole(fields@, "flashblockIndex"@, index_at),
        fields@[index_at].value@ == quantity_text(flashblock_index as nat),
        is_sole(fields@, "pendingTxCount"@, count_at),
        fields@[count_at].value@ == quantity_text(pending_tx_count as nat),
        is_sole(fields@, "logs"@, logs_at),
        fields@[logs_at].value@ == logs_text(logs),
    ensures
        bundle is Ok,
        bundle->Ok_0.block_number == block_number,
        bundle->Ok_0.block_timestamp == block_timestamp,
        bundle->Ok_0.flashblock_index == flashblock_index,
        bundle->Ok_0.pending_tx_count == pending_tx_count,
        bundle->Ok_0.logs@ == logs,
{
    lemma_field_values(fields@, "blockNumber"@);
    lemma_field_values(fields@, "blockTimestamp"@);
    lemma_field_values(fields@, "flashblockIndex"@);
    lemma_field_values(fields@, "pendingTxCount"@);
    lemma_field_values(fields@, "logs"@);
    let written = PendingLogsBundleView {
        block_number,
        block_timestamp,
        flashblock_index,
        pending_tx_count,
        logs,
    };
    assert(written_bundle(members(fields@), written));
    assert(bundle->Ok_0@ == written);
}

/// What was sent for a bundle is read back as that bundle.
pub proof fn law_bundles_are_read_back(
    bundle: PendingLogsBundle,
    fields: Vec<Field>,
    read: Result<PendingLogsBundle, WireError>,
)
    requires
        call_ensures(PendingLogsBundle::to_fields, (&bundle,), fields),
        call_ensures(PendingLogsBundle::from_fields, (&fields,), read),
    ensures
        read is Ok,
        read->Ok_0.block_number == bundle.block_number,
        read->Ok_0.block_timestamp == bundle.block_timestamp,
        read->Ok_0.flashblock_index == bundle.flashblock_index,
        read->Ok_0.pending_tx_count == bundle.pending_tx_count,
        read->Ok_0.logs@ == bundle.logs@,
{
    assert(members(fields@) == bundle_members(bundle@));
    assert(read->Ok_0@ == bundle@);
}

/// Five values in a row get the names of a bundle, in order; any other number gets none.
pub proof fn law_values_get_the_names_of_a_bundle(
    values: Vec<String>,
    fields: Option<Vec<Field>>,
    i: int,
)
    requires
        call_ensures(PendingLogsBundle::named_fields, (values,), fields),
    ensures
        fields is Some <==> values@.len() == 5,
        fields is Some ==> {
            &&& fields->0@.len() == 5
            &&& 0 <= i < 5 ==> fields->0@[i].value@ == values@[i]@
            &&& fields->0@[0].name@ == "blockNumber"@
            &&& fields->0@[1].name@ == "blockTimestamp"@
            &&& fields->0@[2].name@ == "flashblockIndex"@
            &&& fields->0@[3].name@ == "pendingTxCount"@
            &&& fields->0@[4].name@ == "logs"@
        },
{
    if fields is Some {
        let list = members(fields->0@);
        assert(list.len() == 5);
        assert forall|k: int| 0 <= k < 5 implies #[trigger] list[k] == (
            fields->0@[k].name@,
            fields->0@[k].value@,
        ) by {}
        assert(list[0].0 == "blockNumber"@);
        assert(list[1].0 == "blockTimestamp"@);
        assert(list[2].0 == "flashblockIndex"@);
        assert(list[3].0 == "pendingTxCount"@);
        assert(list[4].0 == "logs"@);
        if 0 <= i < 5 {
            assert(list[i].1 == values@[i]@);
        }
    }
}

/// A transaction message is sent as the members of the transaction, unchanged and in order, and
/// then six of its own, whatever the values: the logs, the gas as a quantity, the outcome as
/// `status` one or zero or as `root`, the cumulative gas as a quantity, the contract address as its
/// twenty bytes or `null`, and the bytes of the bloom filter.
pub proof fn law_message_is_sent_member_by_member<T>(
    message: TransactionWithLogs<T>,
    transaction: Vec<Field>,
    fields: Vec<Field>,
    i: int,
)
    requires
        call_ensures(TransactionWithLogs::<T>::to_fields, (&message, transaction), fields),
    ensures
        ({
            let n = transaction@.len() as int;
            &&& fields@.len() == n + 6
            &&& 0 <= i < n ==> fields@[i].name@ == transaction@[i].name@ && fields@[i].value@
                == transaction@[i].value@
            &&& fields@[n].name@ == "logs"@
            &&& fields@[n].value@ == logs_text(message.logs@)
            &&& fields@[n + 1].name@ == "gasUsed"@
            &&& fields@[n + 1].value@ == quantity_text(message.gas_used as nat)
            &&& message.status is Eip658 ==> fields@[n + 2].name@ == "status"@
            &&& message.status == Eip658Value::Eip658(true) ==> fields@[n + 2].value@
                == quantity_text(1)
            &&& message.status == Eip658Value::Eip658(false) ==> fields@[n + 2].value@
                == quantity_text(0)
            &&& message.status matches Eip658Value::PostState(root) ==> fields@[n + 2].name@
                == "root"@ && fields@[n + 2].value@ == bytes_text(root.0@)
            &&& fields@[n + 3].name@ == "cumulativeGasUsed"@
            &&& fields@[n + 3].value@ == quantity_text(message.cumulative_gas_used as nat)
            &&& fields@[n + 4].name@ == "contractAddress"@
            &&& message.contract_address is None ==> fields@[n + 4].value@ == "null"@
            &&& message.contract_address matches Some(address) ==> fields@[n + 4].value@
                == bytes_text(address.0@)
            &&& fields@[n + 5].name@ == "logsBloom"@
            &&& fields@[n + 5].value@ == bytes_text(message.logs_bloom.0@)
        }),
{
    let n = transaction@.len() as int;
    let list = members(fields@);
    let own = receipt_members(message.receipt());
    assert(list == members(transaction@) + own);
    assert(list.len() == fields@.len());
    assert forall|k: int| 0 <= k < fields@.len() implies #[trigger] list[k] == (
        fields@[k].name@,
        fields@[k].value@,
    ) by {}
    if 0 <= i < n {
        assert(list[i] == members(transaction@)[i]);
    }
    assert(list[n] == own[0]);
    assert(list[n + 1] == own[1]);
    assert(list[n + 2] == own[2]);
    assert(list[n + 3] == own[3]);
    assert(list[n + 4] == own[4]);
    assert(list[n + 5] == own[5]);
}

/// A transaction message is read exactly if the members of its own can be: logs, both gas
/// quantities and the bloom filter each there once and readable; a readable `status` or a readable
/// `root`; and a contract address that is absent, `null` or readable.
pub proof fn law_message_is_read_when_its_members_are<T>(
    transaction: T,
    fields: Vec<Field>,
    message: Result<TransactionWithLogs<T>, WireError>,
)
    requires
        call_ensures(TransactionWithLogs::<T>::from_fields, (transaction, &fields), message),
    ensures
        message is Ok <==> has_logs(fields@, "logs"@) && has_quantity(fields@, "gasUsed"@) && (
        has_flag(fields@, "status"@) || has_bytes(fields@, "root"@, 32)) && has_quantity(
            fields@,
            "cumulativeGasUsed"@,
        ) && (is_absent(fields@, "contractAddress"@) || has_null(fields@, "contractAddress"@)
            || has_bytes(fields@, "contractAddress"@, 20)) && has_bytes(
            fields@,
            "logsBloom"@,
            256,
        ),
{
    lemma_field_values(fields@, "logs"@);
    lemma_field_values(fields@, "gasUsed"@);
    lemma_field_values(fields@, "status"@);
    lemma_field_values(fields@, "root"@);
    lemma_field_values(fields@, "cumulativeGasUsed"@);
    lemma_field_values(fields@, "contractAddress"@);
    lemma_field_values(fields@, "logsBloom"@);
    let list = members(fields@);
    if message is Ok {
        assert(receipt_of(list) == Ok::<_, WireError>(message->Ok_0.receipt()));
    } else {
        assert(receipt_of(list) == Err::<ReceiptView, _>(message->Err_0));
    }
}

/// Each part of a message that was read is what its own member reads as: a readable `status` is
/// preferred to a `root`, a contract address that is absent or `null` is none, and the transaction
/// is the one that was given.
pub proof fn law_message_is_read_member_by_member<T>(
    transaction: T,
    fields: Vec<Field>,
    message: Result<TransactionWithLogs<T>, WireError>,
)
    requires
        call_ensures(TransactionWithLogs::<T>::from_fields, (transaction, &fields), message),
        message is Ok,
    ensures
        message->Ok_0.transaction == transaction,
        forall|at: int| #[trigger]
            is_sole(fields@, "logs"@, at) ==> read_logs(fields@[at].value@) == Some(
                message->Ok_0.logs@,
            ),
        forall|at: int| #[trigger]
            is_sole(fields@, "gasUsed"@, at) ==> read_quantity(fields@[at].value@) == Some(
                message->Ok_0.gas_used,
            ),
        forall|at: int| #[trigger]
            is_sole(fields@, "cumulativeGasUsed"@, at) ==> read_quantity(fields@[at].value@)
                == Some(message->Ok_0.cumulative_gas_used),
        forall|at: int| #[trigger]
            is_sole(fields@, "logsBloom"@, at) ==> read_bytes(fields@[at].value@, 256) == Some(
                message->Ok_0.logs_bloom.0@,
            ),
        message->Ok_0.status is Eip658 <==> has_flag(fields@, "status"@),
        forall|at: int| #[trigger]
            is_sole(fields@, "status"@, at) && message->Ok_0.status is Eip658 ==> read_flag(
                fields@[at].value@,
            ) == Some(message->Ok_0.status->Eip658_0),
        forall|at: int| #[trigger]
            is_sole(fields@, "root"@, at) && message->Ok_0.status is PostState ==> ({
                let root = message->Ok_0.status->PostState_0;
                read_bytes(fields@[at].value@, 32) == Some(root.0@)
            }),
        message->Ok_0.contract_address is None <==> is_absent(fields@, "contractAddress"@)
            || has_null(fields@, "contractAddress"@),
        forall|at: int| #[trigger]
            is_sole(fields@, "contractAddress"@, at) && message->Ok_0.contract_address is Some
                ==> ({
                let address = message->Ok_0.contract_address->0;
                read_bytes(fields@[at].value@, 20) == Some(address.0@)
            }),
{
    lemma_field_values(fields@, "logs"@);
    lemma_field_values(fields@, "gasUsed"@);
    lemma_field_values(fields@, "status"@);
    lemma_field_values(fields@, "root"@);
    lemma_field_values(fields@, "cumulativeGasUsed"@);
    lemma_field_values(fields@, "contractAddress"@);
    lemma_field_values(fields@, "logsBloom"@);
    let list = members(fields@);
    let receipt = message->Ok_0.receipt();
    assert(receipt_of(list) == Ok::<_, WireError>(receipt));
    assert(receipt.status == message->Ok_0.status@);
}

/// An error names what is wrong: a member that is missing is not there, one that is called double
/// is there twice, and one that is called invalid is there once and cannot be read. An invalid
/// outcome means that neither `status` nor `root` can be read.
pub proof fn law_message_errors_are_true<T>(
    transaction: T,
    fields: Vec<Field>,
    message: Result<TransactionWithLogs<T>, WireError>,
)
    requires
        call_ensures(TransactionWithLogs::<T>::from_fields, (transaction, &fields), message),
        message is Err,
    ensures
        match message->Err_0 {
            WireError::Missing(name) => is_absent(fields@, name_text(name)),
            WireError::Duplicate(name) => exists|i: int, j: int|
                0 <= i < j < fields@.len() && (#[trigger] fields@[i]).name@ == name_text(name) && (
                #[trigger] fields@[j]).name@ == name_text(name),
            WireError::Invalid(FieldName::Status) => !has_flag(fields@, "status"@) && !has_bytes(
                fields@,
                "root"@,
                32,
            ),
            WireError::Invalid(name) => exists|at: int| #[trigger]
                is_sole(fields@, name_text(name), at) && if name is Logs {
                    read_logs(fields@[at].value@) is None
                } else if name is ContractAddress {
                    fields@[at].value@ != "null"@ && read_bytes(fields@[at].value@, 20) is None
                } else if name is LogsBloom {
                    read_bytes(fields@[at].value@, 256) is None
                } else {
                    read_quantity(fields@[at].value@) is None
                },
        },
{
    let list = members(fields@);
    assert(receipt_of(list) == Err::<ReceiptView, _>(message->Err_0));
    lemma_field_values(fields@, name_text(FieldName::Logs));
    lemma_field_values(fields@, name_text(FieldName::GasUsed));
    lemma_field_values(fields@, name_text(FieldName::Status));
    lemma_field_values(fields@, name_text(FieldName::Root));
    lemma_field_values(fields@, name_text(FieldName::CumulativeGasUsed));
    lemma_field_values(fields@, name_text(FieldName::ContractAddress));
    lemma_field_values(fields@, name_text(FieldName::LogsBloom));
}

/// Members with the texts of values, each there once, in any order and among any others, are read
/// as the message with exactly those values. In particular the text of twenty bytes is read as the
/// address with those bytes, and `null` as no address.
pub proof fn law_message_reads_written_values<T>(
    transaction: T,
    fields: Vec<Field>,
    message: Result<TransactionWithLogs<T>, WireError>,
    logs_at: int,
    gas_at: int,
    status_at: int,
    cumulative_at: int,
    address_at: int,
    bloom_at: int,
    logs: Seq<Log>,
    gas_used: u64,
    status: Eip658Value,
    cumulative_gas_used: u64,
    contract_address: Option<Address>,
    logs_bloom: Bloom,
)
    requires
        call_ensures(TransactionWithLogs::<T>::from_fields, (transaction, &fields), message),
        is_sole(fields@, "logs"@, logs_at),
        fields@[logs_at].value@ == logs_text(logs),
        is_sole(fields@, "gasUsed"@, gas_at),
        fields@[gas_at].value@ == quantity_text(gas_used as nat),
        status matches Eip658Value::Eip658(success) ==> is_sole(fields@, "status"@, status_at)
            && fields@[status_at].value@ == quantity_text(
            if success {
                1
            } else {
                0
            },
        ),
        status matches Eip658Value::PostState(root) ==> is_absent(fields@, "status"@) && is_sole(
            fields@,
            "root"@,
            status_at,
        ) && fields@[status_at].value@ == bytes_text(root.0@),
        is_sole(fields@, "cumulativeGasUsed"@, cumulative_at),
        fields@[cumulative_at].value@ == quantity_text(cumulative_gas_used as nat),
        is_sole(fields@, "contractAddress"@, address_at),
        contract_address is None ==> fields@[address_at].value@ == "null"@,
        contract_address matches Some(address) ==> fields@[address_at].value@ == bytes_text(
            address.0@,
        ),
        is_sole(fields@, "logsBloom"@, bloom_at),
        fields@[bloom_at].value@ == bytes_text(logs_bloom.0@),
    ensures
        message is Ok,
        message->Ok_0.transaction == transaction,
        message->Ok_0.logs@ == logs,
        message->Ok_0.gas_used == gas_used,
        message->Ok_0.cumulative_gas_used == cumulative_gas_used,
        message->Ok_0.logs_bloom.0@ == logs_bloom.0@,
        message->Ok_0.status is Eip658 <==> status is Eip658,
        status matches Eip658Value::Eip658(success) ==> message->Ok_0.status->Eip658_0 == success,
        status matches Eip658Value::PostState(root) ==> ({
            let read = message->Ok_0.status->PostState_0;
            read.0@ == root.0@
        }),
        message->Ok_0.contract_address is Some <==> contract_address is Some,
        contract_address matches Some(address) ==> ({
            let read = message->Ok_0.contract_address->0;
            read.0@ == address.0@
        }),
{
    lemma_field_values(fields@, "logs"@);
    lemma_field_values(fields@, "gasUsed"@);
    lemma_field_values(fields@, "status"@);
    lemma_field_values(fields@, "root"@);
    lemma_field_values(fields@, "cumulativeGasUsed"@);
    lemma_field_values(fields@, "contractAddress"@);
    lemma_field_values(fields@, "logsBloom"@);
    let receipt = ReceiptView {
        logs,
        gas_used,
        status: status@,
        cumulative_gas_used,
        contract_address: match contract_address {
            Some(address) => Some(address@),
            None => None,
        },
        logs_bloom: logs_bloom.0@,
    };
    assert(has_widths(receipt));
    let list = members(fields@);
    assert(values(list, "contractAddress"@) == seq![address_text(receipt.contract_address)]);
    match status {
        Eip658Value::Eip658(success) => {
            assert(values(list, "status"@) == seq![quantity_text(if success { 1 } else { 0 })]);
        },
        Eip658Value::PostState(root) => {
            assert(values(list, "status"@) =~= Seq::<Seq<char>>::empty());
            assert(values(list, "root"@) == seq![bytes_text(root@)]);
        },
    }
    assert(written_receipt(list, receipt));
    assert(message->Ok_0.receipt() == receipt);
    assert(message->Ok_0.status@ == status@);
}

/// The object that a message was sent as is read back as that message, given a transaction whose
/// members leave the names of the message alone.
pub proof fn law_messages_are_read_back<T>(
    message: TransactionWithLogs<T>,
    transaction: Vec<Field>,
    fields: Vec<Field>,
    read: Result<TransactionWithLogs<T>, WireError>,
)
    requires
        call_ensures(TransactionWithLogs::<T>::to_fields, (&message, transaction), fields),
        is_absent(transaction@, "logs"@),
        is_absent(transaction@, "gasUsed"@),
        is_absent(transaction@, "status"@),
        is_absent(transaction@, "root"@),
        is_absent(transaction@, "cumulativeGasUsed"@),
        is_absent(transaction@, "contractAddress"@),
        is_absent(transaction@, "logsBloom"@),
        call_ensures(
            TransactionWithLogs::<T>::from_fields,
            (message.transaction, &fields),
            read,
        ),
    ensures
        read is Ok,
        read->Ok_0.transaction == message.transaction,
        read->Ok_0.logs@ == message.logs@,
        read->Ok_0.gas_used == message.gas_used,
        read->Ok_0.status is Eip658 <==> message.status is Eip658,
        message.status is Eip658 ==> read->Ok_0.status->Eip658_0 == message.status->Eip658_0,
        message.status is PostState ==> ({
            let found = read->Ok_0.status->PostState_0;
            let given = message.status->PostState_0;
            found.0@ == given.0@
        }),
        read->Ok_0.cumulative_gas_used == message.cumulative_gas_used,
        read->Ok_0.contract_address is Some <==> message.contract_address is Some,
        message.contract_address is Some ==> ({
            let found = read->Ok_0.contract_address->0;
            let given = message.contract_address->0;
            found.0@ == given.0@
        }),
        read->Ok_0.logs_bloom.0@ == message.logs_bloom.0@,
{
    let list = members(transaction@);
    assert forall|i: int| 0 <= i < list.len() implies !is_reserved_name(
        (#[trigger] list[i]).0,
    ) by {
        assert(list[i].0 == transaction@[i].name@);
    }
    assert(read->Ok_0.receipt() == message.receipt());
    assert(read->Ok_0.status@ == message.status@);
}

/// The transaction is read from the members that no part of the message alone is named after, all
/// of them, unchanged and in order.
pub proof fn law_transaction_gets_the_other_members(fields: Vec<Field>, transaction: Vec<Field>)
    requires
        call_ensures(transaction_fields, (&fields,), transaction),
    ensures
        transaction@.map_values(|field: Field| (field.name@, field.value@)) == fields@.map_values(
            |field: Field| (field.name@, field.value@),
        ).filter(
            |member: (Seq<char>, Seq<char>)|
                member.0 != "logs"@ && member.0 != "gasUsed"@ && member.0 != "cumulativeGasUsed"@
                    && member.0 != "contractAddress"@ && member.0 != "logsBloom"@,
        ),
{
    lemma_filtered_members(members(fields@));
    assert(transaction@.map_values(|field: Field| (field.name@, field.value@)) =~= members(
        transaction@,
    ));
    assert(fields@.map_values(|field: Field| (field.name@, field.value@)) =~= members(fields@));
}

} // verus!
