//! Members of JSON objects, and the JSON forms of the values that occur in them.
//!
//! A member is a name with the JSON text of its value. Writing the text of whole objects and
//! splitting it into members happens elsewhere.

use alloy_rpc_types_eth::Log;
use vstd::prelude::*;

verus! {

/// alloy's `Log`, carried through unread.
#[verifier::external_type_specification]
#[verifier::external_body]
#[verifier::reject_recursive_types(T)]
pub struct ExLog<T>(Log<T>);

/// alloy's `LogData`, carried through unread.
#[verifier::external_type_specification]
#[verifier::external_body]
pub struct ExLogData(alloy_primitives::LogData);

/// One member of a JSON object: its name, and the JSON text of its value.
#[derive(Clone, Debug, PartialEq, Eq)]
pub struct Field {
    /// Name of the member.
    pub name: String,
    /// JSON text of the value.
    pub value: String,
}

impl View for Field {
    type V = (Seq<char>, Seq<char>);

    open spec fn view(&self) -> (Seq<char>, Seq<char>) {
        (self.name@, self.value@)
    }
}

/// The members that a list of fields stands for.
pub open spec fn members(fields: Seq<Field>) -> Seq<(Seq<char>, Seq<char>)> {
    fields.map_values(|field: Field| field@)
}

/// The members with names that the messages of this crate give a meaning to.
#[derive(Clone, Copy, Debug, PartialEq, Eq, Structural)]
pub enum FieldName {
    /// `blockNumber`
    BlockNumber,
    /// `blockTimestamp`
    BlockTimestamp,
    /// `flashblockIndex`
    FlashblockIndex,
    /// `pendingTxCount`
    PendingTxCount,
    /// `logs`
    Logs,
    /// `gasUsed`
    GasUsed,
    /// `status`
    Status,
    /// `root`
    Root,
    /// `cumulativeGasUsed`
    CumulativeGasUsed,
    /// `contractAddress`
    ContractAddress,
    /// `logsBloom`
    LogsBloom,
}

/// The name as it stands in a JSON object.
pub open spec fn name_text(name: FieldName) -> Seq<char> {
    match name {
        FieldName::BlockNumber => "blockNumber"@,
        FieldName::BlockTimestamp => "blockTimestamp"@,
        FieldName::FlashblockIndex => "flashblockIndex"@,
        FieldName::PendingTxCount => "pendingTxCount"@,
        FieldName::Logs => "logs"@,
        FieldName::GasUsed => "gasUsed"@,
        FieldName::Status => "status"@,
        FieldName::Root => "root"@,
        FieldName::CumulativeGasUsed => "cumulativeGasUsed"@,
        FieldName::ContractAddress => "contractAddress"@,
        FieldName::LogsBloom => "logsBloom"@,
    }
}

impl FieldName {
    /// The name as it stands in a JSON object.
    pub fn text(&self) -> (text: &'static str)
        ensures
            text@ == name_text(*self),
    {
        match self {
            FieldName::BlockNumber => "blockNumber",
            FieldName::BlockTimestamp => "blockTimestamp",
            FieldName::FlashblockIndex => "flashblockIndex",
            FieldName::PendingTxCount => "pendingTxCount",
            FieldName::Logs => "logs",
            FieldName::GasUsed => "gasUsed",
            FieldName::Status => "status",
            FieldName::Root => "root",
            FieldName::CumulativeGasUsed => "cumulativeGasUsed",
            FieldName::ContractAddress => "contractAddress",
            FieldName::LogsBloom => "logsBloom",
        }
    }

    /// A member with this name.
    pub(crate) fn with(self, value: String) -> (field: Field)
        ensures
            field@ == (name_text(self), value@),
    {
        Field { name: self.text().to_owned(), value }
    }
}

/// No two names are the same.
pub proof fn lemma_names_are_distinct(first: FieldName, second: FieldName)
    requires
        name_text(first) == name_text(second),
    ensures
        first == second,
{
    reveal_strlit("blockNumber");
    reveal_strlit("blockTimestamp");
    reveal_strlit("flashblockIndex");
    reveal_strlit("pendingTxCount");
    reveal_strlit("logs");
    reveal_strlit("gasUsed");
    reveal_strlit("status");
    reveal_strlit("root");
    reveal_strlit("cumulativeGasUsed");
    reveal_strlit("contractAddress");
    reveal_strlit("logsBloom");
    assert("blockNumber"@.len() == 11);
    assert("blockTimestamp"@.len() == 14 && "blockTimestamp"@[0] == 'b');
    assert("flashblockIndex"@.len() == 15 && "flashblockIndex"@[0] == 'f');
    assert("pendingTxCount"@.len() == 14 && "pendingTxCount"@[0] == 'p');
    assert("logs"@.len() == 4 && "logs"@[0] == 'l');
    assert("gasUsed"@.len() == 7);
    assert("status"@.len() == 6);
    assert("root"@.len() == 4 && "root"@[0] == 'r');
    assert("cumulativeGasUsed"@.len() == 17);
    assert("contractAddress"@.len() == 15 && "contractAddress"@[0] == 'c');
    assert("logsBloom"@.len() == 9);
}

/// Why the members of an object do not make up a message.
#[derive(Clone, Copy, Debug, PartialEq, Eq, Structural)]
pub enum WireError {
    /// A member occurs more than once.
    Duplicate(FieldName),
    /// A member is missing.
    Missing(FieldName),
    /// The value of a member cannot be read.
    Invalid(FieldName),
}

/// The values of all members with a name, in order.
pub open spec fn values(members: Seq<(Seq<char>, Seq<char>)>, name: Seq<char>) -> Seq<Seq<char>>
    decreases members.len(),
{
    if members.len() == 0 {
        Seq::empty()
    } else if members.last().0 == name {
        values(members.drop_last(), name).push(members.last().1)
    } else {
        values(members.drop_last(), name)
    }
}

/// The value of the member with a name, if there is one. There must not be two.
pub open spec fn value_of(
    members: Seq<(Seq<char>, Seq<char>)>,
    name: FieldName,
) -> Result<Option<Seq<char>>, WireError> {
    let found = values(members, name_text(name));
    if found.len() == 0 {
        Ok(None)
    } else if found.len() == 1 {
        Ok(Some(found[0]))
    } else {
        Err(WireError::Duplicate(name))
    }
}

/// A name that no member has, has no value.
pub proof fn lemma_no_value(members: Seq<(Seq<char>, Seq<char>)>, name: Seq<char>)
    requires
        forall|i: int| 0 <= i < members.len() ==> (#[trigger] members[i]).0 != name,
    ensures
        values(members, name) == Seq::<Seq<char>>::empty(),
    decreases members.len(),
{
    if members.len() > 0 {
        let init = members.drop_last();
        assert forall|i: int| 0 <= i < init.len() implies (#[trigger] init[i]).0 != name by {
            assert(init[i] == members[i]);
        }
        lemma_no_value(init, name);
        assert(members[members.len() - 1].0 != name);
    }
}

/// A name that one member has, has the value of that member.
pub proof fn lemma_one_value(members: Seq<(Seq<char>, Seq<char>)>, name: Seq<char>, at: int)
    requires
        0 <= at < members.len(),
        members[at].0 == name,
        forall|i: int| 0 <= i < members.len() && i != at ==> (#[trigger] members[i]).0 != name,
    ensures
        values(members, name) == seq![members[at].1],
    decreases members.len(),
{
    let init = members.drop_last();
    if at == members.len() - 1 {
        assert forall|i: int| 0 <= i < init.len() implies (#[trigger] init[i]).0 != name by {
            assert(init[i] == members[i]);
        }
        lemma_no_value(init, name);
        assert(values(members, name) =~= seq![members[at].1]);
    } else {
        assert forall|i: int| 0 <= i < init.len() && i != at implies (#[trigger] init[i]).0
            != name by {
            assert(init[i] == members[i]);
        }
        lemma_one_value(init, name, at);
        assert(members[members.len() - 1].0 != name);
    }
}

/// Finds the value of the member with a name.
pub(crate) fn find(fields: &Vec<Field>, name: FieldName) -> (found: Result<
    Option<&String>,
    WireError,
>)
    ensures
        match found {
            Ok(Some(value)) => value_of(members(fields@), name) == Ok::<_, WireError>(
                Some(value@),
            ),
            Ok(None) => value_of(members(fields@), name) == Ok::<Option<Seq<char>>, WireError>(
                None,
            ),
            Err(error) => value_of(members(fields@), name) == Err::<Option<Seq<char>>, _>(error),
        },
{
    let text = name.text().to_owned();
    let ghost all = members(fields@);
    let mut found: Option<&String> = None;
    let mut twice: bool = false;
    let mut i: usize = 0;
    while i < fields.len()
        invariant
            i <= fields@.len(),
            all == members(fields@),
            text@ == name_text(name),
            ({
                let seen = values(all.take(i as int), text@);
                &&& twice <==> seen.len() > 1
                &&& found is None <==> seen.len() == 0
                &&& seen.len() == 1 ==> found is Some && found->0@ == seen[0]
            }),
        decreases fields@.len() - i,
    {
        assert(all.take(i + 1).drop_last() =~= all.take(i as int));
        assert(all.take(i + 1).last() == fields@[i as int]@);
        if fields[i].name == text {
            if found.is_some() {
                twice = true;
            }
            found = Some(&fields[i].value);
        }
        i += 1;
    }
    assert(all.take(i as int) =~= all);
    if twice {
        Err(WireError::Duplicate(name))
    } else {
        Ok(found)
    }
}

/// The quantity that the member with a name holds.
pub open spec fn quantity_of(
    members: Seq<(Seq<char>, Seq<char>)>,
    name: FieldName,
) -> Result<u64, WireError> {
    match value_of(members, name) {
        Ok(Some(text)) => match read_quantity(text) {
            Some(value) => Ok(value),
            None => Err(WireError::Invalid(name)),
        },
        Ok(None) => Err(WireError::Missing(name)),
        Err(error) => Err(error),
    }
}

/// Reads the quantity that the member with a name holds.
pub(crate) fn quantity_field(fields: &Vec<Field>, name: FieldName) -> (value: Result<
    u64,
    WireError,
>)
    ensures
        value == quantity_of(members(fields@), name),
        forall|written: u64|
            values(members(fields@), name_text(name)) == seq![
                #[trigger] quantity_text(written as nat),
            ] ==> value == Ok::<_, WireError>(written),
{
    match find(fields, name) {
        Ok(Some(text)) => match quantity_from_json(text.as_str()) {
            Some(value) => Ok(value),
            None => Err(WireError::Invalid(name)),
        },
        Ok(None) => Err(WireError::Missing(name)),
        Err(error) => Err(error),
    }
}

/// The logs that the member `logs` holds.
pub open spec fn logs_of(members: Seq<(Seq<char>, Seq<char>)>) -> Result<Seq<Log>, WireError> {
    match value_of(members, FieldName::Logs) {
        Ok(Some(text)) => match read_logs(text) {
            Some(logs) => Ok(logs),
            None => Err(WireError::Invalid(FieldName::Logs)),
        },
        Ok(None) => Err(WireError::Missing(FieldName::Logs)),
        Err(error) => Err(error),
    }
}

/// Reads the logs that the member `logs` holds.
pub(crate) fn logs_field(fields: &Vec<Field>) -> (logs: Result<Vec<Log>, WireError>)
    ensures
        match logs {
            Ok(found) => logs_of(members(fields@)) == Ok::<_, WireError>(found@),
            Err(error) => logs_of(members(fields@)) == Err::<Seq<Log>, _>(error),
        },
        forall|written: Seq<Log>|
            values(members(fields@), name_text(FieldName::Logs)) == seq![
                #[trigger] logs_text(written),
            ] ==> logs is Ok && logs->Ok_0@ == written,
{
    match find(fields, FieldName::Logs) {
        Ok(Some(text)) => match logs_from_json(text.as_str()) {
            Some(logs) => Ok(logs),
            None => Err(WireError::Invalid(FieldName::Logs)),
        },
        Ok(None) => Err(WireError::Missing(FieldName::Logs)),
        Err(error) => Err(error),
    }
}

/// A lower-case hexadecimal digit.
pub open spec fn hex_digit(value: int) -> char {
    if value < 10 {
        (value + 0x30) as char
    } else {
        (value - 10 + 0x61) as char
    }
}

/// The hexadecimal digits of a number, without leading zeros but for zero itself.
pub open spec fn hex_number(value: nat) -> Seq<char>
    decreases value,
{
    if value < 16 {
        seq![hex_digit(value as int)]
    } else {
        hex_number(value / 16).push(hex_digit((value % 16) as int))
    }
}

/// The hexadecimal digits of a byte string, two for each byte.
pub open spec fn hex_bytes(bytes: Seq<u8>) -> Seq<char> {
    Seq::new(
        2 * bytes.len(),
        |i: int|
            if i % 2 == 0 {
                hex_digit(bytes[i / 2] as int / 16)
            } else {
                hex_digit(bytes[i / 2] as int % 16)
            },
    )
}

/// The JSON text of a hexadecimal string.
pub open spec fn hex_text(digits: Seq<char>) -> Seq<char> {
    seq!['"', '0', 'x'] + digits + seq!['"']
}

/// The JSON text of a quantity: a hexadecimal string without leading zeros.
pub open spec fn quantity_text(value: nat) -> Seq<char> {
    hex_text(hex_number(value))
}

/// The JSON text of a fixed number of bytes: a hexadecimal string with two digits for each byte.
pub open spec fn bytes_text(bytes: Seq<u8>) -> Seq<char> {
    hex_text(hex_bytes(bytes))
}

/// The quantity that a JSON text is read as.
pub uninterp spec fn read_quantity(text: Seq<char>) -> Option<u64>;

/// The flag that a JSON text is read as.
pub uninterp spec fn read_flag(text: Seq<char>) -> Option<bool>;

/// The byte string of the given length that a JSON text is read as.
pub uninterp spec fn read_bytes(text: Seq<char>, length: nat) -> Option<Seq<u8>>;

/// The JSON text of a list of logs.
pub uninterp spec fn logs_text(logs: Seq<Log>) -> Seq<char>;

/// The list of logs that a JSON text is read as.
pub uninterp spec fn read_logs(text: Seq<char>) -> Option<Seq<Log>>;

/// Calls `alloy_serde::quantity::serialize` on a number, which is written as a hexadecimal string
/// without leading zeros.
#[verifier::external_body]
pub(crate) fn quantity_json(value: u64) -> (text: String)
    ensures
        text@ == quantity_text(value as nat),
{
    let json = alloy_serde::quantity::serialize(&value, serde_json::value::Serializer);
    json.map(|text| text.to_string()).unwrap_or_default()
}

/// Calls `alloy_serde::quantity::deserialize` for a number. What it accepts beyond the text that
/// [`quantity_json`] writes for a number is left to [`read_quantity`].
#[verifier::external_body]
pub(crate) fn quantity_from_json(text: &str) -> (value: Option<u64>)
    ensures
        value == read_quantity(text@),
        forall|written: u64| text@ == #[trigger] quantity_text(written as nat) ==> value == Some(
            written,
        ),
{
    alloy_serde::quantity::deserialize(&mut serde_json::Deserializer::from_str(text)).ok()
}

/// Calls `alloy_serde::quantity::serialize` on a flag, which is written as the quantity one or
/// zero.
#[verifier::external_body]
pub(crate) fn flag_json(flag: bool) -> (text: String)
    ensures
        text@ == quantity_text(if flag { 1 } else { 0 }),
{
    let json = alloy_serde::quantity::serialize(&flag, serde_json::value::Serializer);
    json.map(|text| text.to_string()).unwrap_or_default()
}

/// Calls `alloy_serde::quantity::deserialize` for a flag. What it accepts beyond the text that
/// [`flag_json`] writes for a flag is left to [`read_flag`].
#[verifier::external_body]
pub(crate) fn flag_from_json(text: &str) -> (flag: Option<bool>)
    ensures
        flag == read_flag(text@),
        text@ == quantity_text(1) ==> flag == Some(true),
        text@ == quantity_text(0) ==> flag == Some(false),
{
    alloy_serde::quantity::deserialize(&mut serde_json::Deserializer::from_str(text)).ok()
}

/// Calls the `Serialize` impl of `alloy_primitives::FixedBytes`, which hashes, addresses and bloom
/// filters are written with: a hexadecimal string with two lower-case digits for each byte.
#[verifier::external_body]
pub(crate) fn bytes_json<const N: usize>(bytes: &[u8; N]) -> (text: String)
    ensures
        text@ == bytes_text(bytes@),
{
    serde_json::to_string(&alloy_primitives::FixedBytes::<N>::new(*bytes)).unwrap_or_default()
}

/// Calls the `Deserialize` impl of `alloy_primitives::FixedBytes`, which hashes, addresses and
/// bloom filters are read with. What it accepts beyond the text that [`bytes_json`] writes for a
/// byte string of the length is left to [`read_bytes`].
#[verifier::external_body]
pub(crate) fn bytes_from_json<const N: usize>(text: &str) -> (bytes: Option<[u8; N]>)
    ensures
        bytes is Some <==> read_bytes(text@, N as nat) is Some,
        bytes matches Some(found) ==> read_bytes(text@, N as nat) == Some(found@),
        forall|written: Seq<u8>|
            #![trigger bytes_text(written)]
            text@ == bytes_text(written) && written.len() == N ==> bytes is Some && bytes->0@
                == written,
{
    serde_json::from_str::<alloy_primitives::FixedBytes<N>>(text).ok().map(|bytes| bytes.0)
}

/// Calls the `Serialize` impl of a list of alloy's `Log`. A list without logs is written as an
/// empty array.
#[verifier::external_body]
pub(crate) fn logs_json(logs: &Vec<Log>) -> (text: String)
    ensures
        text@ == logs_text(logs@),
        logs@.len() == 0 ==> text@ == seq!['[', ']'],
{
    serde_json::to_string(logs).unwrap_or_default()
}

/// Calls the `Deserialize` impl of a list of alloy's `Log`. A list that [`logs_json`] wrote is read
/// back; what else is accepted is left to [`read_logs`].
#[verifier::external_body]
pub(crate) fn logs_from_json(text: &str) -> (logs: Option<Vec<Log>>)
    ensures
        logs is Some <==> read_logs(text@) is Some,
        logs matches Some(found) ==> read_logs(text@) == Some(found@),
        forall|written: Seq<Log>|
            #![trigger logs_text(written)]
            text@ == logs_text(written) ==> logs is Some && logs->0@ == written,
{
    serde_json::from_str(text).ok()
}

} // verus!
