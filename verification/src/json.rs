//! The history as JSON text. Reading and writing the text is the work of
//! `serde_json`; which JSON value stands for which record is decided here.

use vstd::prelude::*;
use crate::commands::{
    record_views, CommandExecutor, CommandResult, CommandResultView, CommandType,
};
use crate::error::Error;
use crate::reader::{ReaderInfo, ReaderInfoView};
use crate::text::{owned, to_chars};
use crate::timestamp::{is_timestamp_text, utc_timestamp_text, Timestamp};

verus! {

/// `serde_json::Value`, a JSON value.
#[verifier::external_type_specification]
#[verifier::external_body]
pub struct ExJsonValue(serde_json::Value);

/// What a JSON value holds. A number that `serde_json` keeps as an unsigned
/// integer of 64 bits, as it does for digits without sign, fraction or
/// exponent in that range, is held as that number; every other number counts
/// as `OtherNumber`.
pub ghost enum JsonTree {
    Null,
    Bool(bool),
    Unsigned(u64),
    OtherNumber,
    Text(Seq<char>),
    Array(Seq<JsonTree>),
    Object(Map<Seq<char>, JsonTree>),
}

/// What the value `value` of `serde_json` holds.
pub uninterp spec fn json_tree(value: serde_json::Value) -> JsonTree;

/// What `serde_json` reads `text` as, where it reads it as a JSON value.
pub uninterp spec fn json_read(text: Seq<char>) -> Option<JsonTree>;

/// What `serde_json` writes for a value that holds `tree`, in its indented
/// form, where it writes the value at all.
pub uninterp spec fn json_written(tree: JsonTree) -> Option<Seq<char>>;

/// What `serde_json` writes for a value that holds `tree`, in its compact
/// form, where it writes the value at all.
pub uninterp spec fn json_written_compact(tree: JsonTree) -> Option<Seq<char>>;

/// What the values `items` hold, in order.
pub open spec fn json_trees(items: Seq<serde_json::Value>) -> Seq<JsonTree> {
    items.map_values(|v: serde_json::Value| json_tree(v))
}

/// Tells whether `tree` holds no number but unsigned integers of 64 bits.
pub open spec fn is_plain(tree: JsonTree) -> bool
    decreases tree,
{
    match tree {
        JsonTree::OtherNumber => false,
        JsonTree::Array(items) => forall|i: int|
            0 <= i < items.len() ==> is_plain(#[trigger] items[i]),
        JsonTree::Object(members) => forall|key: Seq<char>|
            members.dom().contains(key) ==> is_plain(#[trigger] members[key]),
        _ => true,
    }
}

/// `Value::Null`.
#[verifier::external_body]
fn json_null() -> (v: serde_json::Value)
    ensures
        json_tree(v) == JsonTree::Null,
{
    serde_json::Value::Null
}

/// `Value::Bool` with `b`.
#[verifier::external_body]
fn json_bool(b: bool) -> (v: serde_json::Value)
    ensures
        json_tree(v) == JsonTree::Bool(b),
{
    serde_json::Value::Bool(b)
}

/// `Value::from` on a `u64`: the number `n`.
#[verifier::external_body]
fn json_unsigned(n: u64) -> (v: serde_json::Value)
    ensures
        json_tree(v) == JsonTree::Unsigned(n),
{
    serde_json::Value::from(n)
}

/// `Value::from` on a string: the string `text`.
#[verifier::external_body]
fn json_text(text: &str) -> (v: serde_json::Value)
    ensures
        json_tree(v) == JsonTree::Text(text@),
{
    serde_json::Value::from(text)
}

/// `Value::Array` with `items`, in their order.
#[verifier::external_body]
fn json_array(items: Vec<serde_json::Value>) -> (v: serde_json::Value)
    ensures
        json_tree(v) == JsonTree::Array(json_trees(items@)),
{
    serde_json::Value::Array(items)
}

/// `Value::Object` with the empty `Map::new`.
#[verifier::external_body]
fn json_object() -> (v: serde_json::Value)
    ensures
        json_tree(v) == JsonTree::Object(Map::empty()),
{
    serde_json::Value::Object(serde_json::Map::new())
}

/// Assignment through `Value`'s index by a string, on an object: the member
/// `key` is set to `value`, whether or not the object had such a member.
#[verifier::external_body]
fn json_with(object: serde_json::Value, key: &str, value: serde_json::Value) -> (v:
    serde_json::Value)
    requires
        json_tree(object) is Object,
    ensures
        json_tree(v) == JsonTree::Object(json_tree(object)->Object_0.insert(key@, json_tree(value))),
{
    let mut object = object;
    object[key] = value;
    object
}

/// `Value::as_bool`: the truth value of a JSON boolean, nothing for any
/// other value.
#[verifier::external_body]
fn json_as_bool(v: &serde_json::Value) -> (r: Option<bool>)
    ensures
        r == match json_tree(*v) {
            JsonTree::Bool(b) => Some(b),
            _ => None,
        },
{
    v.as_bool()
}

/// `Value::as_u64`: the number, where the value is a number kept as an
/// unsigned integer of 64 bits, nothing for any other value.
#[verifier::external_body]
fn json_as_unsigned(v: &serde_json::Value) -> (r: Option<u64>)
    ensures
        r == match json_tree(*v) {
            JsonTree::Unsigned(n) => Some(n),
            _ => None,
        },
{
    v.as_u64()
}

/// `Value::as_str`: the text of a JSON string, nothing for any other value.
#[verifier::external_body]
fn json_as_text(v: &serde_json::Value) -> (r: Option<String>)
    ensures
        match json_tree(*v) {
            JsonTree::Text(text) => r matches Some(s) && s@ == text,
            _ => r is None,
        },
{
    v.as_str().map(str::to_owned)
}

/// `Value::is_null`.
#[verifier::external_body]
fn json_is_null(v: &serde_json::Value) -> (b: bool)
    ensures
        b == (json_tree(*v) is Null),
{
    v.is_null()
}

/// `Value::as_array`: the items of a JSON array, in order, nothing for any
/// other value.
#[verifier::external_body]
fn json_items(v: &serde_json::Value) -> (r: Option<Vec<serde_json::Value>>)
    ensures
        match json_tree(*v) {
            JsonTree::Array(items) => r matches Some(values) && json_trees(values@) == items,
            _ => r is None,
        },
{
    v.as_array().cloned()
}

/// `Value::get` with a string: the member `key` of a JSON object, nothing
/// where the object has no such member or the value is no object.
#[verifier::external_body]
fn json_member(v: &serde_json::Value, key: &str) -> (r: Option<serde_json::Value>)
    ensures
        match json_tree(*v) {
            JsonTree::Object(members) => if members.dom().contains(key@) {
                r matches Some(value) && json_tree(value) == members[key@]
            } else {
                r is None
            },
            _ => r is None,
        },
{
    v.get(key).cloned()
}

/// `serde_json::from_str` for a `Value`: it succeeds exactly on the texts
/// that `json_read` reads, with the value that holds what was read. Its
/// error is dropped.
#[verifier::external_body]
fn json_parse(text: &str) -> (r: Option<serde_json::Value>)
    ensures
        match json_read(text@) {
            Some(tree) => r matches Some(v) && json_tree(v) == tree,
            None => r is None,
        },
{
    serde_json::from_str::<serde_json::Value>(text).ok()
}

/// `serde_json::to_string_pretty` on a `Value`: whether it succeeds, and with
/// which text, is what `json_written` names for what the value holds. Its
/// error is dropped.
#[verifier::external_body]
fn json_print(v: &serde_json::Value) -> (r: Option<String>)
    requires
        is_plain(json_tree(*v)),
    ensures
        match json_written(json_tree(*v)) {
            Some(text) => r matches Some(written) && written@ == text,
            None => r is None,
        },
{
    serde_json::to_string_pretty(v).ok()
}

/// `serde_json::to_string` on a `Value`: whether it succeeds, and with which
/// text, is what `json_written_compact` names for what the value holds. Its
/// error is dropped.
#[verifier::external_body]
fn json_print_compact(v: &serde_json::Value) -> (r: Option<String>)
    requires
        is_plain(json_tree(*v)),
    ensures
        match json_written_compact(json_tree(*v)) {
            Some(text) => r matches Some(written) && written@ == text,
            None => r is None,
        },
{
    serde_json::to_string(v).ok()
}

/// The JSON array of the numbers of `bytes`.
pub open spec fn bytes_tree(bytes: Seq<u8>) -> JsonTree {
    JsonTree::Array(bytes.map_values(|b: u8| JsonTree::Unsigned(b as u64)))
}

/// The JSON value of a command's kind: the string `Transmit`, or an object
/// whose member `Control` is an object with the member `code`.
pub open spec fn kind_tree(kind: CommandType) -> JsonTree {
    match kind {
        CommandType::Transmit => JsonTree::Text("Transmit"@),
        CommandType::Control { code } => JsonTree::Object(
            Map::empty().insert(
                "Control"@,
                JsonTree::Object(Map::empty().insert("code"@, JsonTree::Unsigned(code as u64))),
            ),
        ),
    }
}

/// The JSON value of an optional failure text: the string, or null.
pub open spec fn error_tree(error: Option<Seq<char>>) -> JsonTree {
    match error {
        Some(text) => JsonTree::Text(text),
        None => JsonTree::Null,
    }
}

/// The JSON object of a record, one member for each field.
pub open spec fn record_tree(record: CommandResultView) -> JsonTree {
    JsonTree::Object(
        Map::empty().insert("timestamp"@, JsonTree::Text(record.timestamp)).insert(
            "command_type"@,
            kind_tree(record.command_type),
        ).insert("input"@, bytes_tree(record.input)).insert(
            "output"@,
            bytes_tree(record.output),
        ).insert("success"@, JsonTree::Bool(record.success)).insert(
            "error"@,
            error_tree(record.error),
        ).insert("duration_ms"@, JsonTree::Unsigned(record.duration_ms)),
    )
}

/// The JSON array of a history, oldest record first.
pub open spec fn history_tree(history: Seq<CommandResultView>) -> JsonTree {
    JsonTree::Array(history.map_values(|r: CommandResultView| record_tree(r)))
}

/// Tells whether `tree` is a whole number from 0 to 255.
pub open spec fn is_byte_tree(tree: JsonTree) -> bool {
    tree matches JsonTree::Unsigned(n) && n <= 255
}

/// The bytes that a JSON value stands for: an array of whole numbers from 0
/// to 255.
pub open spec fn tree_bytes(tree: JsonTree) -> Option<Seq<u8>> {
    match tree {
        JsonTree::Array(items) => if forall|i: int|
            0 <= i < items.len() ==> is_byte_tree(#[trigger] items[i]) {
            Some(items.map_values(|t: JsonTree| t->Unsigned_0 as u8))
        } else {
            None
        },
        _ => None,
    }
}

/// The member `key` of `tree`, where `tree` is an object that has it.
pub open spec fn member(tree: JsonTree, key: Seq<char>) -> Option<JsonTree> {
    match tree {
        JsonTree::Object(members) => if members.dom().contains(key) {
            Some(members[key])
        } else {
            None
        },
        _ => None,
    }
}

/// The kind of command that a JSON value stands for.
pub open spec fn tree_kind(tree: JsonTree) -> Option<CommandType> {
    match tree {
        JsonTree::Text(name) => if name == "Transmit"@ {
            Some(CommandType::Transmit)
        } else {
            None
        },
        _ => match member(tree, "Control"@) {
            Some(inner) => match member(inner, "code"@) {
                Some(JsonTree::Unsigned(code)) => if code <= u32::MAX {
                    Some(CommandType::Control { code: code as u32 })
                } else {
                    None
                },
                _ => None,
            },
            None => None,
        },
    }
}

/// The failure text that a member `error` stands for: none where the member
/// is missing or null, the text of a string, and no reading of any other
/// value.
pub open spec fn tree_error(found: Option<JsonTree>) -> Option<Option<Seq<char>>> {
    match found {
        None => Some(None),
        Some(JsonTree::Null) => Some(None),
        Some(JsonTree::Text(text)) => Some(Some(text)),
        Some(_) => None,
    }
}

/// The record that a JSON value stands for: an object with the members
/// `timestamp`, `command_type`, `input`, `output`, `success` and
/// `duration_ms`, each of its kind, and `error` where there is one. The
/// timestamp may be written with any offset and is read as the same time in
/// UTC. Members of other names are passed over.
pub open spec fn tree_record(tree: JsonTree) -> Option<CommandResultView> {
    match (
        member(tree, "timestamp"@),
        member(tree, "command_type"@),
        member(tree, "input"@),
        member(tree, "output"@),
        member(tree, "success"@),
        member(tree, "duration_ms"@),
    ) {
        (
            Some(JsonTree::Text(stamp)),
            Some(kind),
            Some(input),
            Some(output),
            Some(JsonTree::Bool(success)),
            Some(JsonTree::Unsigned(duration_ms)),
        ) => if utc_timestamp_text(stamp) is Some && tree_kind(kind) is Some && tree_bytes(input)
            is Some && tree_bytes(output) is Some && tree_error(member(tree, "error"@)) is Some {
            Some(
                CommandResultView {
                    timestamp: utc_timestamp_text(stamp)->0,
                    command_type: tree_kind(kind)->0,
                    input: tree_bytes(input)->0,
                    output: tree_bytes(output)->0,
                    success,
                    error: tree_error(member(tree, "error"@))->0,
                    duration_ms,
                },
            )
        } else {
            None
        },
        _ => None,
    }
}

/// The history that a JSON value stands for: an array of records.
pub open spec fn tree_history(tree: JsonTree) -> Option<Seq<CommandResultView>> {
    match tree {
        JsonTree::Array(items) => if forall|i: int|
            0 <= i < items.len() ==> tree_record(#[trigger] items[i]) is Some {
            Some(items.map_values(|t: JsonTree| tree_record(t)->0))
        } else {
            None
        },
        _ => None,
    }
}

/// The JSON value of an optional answer to reset: the array of its bytes, or
/// null.
pub open spec fn atr_tree(atr: Option<Seq<u8>>) -> JsonTree {
    match atr {
        Some(bytes) => bytes_tree(bytes),
        None => JsonTree::Null,
    }
}

/// The JSON object of a reader entry, one member for each field.
pub open spec fn reader_tree(info: ReaderInfoView) -> JsonTree {
    JsonTree::Object(
        Map::empty().insert("name"@, JsonTree::Text(info.name)).insert(
            "is_connected"@,
            JsonTree::Bool(info.is_connected),
        ).insert("atr"@, atr_tree(info.atr)),
    )
}

/// The answer to reset that a member `atr` stands for: none where the member
/// is missing or null, the bytes of an array of bytes, and no reading of any
/// other value.
pub open spec fn tree_atr(found: Option<JsonTree>) -> Option<Option<Seq<u8>>> {
    match found {
        None => Some(None),
        Some(JsonTree::Null) => Some(None),
        Some(tree) => match tree_bytes(tree) {
            Some(bytes) => Some(Some(bytes)),
            None => None,
        },
    }
}

/// The reader entry that a JSON value stands for: an object with the
/// members `name` and `is_connected`, each of its kind, and `atr` where
/// there is one.
pub open spec fn tree_reader(tree: JsonTree) -> Option<ReaderInfoView> {
    match (member(tree, "name"@), member(tree, "is_connected"@)) {
        (Some(JsonTree::Text(name)), Some(JsonTree::Bool(is_connected))) => match tree_atr(
            member(tree, "atr"@),
        ) {
            Some(atr) => Some(ReaderInfoView { name, is_connected, atr }),
            None => None,
        },
        _ => None,
    }
}

/// What reading `text` gives through `reading`: what the text stands for,
/// where it is JSON and `reading` takes its value.
pub open spec fn read_through<T>(text: Seq<char>, reading: spec_fn(JsonTree) -> Option<T>)
    -> Option<T> {
    match json_read(text) {
        Some(tree) => reading(tree),
        None => None,
    }
}

/// What importing `text` adds to a history: the records that the text
/// stands for, where it is JSON and stands for a history.
pub open spec fn imported(text: Seq<char>) -> Option<Seq<CommandResultView>> {
    match json_read(text) {
        Some(tree) => tree_history(tree),
        None => None,
    }
}


/// The names of a record's members differ from one another.
proof fn lemma_member_names()
    ensures
        "timestamp"@ != "command_type"@,
        "timestamp"@ != "input"@,
        "timestamp"@ != "output"@,
        "timestamp"@ != "success"@,
        "timestamp"@ != "error"@,
        "timestamp"@ != "duration_ms"@,
        "command_type"@ != "input"@,
        "command_type"@ != "output"@,
        "command_type"@ != "success"@,
        "command_type"@ != "error"@,
        "command_type"@ != "duration_ms"@,
        "input"@ != "output"@,
        "input"@ != "success"@,
        "input"@ != "error"@,
        "input"@ != "duration_ms"@,
        "output"@ != "success"@,
        "output"@ != "error"@,
        "output"@ != "duration_ms"@,
        "success"@ != "error"@,
        "success"@ != "duration_ms"@,
        "error"@ != "duration_ms"@,
{
    reveal_strlit("timestamp");
    reveal_strlit("command_type");
    reveal_strlit("input");
    reveal_strlit("output");
    reveal_strlit("success");
    reveal_strlit("error");
    reveal_strlit("duration_ms");
    assert("timestamp"@.len() == 9);
    assert("command_type"@.len() == 12);
    assert("input"@.len() == 5);
    assert("output"@.len() == 6);
    assert("success"@.len() == 7);
    assert("error"@.len() == 5);
    assert("duration_ms"@.len() == 11);
    assert("input"@[0] != "error"@[0]);
}

/// The bytes of `bytes_tree` read back.
proof fn lemma_bytes_read_back(bytes: Seq<u8>)
    ensures
        tree_bytes(bytes_tree(bytes)) == Some(bytes),
        is_plain(bytes_tree(bytes)),
{
    let items = bytes.map_values(|b: u8| JsonTree::Unsigned(b as u64));
    assert forall|i: int| 0 <= i < items.len() implies is_byte_tree(#[trigger] items[i]) by {}
    assert(items.map_values(|t: JsonTree| t->Unsigned_0 as u8) =~= bytes);
    assert forall|i: int| 0 <= i < items.len() implies is_plain(#[trigger] items[i]) by {}
}

/// A kind of command reads back from its JSON value as it was.
pub proof fn lemma_kind_reads_back(kind: CommandType)
    ensures
        tree_kind(kind_tree(kind)) == Some(kind),
        is_plain(kind_tree(kind)),
{
    match kind {
        CommandType::Transmit => {},
        CommandType::Control { code } => {
            let inner = Map::<Seq<char>, JsonTree>::empty().insert(
                "code"@,
                JsonTree::Unsigned(code as u64),
            );
            let outer = Map::<Seq<char>, JsonTree>::empty().insert(
                "Control"@,
                JsonTree::Object(inner),
            );
            assert(member(JsonTree::Object(outer), "Control"@) == Some(JsonTree::Object(inner)));
            assert(member(JsonTree::Object(inner), "code"@) == Some(
                JsonTree::Unsigned(code as u64),
            ));
            assert forall|key: Seq<char>| inner.dom().contains(key) implies is_plain(
                #[trigger] inner[key],
            ) by {}
            assert(is_plain(JsonTree::Object(inner)));
            assert forall|key: Seq<char>| outer.dom().contains(key) implies is_plain(
                #[trigger] outer[key],
            ) by {}
        },
    }
}

/// A record reads back from its JSON value as it was, field for field,
/// where its timestamp is one.
pub proof fn lemma_record_reads_back(record: CommandResultView)
    requires
        is_timestamp_text(record.timestamp),
    ensures
        tree_record(record_tree(record)) == Some(record),
        is_plain(record_tree(record)),
{
    lemma_member_names();
    lemma_kind_reads_back(record.command_type);
    lemma_bytes_read_back(record.input);
    lemma_bytes_read_back(record.output);
    let tree = record_tree(record);
    let members = tree->Object_0;
    assert(member(tree, "timestamp"@) == Some(JsonTree::Text(record.timestamp)));
    assert(member(tree, "command_type"@) == Some(kind_tree(record.command_type)));
    assert(member(tree, "input"@) == Some(bytes_tree(record.input)));
    assert(member(tree, "output"@) == Some(bytes_tree(record.output)));
    assert(member(tree, "success"@) == Some(JsonTree::Bool(record.success)));
    assert(member(tree, "error"@) == Some(error_tree(record.error)));
    assert(member(tree, "duration_ms"@) == Some(JsonTree::Unsigned(record.duration_ms)));
    assert(tree_error(Some(error_tree(record.error))) == Some(record.error));
    assert forall|key: Seq<char>| members.dom().contains(key) implies is_plain(
        #[trigger] members[key],
    ) by {
        if key == "timestamp"@ {
        } else if key == "command_type"@ {
        } else if key == "input"@ {
        } else if key == "output"@ {
        } else if key == "success"@ {
        } else if key == "error"@ {
        } else {
            assert(key == "duration_ms"@);
        }
    }
}

/// A reader entry reads back from its JSON value as it was.
pub proof fn lemma_reader_reads_back(info: ReaderInfoView)
    ensures
        tree_reader(reader_tree(info)) == Some(info),
        is_plain(reader_tree(info)),
{
    reveal_strlit("name");
    reveal_strlit("is_connected");
    reveal_strlit("atr");
    assert("name"@.len() == 4);
    assert("is_connected"@.len() == 12);
    assert("atr"@.len() == 3);
    let tree = reader_tree(info);
    let members = tree->Object_0;
    assert(member(tree, "name"@) == Some(JsonTree::Text(info.name)));
    assert(member(tree, "is_connected"@) == Some(JsonTree::Bool(info.is_connected)));
    assert(member(tree, "atr"@) == Some(atr_tree(info.atr)));
    match info.atr {
        Some(bytes) => {
            lemma_bytes_read_back(bytes);
        },
        None => {},
    }
    assert(tree_atr(Some(atr_tree(info.atr))) == Some(info.atr));
    assert forall|key: Seq<char>| members.dom().contains(key) implies is_plain(
        #[trigger] members[key],
    ) by {
        if key == "name"@ {
        } else if key == "is_connected"@ {
        } else {
            assert(key == "atr"@);
        }
    }
}

/// A history reads back from its JSON value as it was: every record, field
/// for field, in the same order.
pub proof fn lemma_history_reads_back(history: Seq<CommandResultView>)
    requires
        forall|i: int| 0 <= i < history.len() ==> is_timestamp_text(#[trigger] history[i].timestamp),
    ensures
        tree_history(history_tree(history)) == Some(history),
        is_plain(history_tree(history)),
{
    let items = history.map_values(|r: CommandResultView| record_tree(r));
    assert forall|i: int| 0 <= i < items.len() implies tree_record(#[trigger] items[i]) == Some(
        history[i],
    ) && is_plain(items[i]) by {
        lemma_record_reads_back(history[i]);
    }
    assert(items.map_values(|t: JsonTree| tree_record(t)->0) =~= history);
}

/// Tells whether two texts are the same.
fn same_text(a: &str, b: &str) -> (same: bool)
    ensures
        same == (a@ == b@),
{
    let x = to_chars(a);
    let y = to_chars(b);
    if x.len() != y.len() {
        return false;
    }
    let mut i: usize = 0;
    while i < x.len()
        invariant
            x.len() == y.len(),
            x@ == a@,
            y@ == b@,
            i <= x.len(),
            forall|k: int| 0 <= k < i ==> x@[k] == y@[k],
        decreases x.len() - i,
    {
        if x[i] != y[i] {
            return false;
        }
        i += 1;
    }
    assert(x@ =~= y@);
    true
}

/// The JSON value of `bytes`: the array of their numbers.
pub fn bytes_to_json(bytes: &Vec<u8>) -> (v: serde_json::Value)
    ensures
        json_tree(v) == bytes_tree(bytes@),
{
    let mut items: Vec<serde_json::Value> = Vec::new();
    let mut i: usize = 0;
    let ghost number = |b: u8| JsonTree::Unsigned(b as u64);
    assert(json_trees(items@) =~= bytes@.take(0).map_values(number));
    while i < bytes.len()
        invariant
            i <= bytes.len(),
            number == (|b: u8| JsonTree::Unsigned(b as u64)),
            json_trees(items@) == bytes@.take(i as int).map_values(number),
        decreases bytes.len() - i,
    {
        let item = json_unsigned(bytes[i] as u64);
        proof {
            assert(json_trees(items@.push(item)) =~= json_trees(items@).push(json_tree(item)));
            assert(bytes@.take(i + 1) == bytes@.take(i as int).push(bytes@[i as int]));
            assert(bytes@.take(i + 1).map_values(number) =~= bytes@.take(i as int).map_values(
                number,
            ).push(number(bytes@[i as int])));
        }
        items.push(item);
        i += 1;
    }
    assert(bytes@.take(bytes@.len() as int) == bytes@);
    json_array(items)
}

/// The JSON value of `kind`: the string `Transmit`, or an object whose
/// member `Control` holds the code.
pub fn kind_to_json(kind: CommandType) -> (v: serde_json::Value)
    ensures
        json_tree(v) == kind_tree(kind),
{
    match kind {
        CommandType::Transmit => json_text("Transmit"),
        CommandType::Control { code } => {
            let inner = json_with(json_object(), "code", json_unsigned(code as u64));
            json_with(json_object(), "Control", inner)
        },
    }
}

/// The JSON value of `record`: an object with one member for each field.
pub fn record_to_json(record: &CommandResult) -> (v: serde_json::Value)
    ensures
        json_tree(v) == record_tree(record@),
{
    let v = json_object();
    let v = json_with(v, "timestamp", json_text(record.timestamp.as_str()));
    let v = json_with(v, "command_type", kind_to_json(record.command_type));
    let v = json_with(v, "input", bytes_to_json(&record.input));
    let v = json_with(v, "output", bytes_to_json(&record.output));
    let v = json_with(v, "success", json_bool(record.success));
    let error = match &record.error {
        Some(text) => json_text(text.as_str()),
        None => json_null(),
    };
    let v = json_with(v, "error", error);
    json_with(v, "duration_ms", json_unsigned(record.duration_ms))
}

/// The JSON value of `history`; every timestamp in it reads as one.
pub fn history_to_json(history: &Vec<CommandResult>) -> (v: serde_json::Value)
    ensures
        json_tree(v) == history_tree(record_views(history@)),
        forall|i: int|
            0 <= i < history@.len() ==> is_timestamp_text(
                #[trigger] record_views(history@)[i].timestamp,
            ),
{
    let mut items: Vec<serde_json::Value> = Vec::new();
    let mut i: usize = 0;
    let ghost views = record_views(history@);
    let ghost tree = |r: CommandResultView| record_tree(r);
    assert(json_trees(items@) =~= views.take(0).map_values(tree));
    while i < history.len()
        invariant
            i <= history.len(),
            views == record_views(history@),
            tree == (|r: CommandResultView| record_tree(r)),
            json_trees(items@) == views.take(i as int).map_values(tree),
            forall|k: int| 0 <= k < i ==> is_timestamp_text(#[trigger] views[k].timestamp),
        decreases history.len() - i,
    {
        let record = &history[i];
        let item = record_to_json(record);
        proof {
            use_type_invariant(&record.timestamp);
            assert(views[i as int] == history@[i as int]@);
            assert(json_trees(items@.push(item)) =~= json_trees(items@).push(json_tree(item)));
            assert(views.take(i + 1) == views.take(i as int).push(views[i as int]));
            assert(views.take(i + 1).map_values(tree) =~= views.take(i as int).map_values(
                tree,
            ).push(tree(views[i as int])));
        }
        items.push(item);
        i += 1;
    }
    assert(views.take(views.len() as int) == views);
    json_array(items)
}

/// The bytes that `v` stands for, where it is an array of whole numbers
/// from 0 to 255.
pub fn json_to_bytes(v: &serde_json::Value) -> (r: Option<Vec<u8>>)
    ensures
        match tree_bytes(json_tree(*v)) {
            Some(bytes) => r matches Some(found) && found@ == bytes,
            None => r is None,
        },
{
    let items = match json_items(v) {
        Some(items) => items,
        None => {
            return None;
        },
    };
    let ghost trees = json_trees(items@);
    let mut bytes: Vec<u8> = Vec::new();
    let mut i: usize = 0;
    while i < items.len()
        invariant
            i <= items.len(),
            trees == json_trees(items@),
            json_tree(*v) == JsonTree::Array(trees),
            bytes@.len() == i,
            forall|k: int| 0 <= k < i ==> is_byte_tree(#[trigger] trees[k]),
            forall|k: int| 0 <= k < i ==> bytes@[k] == trees[k]->Unsigned_0 as u8,
        decreases items.len() - i,
    {
        assert(trees[i as int] == json_tree(items@[i as int]));
        match json_as_unsigned(&items[i]) {
            Some(n) => {
                if n > 255 {
                    assert(!is_byte_tree(trees[i as int]));
                    return None;
                }
                bytes.push(n as u8);
            },
            None => {
                assert(!is_byte_tree(trees[i as int]));
                return None;
            },
        }
        i += 1;
    }
    assert(bytes@ =~= trees.map_values(|t: JsonTree| t->Unsigned_0 as u8));
    Some(bytes)
}

/// The kind of command that `v` stands for, where it stands for one.
pub fn json_to_kind(v: &serde_json::Value) -> (r: Option<CommandType>)
    ensures
        r == tree_kind(json_tree(*v)),
{
    match json_as_text(v) {
        Some(name) => {
            if same_text(name.as_str(), "Transmit") {
                Some(CommandType::Transmit)
            } else {
                None
            }
        },
        None => {
            let inner = match json_member(v, "Control") {
                Some(inner) => inner,
                None => {
                    return None;
                },
            };
            let code = match json_member(&inner, "code") {
                Some(code) => code,
                None => {
                    return None;
                },
            };
            match json_as_unsigned(&code) {
                Some(n) => if n <= 0xFFFF_FFFF {
                    Some(CommandType::Control { code: n as u32 })
                } else {
                    None
                },
                None => None,
            }
        },
    }
}

/// The record that `v` stands for, where it is an object with every
/// required member, each of its kind. A member `error` that is missing or
/// null is no error; members of other names are passed over.
pub fn json_to_record(v: &serde_json::Value) -> (r: Option<CommandResult>)
    ensures
        match tree_record(json_tree(*v)) {
            Some(record) => r matches Some(found) && found@ == record,
            None => r is None,
        },
{
    let timestamp = match json_member(v, "timestamp") {
        Some(found) => match json_as_text(&found) {
            Some(text) => match Timestamp::parse(text.as_str()) {
                Some(timestamp) => timestamp,
                None => {
                    return None;
                },
            },
            None => {
                return None;
            },
        },
        None => {
            return None;
        },
    };
    let command_type = match json_member(v, "command_type") {
        Some(found) => match json_to_kind(&found) {
            Some(kind) => kind,
            None => {
                return None;
            },
        },
        None => {
            return None;
        },
    };
    let input = match json_member(v, "input") {
        Some(found) => match json_to_bytes(&found) {
            Some(bytes) => bytes,
            None => {
                return None;
            },
        },
        None => {
            return None;
        },
    };
    let output = match json_member(v, "output") {
        Some(found) => match json_to_bytes(&found) {
            Some(bytes) => bytes,
            None => {
                return None;
            },
        },
        None => {
            return None;
        },
    };
    let success = match json_member(v, "success") {
        Some(found) => match json_as_bool(&found) {
            Some(b) => b,
            None => {
                return None;
            },
        },
        None => {
            return None;
        },
    };
    let duration_ms = match json_member(v, "duration_ms") {
        Some(found) => match json_as_unsigned(&found) {
            Some(n) => n,
            None => {
                return None;
            },
        },
        None => {
            return None;
        },
    };
    let error = match json_member(v, "error") {
        Some(found) => {
            if json_is_null(&found) {
                None
            } else {
                match json_as_text(&found) {
                    Some(text) => Some(text),
                    None => {
                        return None;
                    },
                }
            }
        },
        None => None,
    };
    Some(CommandResult { timestamp, command_type, input, output, success, error, duration_ms })
}

/// The history that `v` stands for, where it is an array of records. One
/// item that is no record spoils the whole.
pub fn json_to_history(v: &serde_json::Value) -> (r: Option<Vec<CommandResult>>)
    ensures
        match tree_history(json_tree(*v)) {
            Some(history) => r matches Some(found) && record_views(found@) == history,
            None => r is None,
        },
{
    let items = match json_items(v) {
        Some(items) => items,
        None => {
            return None;
        },
    };
    let ghost trees = json_trees(items@);
    let mut records: Vec<CommandResult> = Vec::new();
    let mut i: usize = 0;
    while i < items.len()
        invariant
            i <= items.len(),
            trees == json_trees(items@),
            json_tree(*v) == JsonTree::Array(trees),
            records@.len() == i,
            forall|k: int| 0 <= k < i ==> tree_record(#[trigger] trees[k]) is Some,
            forall|k: int| 0 <= k < i ==> records@[k]@ == tree_record(trees[k])->0,
        decreases items.len() - i,
    {
        assert(trees[i as int] == json_tree(items@[i as int]));
        match json_to_record(&items[i]) {
            Some(record) => {
                records.push(record);
            },
            None => {
                return None;
            },
        }
        i += 1;
    }
    assert(record_views(records@) =~= trees.map_values(|t: JsonTree| tree_record(t)->0));
    Some(records)
}

/// The JSON value of `info`: an object with one member for each field.
pub fn reader_to_json(info: &ReaderInfo) -> (v: serde_json::Value)
    ensures
        json_tree(v) == reader_tree(info@),
{
    let v = json_object();
    let v = json_with(v, "name", json_text(info.name.as_str()));
    let v = json_with(v, "is_connected", json_bool(info.is_connected));
    let atr = match &info.atr {
        Some(bytes) => bytes_to_json(bytes),
        None => json_null(),
    };
    json_with(v, "atr", atr)
}

/// The reader entry that `v` stands for, where it is an object with the
/// members `name` and `is_connected`, each of its kind. A member `atr` that
/// is missing or null is no answer to reset.
pub fn json_to_reader(v: &serde_json::Value) -> (r: Option<ReaderInfo>)
    ensures
        match tree_reader(json_tree(*v)) {
            Some(info) => r matches Some(found) && found@ == info,
            None => r is None,
        },
{
    let name = match json_member(v, "name") {
        Some(found) => match json_as_text(&found) {
            Some(text) => text,
            None => {
                return None;
            },
        },
        None => {
            return None;
        },
    };
    let is_connected = match json_member(v, "is_connected") {
        Some(found) => match json_as_bool(&found) {
            Some(b) => b,
            None => {
                return None;
            },
        },
        None => {
            return None;
        },
    };
    let atr = match json_member(v, "atr") {
        Some(found) => {
            if json_is_null(&found) {
                None
            } else {
                match json_to_bytes(&found) {
                    Some(bytes) => Some(bytes),
                    None => {
                        return None;
                    },
                }
            }
        },
        None => None,
    };
    Some(ReaderInfo { name, is_connected, atr })
}

impl ReaderInfo {
    /// Writes the entry as JSON text on one line: the text that `serde_json`
    /// writes for the entry's JSON value, where it writes one. That value
    /// stands for the entry: read back, it gives every field as it was.
    pub fn to_json(&self) -> (r: Option<String>)
        ensures
            tree_reader(reader_tree(self@)) == Some(self@),
            match json_written_compact(reader_tree(self@)) {
                Some(text) => r matches Some(written) && written@ == text,
                None => r is None,
            },
    {
        let value = reader_to_json(self);
        proof {
            lemma_reader_reads_back(self@);
        }
        json_print_compact(&value)
    }

    /// Reads an entry from JSON text, where the text is JSON and stands for
    /// one.
    pub fn from_json(text: &str) -> (r: Option<ReaderInfo>)
        ensures
            match read_through(text@, |tree: JsonTree| tree_reader(tree)) {
                Some(info) => r matches Some(found) && found@ == info,
                None => r is None,
            },
    {
        match json_parse(text) {
            Some(value) => json_to_reader(&value),
            None => None,
        }
    }
}

impl CommandType {
    /// Writes the kind as JSON text on one line: the text that `serde_json`
    /// writes for the kind's JSON value, where it writes one. That value
    /// stands for the kind: read back, it gives the kind as it was.
    pub fn to_json(&self) -> (r: Option<String>)
        ensures
            tree_kind(kind_tree(*self)) == Some(*self),
            match json_written_compact(kind_tree(*self)) {
                Some(text) => r matches Some(written) && written@ == text,
                None => r is None,
            },
    {
        let value = kind_to_json(*self);
        proof {
            lemma_kind_reads_back(*self);
        }
        json_print_compact(&value)
    }

    /// Reads a kind from JSON text, where the text is JSON and stands for
    /// one.
    pub fn from_json(text: &str) -> (r: Option<CommandType>)
        ensures
            r == read_through(text@, |tree: JsonTree| tree_kind(tree)),
    {
        match json_parse(text) {
            Some(value) => json_to_kind(&value),
            None => None,
        }
    }
}

impl CommandResult {
    /// Writes the record as JSON text on one line: the text that
    /// `serde_json` writes for the record's JSON value, where it writes one.
    /// That value stands for the record: read back, it gives every field as
    /// it was.
    pub fn to_json(&self) -> (r: Option<String>)
        ensures
            tree_record(record_tree(self@)) == Some(self@),
            match json_written_compact(record_tree(self@)) {
                Some(text) => r matches Some(written) && written@ == text,
                None => r is None,
            },
    {
        let value = record_to_json(self);
        proof {
            use_type_invariant(&self.timestamp);
            lemma_record_reads_back(self@);
        }
        json_print_compact(&value)
    }

    /// Reads a record from JSON text, where the text is JSON and stands for
    /// one.
    pub fn from_json(text: &str) -> (r: Option<CommandResult>)
        ensures
            match read_through(text@, |tree: JsonTree| tree_record(tree)) {
                Some(record) => r matches Some(found) && found@ == record,
                None => r is None,
            },
    {
        match json_parse(text) {
            Some(value) => json_to_record(&value),
            None => None,
        }
    }
}

impl CommandExecutor {
    /// Writes the history as JSON text: the text that `serde_json` writes,
    /// indented, for the history's JSON value, an array with one object for
    /// each record, oldest first. Only where `serde_json` writes no text is
    /// there an error. The value stands for the history: read back, it gives
    /// every record as it was.
    pub fn export_history(&self) -> (r: Result<String, Error>)
        ensures
            tree_history(history_tree(self@)) == Some(self@),
            match json_written(history_tree(self@)) {
                Some(text) => r matches Ok(written) && written@ == text,
                None => r matches Err(Error::MalformedHistory(reason)) && reason@
                    == "the history could not be written"@,
            },
    {
        let value = history_to_json(self.history());
        proof {
            lemma_history_reads_back(self@);
        }
        match json_print(&value) {
            Some(text) => Ok(text),
            None => Err(Error::MalformedHistory(owned("the history could not be written"))),
        }
    }

    /// Reads a history from JSON text and appends it to the history, in its
    /// order. Text that is not JSON, or that does not stand for a history,
    /// is refused, and then the history stays as it was: either every
    /// record is appended or none.
    pub fn import_history(&mut self, json: &str) -> (r: Result<(), Error>)
        ensures
            match imported(json@) {
                Some(records) => r is Ok && final(self)@ == old(self)@ + records,
                None => r matches Err(Error::MalformedHistory(reason)) && reason@ == (
                if json_read(json@) is None {
                    "the text is not JSON"@
                } else {
                    "the text is not a list of command records"@
                }) && final(self)@ == old(self)@,
            },
    {
        let value = match json_parse(json) {
            Some(value) => value,
            None => {
                return Err(Error::MalformedHistory(owned("the text is not JSON")));
            },
        };
        match json_to_history(&value) {
            Some(records) => {
                self.extend_history(records);
                Ok(())
            },
            None => Err(
                Error::MalformedHistory(owned("the text is not a list of command records")),
            ),
        }
    }
}

} // verus!
