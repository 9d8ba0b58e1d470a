//! JSON values as plain data, read and written through `serde_json`.
//!
//! [`Json`] is the library's own tree. Its view [`JsonValue`] says what a value is: a number is
//! an unsigned integer, a negative integer or the bits of a double, and an object is a map from
//! names to values.
use crate::span::{Span, NANOS_PER_SECOND};
use crate::text;
use crate::text::same_text;
use serde_json::{Number, Value};
use vstd::prelude::*;

verus! {

/// The JSON value type of `serde_json`.
#[verifier::external_type_specification]
#[verifier::external_body]
pub struct ExValue(serde_json::Value);

/// The JSON number type of `serde_json`.
#[verifier::external_type_specification]
#[verifier::external_body]
pub struct ExNumber(serde_json::Number);

/// A JSON number that is neither an unsigned nor a negative 64-bit integer: its bits as a double,
/// and the number as `serde_json` holds it.
pub struct FloatNumber(u64, Number);

/// A JSON number that is an integer below zero.
pub struct NegativeNumber(i64);

/// A JSON number.
pub enum JsonNumber {
    /// An integer from zero up.
    Unsigned(u64),
    /// An integer below zero.
    Negative(NegativeNumber),
    /// Any other finite number.
    Float(FloatNumber),
}

/// A JSON value.
pub enum Json {
    /// The null value.
    Null,
    /// A truth value.
    Bool(bool),
    /// A number.
    Number(JsonNumber),
    /// A text.
    Text(String),
    /// A list of values.
    Array(Vec<Json>),
    /// Named values. Where a name occurs twice, the later entry counts.
    Object(Vec<(String, Json)>),
}

/// What a JSON number is.
pub enum NumberValue {
    /// An integer from zero up.
    Unsigned(u64),
    /// An integer below zero.
    Negative(i64),
    /// The bits of a double.
    Float(u64),
}

/// What a JSON value is.
pub enum JsonValue {
    /// The null value.
    Null,
    /// A truth value.
    Bool(bool),
    /// A number.
    Number(NumberValue),
    /// A text.
    Text(Seq<char>),
    /// A list of values.
    Array(Seq<JsonValue>),
    /// Named values.
    Object(Map<Seq<char>, JsonValue>),
}

impl FloatNumber {
    /// The number as `serde_json` holds it.
    pub(crate) fn raw(&self) -> &Number {
        &self.1
    }
}

impl NegativeNumber {
    /// The number.
    pub fn get(&self) -> (r: i64)
        ensures
            r == self@,
    {
        self.0
    }
}

impl View for NegativeNumber {
    type V = i64;

    closed spec fn view(&self) -> i64 {
        self.0
    }
}

impl JsonNumber {
    /// An integer as a JSON number.
    pub fn signed(n: i64) -> (r: JsonNumber)
        ensures
            r@ == (if n < 0 {
                NumberValue::Negative(n)
            } else {
                NumberValue::Unsigned(n as u64)
            }),
    {
        if n < 0 {
            JsonNumber::Negative(NegativeNumber(n))
        } else {
            JsonNumber::Unsigned(n as u64)
        }
    }
}

impl View for FloatNumber {
    type V = u64;

    closed spec fn view(&self) -> u64 {
        self.0
    }
}

impl View for JsonNumber {
    type V = NumberValue;

    open spec fn view(&self) -> NumberValue {
        match *self {
            JsonNumber::Unsigned(n) => NumberValue::Unsigned(n),
            JsonNumber::Negative(n) => NumberValue::Negative(n@),
            JsonNumber::Float(f) => NumberValue::Float(f@),
        }
    }
}

/// What a JSON value is.
pub open spec fn json_value(j: Json) -> JsonValue
    decreases j,
{
    match j {
        Json::Null => JsonValue::Null,
        Json::Bool(b) => JsonValue::Bool(b),
        Json::Number(n) => JsonValue::Number(n@),
        Json::Text(s) => JsonValue::Text(s@),
        Json::Array(items) => JsonValue::Array(
            Seq::new(
                items@.len(),
                |i: int|
                    if 0 <= i < items@.len() {
                        json_value(items@[i])
                    } else {
                        JsonValue::Null
                    },
            ),
        ),
        Json::Object(entries) => JsonValue::Object(object_value(entries@)),
    }
}

/// The map that a list of entries stands for.
pub open spec fn object_value(entries: Seq<(String, Json)>) -> Map<Seq<char>, JsonValue>
    decreases entries,
{
    if entries.len() == 0 {
        Map::empty()
    } else {
        object_value(entries.drop_last()).insert(
            entries[entries.len() - 1].0@,
            json_value(entries[entries.len() - 1].1),
        )
    }
}

/// One more entry adds its value under its name.
pub proof fn lemma_object_push(entries: Seq<(String, Json)>, entry: (String, Json))
    ensures
        object_value(entries.push(entry)) == object_value(entries).insert(
            entry.0@,
            json_value(entry.1),
        ),
{
    assert(entries.push(entry).drop_last() =~= entries);
}

impl View for Json {
    type V = JsonValue;

    open spec fn view(&self) -> JsonValue {
        json_value(*self)
    }
}

/// The entry that counts for a name.
pub open spec fn lookup(entries: Seq<(String, Json)>, name: Seq<char>) -> Option<Json>
    decreases entries.len(),
{
    if entries.len() == 0 {
        None
    } else if entries.last().0@ == name {
        Some(entries.last().1)
    } else {
        lookup(entries.drop_last(), name)
    }
}

/// Law: looking a name up in the entries gives what the object holds under that name.
pub proof fn law_lookup_reads_object(entries: Seq<(String, Json)>, name: Seq<char>)
    ensures
        match lookup(entries, name) {
            Some(j) => object_value(entries).dom().contains(name) && object_value(entries)[name]
                == json_value(j),
            None => !object_value(entries).dom().contains(name),
        },
    decreases entries.len(),
{
    if entries.len() > 0 {
        law_lookup_reads_object(entries.drop_last(), name);
    }
}

/// A text comes strictly before another.
pub open spec fn precedes(a: Seq<char>, b: Seq<char>) -> bool {
    text::at_most(a, b) && a != b
}

/// The names of the entries ascend, so none occurs twice.
pub open spec fn ascending(entries: Seq<(String, Json)>) -> bool {
    forall|i: int, j: int|
        0 <= i < j < entries.len() ==> precedes(
            (#[trigger] entries[i]).0@,
            (#[trigger] entries[j]).0@,
        )
}

/// The names of every object in the value ascend.
pub open spec fn canonical(j: Json) -> bool
    decreases j,
{
    match j {
        Json::Array(items) => forall|i: int|
            0 <= i < items@.len() ==> canonical(#[trigger] items@[i]),
        Json::Object(entries) => ascending(entries@) && forall|i: int|
            0 <= i < entries@.len() ==> canonical((#[trigger] entries@[i]).1),
        _ => true,
    }
}

/// What an object holds under a name is what one of its entries says.
proof fn lemma_named(entries: Seq<(String, Json)>, name: Seq<char>) -> (i: int)
    requires
        object_value(entries).dom().contains(name),
    ensures
        0 <= i < entries.len(),
        entries[i].0@ == name,
        object_value(entries)[name] == json_value(entries[i].1),
    decreases entries.len(),
{
    if entries.last().0@ == name {
        entries.len() - 1
    } else {
        let i = lemma_named(entries.drop_last(), name);
        assert(entries.drop_last()[i] == entries[i]);
        i
    }
}

proof fn lemma_has_name(entries: Seq<(String, Json)>, i: int)
    requires
        0 <= i < entries.len(),
    ensures
        object_value(entries).dom().contains(entries[i].0@),
    decreases entries.len(),
{
    if i < entries.len() - 1 {
        lemma_has_name(entries.drop_last(), i);
        assert(entries.drop_last()[i] == entries[i]);
    }
}

/// Where the names ascend, every entry is what the object holds under its name.
pub proof fn lemma_entry_counts(entries: Seq<(String, Json)>, i: int)
    requires
        ascending(entries),
        0 <= i < entries.len(),
    ensures
        object_value(entries).dom().contains(entries[i].0@),
        object_value(entries)[entries[i].0@] == json_value(entries[i].1),
{
    lemma_has_name(entries, i);
    let k = lemma_named(entries, entries[i].0@);
    if k < i {
        assert(precedes(entries[k].0@, entries[i].0@));
    } else if i < k {
        assert(precedes(entries[i].0@, entries[k].0@));
    }
}

/// Law: where the names of two objects ascend and both are the same object, their entries are the
/// same, one by one.
pub proof fn law_ascending_entries_are_determined(
    a: Seq<(String, Json)>,
    b: Seq<(String, Json)>,
)
    requires
        ascending(a),
        ascending(b),
        object_value(a) == object_value(b),
    ensures
        a.len() == b.len(),
        forall|i: int|
            0 <= i < a.len() ==> (#[trigger] a[i]).0@ == b[i].0@ && json_value(a[i].1)
                == json_value(b[i].1),
    decreases a.len(),
{
    if a.len() == 0 {
        if b.len() > 0 {
            lemma_has_name(b, 0);
        }
    } else if b.len() == 0 {
        lemma_has_name(a, 0);
    } else {
        let x = a.last();
        let y = b.last();
        lemma_has_name(a, a.len() - 1);
        lemma_has_name(b, b.len() - 1);
        let i = lemma_named(b, x.0@);
        let k = lemma_named(a, y.0@);
        if i < b.len() - 1 && k < a.len() - 1 {
            assert(precedes(b[i].0@, b[b.len() - 1].0@));
            assert(precedes(a[k].0@, a[a.len() - 1].0@));
            text::lemma_at_most_antisymmetric(x.0@, y.0@);
        } else if i < b.len() - 1 {
            assert(x.0@ == y.0@);
            assert(precedes(b[i].0@, b[b.len() - 1].0@));
        }
        assert(x.0@ == y.0@);
        assert(json_value(x.1) == json_value(y.1));
        let p = a.drop_last();
        let q = b.drop_last();
        assert(!object_value(p).dom().contains(x.0@)) by {
            if object_value(p).dom().contains(x.0@) {
                let n = lemma_named(p, x.0@);
                assert(precedes(a[n].0@, a[a.len() - 1].0@));
            }
        }
        assert(!object_value(q).dom().contains(x.0@)) by {
            if object_value(q).dom().contains(x.0@) {
                let n = lemma_named(q, x.0@);
                assert(precedes(b[n].0@, b[b.len() - 1].0@));
            }
        }
        assert(object_value(p) =~= object_value(a).remove(x.0@));
        assert(object_value(q) =~= object_value(b).remove(x.0@));
        assert(ascending(p)) by {
            assert forall|s: int, t: int| 0 <= s < t < p.len() implies precedes(
                (#[trigger] p[s]).0@,
                (#[trigger] p[t]).0@,
            ) by {
                assert(precedes(a[s].0@, a[t].0@));
            }
        }
        assert(ascending(q)) by {
            assert forall|s: int, t: int| 0 <= s < t < q.len() implies precedes(
                (#[trigger] q[s]).0@,
                (#[trigger] q[t]).0@,
            ) by {
                assert(precedes(b[s].0@, b[t].0@));
            }
        }
        law_ascending_entries_are_determined(p, q);
        assert forall|s: int| 0 <= s < a.len() implies (#[trigger] a[s]).0@ == b[s].0@
            && json_value(a[s].1) == json_value(b[s].1) by {
            if s < a.len() - 1 {
                assert(p[s] == a[s]);
                assert(q[s] == b[s]);
            }
        }
    }
}

/// What `serde_json::Value` holds.
pub uninterp spec fn value_contents(value: Value) -> JsonValue;

/// What `serde_json::from_str::<Value>` makes of a text: a value, or the text of its error.
pub uninterp spec fn parsed_json(text: Seq<char>) -> Result<JsonValue, Seq<char>>;

/// What `serde_json::from_slice::<Value>` makes of some bytes: a value, or the text of its error.
pub uninterp spec fn parsed_json_bytes(bytes: Seq<u8>) -> Result<JsonValue, Seq<char>>;

/// The compact text that `serde_json` writes for a value.
pub uninterp spec fn printed_json(value: JsonValue) -> Seq<char>;

/// The indented text that `serde_json` writes for a value.
pub uninterp spec fn printed_pretty(value: JsonValue) -> Seq<char>;

/// The number that `serde_json` holds for `Duration::new(seconds, nanos).as_secs_f64()`.
pub uninterp spec fn duration_number(seconds: u64, nanos: u32) -> NumberValue;

/// `serde_json::from_str`: reads a text as one JSON value, and gives the text of the error where
/// it is none.
#[verifier::external_body]
fn value_of_text(text: &str) -> (r: Result<Value, String>)
    ensures
        match r {
            Ok(value) => parsed_json(text@) == Ok::<JsonValue, Seq<char>>(value_contents(value)),
            Err(message) => parsed_json(text@) == Err::<JsonValue, Seq<char>>(message@),
        },
{
    serde_json::from_str::<Value>(text).map_err(|error| error.to_string())
}

/// `serde_json::from_slice`: reads bytes as one JSON value, and gives the text of the error where
/// they are none.
#[verifier::external_body]
fn value_of_bytes(bytes: &[u8]) -> (r: Result<Value, String>)
    ensures
        match r {
            Ok(value) => parsed_json_bytes(bytes@) == Ok::<JsonValue, Seq<char>>(
                value_contents(value),
            ),
            Err(message) => parsed_json_bytes(bytes@) == Err::<JsonValue, Seq<char>>(message@),
        },
{
    serde_json::from_slice::<Value>(bytes).map_err(|error| error.to_string())
}

/// Takes a `serde_json::Value` apart into the library's own tree. A `serde_json::Number` tells by
/// `as_u64` and `as_i64` which of its three forms it has; the bits of a double are those that
/// `as_f64` gives. The map of an object is walked in the ascending order of its names.
#[verifier::external_body]
fn json_of_value(value: Value) -> (r: Json)
    ensures
        r@ == value_contents(value),
        canonical(r),
{
    match value {
        Value::Null => Json::Null,
        Value::Bool(b) => Json::Bool(b),
        Value::Number(n) => Json::Number(match (n.as_u64(), n.as_i64()) {
            (Some(u), _) => JsonNumber::Unsigned(u),
            (_, Some(i)) => JsonNumber::Negative(NegativeNumber(i)),
            _ => JsonNumber::Float(FloatNumber(n.as_f64().unwrap_or_default().to_bits(), n))
        }),
        Value::String(s) => Json::Text(s),
        Value::Array(v) => Json::Array(v.into_iter().map(json_of_value).collect()),
        Value::Object(m) => Json::Object(m.into_iter().map(|(k, v)| (k, json_of_value(v))).collect())
    }
}

/// The object that stands for a value whose JSON text was cut after `prefix`.
pub open spec fn cut_short(prefix: Seq<char>) -> JsonValue {
    JsonValue::Object(
        Map::empty().insert("truncated"@, JsonValue::Bool(true)).insert(
            "context_json_prefix"@,
            JsonValue::Text(prefix),
        ),
    )
}

/// The bytes of `{"context_json_prefix":"","truncated":true}`.
pub const CUT_SHORT_BYTES: usize = 43;

/// The value holds no double, and its lists and objects are nested at most `depth` deep.
pub open spec fn whole_within(value: JsonValue, depth: nat) -> bool
    decreases depth,
{
    match value {
        JsonValue::Number(n) => !(n is Float),
        JsonValue::Array(items) => depth > 0 && forall|i: int|
            0 <= i < items.len() ==> whole_within(#[trigger] items[i], (depth - 1) as nat),
        JsonValue::Object(m) => depth > 0 && forall|name: Seq<char>|
            m.dom().contains(name) ==> whole_within(#[trigger] m[name], (depth - 1) as nat),
        _ => true,
    }
}

/// How deep the lists and objects may be nested in a value that is surely read back.
pub const MAX_NESTING: u8 = 100;

/// The text is read as the value, where that holds no double and is not nested too deep.
pub open spec fn read_back(text: Seq<char>, value: JsonValue) -> bool {
    whole_within(value, MAX_NESTING as nat) ==> parsed_json(text) == Ok::<JsonValue, Seq<char>>(
        value,
    )
}

/// `serde_json::Value::to_string`: writes a value as compact JSON. Of an object that holds a cut
/// text and the mark that it was cut, it writes the names and the mark in 43 bytes, and each byte
/// of the text in at most six, as `\u0000`. `serde_json::from_str` reads back what was written for
/// a value without doubles that is nested less deep than its limit of 127 levels; of doubles
/// nothing is said, since their digits are read back only approximately.
#[verifier::external_body]
fn text_of_value(value: &Value) -> (r: String)
    ensures
        r@ == printed_json(value_contents(*value)),
        forall|prefix: Seq<char>|
            value_contents(*value) == #[trigger] cut_short(prefix) ==> text::byte_len(r@)
                <= CUT_SHORT_BYTES + 6 * text::byte_len(prefix) && (prefix.len() == 0
                ==> text::byte_len(r@) == CUT_SHORT_BYTES),
        read_back(r@, value_contents(*value)),
{
    value.to_string()
}

/// `{:#}` of a `serde_json::Value`: writes a value as indented JSON.
#[verifier::external_body]
fn pretty_text_of_value(value: &Value) -> (r: String)
    ensures
        r@ == printed_pretty(value_contents(*value)),
{
    format!("{:#}", value)
}

/// `serde_json::Value::from` of `Duration::as_secs_f64`: a number of seconds as a JSON number.
#[verifier::external_body]
fn value_of_duration(seconds: u64, nanos: u32) -> (r: Value)
    requires
        nanos < 1_000_000_000,
    ensures
        value_contents(r) == JsonValue::Number(duration_number(seconds, nanos)),
{
    Value::from(std::time::Duration::new(seconds, nanos).as_secs_f64())
}

/// Puts the library's own tree together as a `serde_json::Value`. Entries go into the
/// `serde_json` map in order, so a later entry replaces an earlier one of the same name.
#[verifier::external_body]
fn value_of_json(json: &Json) -> (r: Value)
    ensures
        value_contents(r) == json@,
{
    match json {
        Json::Null => Value::Null,
        Json::Bool(b) => Value::Bool(*b),
        Json::Number(JsonNumber::Unsigned(n)) => Value::from(*n),
        Json::Number(JsonNumber::Negative(n)) => Value::from(n.0),
        Json::Number(JsonNumber::Float(f)) => Value::Number(f.1.clone()),
        Json::Text(s) => Value::String(s.clone()),
        Json::Array(v) => Value::Array(v.iter().map(value_of_json).collect()),
        Json::Object(m) => Value::Object(
            m.iter().map(|(k, v)| (k.clone(), value_of_json(v))).collect(),
        ),
    }
}

/// Reads a text as one JSON value, and gives the text of the error where it is none.
pub fn parse_json(text: &str) -> (r: Result<Json, String>)
    ensures
        match r {
            Ok(json) => parsed_json(text@) == Ok::<JsonValue, Seq<char>>(json@) && canonical(json),
            Err(message) => parsed_json(text@) == Err::<JsonValue, Seq<char>>(message@),
        },
{
    match value_of_text(text) {
        Ok(value) => Ok(json_of_value(value)),
        Err(message) => Err(message),
    }
}

/// Reads bytes as one JSON value, and gives the text of the error where they are none.
pub fn parse_json_bytes(bytes: &[u8]) -> (r: Result<Json, String>)
    ensures
        match r {
            Ok(json) => parsed_json_bytes(bytes@) == Ok::<JsonValue, Seq<char>>(json@)
                && canonical(json),
            Err(message) => parsed_json_bytes(bytes@) == Err::<JsonValue, Seq<char>>(message@),
        },
{
    match value_of_bytes(bytes) {
        Ok(value) => Ok(json_of_value(value)),
        Err(message) => Err(message),
    }
}

/// Takes a `serde_json::Value` over as the library's own tree.
pub fn from_value(value: Value) -> (r: Json)
    ensures
        r@ == value_contents(value),
        canonical(r),
{
    json_of_value(value)
}

/// Hands the library's own tree over as a `serde_json::Value`.
pub fn to_value(json: &Json) -> (r: Value)
    ensures
        value_contents(r) == json@,
{
    value_of_json(json)
}

/// Writes a value as compact JSON.
pub fn print_json(json: &Json) -> (r: String)
    ensures
        r@ == printed_json(json@),
        forall|prefix: Seq<char>|
            json@ == #[trigger] cut_short(prefix) ==> text::byte_len(r@) <= CUT_SHORT_BYTES + 6
                * text::byte_len(prefix) && (prefix.len() == 0 ==> text::byte_len(r@)
                == CUT_SHORT_BYTES),
        read_back(r@, json@),
{
    let value = value_of_json(json);
    text_of_value(&value)
}

/// Writes a value as indented JSON.
pub fn pretty_json(json: &Json) -> (r: String)
    ensures
        r@ == printed_pretty(json@),
{
    let value = value_of_json(json);
    pretty_text_of_value(&value)
}

/// `serde_json::Number::clone`: the same number.
#[verifier::external_body]
fn clone_number(number: &Number) -> (r: Number)
    ensures
        r == *number,
{
    number.clone()
}

/// A number as a JSON value.
pub fn copy_number(n: &JsonNumber) -> (r: Json)
    ensures
        r@ == JsonValue::Number(n@),
{
    match n {
        JsonNumber::Unsigned(u) => Json::Number(JsonNumber::Unsigned(*u)),
        JsonNumber::Negative(i) => Json::Number(JsonNumber::Negative(NegativeNumber(i.0))),
        JsonNumber::Float(f) => Json::Number(JsonNumber::Float(FloatNumber(f.0, clone_number(&f.1)))),
    }
}

/// Makes another value that is the same.
pub fn copy_json(json: &Json) -> (r: Json)
    ensures
        r@ == json@,
{
    json_of_value(value_of_json(json))
}

/// The value under a name, where `value` is an object that has it.
pub open spec fn value_at(value: JsonValue, name: Seq<char>) -> Option<JsonValue> {
    match value {
        JsonValue::Object(m) => if m.dom().contains(name) {
            Some(m[name])
        } else {
            None
        },
        _ => None,
    }
}

/// The value under two names, one inside the other.
pub open spec fn value_at2(value: JsonValue, a: Seq<char>, b: Seq<char>) -> Option<JsonValue> {
    match value_at(value, a) {
        Some(inner) => value_at(inner, b),
        None => None,
    }
}

/// The text that a value is.
pub open spec fn text_in(value: Option<JsonValue>) -> Option<Seq<char>> {
    match value {
        Some(JsonValue::Text(s)) => Some(s),
        _ => None,
    }
}

/// The value, unless it is null.
pub open spec fn not_null(value: Option<JsonValue>) -> Option<JsonValue> {
    match value {
        Some(JsonValue::Null) => None,
        other => other,
    }
}

/// The value under a name.
pub fn member<'a>(json: &'a Json, name: &str) -> (r: Option<&'a Json>)
    ensures
        match r {
            Some(j) => value_at(json@, name@) == Some(j@),
            None => value_at(json@, name@) is None,
        },
{
    proof {
        if let Json::Object(entries) = json {
            law_lookup_reads_object(entries@, name@);
        }
    }
    json.get(name)
}

/// The value under two names, one inside the other.
pub fn member2<'a>(json: &'a Json, a: &str, b: &str) -> (r: Option<&'a Json>)
    ensures
        match r {
            Some(j) => value_at2(json@, a@, b@) == Some(j@),
            None => value_at2(json@, a@, b@) is None,
        },
{
    match member(json, a) {
        Some(inner) => member(inner, b),
        None => None,
    }
}

/// The text that a value is.
pub fn text_value<'a>(json: Option<&'a Json>) -> (r: Option<&'a str>)
    ensures
        match (json, r) {
            (Some(j), Some(s)) => text_in(Some(j@)) == Some(s@),
            (Some(j), None) => text_in(Some(j@)) is None,
            (None, r) => r is None,
        },
{
    match json {
        Some(Json::Text(s)) => Some(s.as_str()),
        _ => None,
    }
}

/// A length of time as a JSON number of seconds.
pub open spec fn span_number(span: Span) -> NumberValue {
    duration_number((span.nanos / NANOS_PER_SECOND) as u64, (span.nanos % NANOS_PER_SECOND) as u32)
}

/// A length of time as a JSON number of seconds.
pub fn span_json(span: Span) -> (r: Json)
    requires
        span.wf(),
    ensures
        r@ == JsonValue::Number(span_number(span)),
{
    let seconds: u64 = (span.nanos / NANOS_PER_SECOND) as u64;
    let nanos: u32 = (span.nanos % NANOS_PER_SECOND) as u32;
    json_of_value(value_of_duration(seconds, nanos))
}

/// Finds the entry that counts for a name.
pub fn find_entry<'a>(entries: &'a Vec<(String, Json)>, name: &str) -> (r: Option<&'a Json>)
    ensures
        match r {
            Some(j) => lookup(entries@, name@) == Some(*j),
            None => lookup(entries@, name@) is None,
        },
{
    let mut i: usize = entries.len();
    assert(entries@.take(entries@.len() as int) =~= entries@);
    while i > 0
        invariant
            i <= entries@.len(),
            lookup(entries@, name@) == lookup(entries@.take(i as int), name@),
        decreases i,
    {
        i = i - 1;
        proof {
            let t = entries@.take(i + 1);
            assert(t.last() == entries@[i as int]);
            assert(t.drop_last() =~= entries@.take(i as int));
        }
        if same_text(entries[i].0.as_str(), name) {
            return Some(&entries[i].1);
        }
    }
    None
}

impl Json {
    /// The value under a name, where this is an object that has it.
    pub open spec fn spec_get(self, name: Seq<char>) -> Option<Json> {
        match self {
            Json::Object(entries) => lookup(entries@, name),
            _ => None,
        }
    }

    /// The value under a name, where this is an object that has it.
    pub fn get(&self, name: &str) -> (r: Option<&Json>)
        ensures
            match r {
                Some(j) => self.spec_get(name@) == Some(*j),
                None => self.spec_get(name@) is None,
            },
    {
        match self {
            Json::Object(entries) => find_entry(entries, name),
            _ => None,
        }
    }

    /// The text, where this is one.
    pub fn as_text(&self) -> (r: Option<&String>)
        ensures
            match r {
                Some(s) => *self == Json::Text(*s),
                None => !(self is Text),
            },
    {
        match self {
            Json::Text(s) => Some(s),
            _ => None,
        }
    }
}

/// A text as a JSON value.
pub fn json_text(text: &str) -> (r: Json)
    ensures
        r@ == JsonValue::Text(text@),
{
    Json::Text(text.to_owned())
}

/// A list of texts as a JSON value.
pub open spec fn text_list(texts: Seq<String>) -> JsonValue {
    JsonValue::Array(Seq::new(texts.len(), |i: int| JsonValue::Text(texts[i]@)))
}

/// A list of texts as a JSON value.
pub fn json_texts(texts: &Vec<String>) -> (r: Json)
    ensures
        r@ == text_list(texts@),
{
    let mut items: Vec<Json> = Vec::new();
    let mut i: usize = 0;
    while i < texts.len()
        invariant
            i <= texts@.len(),
            items@.len() == i,
            forall|k: int| 0 <= k < i ==> json_value(#[trigger] items@[k]) == JsonValue::Text(texts@[k]@),
        decreases texts@.len() - i,
    {
        items.push(Json::Text(texts[i].clone()));
        i = i + 1;
    }
    let r = Json::Array(items);
    assert(r@ matches JsonValue::Array(s) && s =~= Seq::new(
        texts@.len(),
        |i: int| JsonValue::Text(texts@[i]@),
    ));
    r
}

/// An object that is built up name by name.
pub struct ObjectBuilder {
    entries: Vec<(String, Json)>,
}

impl View for ObjectBuilder {
    type V = Map<Seq<char>, JsonValue>;

    closed spec fn view(&self) -> Map<Seq<char>, JsonValue> {
        object_value(self.entries@)
    }
}

impl ObjectBuilder {
    /// An object without any name.
    pub fn new() -> (r: ObjectBuilder)
        ensures
            r@ == Map::<Seq<char>, JsonValue>::empty(),
    {
        ObjectBuilder { entries: Vec::new() }
    }

    /// The object with one more name.
    pub fn with(self, name: &str, value: Json) -> (r: ObjectBuilder)
        ensures
            r@ == self@.insert(name@, value@),
    {
        let mut entries = self.entries;
        let ghost before = entries@;
        entries.push((name.to_owned(), value));
        assert(entries@.drop_last() =~= before);
        ObjectBuilder { entries }
    }

    /// The object as a JSON value.
    pub fn build(self) -> (r: Json)
        ensures
            r@ == JsonValue::Object(self@),
    {
        Json::Object(self.entries)
    }
}

/// The bits of the double nearest to a number, as `serde_json::Number::as_f64` gives it.
pub uninterp spec fn double_of(number: NumberValue) -> u64;

/// The bits of the single-precision number that `serde` reads from a JSON number.
pub uninterp spec fn single_of(number: NumberValue) -> u32;

/// The nanoseconds that `Duration::try_from_secs_f64` makes of a number of seconds.
pub uninterp spec fn nanos_of_seconds(number: NumberValue) -> Option<u128>;

/// `serde_json::Number::as_f64`, as bits. A number held as a double is that double.
#[verifier::external_body]
pub(crate) fn double_bits(number: &JsonNumber) -> (r: u64)
    ensures
        r == double_of(number@),
        number@ matches NumberValue::Float(bits) ==> r == bits,
{
    let number = match number {
        JsonNumber::Unsigned(n) => Number::from(*n),
        JsonNumber::Negative(n) => Number::from(n.0),
        JsonNumber::Float(f) => f.1.clone(),
    };
    number.as_f64().map_or(0, |x| x.to_bits())
}

/// The text that `{}` writes for `serde_json::Number::as_f64` of a number.
pub uninterp spec fn shown_double(number: NumberValue) -> Seq<char>;

/// `serde_json::Number::as_f64`, written with `{}`.
#[verifier::external_body]
pub(crate) fn show_double(number: &JsonNumber) -> (r: String)
    ensures
        r@ == shown_double(number@),
{
    let number = match number {
        JsonNumber::Unsigned(n) => Number::from(*n),
        JsonNumber::Negative(n) => Number::from(n.0),
        JsonNumber::Float(f) => f.1.clone(),
    };
    format!("{}", number.as_f64().unwrap_or_default())
}

/// The coordinate that a `bevy::math::Vec2` holds for a number, as bits.
#[verifier::external_body]
pub(crate) fn single_bits(number: &JsonNumber) -> (r: u32)
    ensures
        r == single_of(number@),
{
    let vector = match number {
        JsonNumber::Unsigned(n) => bevy::math::Vec2::splat(*n as _),
        JsonNumber::Negative(n) => bevy::math::Vec2::splat(n.0 as _),
        JsonNumber::Float(f) => bevy::math::Vec2::splat(f.1.as_f64().unwrap_or_default() as _),
    };
    vector.x.to_bits()
}

/// `Duration::try_from_secs_f64` of a number of seconds, in whole nanoseconds. A duration has at
/// most `u64::MAX` seconds and one second less a nanosecond.
#[verifier::external_body]
pub(crate) fn seconds_to_nanos(number: &JsonNumber) -> (r: Option<u128>)
    ensures
        r == nanos_of_seconds(number@),
        r matches Some(n) ==> n <= 18_446_744_073_709_551_615_999_999_999,
{
    let number = match number {
        JsonNumber::Unsigned(n) => Number::from(*n),
        JsonNumber::Negative(n) => Number::from(n.0),
        JsonNumber::Float(f) => f.1.clone(),
    };
    let seconds = number.as_f64()?;
    let duration = std::time::Duration::try_from_secs_f64(seconds).ok()?;
    Some(duration.as_nanos())
}

} // verus!
