//! The client's requests as the application reads them.
use vstd::prelude::*;

use crate::bounds;
use crate::client;
use crate::commands;
use crate::commands::{
    AgentCommand, ComparisonOperator, DiagnosticValue, MouseButton, MouseScrollUnit, ParseLimits,
    Point, Predicate, TargetKind, TargetSelector, WireCommand, WirePredicate, WireSeconds,
    MAX_SELECTOR_BYTES,
};
use crate::conditions;
use crate::framing;
use crate::json;
use crate::json::{Json, JsonValue, NumberValue};
use crate::reals;
use crate::requests;
use crate::wire;
use crate::wire::{AgentRequestBody, FieldKind, FieldRule, ParseRequestError, COMMAND_TAGS};

verus! {

/// The line holds the client's request under the identity, and the application reads it as
/// `parsed`.
pub open spec fn arrives(
    line: Seq<char>,
    request: Map<Seq<char>, JsonValue>,
    id: u64,
    limits: ParseLimits,
    parsed: Result<AgentRequestBody, ParseRequestError>,
) -> bool {
    &&& json::parsed_json(line) == Ok::<JsonValue, Seq<char>>(
        JsonValue::Object(client::identified(request, id)),
    )
    &&& framing::reads_as(line, limits, parsed)
}

/// The request was read as the command, under the identity.
pub open spec fn understood(
    parsed: Result<AgentRequestBody, ParseRequestError>,
    id: u64,
    command: AgentCommand,
) -> bool {
    parsed matches Ok(body) && body.id@ == client::unsigned(id) && body.command == command
}

/// A value is one that a field may hold.
spec fn fits(kind: FieldKind, v: JsonValue) -> bool {
    match kind {
        FieldKind::Text | FieldKind::Path => v is Text,
        FieldKind::OptionalText => v is Text || v is Null,
        FieldKind::Single | FieldKind::DefaultSingle | FieldKind::Seconds => v is Number,
        FieldKind::OptionalSeconds => v is Number || v is Null,
        FieldKind::Frames => v matches JsonValue::Number(NumberValue::Unsigned(n)) && n <= 65535,
        FieldKind::OptionalFrames => v is Null || (v matches JsonValue::Number(
            NumberValue::Unsigned(n),
        ) && n <= 65535),
        FieldKind::Pair => v matches JsonValue::Array(items) && items.len() == 2 && items[0] is Number
            && items[1] is Number,
        FieldKind::Kind => v == JsonValue::Text("any"@) || v == JsonValue::Text("ui"@) || v
            == JsonValue::Text("world"@),
        FieldKind::Target => exists|field: Seq<char>, name: Seq<char>|
            #![trigger client::selected_by(field, name)]
            {
                &&& v == client::selected_by(field, name)
                &&& field == "name"@ || field == "accessibility_label"@ || field == "marker"@
            },
        FieldKind::OptionalCount => v is Null || (v matches JsonValue::Number(
            NumberValue::Unsigned(n),
        ) && n <= 4294967295),
        FieldKind::Operator => exists|operator: ComparisonOperator|
            v == JsonValue::Text(#[trigger] client::operator_name(operator)),
        FieldKind::Scalar => true,
        FieldKind::Predicate | FieldKind::Predicates => false,
    }
}

/// A value is a condition for a bounded predicate.
spec fn is_condition(v: JsonValue) -> bool {
    exists|predicate: Predicate| #[trigger]
        writes_condition(v, predicate) && bounds::predicate_ok(predicate)
}

/// A value is one that a field of a command may hold.
spec fn suits(kind: FieldKind, v: JsonValue) -> bool {
    match kind {
        FieldKind::Predicate => is_condition(v),
        FieldKind::Predicates => v matches JsonValue::Array(items) && forall|i: int|
            0 <= i < items.len() ==> is_condition(#[trigger] items[i]),
        _ => fits(kind, v),
    }
}

/// Every field that a command knows holds what it may hold.
spec fn all_suit(rules: Seq<FieldRule>, m: Map<Seq<char>, JsonValue>) -> bool {
    forall|name: Seq<char>| #[trigger]
        m.dom().contains(name) ==> match wire::rule_for(rules, name) {
            Some(kind) => suits(kind, m[name]),
            None => true,
        }
}

/// Every field that a predicate knows holds what it may hold.
spec fn all_fit(rules: Seq<FieldRule>, m: Map<Seq<char>, JsonValue>) -> bool {
    forall|name: Seq<char>| #[trigger]
        m.dom().contains(name) ==> match wire::rule_for(rules, name) {
            Some(kind) => fits(kind, m[name]),
            None => true,
        }
}

proof fn lemma_kinds()
    ensures
        wire::place_from(wire::TARGET_KIND_TAGS@, "any"@, 0) == Some(0int),
        wire::place_from(wire::TARGET_KIND_TAGS@, "ui"@, 0) == Some(1int),
        wire::place_from(wire::TARGET_KIND_TAGS@, "world"@, 0) == Some(2int),
{
    reveal_strlit("any");
    reveal_strlit("ui");
    reveal_strlit("world");
    assert(wire::TARGET_KIND_TAGS@[0]@.len() == 3);
    assert(wire::TARGET_KIND_TAGS@[1]@.len() == 2);
    assert(wire::TARGET_KIND_TAGS@[2]@.len() == 5);
    reveal_with_fuel(wire::place_from, 4);
}

proof fn lemma_operators()
    ensures
        wire::place_from(wire::OPERATOR_TAGS@, "eq"@, 0) == Some(0int),
        wire::place_from(wire::OPERATOR_TAGS@, "ne"@, 0) == Some(1int),
        wire::place_from(wire::OPERATOR_TAGS@, "lt"@, 0) == Some(2int),
        wire::place_from(wire::OPERATOR_TAGS@, "lte"@, 0) == Some(3int),
        wire::place_from(wire::OPERATOR_TAGS@, "gt"@, 0) == Some(4int),
        wire::place_from(wire::OPERATOR_TAGS@, "gte"@, 0) == Some(5int),
{
    reveal_strlit("eq");
    reveal_strlit("ne");
    reveal_strlit("lt");
    reveal_strlit("lte");
    reveal_strlit("gt");
    reveal_strlit("gte");
    assert(wire::OPERATOR_TAGS@[0]@.len() == 2);
    assert(wire::OPERATOR_TAGS@[1]@.len() == 2);
    assert(wire::OPERATOR_TAGS@[2]@.len() == 2);
    assert(wire::OPERATOR_TAGS@[3]@.len() == 3);
    assert(wire::OPERATOR_TAGS@[4]@.len() == 2);
    assert(wire::OPERATOR_TAGS@[5]@.len() == 3);
    assert("ne"@[0] != "eq"@[0] && "lt"@[0] != "eq"@[0] && "gt"@[0] != "eq"@[0]);
    assert("lt"@[0] != "ne"@[0] && "gt"@[0] != "ne"@[0] && "gt"@[0] != "lt"@[0]);
    assert("gte"@[0] != "lte"@[0]);
    reveal_with_fuel(wire::place_from, 7);
}

proof fn lemma_selector_fields()
    ensures
        wire::place_from(wire::SELECTOR_FIELDS@, "name"@, 0) is Some,
        wire::place_from(wire::SELECTOR_FIELDS@, "accessibility_label"@, 0) is Some,
        wire::place_from(wire::SELECTOR_FIELDS@, "marker"@, 0) is Some,
        "name"@ != "marker"@,
        "name"@ != "accessibility_label"@,
        "marker"@ != "accessibility_label"@,
{
    reveal_strlit("name");
    reveal_strlit("accessibility_label");
    reveal_strlit("marker");
    assert("name"@.len() == 4 && "marker"@.len() == 6 && "accessibility_label"@.len() == 19);
    reveal_with_fuel(wire::place_from, 4);
}

/// The entry of an object with one name.
proof fn lemma_single_entry(entries: Seq<(String, Json)>, name: Seq<char>, value: JsonValue)
    requires
        json::ascending(entries),
        json::object_value(entries) == Map::<Seq<char>, JsonValue>::empty().insert(name, value),
    ensures
        entries.len() == 1,
        entries[0].0@ == name,
        entries[0].1@ == value,
{
    if entries.len() == 0 {
        assert(json::object_value(entries).dom().contains(name));
    }
    json::lemma_entry_counts(entries, 0);
    if entries.len() > 1 {
        json::lemma_entry_counts(entries, 1);
        assert(json::precedes(entries[0].0@, entries[1].0@));
    }
}

/// A value that a field may hold meets no objection.
proof fn lemma_fits(kind: FieldKind, v: Json)
    requires
        fits(kind, v@),
        json::canonical(v),
    ensures
        wire::objection(kind, v) is None,
        wire::plain_objection(kind, v) is None,
{
    match kind {
        FieldKind::Kind => {
            lemma_kinds();
        },
        FieldKind::Operator => {
            lemma_operators();
        },
        FieldKind::Pair => {
            let items = v->Array_0@;
            assert(v@->Array_0[0] == items[0]@);
            assert(v@->Array_0[1] == items[1]@);
        },
        FieldKind::Target => {
            let (field, name) = choose|field: Seq<char>, name: Seq<char>|
                #![trigger client::selected_by(field, name)]
                {
                    &&& v@ == client::selected_by(field, name)
                    &&& field == "name"@ || field == "accessibility_label"@ || field == "marker"@
                };
            lemma_selector_fields();
            let o = v->Object_0@;
            lemma_single_entry(o, field, JsonValue::Text(name));
            assert(o.skip(1).len() == 0);
            reveal_with_fuel(wire::selector_objection, 2);
        },
        _ => {},
    }
}

/// A value that a field of a command may hold meets no objection.
proof fn lemma_suits(kind: FieldKind, v: Json)
    requires
        suits(kind, v@),
        json::canonical(v),
    ensures
        wire::objection(kind, v) is None,
{
    match kind {
        FieldKind::Predicate => {
            let predicate = choose|predicate: Predicate| #[trigger]
                writes_condition(v@, predicate) && bounds::predicate_ok(predicate);
            law_conditions_are_read(v, predicate);
        },
        FieldKind::Predicates => {
            let items = v->Array_0@;
            assert forall|i: int| 0 <= i < items.len() implies json::canonical(
                #[trigger] items[i],
            ) && is_condition(items[i]@) by {
                assert(v@->Array_0[i] == items[i]@);
            }
            lemma_conditions_suit(items);
        },
        _ => {
            lemma_fits(kind, v);
        },
    }
}

proof fn lemma_conditions_suit(items: Seq<Json>)
    requires
        forall|i: int|
            0 <= i < items.len() ==> json::canonical(#[trigger] items[i]) && is_condition(
                items[i]@,
            ),
    ensures
        wire::predicate_values(items) is Ok,
    decreases items.len(),
{
    if items.len() > 0 {
        let t = items.drop_last();
        assert forall|i: int| 0 <= i < t.len() implies json::canonical(#[trigger] t[i])
            && is_condition(t[i]@) by {
            assert(t[i] == items[i]);
        }
        lemma_conditions_suit(t);
        let v = items[items.len() - 1];
        assert(json::canonical(v) && is_condition(v@));
        let predicate = choose|predicate: Predicate| #[trigger]
            writes_condition(v@, predicate) && bounds::predicate_ok(predicate);
        law_conditions_are_read(v, predicate);
    }
}

proof fn lemma_fields_suit(rules: Seq<FieldRule>, o: Seq<(String, Json)>)
    requires
        forall|i: int|
            0 <= i < o.len() ==> json::canonical((#[trigger] o[i]).1) && match wire::rule_for(
                rules,
                o[i].0@,
            ) {
                Some(kind) => suits(kind, o[i].1@),
                None => true,
            },
    ensures
        wire::fields_objection(rules, o) is None,
    decreases o.len(),
{
    if o.len() > 0 {
        assert(json::canonical(o[0].1));
        if let Some(kind) = wire::rule_for(rules, o[0].0@) {
            lemma_suits(kind, o[0].1);
        }
        let t = o.skip(1);
        assert forall|i: int| 0 <= i < t.len() implies json::canonical((#[trigger] t[i]).1)
            && match wire::rule_for(rules, t[i].0@) {
            Some(kind) => suits(kind, t[i].1@),
            None => true,
        } by {
            assert(t[i] == o[i + 1]);
        }
        lemma_fields_suit(rules, t);
    }
}

proof fn lemma_plain_fields_fit(rules: Seq<FieldRule>, o: Seq<(String, Json)>)
    requires
        forall|i: int|
            0 <= i < o.len() ==> json::canonical((#[trigger] o[i]).1) && match wire::rule_for(
                rules,
                o[i].0@,
            ) {
                Some(kind) => fits(kind, o[i].1@),
                None => true,
            },
    ensures
        wire::plain_fields_objection(rules, o) is None,
    decreases o.len(),
{
    if o.len() > 0 {
        assert(json::canonical(o[0].1));
        if let Some(kind) = wire::rule_for(rules, o[0].0@) {
            lemma_fits(kind, o[0].1);
        }
        let t = o.skip(1);
        assert forall|i: int| 0 <= i < t.len() implies json::canonical((#[trigger] t[i]).1)
            && match wire::rule_for(rules, t[i].0@) {
            Some(kind) => fits(kind, t[i].1@),
            None => true,
        } by {
            assert(t[i] == o[i + 1]);
        }
        lemma_plain_fields_fit(rules, t);
    }
}

/// What is looked up is an entry.
proof fn lemma_lookup_canonical(o: Seq<(String, Json)>, name: Seq<char>)
    requires
        forall|i: int| 0 <= i < o.len() ==> json::canonical((#[trigger] o[i]).1),
    ensures
        json::lookup(o, name) matches Some(v) ==> json::canonical(v),
    decreases o.len(),
{
    if o.len() > 0 {
        if o.last().0@ == name {
            assert(json::canonical(o[o.len() - 1].1));
        } else {
            let t = o.drop_last();
            assert forall|i: int| 0 <= i < t.len() implies json::canonical(
                (#[trigger] t[i]).1,
            ) by {
                assert(t[i] == o[i]);
            }
            lemma_lookup_canonical(t, name);
        }
    }
}

/// What comes of a request whose command was read.
spec fn outcome(
    read: Result<AgentCommand, String>,
    parsed: Result<AgentRequestBody, ParseRequestError>,
    id: u64,
) -> bool {
    match read {
        Err(m) => parsed is Err,
        Ok(command) => understood(parsed, id, command),
    }
}

/// A line whose fields suit its command is taken for that command.
proof fn lemma_arrived(
    line: Seq<char>,
    request: Map<Seq<char>, JsonValue>,
    id: u64,
    limits: ParseLimits,
    parsed: Result<AgentRequestBody, ParseRequestError>,
    tag: Seq<char>,
    place: int,
) -> (r: (Seq<(String, Json)>, Result<WireCommand, String>))
    requires
        arrives(line, request, id, limits, parsed),
        !request.dom().contains("id"@),
        request.dom().contains("command"@),
        request["command"@] == JsonValue::Text(tag),
        wire::place_from(COMMAND_TAGS@, tag, 0) == Some(place),
        all_suit(wire::command_rules(wire::command_tag(place)), client::identified(request, id)),
    ensures
        json::object_value(r.0) == client::identified(request, id),
        forall|i: int| 0 <= i < r.0.len() ==> json::canonical((#[trigger] r.0[i]).1),
        wire::tag_in(r.0, "command"@, COMMAND_TAGS@) == Ok::<int, Seq<char>>(place),
        wire::fields_objection(wire::command_rules(wire::command_tag(place)), r.0) is None,
        wire::wire_agrees(r.0, r.1),
        r.1 matches Ok(written) ==> exists|read: Result<AgentCommand, String>| #[trigger]
            requests::command_agrees(written, limits, read) && outcome(read, parsed, id),
{
    reveal_strlit("id");
    reveal_strlit("command");
    assert("id"@.len() == 2 && "command"@.len() == 7);
    let m = client::identified(request, id);
    let value = JsonValue::Object(m);
    let json = choose|json: Json|
        json@ == value && json::canonical(json) && #[trigger] wire::request_agrees(
            json,
            limits,
            parsed,
        );
    assert(json@ == value && json::canonical(json) && wire::request_agrees(json, limits, parsed));
    assert(json is Object);
    let o = json->Object_0@;
    json::law_lookup_reads_object(o, "id"@);
    json::law_lookup_reads_object(o, "command"@);
    let known = json::lookup(o, "id"@)->Some_0;
    let named = json::lookup(o, "command"@)->Some_0;
    assert(named is Text);
    assert(wire::tag_in(o, "command"@, COMMAND_TAGS@) == Ok::<int, Seq<char>>(place));
    let rules = wire::command_rules(wire::command_tag(place));
    assert forall|i: int| 0 <= i < o.len() implies json::canonical((#[trigger] o[i]).1)
        && match wire::rule_for(rules, o[i].0@) {
        Some(kind) => suits(kind, o[i].1@),
        None => true,
    } by {
        json::lemma_entry_counts(o, i);
        assert(m.dom().contains(o[i].0@));
    }
    lemma_fields_suit(rules, o);
    let wire = choose|wire: Result<WireCommand, String>|
        {
            &&& #[trigger] wire::wire_agrees(o, wire)
            &&& match wire {
                Err(m) => wire::fails(parsed, known, "invalid_request", m@),
                Ok(command) => exists|r: Result<AgentCommand, String>|
                    {
                        &&& #[trigger] requests::command_agrees(command, limits, r)
                        &&& match r {
                            Err(m) => wire::fails(parsed, known, "invalid_argument", m@),
                            Ok(command) => parsed matches Ok(body) && body.id == known
                                && body.command == command,
                        }
                    },
            }
        };
    assert(wire::wire_agrees(o, wire));
    if let Ok(written) = wire {
        let r = choose|r: Result<AgentCommand, String>|
            {
                &&& #[trigger] requests::command_agrees(written, limits, r)
                &&& match r {
                    Err(m) => wire::fails(parsed, known, "invalid_argument", m@),
                    Ok(command) => parsed matches Ok(body) && body.id == known && body.command
                        == command,
                }
            };
        assert(requests::command_agrees(written, limits, r) && outcome(r, parsed, id));
    }
    (o, wire)
}

/// A line whose fields suit its command is read as what the fields spell out.
proof fn lemma_reads(
    line: Seq<char>,
    request: Map<Seq<char>, JsonValue>,
    id: u64,
    limits: ParseLimits,
    parsed: Result<AgentRequestBody, ParseRequestError>,
    tag: Seq<char>,
    place: int,
) -> (o: Seq<(String, Json)>)
    requires
        arrives(line, request, id, limits, parsed),
        !request.dom().contains("id"@),
        request.dom().contains("command"@),
        request["command"@] == JsonValue::Text(tag),
        wire::place_from(COMMAND_TAGS@, tag, 0) == Some(place),
        !(wire::command_tag(place) is WaitFor),
        all_suit(wire::command_rules(wire::command_tag(place)), client::identified(request, id)),
    ensures
        json::object_value(o) == client::identified(request, id),
        wire::command_in_fields(wire::command_tag(place), o) matches Ok(written) ==> (!(
        written is WaitFor) ==> (requests::command_of(written, limits) matches Ok(command)
            ==> understood(parsed, id, command))),
        forall|i: int| 0 <= i < o.len() ==> json::canonical((#[trigger] o[i]).1),
{
    let (o, wire) = lemma_arrived(line, request, id, limits, parsed, tag, place);
    if let Ok(written) = wire::command_in_fields(wire::command_tag(place), o) {
        assert(wire == Ok::<WireCommand, String>(written));
        if !(written is WaitFor) {
            if let Ok(command) = requests::command_of(written, limits) {
                let read = choose|read: Result<AgentCommand, String>| #[trigger]
                    requests::command_agrees(written, limits, read) && outcome(read, parsed, id);
                assert(requests::command_agrees(written, limits, read) && outcome(
                    read,
                    parsed,
                    id,
                ));
                assert(read == Ok::<AgentCommand, String>(command));
            }
        }
    }
    o
}

/// The places of the client's commands.
#[verifier::rlimit(50)]
proof fn lemma_tag_places()
    ensures
        wire::place_from(COMMAND_TAGS@, "key_down"@, 0) == Some(0int),
        wire::place_from(COMMAND_TAGS@, "key_up"@, 0) == Some(1int),
        wire::place_from(COMMAND_TAGS@, "mouse_down"@, 0) == Some(2int),
        wire::place_from(COMMAND_TAGS@, "mouse_up"@, 0) == Some(3int),
        wire::place_from(COMMAND_TAGS@, "cursor_move"@, 0) == Some(4int),
        wire::place_from(COMMAND_TAGS@, "window_info"@, 0) == Some(11int),
        wire::place_from(COMMAND_TAGS@, "wait"@, 0) == Some(12int),
        wire::place_from(COMMAND_TAGS@, "wait_seconds"@, 0) == Some(13int),
        wire::place_from(COMMAND_TAGS@, "advance_time"@, 0) == Some(14int),
        wire::place_from(COMMAND_TAGS@, "capture"@, 0) == Some(15int),
        wire::place_from(COMMAND_TAGS@, "capture_after_frames"@, 0) == Some(16int),
        wire::place_from(COMMAND_TAGS@, "release_all_inputs"@, 0) == Some(17int),
        wire::place_from(COMMAND_TAGS@, "shutdown"@, 0) == Some(18int),
        wire::place_from(COMMAND_TAGS@, "click"@, 0) == Some(19int),
        wire::place_from(COMMAND_TAGS@, "drag"@, 0) == Some(20int),
        wire::place_from(COMMAND_TAGS@, "scroll"@, 0) == Some(21int),
        wire::place_from(COMMAND_TAGS@, "key_tap"@, 0) == Some(22int),
        wire::place_from(COMMAND_TAGS@, "key_hold"@, 0) == Some(23int),
        wire::place_from(COMMAND_TAGS@, "target_info"@, 0) == Some(24int),
        wire::place_from(COMMAND_TAGS@, "click_target"@, 0) == Some(25int),
        wire::place_from(COMMAND_TAGS@, "resource_info"@, 0) == Some(26int),
        wire::place_from(COMMAND_TAGS@, "evaluate_predicate"@, 0) == Some(27int),
        wire::place_from(COMMAND_TAGS@, "wait_for"@, 0) == Some(28int),
{
    reveal_strlit("key_down");
    reveal_strlit("key_up");
    reveal_strlit("mouse_down");
    reveal_strlit("mouse_up");
    reveal_strlit("cursor_move");
    reveal_strlit("mouse_motion");
    reveal_strlit("mouse_scroll");
    reveal_strlit("text");
    reveal_strlit("file_hover");
    reveal_strlit("file_drop");
    reveal_strlit("file_cancel");
    reveal_strlit("window_info");
    reveal_strlit("wait");
    reveal_strlit("wait_seconds");
    reveal_strlit("advance_time");
    reveal_strlit("capture");
    reveal_strlit("capture_after_frames");
    reveal_strlit("release_all_inputs");
    reveal_strlit("shutdown");
    reveal_strlit("click");
    reveal_strlit("drag");
    reveal_strlit("scroll");
    reveal_strlit("key_tap");
    reveal_strlit("key_hold");
    reveal_strlit("target_info");
    reveal_strlit("click_target");
    reveal_strlit("resource_info");
    reveal_strlit("evaluate_predicate");
    reveal_strlit("wait_for");
    reveal_strlit("ecs_summary");
    reveal_strlit("list_entities");
    reveal_strlit("camera_info");
    reveal_strlit("state_info");
    reveal_strlit("marker_info");
    assert(COMMAND_TAGS@[0]@.len() == 8);
    assert(COMMAND_TAGS@[1]@.len() == 6);
    assert(COMMAND_TAGS@[2]@.len() == 10);
    assert(COMMAND_TAGS@[3]@.len() == 8);
    assert(COMMAND_TAGS@[4]@.len() == 11);
    assert(COMMAND_TAGS@[5]@.len() == 12);
    assert(COMMAND_TAGS@[6]@.len() == 12);
    assert(COMMAND_TAGS@[7]@.len() == 4);
    assert(COMMAND_TAGS@[8]@.len() == 10);
    assert(COMMAND_TAGS@[9]@.len() == 9);
    assert(COMMAND_TAGS@[10]@.len() == 11);
    assert(COMMAND_TAGS@[11]@.len() == 11);
    assert(COMMAND_TAGS@[12]@.len() == 4);
    assert(COMMAND_TAGS@[13]@.len() == 12);
    assert(COMMAND_TAGS@[14]@.len() == 12);
    assert(COMMAND_TAGS@[15]@.len() == 7);
    assert(COMMAND_TAGS@[16]@.len() == 20);
    assert(COMMAND_TAGS@[17]@.len() == 18);
    assert(COMMAND_TAGS@[18]@.len() == 8);
    assert(COMMAND_TAGS@[19]@.len() == 5);
    assert(COMMAND_TAGS@[20]@.len() == 4);
    assert(COMMAND_TAGS@[21]@.len() == 6);
    assert(COMMAND_TAGS@[22]@.len() == 7);
    assert(COMMAND_TAGS@[23]@.len() == 8);
    assert(COMMAND_TAGS@[24]@.len() == 11);
    assert(COMMAND_TAGS@[25]@.len() == 12);
    assert(COMMAND_TAGS@[26]@.len() == 13);
    assert(COMMAND_TAGS@[27]@.len() == 18);
    assert(COMMAND_TAGS@[28]@.len() == 8);
    assert(COMMAND_TAGS@[29]@.len() == 11);
    assert(COMMAND_TAGS@[30]@.len() == 13);
    assert(COMMAND_TAGS@[31]@.len() == 11);
    assert(COMMAND_TAGS@[32]@.len() == 10);
    assert(COMMAND_TAGS@[33]@.len() == 11);
    assert("mouse_up"@[0] != "key_down"@[0]);
    assert("window_info"@[0] != "cursor_move"@[0]);
    assert("window_info"@[0] != "file_cancel"@[0]);
    assert("wait"@[0] != "text"@[0]);
    assert("wait_seconds"@[0] != "mouse_motion"@[0]);
    assert("wait_seconds"@[0] != "mouse_scroll"@[0]);
    assert("advance_time"@[0] != "mouse_motion"@[0]);
    assert("advance_time"@[0] != "mouse_scroll"@[0]);
    assert("advance_time"@[0] != "wait_seconds"@[0]);
    assert("shutdown"@[0] != "key_down"@[0]);
    assert("shutdown"@[0] != "mouse_up"@[0]);
    assert("drag"@[0] != "text"@[0]);
    assert("drag"@[0] != "wait"@[0]);
    assert("scroll"@[0] != "key_up"@[0]);
    assert("key_tap"@[0] != "capture"@[0]);
    assert("key_hold"@[4] != "key_down"@[4]);
    assert("key_hold"@[0] != "mouse_up"@[0]);
    assert("key_hold"@[0] != "shutdown"@[0]);
    assert("target_info"@[0] != "cursor_move"@[0]);
    assert("target_info"@[0] != "file_cancel"@[0]);
    assert("target_info"@[0] != "window_info"@[0]);
    assert("click_target"@[0] != "mouse_motion"@[0]);
    assert("click_target"@[0] != "mouse_scroll"@[0]);
    assert("click_target"@[0] != "wait_seconds"@[0]);
    assert("click_target"@[0] != "advance_time"@[0]);
    assert("evaluate_predicate"@[0] != "release_all_inputs"@[0]);
    assert("wait_for"@[0] != "key_down"@[0]);
    assert("wait_for"@[0] != "mouse_up"@[0]);
    assert("wait_for"@[0] != "shutdown"@[0]);
    assert("wait_for"@[0] != "key_hold"@[0]);
    reveal_with_fuel(wire::place_from, 35);
}

/// The names of the fields are different ones.
proof fn lemma_names()
    ensures
        "id"@ != "command"@,
        "id"@ != "key"@,
        "id"@ != "button"@,
        "id"@ != "x"@,
        "id"@ != "y"@,
        "id"@ != "lines"@,
        "id"@ != "frames"@,
        "id"@ != "label"@,
        "id"@ != "seconds"@,
        "id"@ != "max_frames"@,
        "id"@ != "step_seconds"@,
        "id"@ != "from"@,
        "id"@ != "to"@,
        "id"@ != "steps"@,
        "id"@ != "target"@,
        "id"@ != "kind"@,
        "id"@ != "camera"@,
        "id"@ != "resource"@,
        "id"@ != "field"@,
        "id"@ != "unit"@,
        "id"@ != "predicate"@,
        "id"@ != "type"@,
        "id"@ != "state"@,
        "id"@ != "value"@,
        "id"@ != "marker"@,
        "id"@ != "min"@,
        "id"@ != "max"@,
        "id"@ != "operator"@,
        "id"@ != "abort_predicates"@,
        "command"@ != "key"@,
        "command"@ != "button"@,
        "command"@ != "x"@,
        "command"@ != "y"@,
        "command"@ != "lines"@,
        "command"@ != "frames"@,
        "command"@ != "label"@,
        "command"@ != "seconds"@,
        "command"@ != "max_frames"@,
        "command"@ != "step_seconds"@,
        "command"@ != "from"@,
        "command"@ != "to"@,
        "command"@ != "steps"@,
        "command"@ != "target"@,
        "command"@ != "kind"@,
        "command"@ != "camera"@,
        "command"@ != "resource"@,
        "command"@ != "field"@,
        "command"@ != "unit"@,
        "command"@ != "predicate"@,
        "command"@ != "type"@,
        "command"@ != "state"@,
        "command"@ != "value"@,
        "command"@ != "marker"@,
        "command"@ != "min"@,
        "command"@ != "max"@,
        "command"@ != "operator"@,
        "command"@ != "abort_predicates"@,
        "key"@ != "button"@,
        "key"@ != "x"@,
        "key"@ != "y"@,
        "key"@ != "lines"@,
        "key"@ != "frames"@,
        "key"@ != "label"@,
        "key"@ != "seconds"@,
        "key"@ != "max_frames"@,
        "key"@ != "step_seconds"@,
        "key"@ != "from"@,
        "key"@ != "to"@,
        "key"@ != "steps"@,
        "key"@ != "target"@,
        "key"@ != "kind"@,
        "key"@ != "camera"@,
        "key"@ != "resource"@,
        "key"@ != "field"@,
        "key"@ != "unit"@,
        "key"@ != "predicate"@,
        "key"@ != "type"@,
        "key"@ != "state"@,
        "key"@ != "value"@,
        "key"@ != "marker"@,
        "key"@ != "min"@,
        "key"@ != "max"@,
        "key"@ != "operator"@,
        "key"@ != "abort_predicates"@,
        "button"@ != "x"@,
        "button"@ != "y"@,
        "button"@ != "lines"@,
        "button"@ != "frames"@,
        "button"@ != "label"@,
        "button"@ != "seconds"@,
        "button"@ != "max_frames"@,
        "button"@ != "step_seconds"@,
        "button"@ != "from"@,
        "button"@ != "to"@,
        "button"@ != "steps"@,
        "button"@ != "target"@,
        "button"@ != "kind"@,
        "button"@ != "camera"@,
        "button"@ != "resource"@,
        "button"@ != "field"@,
        "button"@ != "unit"@,
        "button"@ != "predicate"@,
        "button"@ != "type"@,
        "button"@ != "state"@,
        "button"@ != "value"@,
        "button"@ != "marker"@,
        "button"@ != "min"@,
        "button"@ != "max"@,
        "button"@ != "operator"@,
        "button"@ != "abort_predicates"@,
        "x"@ != "y"@,
        "x"@ != "lines"@,
        "x"@ != "frames"@,
        "x"@ != "label"@,
        "x"@ != "seconds"@,
        "x"@ != "max_frames"@,
        "x"@ != "step_seconds"@,
        "x"@ != "from"@,
        "x"@ != "to"@,
        "x"@ != "steps"@,
        "x"@ != "target"@,
        "x"@ != "kind"@,
        "x"@ != "camera"@,
        "x"@ != "resource"@,
        "x"@ != "field"@,
        "x"@ != "unit"@,
        "x"@ != "predicate"@,
        "x"@ != "type"@,
        "x"@ != "state"@,
        "x"@ != "value"@,
        "x"@ != "marker"@,
        "x"@ != "min"@,
        "x"@ != "max"@,
        "x"@ != "operator"@,
        "x"@ != "abort_predicates"@,
        "y"@ != "lines"@,
        "y"@ != "frames"@,
        "y"@ != "label"@,
        "y"@ != "seconds"@,
        "y"@ != "max_frames"@,
        "y"@ != "step_seconds"@,
        "y"@ != "from"@,
        "y"@ != "to"@,
        "y"@ != "steps"@,
        "y"@ != "target"@,
        "y"@ != "kind"@,
        "y"@ != "camera"@,
        "y"@ != "resource"@,
        "y"@ != "field"@,
        "y"@ != "unit"@,
        "y"@ != "predicate"@,
        "y"@ != "type"@,
        "y"@ != "state"@,
        "y"@ != "value"@,
        "y"@ != "marker"@,
        "y"@ != "min"@,
        "y"@ != "max"@,
        "y"@ != "operator"@,
        "y"@ != "abort_predicates"@,
        "lines"@ != "frames"@,
        "lines"@ != "label"@,
        "lines"@ != "seconds"@,
        "lines"@ != "max_frames"@,
        "lines"@ != "step_seconds"@,
        "lines"@ != "from"@,
        "lines"@ != "to"@,
        "lines"@ != "steps"@,
        "lines"@ != "target"@,
        "lines"@ != "kind"@,
        "lines"@ != "camera"@,
        "lines"@ != "resource"@,
        "lines"@ != "field"@,
        "lines"@ != "unit"@,
        "lines"@ != "predicate"@,
        "lines"@ != "type"@,
        "lines"@ != "state"@,
        "lines"@ != "value"@,
        "lines"@ != "marker"@,
        "lines"@ != "min"@,
        "lines"@ != "max"@,
        "lines"@ != "operator"@,
        "lines"@ != "abort_predicates"@,
        "frames"@ != "label"@,
        "frames"@ != "seconds"@,
        "frames"@ != "max_frames"@,
        "frames"@ != "step_seconds"@,
        "frames"@ != "from"@,
        "frames"@ != "to"@,
        "frames"@ != "steps"@,
        "frames"@ != "target"@,
        "frames"@ != "kind"@,
        "frames"@ != "camera"@,
        "frames"@ != "resource"@,
        "frames"@ != "field"@,
        "frames"@ != "unit"@,
        "frames"@ != "predicate"@,
        "frames"@ != "type"@,
        "frames"@ != "state"@,
        "frames"@ != "value"@,
        "frames"@ != "marker"@,
        "frames"@ != "min"@,
        "frames"@ != "max"@,
        "frames"@ != "operator"@,
        "frames"@ != "abort_predicates"@,
        "label"@ != "seconds"@,
        "label"@ != "max_frames"@,
        "label"@ != "step_seconds"@,
        "label"@ != "from"@,
        "label"@ != "to"@,
        "label"@ != "steps"@,
        "label"@ != "target"@,
        "label"@ != "kind"@,
        "label"@ != "camera"@,
        "label"@ != "resource"@,
        "label"@ != "field"@,
        "label"@ != "unit"@,
        "label"@ != "predicate"@,
        "label"@ != "type"@,
        "label"@ != "state"@,
        "label"@ != "value"@,
        "label"@ != "marker"@,
        "label"@ != "min"@,
        "label"@ != "max"@,
        "label"@ != "operator"@,
        "label"@ != "abort_predicates"@,
        "seconds"@ != "max_frames"@,
        "seconds"@ != "step_seconds"@,
        "seconds"@ != "from"@,
        "seconds"@ != "to"@,
        "seconds"@ != "steps"@,
        "seconds"@ != "target"@,
        "seconds"@ != "kind"@,
        "seconds"@ != "camera"@,
        "seconds"@ != "resource"@,
        "seconds"@ != "field"@,
        "seconds"@ != "unit"@,
        "seconds"@ != "predicate"@,
        "seconds"@ != "type"@,
        "seconds"@ != "state"@,
        "seconds"@ != "value"@,
        "seconds"@ != "marker"@,
        "seconds"@ != "min"@,
        "seconds"@ != "max"@,
        "seconds"@ != "operator"@,
        "seconds"@ != "abort_predicates"@,
        "max_frames"@ != "step_seconds"@,
        "max_frames"@ != "from"@,
        "max_frames"@ != "to"@,
        "max_frames"@ != "steps"@,
        "max_frames"@ != "target"@,
        "max_frames"@ != "kind"@,
        "max_frames"@ != "camera"@,
        "max_frames"@ != "resource"@,
        "max_frames"@ != "field"@,
        "max_frames"@ != "unit"@,
        "max_frames"@ != "predicate"@,
        "max_frames"@ != "type"@,
        "max_frames"@ != "state"@,
        "max_frames"@ != "value"@,
        "max_frames"@ != "marker"@,
        "max_frames"@ != "min"@,
        "max_frames"@ != "max"@,
        "max_frames"@ != "operator"@,
        "max_frames"@ != "abort_predicates"@,
        "step_seconds"@ != "from"@,
        "step_seconds"@ != "to"@,
        "step_seconds"@ != "steps"@,
        "step_seconds"@ != "target"@,
        "step_seconds"@ != "kind"@,
        "step_seconds"@ != "camera"@,
        "step_seconds"@ != "resource"@,
        "step_seconds"@ != "field"@,
        "step_seconds"@ != "unit"@,
        "step_seconds"@ != "predicate"@,
        "step_seconds"@ != "type"@,
        "step_seconds"@ != "state"@,
        "step_seconds"@ != "value"@,
        "step_seconds"@ != "marker"@,
        "step_seconds"@ != "min"@,
        "step_seconds"@ != "max"@,
        "step_seconds"@ != "operator"@,
        "step_seconds"@ != "abort_predicates"@,
        "from"@ != "to"@,
        "from"@ != "steps"@,
        "from"@ != "target"@,
        "from"@ != "kind"@,
        "from"@ != "camera"@,
        "from"@ != "resource"@,
        "from"@ != "field"@,
        "from"@ != "unit"@,
        "from"@ != "predicate"@,
        "from"@ != "type"@,
        "from"@ != "state"@,
        "from"@ != "value"@,
        "from"@ != "marker"@,
        "from"@ != "min"@,
        "from"@ != "max"@,
        "from"@ != "operator"@,
        "from"@ != "abort_predicates"@,
        "to"@ != "steps"@,
        "to"@ != "target"@,
        "to"@ != "kind"@,
        "to"@ != "camera"@,
        "to"@ != "resource"@,
        "to"@ != "field"@,
        "to"@ != "unit"@,
        "to"@ != "predicate"@,
        "to"@ != "type"@,
        "to"@ != "state"@,
        "to"@ != "value"@,
        "to"@ != "marker"@,
        "to"@ != "min"@,
        "to"@ != "max"@,
        "to"@ != "operator"@,
        "to"@ != "abort_predicates"@,
        "steps"@ != "target"@,
        "steps"@ != "kind"@,
        "steps"@ != "camera"@,
        "steps"@ != "resource"@,
        "steps"@ != "field"@,
        "steps"@ != "unit"@,
        "steps"@ != "predicate"@,
        "steps"@ != "type"@,
        "steps"@ != "state"@,
        "steps"@ != "value"@,
        "steps"@ != "marker"@,
        "steps"@ != "min"@,
        "steps"@ != "max"@,
        "steps"@ != "operator"@,
        "steps"@ != "abort_predicates"@,
        "target"@ != "kind"@,
        "target"@ != "camera"@,
        "target"@ != "resource"@,
        "target"@ != "field"@,
        "target"@ != "unit"@,
        "target"@ != "predicate"@,
        "target"@ != "type"@,
        "target"@ != "state"@,
        "target"@ != "value"@,
        "target"@ != "marker"@,
        "target"@ != "min"@,
        "target"@ != "max"@,
        "target"@ != "operator"@,
        "target"@ != "abort_predicates"@,
        "kind"@ != "camera"@,
        "kind"@ != "resource"@,
        "kind"@ != "field"@,
        "kind"@ != "unit"@,
        "kind"@ != "predicate"@,
        "kind"@ != "type"@,
        "kind"@ != "state"@,
        "kind"@ != "value"@,
        "kind"@ != "marker"@,
        "kind"@ != "min"@,
        "kind"@ != "max"@,
        "kind"@ != "operator"@,
        "kind"@ != "abort_predicates"@,
        "camera"@ != "resource"@,
        "camera"@ != "field"@,
        "camera"@ != "unit"@,
        "camera"@ != "predicate"@,
        "camera"@ != "type"@,
        "camera"@ != "state"@,
        "camera"@ != "value"@,
        "camera"@ != "marker"@,
        "camera"@ != "min"@,
        "camera"@ != "max"@,
        "camera"@ != "operator"@,
        "camera"@ != "abort_predicates"@,
        "resource"@ != "field"@,
        "resource"@ != "unit"@,
        "resource"@ != "predicate"@,
        "resource"@ != "type"@,
        "resource"@ != "state"@,
        "resource"@ != "value"@,
        "resource"@ != "marker"@,
        "resource"@ != "min"@,
        "resource"@ != "max"@,
        "resource"@ != "operator"@,
        "resource"@ != "abort_predicates"@,
        "field"@ != "unit"@,
        "field"@ != "predicate"@,
        "field"@ != "type"@,
        "field"@ != "state"@,
        "field"@ != "value"@,
        "field"@ != "marker"@,
        "field"@ != "min"@,
        "field"@ != "max"@,
        "field"@ != "operator"@,
        "field"@ != "abort_predicates"@,
        "unit"@ != "predicate"@,
        "unit"@ != "type"@,
        "unit"@ != "state"@,
        "unit"@ != "value"@,
        "unit"@ != "marker"@,
        "unit"@ != "min"@,
        "unit"@ != "max"@,
        "unit"@ != "operator"@,
        "unit"@ != "abort_predicates"@,
        "predicate"@ != "type"@,
        "predicate"@ != "state"@,
        "predicate"@ != "value"@,
        "predicate"@ != "marker"@,
        "predicate"@ != "min"@,
        "predicate"@ != "max"@,
        "predicate"@ != "operator"@,
        "predicate"@ != "abort_predicates"@,
        "type"@ != "state"@,
        "type"@ != "value"@,
        "type"@ != "marker"@,
        "type"@ != "min"@,
        "type"@ != "max"@,
        "type"@ != "operator"@,
        "type"@ != "abort_predicates"@,
        "state"@ != "value"@,
        "state"@ != "marker"@,
        "state"@ != "min"@,
        "state"@ != "max"@,
        "state"@ != "operator"@,
        "state"@ != "abort_predicates"@,
        "value"@ != "marker"@,
        "value"@ != "min"@,
        "value"@ != "max"@,
        "value"@ != "operator"@,
        "value"@ != "abort_predicates"@,
        "marker"@ != "min"@,
        "marker"@ != "max"@,
        "marker"@ != "operator"@,
        "marker"@ != "abort_predicates"@,
        "min"@ != "max"@,
        "min"@ != "operator"@,
        "min"@ != "abort_predicates"@,
        "max"@ != "operator"@,
        "max"@ != "abort_predicates"@,
        "operator"@ != "abort_predicates"@,
{
    reveal_strlit("id");
    reveal_strlit("command");
    reveal_strlit("key");
    reveal_strlit("button");
    reveal_strlit("x");
    reveal_strlit("y");
    reveal_strlit("lines");
    reveal_strlit("frames");
    reveal_strlit("label");
    reveal_strlit("seconds");
    reveal_strlit("max_frames");
    reveal_strlit("step_seconds");
    reveal_strlit("from");
    reveal_strlit("to");
    reveal_strlit("steps");
    reveal_strlit("target");
    reveal_strlit("kind");
    reveal_strlit("camera");
    reveal_strlit("resource");
    reveal_strlit("field");
    reveal_strlit("unit");
    reveal_strlit("predicate");
    reveal_strlit("type");
    reveal_strlit("state");
    reveal_strlit("value");
    reveal_strlit("marker");
    reveal_strlit("min");
    reveal_strlit("max");
    reveal_strlit("operator");
    reveal_strlit("abort_predicates");
    assert("id"@.len() == 2);
    assert("command"@.len() == 7);
    assert("key"@.len() == 3);
    assert("button"@.len() == 6);
    assert("x"@.len() == 1);
    assert("y"@.len() == 1);
    assert("lines"@.len() == 5);
    assert("frames"@.len() == 6);
    assert("label"@.len() == 5);
    assert("seconds"@.len() == 7);
    assert("max_frames"@.len() == 10);
    assert("step_seconds"@.len() == 12);
    assert("from"@.len() == 4);
    assert("to"@.len() == 2);
    assert("steps"@.len() == 5);
    assert("target"@.len() == 6);
    assert("kind"@.len() == 4);
    assert("camera"@.len() == 6);
    assert("resource"@.len() == 8);
    assert("field"@.len() == 5);
    assert("unit"@.len() == 4);
    assert("predicate"@.len() == 9);
    assert("type"@.len() == 4);
    assert("state"@.len() == 5);
    assert("value"@.len() == 5);
    assert("marker"@.len() == 6);
    assert("min"@.len() == 3);
    assert("max"@.len() == 3);
    assert("operator"@.len() == 8);
    assert("abort_predicates"@.len() == 16);
    assert("id"@[0] != "to"@[0]);
    assert("command"@[0] != "seconds"@[0]);
    assert("key"@[0] != "min"@[0]);
    assert("key"@[0] != "max"@[0]);
    assert("button"@[0] != "frames"@[0]);
    assert("button"@[0] != "target"@[0]);
    assert("button"@[0] != "camera"@[0]);
    assert("button"@[0] != "marker"@[0]);
    assert("x"@[0] != "y"@[0]);
    assert("lines"@[1] != "label"@[1]);
    assert("lines"@[0] != "steps"@[0]);
    assert("lines"@[0] != "field"@[0]);
    assert("lines"@[0] != "state"@[0]);
    assert("lines"@[0] != "value"@[0]);
    assert("frames"@[0] != "target"@[0]);
    assert("frames"@[0] != "camera"@[0]);
    assert("frames"@[0] != "marker"@[0]);
    assert("label"@[0] != "steps"@[0]);
    assert("label"@[0] != "field"@[0]);
    assert("label"@[0] != "state"@[0]);
    assert("label"@[0] != "value"@[0]);
    assert("from"@[0] != "kind"@[0]);
    assert("from"@[0] != "unit"@[0]);
    assert("from"@[0] != "type"@[0]);
    assert("steps"@[0] != "field"@[0]);
    assert("steps"@[2] != "state"@[2]);
    assert("steps"@[0] != "value"@[0]);
    assert("target"@[0] != "camera"@[0]);
    assert("target"@[0] != "marker"@[0]);
    assert("kind"@[0] != "unit"@[0]);
    assert("kind"@[0] != "type"@[0]);
    assert("camera"@[0] != "marker"@[0]);
    assert("resource"@[0] != "operator"@[0]);
    assert("field"@[0] != "state"@[0]);
    assert("field"@[0] != "value"@[0]);
    assert("unit"@[0] != "type"@[0]);
    assert("state"@[0] != "value"@[0]);
    assert("min"@[1] != "max"@[1]);
}

/// Law: a line that holds the client's request without arguments is read as the command it names,
/// under the identity it carries: the window's description, a capture, the release of what is
/// held, and the end of the application.
pub proof fn law_bare_requests_are_read(
    line: Seq<char>,
    tag: Seq<char>,
    id: u64,
    limits: ParseLimits,
    parsed: Result<AgentRequestBody, ParseRequestError>,
)
    requires
        tag == "window_info"@ || tag == "release_all_inputs"@ || tag == "shutdown"@ || tag
            == "capture"@,
        arrives(line, client::bare_request(tag), id, limits, parsed),
    ensures
        tag == "window_info"@ ==> understood(parsed, id, AgentCommand::WindowInfo),
        tag == "release_all_inputs"@ ==> understood(parsed, id, AgentCommand::ReleaseAllInputs),
        tag == "shutdown"@ ==> understood(parsed, id, AgentCommand::Shutdown),
        tag == "capture"@ ==> understood(parsed, id, AgentCommand::Capture { label: None }),
{
    lemma_tag_places();
    lemma_names();
    let place = wire::place_from(COMMAND_TAGS@, tag, 0)->Some_0;
    reveal_with_fuel(wire::rule_for, 3);
    let o = lemma_reads(line, client::bare_request(tag), id, limits, parsed, tag, place);
    json::law_lookup_reads_object(o, "label"@);
}

/// Law: a line that holds the client's request to press, release or tap a key is read as that,
/// where the key is known.
pub proof fn law_key_requests_are_read(
    line: Seq<char>,
    tag: Seq<char>,
    key: Seq<char>,
    id: u64,
    limits: ParseLimits,
    parsed: Result<AgentRequestBody, ParseRequestError>,
)
    requires
        tag == "key_down"@ || tag == "key_up"@ || tag == "key_tap"@,
        commands::key_code(key) is Ok,
        limits.max_wait_frames >= 1,
        arrives(
            line,
            (if tag == "key_down"@ {
                client::key_down_request(key)
            } else if tag == "key_up"@ {
                client::key_up_request(key)
            } else {
                client::key_tap_request(key)
            }),
            id,
            limits,
            parsed,
        ),
    ensures
        commands::key_code(key) matches Ok(code) ==> {
            &&& tag == "key_down"@ ==> understood(parsed, id, AgentCommand::KeyDown(code))
            &&& tag == "key_up"@ ==> understood(parsed, id, AgentCommand::KeyUp(code))
            &&& tag == "key_tap"@ ==> understood(
                parsed,
                id,
                AgentCommand::KeyHold { key: code, frames: 1 },
            )
        },
{
    let request = client::bare_request(tag).insert("key"@, JsonValue::Text(key));
    assert("key_down"@ != "key_up"@ && "key_down"@ != "key_tap"@ && "key_up"@ != "key_tap"@) by {
        lemma_tag_places();
    }
    let place = if tag == "key_down"@ {
        0int
    } else if tag == "key_up"@ {
        1int
    } else {
        22int
    };
    assert(wire::place_from(COMMAND_TAGS@, tag, 0) == Some(place)) by {
        lemma_tag_places();
    }
    assert(all_suit(
        wire::command_rules(wire::command_tag(place)),
        client::identified(request, id),
    )) by {
        lemma_names();
        reveal_with_fuel(wire::rule_for, 3);
    }
    assert("id"@ != "command"@ && "id"@ != "key"@ && "command"@ != "key"@ && "key"@ != "frames"@
        && "id"@ != "frames"@ && "command"@ != "frames"@) by {
        lemma_names();
    }
    let o = lemma_reads(line, request, id, limits, parsed, tag, place);
    json::law_lookup_reads_object(o, "key"@);
    json::law_lookup_reads_object(o, "frames"@);
}

/// Law: a line that holds the client's request to hold a known key is read as that hold, for as many
/// frames, where the application allows so many.
pub proof fn law_hold_requests_are_read(
    line: Seq<char>,
    key: Seq<char>,
    frames: u16,
    id: u64,
    limits: ParseLimits,
    parsed: Result<AgentRequestBody, ParseRequestError>,
)
    requires
        commands::key_code(key) is Ok,
        1 <= frames <= limits.max_wait_frames,
        arrives(
            line,
            client::key_hold_request(key, frames),
            id,
            limits,
            parsed,
        ),
    ensures
        commands::key_code(key) matches Ok(code) ==> understood(
            parsed,
            id,
            AgentCommand::KeyHold { key: code, frames },
        ),
{
    let request = client::key_hold_request(key, frames);
    assert(wire::place_from(COMMAND_TAGS@, "key_hold"@, 0) == Some(23int)) by {
        lemma_tag_places();
    }
    lemma_names();
    assert(all_suit(
        wire::command_rules(wire::command_tag(23)),
        client::identified(request, id),
    )) by {
        reveal_with_fuel(wire::rule_for, 3);
    }
    let o = lemma_reads(line, request, id, limits, parsed, "key_hold"@, 23);
    json::law_lookup_reads_object(o, "key"@);
    json::law_lookup_reads_object(o, "frames"@);
}

/// Law: a line that holds the client's request to press a known mouse button is read as that.
pub proof fn law_mouse_down_requests_are_read(
    line: Seq<char>,
    button: Seq<char>,
    id: u64,
    limits: ParseLimits,
    parsed: Result<AgentRequestBody, ParseRequestError>,
)
    requires
        commands::mouse_button(button) is Ok,
        arrives(
            line,
            client::mouse_down_request(button),
            id,
            limits,
            parsed,
        ),
    ensures
        commands::mouse_button(button) matches Ok(button) ==> understood(
            parsed,
            id,
            AgentCommand::MouseDown(button),
        ),
{
    let request = client::mouse_down_request(button);
    assert(wire::place_from(COMMAND_TAGS@, "mouse_down"@, 0) == Some(2int)) by {
        lemma_tag_places();
    }
    lemma_names();
    assert(all_suit(
        wire::command_rules(wire::command_tag(2)),
        client::identified(request, id),
    )) by {
        reveal_with_fuel(wire::rule_for, 2);
    }
    let o = lemma_reads(line, request, id, limits, parsed, "mouse_down"@, 2);
    json::law_lookup_reads_object(o, "button"@);
}

/// Law: a line that holds the client's request to release a known mouse button is read as that.
pub proof fn law_mouse_up_requests_are_read(
    line: Seq<char>,
    button: Seq<char>,
    id: u64,
    limits: ParseLimits,
    parsed: Result<AgentRequestBody, ParseRequestError>,
)
    requires
        commands::mouse_button(button) is Ok,
        arrives(
            line,
            client::mouse_up_request(button),
            id,
            limits,
            parsed,
        ),
    ensures
        commands::mouse_button(button) matches Ok(button) ==> understood(
            parsed,
            id,
            AgentCommand::MouseUp(button),
        ),
{
    let request = client::mouse_up_request(button);
    assert(wire::place_from(COMMAND_TAGS@, "mouse_up"@, 0) == Some(3int)) by {
        lemma_tag_places();
    }
    lemma_names();
    assert(all_suit(
        wire::command_rules(wire::command_tag(3)),
        client::identified(request, id),
    )) by {
        reveal_with_fuel(wire::rule_for, 2);
    }
    let o = lemma_reads(line, request, id, limits, parsed, "mouse_up"@, 3);
    json::law_lookup_reads_object(o, "button"@);
}

/// Law: a line that holds the client's request to move the cursor is read as a move to the position
/// in single precision, where that is finite.
pub proof fn law_cursor_requests_are_read(
    line: Seq<char>,
    x: NumberValue,
    y: NumberValue,
    id: u64,
    limits: ParseLimits,
    parsed: Result<AgentRequestBody, ParseRequestError>,
)
    requires
        reals::single_finite(json::single_of(x)),
        reals::single_finite(json::single_of(y)),
        arrives(
            line,
            client::cursor_request(x, y),
            id,
            limits,
            parsed,
        ),
    ensures
        understood(
            parsed,
            id,
            AgentCommand::CursorMove {
                position: Point { x: json::single_of(x), y: json::single_of(y) },
            },
        ),
{
    let request = client::cursor_request(x, y);
    assert(wire::place_from(COMMAND_TAGS@, "cursor_move"@, 0) == Some(4int)) by {
        lemma_tag_places();
    }
    lemma_names();
    assert(all_suit(
        wire::command_rules(wire::command_tag(4)),
        client::identified(request, id),
    )) by {
        reveal_with_fuel(wire::rule_for, 3);
    }
    let o = lemma_reads(line, request, id, limits, parsed, "cursor_move"@, 4);
    json::law_lookup_reads_object(o, "x"@);
    json::law_lookup_reads_object(o, "y"@);
}

/// Law: a line that holds the client's request to scroll is read as a scroll by so many lines in
/// single precision, where that is finite.
pub proof fn law_scroll_requests_are_read(
    line: Seq<char>,
    lines: NumberValue,
    id: u64,
    limits: ParseLimits,
    parsed: Result<AgentRequestBody, ParseRequestError>,
)
    requires
        reals::single_finite(json::single_of(lines)),
        arrives(
            line,
            client::scroll_request(lines),
            id,
            limits,
            parsed,
        ),
    ensures
        understood(
            parsed,
            id,
            AgentCommand::MouseScroll {
                delta: Point { x: 0, y: json::single_of(lines) },
                unit: MouseScrollUnit::Line,
            },
        ),
{
    let request = client::scroll_request(lines);
    assert(wire::place_from(COMMAND_TAGS@, "scroll"@, 0) == Some(21int)) by {
        lemma_tag_places();
    }
    lemma_names();
    assert(reals::single_finite(0));
    assert(all_suit(
        wire::command_rules(wire::command_tag(21)),
        client::identified(request, id),
    )) by {
        reveal_with_fuel(wire::rule_for, 4);
    }
    let o = lemma_reads(line, request, id, limits, parsed, "scroll"@, 21);
    json::law_lookup_reads_object(o, "lines"@);
    json::law_lookup_reads_object(o, "x"@);
    json::law_lookup_reads_object(o, "unit"@);
}

/// Law: a line that holds the client's request to click is read as a click of that button at the
/// position in single precision, for one frame.
pub proof fn law_click_requests_are_read(
    line: Seq<char>,
    x: NumberValue,
    y: NumberValue,
    button: Seq<char>,
    id: u64,
    limits: ParseLimits,
    parsed: Result<AgentRequestBody, ParseRequestError>,
)
    requires
        reals::single_finite(json::single_of(x)),
        reals::single_finite(json::single_of(y)),
        commands::mouse_button(button) is Ok,
        limits.max_wait_frames >= 1,
        arrives(
            line,
            client::click_request(x, y, button),
            id,
            limits,
            parsed,
        ),
    ensures
        commands::mouse_button(button) matches Ok(button) ==> understood(
            parsed,
            id,
            AgentCommand::Click {
                position: Point { x: json::single_of(x), y: json::single_of(y) },
                button,
                frames: 1,
            },
        ),
{
    let request = client::click_request(x, y, button);
    assert(wire::place_from(COMMAND_TAGS@, "click"@, 0) == Some(19int)) by {
        lemma_tag_places();
    }
    lemma_names();
    assert(all_suit(
        wire::command_rules(wire::command_tag(19)),
        client::identified(request, id),
    )) by {
        reveal_with_fuel(wire::rule_for, 5);
    }
    let o = lemma_reads(line, request, id, limits, parsed, "click"@, 19);
    json::law_lookup_reads_object(o, "x"@);
    json::law_lookup_reads_object(o, "y"@);
    json::law_lookup_reads_object(o, "button"@);
    json::law_lookup_reads_object(o, "frames"@);
}

proof fn lemma_pair_read(v: Json, pair: (NumberValue, NumberValue))
    requires
        v@ == JsonValue::Array(seq![JsonValue::Number(pair.0), JsonValue::Number(pair.1)]),
    ensures
        v matches Json::Array(items) && items@.len() == 2 && wire::coordinate(items@[0])
            == json::single_of(pair.0) && wire::coordinate(items@[1]) == json::single_of(pair.1),
{
    let items = v->Array_0@;
    let told = seq![JsonValue::Number(pair.0), JsonValue::Number(pair.1)];
    assert(v@->Array_0 == told && told.len() == 2);
    assert(v@->Array_0.len() == items.len());
    assert(told[0] == items[0]@);
    assert(told[1] == items[1]@);
}

/// The client's request to drag.
pub open spec fn drag_request(
    button: Seq<char>,
    from: (NumberValue, NumberValue),
    to: (NumberValue, NumberValue),
    steps: u16,
    frames: u16,
) -> Map<Seq<char>, JsonValue> {
    client::drag_request(button, from, to, steps, frames)
}

/// Law: a line that holds the client's request to drag is read as that drag, between the positions in
/// single precision.
pub proof fn law_drag_requests_are_read(
    line: Seq<char>,
    button: Seq<char>,
    from: (NumberValue, NumberValue),
    to: (NumberValue, NumberValue),
    steps: u16,
    frames: u16,
    id: u64,
    limits: ParseLimits,
    parsed: Result<AgentRequestBody, ParseRequestError>,
)
    requires
        reals::single_finite(json::single_of(from.0)),
        reals::single_finite(json::single_of(from.1)),
        reals::single_finite(json::single_of(to.0)),
        reals::single_finite(json::single_of(to.1)),
        commands::mouse_button(button) is Ok,
        1 <= steps <= frames,
        frames <= limits.max_wait_frames,
        steps <= limits.max_action_steps,
        arrives(
            line,
            drag_request(button, from, to, steps, frames),
            id,
            limits,
            parsed,
        ),
    ensures
        commands::mouse_button(button) matches Ok(button) ==> understood(
            parsed,
            id,
            AgentCommand::Drag {
                from: Point { x: json::single_of(from.0), y: json::single_of(from.1) },
                to: Point { x: json::single_of(to.0), y: json::single_of(to.1) },
                button,
                steps,
                frames,
            },
        ),
{
    let request = drag_request(button, from, to, steps, frames);
    assert(wire::place_from(COMMAND_TAGS@, "drag"@, 0) == Some(20int)) by {
        lemma_tag_places();
    }
    lemma_names();
    assert(all_suit(
        wire::command_rules(wire::command_tag(20)),
        client::identified(request, id),
    )) by {
        reveal_with_fuel(wire::rule_for, 6);
    }
    let o = lemma_reads(line, request, id, limits, parsed, "drag"@, 20);
    json::law_lookup_reads_object(o, "from"@);
    json::law_lookup_reads_object(o, "to"@);
    json::law_lookup_reads_object(o, "button"@);
    json::law_lookup_reads_object(o, "steps"@);
    json::law_lookup_reads_object(o, "frames"@);
    lemma_pair_read(json::lookup(o, "from"@)->Some_0, from);
    lemma_pair_read(json::lookup(o, "to"@)->Some_0, to);
}

/// Law: a line that holds the client's request to wait is read as that wait, for as many frames,
/// where the application allows so many.
pub proof fn law_wait_requests_are_read(
    line: Seq<char>,
    frames: u16,
    id: u64,
    limits: ParseLimits,
    parsed: Result<AgentRequestBody, ParseRequestError>,
)
    requires
        1 <= frames <= limits.max_wait_frames,
        arrives(
            line,
            client::wait_request(frames as u64),
            id,
            limits,
            parsed,
        ),
    ensures
        understood(parsed, id, AgentCommand::Wait { frames }),
{
    let request = client::wait_request(frames as u64);
    assert(wire::place_from(COMMAND_TAGS@, "wait"@, 0) == Some(12int)) by {
        lemma_tag_places();
    }
    lemma_names();
    assert(all_suit(
        wire::command_rules(wire::command_tag(12)),
        client::identified(request, id),
    )) by {
        reveal_with_fuel(wire::rule_for, 2);
    }
    let o = lemma_reads(line, request, id, limits, parsed, "wait"@, 12);
    json::law_lookup_reads_object(o, "frames"@);
}

/// A number of seconds as it is written.
pub open spec fn written_seconds(n: NumberValue) -> WireSeconds {
    WireSeconds { bits: json::double_of(n), nanos: json::nanos_of_seconds(n) }
}

/// Law: a line that holds the client's request to wait for virtual time is read as a wait for the time
/// that its seconds make, where that is one to wait for.
pub proof fn law_virtual_waits_are_read(
    line: Seq<char>,
    seconds: NumberValue,
    max_frames: u16,
    id: u64,
    limits: ParseLimits,
    parsed: Result<AgentRequestBody, ParseRequestError>,
)
    requires
        1 <= max_frames <= limits.max_wait_frames,
        commands::positive_span("seconds"@, written_seconds(seconds)) is Ok,
        arrives(
            line,
            client::wait_seconds_request(seconds, max_frames),
            id,
            limits,
            parsed,
        ),
    ensures
        commands::positive_span("seconds"@, written_seconds(seconds)) matches Ok(duration)
            ==> understood(parsed, id, AgentCommand::WaitSeconds { duration, max_frames }),
{
    let request = client::wait_seconds_request(seconds, max_frames);
    assert(wire::place_from(COMMAND_TAGS@, "wait_seconds"@, 0) == Some(13int)) by {
        lemma_tag_places();
    }
    lemma_names();
    assert(all_suit(
        wire::command_rules(wire::command_tag(13)),
        client::identified(request, id),
    )) by {
        reveal_with_fuel(wire::rule_for, 3);
    }
    let o = lemma_reads(line, request, id, limits, parsed, "wait_seconds"@, 13);
    json::law_lookup_reads_object(o, "seconds"@);
    json::law_lookup_reads_object(o, "max_frames"@);
}

/// Law: a line that holds the client's request to advance time step by step is read as the advance
/// that its seconds make, where the application allows it.
pub proof fn law_advances_are_read(
    line: Seq<char>,
    seconds: NumberValue,
    step_seconds: NumberValue,
    id: u64,
    limits: ParseLimits,
    parsed: Result<AgentRequestBody, ParseRequestError>,
)
    requires
        requests::advance_of(
            written_seconds(seconds),
            Some(written_seconds(step_seconds)),
            limits,
        ) is Ok,
        arrives(
            line,
            client::step_request(seconds, step_seconds),
            id,
            limits,
            parsed,
        ),
    ensures
        requests::advance_of(
            written_seconds(seconds),
            Some(written_seconds(step_seconds)),
            limits,
        ) matches Ok(command) ==> understood(parsed, id, command),
{
    let request = client::step_request(seconds, step_seconds);
    assert(wire::place_from(COMMAND_TAGS@, "advance_time"@, 0) == Some(14int)) by {
        lemma_tag_places();
    }
    lemma_names();
    assert(all_suit(
        wire::command_rules(wire::command_tag(14)),
        client::identified(request, id),
    )) by {
        reveal_with_fuel(wire::rule_for, 3);
    }
    let o = lemma_reads(line, request, id, limits, parsed, "advance_time"@, 14);
    json::law_lookup_reads_object(o, "seconds"@);
    json::law_lookup_reads_object(o, "step_seconds"@);
}

/// Law: a line that holds the client's request for a capture with a label is read as such, with the
/// label that it has.
pub proof fn law_labels_are_read(
    line: Seq<char>,
    label: Seq<char>,
    id: u64,
    limits: ParseLimits,
    parsed: Result<AgentRequestBody, ParseRequestError>,
)
    requires
        commands::capture_label_ok(label),
        arrives(
            line,
            client::label_request(label),
            id,
            limits,
            parsed,
        ),
    ensures
        parsed matches Ok(body) && body.id@ == client::unsigned(id) && (body.command matches
            AgentCommand::Capture { label: Some(name) } && name@ == label),
{
    let request = client::label_request(label);
    assert(wire::place_from(COMMAND_TAGS@, "capture"@, 0) == Some(15int)) by {
        lemma_tag_places();
    }
    lemma_names();
    assert(all_suit(
        wire::command_rules(wire::command_tag(15)),
        client::identified(request, id),
    )) by {
        reveal_with_fuel(wire::rule_for, 2);
    }
    let o = lemma_reads(line, request, id, limits, parsed, "capture"@, 15);
    json::law_lookup_reads_object(o, "label"@);
}

/// Law: a line that holds the client's request for a capture after some frames is read as such, with
/// the label that it has.
pub proof fn law_late_captures_are_read(
    line: Seq<char>,
    frames: u16,
    label: Seq<char>,
    id: u64,
    limits: ParseLimits,
    parsed: Result<AgentRequestBody, ParseRequestError>,
)
    requires
        1 <= frames <= limits.max_wait_frames,
        commands::capture_label_ok(label),
        arrives(
            line,
            client::late_label_request(frames, label),
            id,
            limits,
            parsed,
        ),
    ensures
        parsed matches Ok(body) && body.id@ == client::unsigned(id) && (body.command matches
            AgentCommand::CaptureAfterFrames { frames: n, label: Some(name) } && n == frames && name@
            == label),
{
    let request = client::late_label_request(frames, label);
    assert(wire::place_from(COMMAND_TAGS@, "capture_after_frames"@, 0) == Some(16int)) by {
        lemma_tag_places();
    }
    lemma_names();
    assert(all_suit(
        wire::command_rules(wire::command_tag(16)),
        client::identified(request, id),
    )) by {
        reveal_with_fuel(wire::rule_for, 3);
    }
    let o = lemma_reads(line, request, id, limits, parsed, "capture_after_frames"@, 16);
    json::law_lookup_reads_object(o, "frames"@);
    json::law_lookup_reads_object(o, "label"@);
}

/// Two selectors name the same thing.
pub open spec fn same_target(a: TargetSelector, b: TargetSelector) -> bool {
    match (a, b) {
        (TargetSelector::Name(a), TargetSelector::Name(b)) => a@ == b@,
        (TargetSelector::AccessibilityLabel(a), TargetSelector::AccessibilityLabel(b)) => a@ == b@,
        (TargetSelector::Marker(a), TargetSelector::Marker(b)) => a@ == b@,
        _ => false,
    }
}

/// Two optional texts are the same.
pub open spec fn same_option(a: Option<String>, b: Option<&str>) -> bool {
    match (a, b) {
        (Some(a), Some(b)) => a@ == b@,
        (None, None) => true,
        _ => false,
    }
}

/// An optional text that is not empty and not too long.
pub open spec fn written_option_ok(s: Option<&str>) -> bool {
    s matches Some(t) ==> bounds::text_ok(t@, MAX_SELECTOR_BYTES)
}

/// A written selector spells out the selector.
proof fn lemma_target_read(v: Json, target: TargetSelector)
    requires
        json::canonical(v),
        v@ == client::selector_value(target),
        bounds::selector_ok(target),
    ensures
        fits(FieldKind::Target, v@),
        v matches Json::Object(fields) && (commands::target_of(
            crate::commands::WireTargetSelector {
                name: wire::text_in(fields@, "name"@),
                accessibility_label: wire::text_in(fields@, "accessibility_label"@),
                marker: wire::text_in(fields@, "marker"@),
            },
        ) matches Ok(read) && same_target(read, target)),
{
    lemma_selector_fields();
    let o = v->Object_0@;
    json::law_lookup_reads_object(o, "name"@);
    json::law_lookup_reads_object(o, "accessibility_label"@);
    json::law_lookup_reads_object(o, "marker"@);
    match target {
        TargetSelector::Name(name) => {
            assert(v@ == client::selected_by("name"@, name@));
        },
        TargetSelector::AccessibilityLabel(label) => {
            assert(v@ == client::selected_by("accessibility_label"@, label@));
        },
        TargetSelector::Marker(marker) => {
            assert(v@ == client::selected_by("marker"@, marker@));
        },
    }
}

/// Law: a line that holds the client's request to find a target is read as that, for the same
/// target.
pub proof fn law_target_requests_are_read(
    line: Seq<char>,
    target: TargetSelector,
    kind: TargetKind,
    camera: Option<&str>,
    id: u64,
    limits: ParseLimits,
    parsed: Result<AgentRequestBody, ParseRequestError>,
)
    requires
        bounds::selector_ok(target),
        written_option_ok(camera),
        arrives(
            line,
            client::target_request(target, kind, camera),
            id,
            limits,
            parsed,
        ),
    ensures
        parsed matches Ok(body) && body.id@ == client::unsigned(id) && (body.command matches
            AgentCommand::TargetInfo { target: t, kind: k, camera: c } && same_target(t, target)
            && k == kind && same_option(c, camera)),
{
    let request = client::target_request(target, kind, camera);
    assert(wire::place_from(COMMAND_TAGS@, "target_info"@, 0) == Some(24int)) by {
        lemma_tag_places();
    }
    lemma_names();
    lemma_kinds();
    lemma_selector_fits(target);
    assert(all_suit(
        wire::command_rules(wire::command_tag(24)),
        client::identified(request, id),
    )) by {
        reveal_with_fuel(wire::rule_for, 4);
    }
    let o = lemma_reads(line, request, id, limits, parsed, "target_info"@, 24);
    json::law_lookup_reads_object(o, "target"@);
    json::law_lookup_reads_object(o, "kind"@);
    json::law_lookup_reads_object(o, "camera"@);
    lemma_lookup_canonical(o, "target"@);
    lemma_target_read(json::lookup(o, "target"@)->Some_0, target);
}

/// What a selector is written as may stand for a target.
proof fn lemma_selector_fits(target: TargetSelector)
    ensures
        fits(FieldKind::Target, client::selector_value(target)),
{
    match target {
        TargetSelector::Name(name) => {
            assert(client::selector_value(target) == client::selected_by("name"@, name@));
        },
        TargetSelector::AccessibilityLabel(label) => {
            assert(client::selector_value(target) == client::selected_by(
                "accessibility_label"@,
                label@,
            ));
        },
        TargetSelector::Marker(marker) => {
            assert(client::selector_value(target) == client::selected_by("marker"@, marker@));
        },
    }
}

/// Law: a line that holds the client's request to click a target is read as that, for the same
/// target, button and frames.
pub proof fn law_target_clicks_are_read(
    line: Seq<char>,
    target: TargetSelector,
    kind: TargetKind,
    camera: Option<&str>,
    button: Seq<char>,
    frames: u16,
    id: u64,
    limits: ParseLimits,
    parsed: Result<AgentRequestBody, ParseRequestError>,
)
    requires
        bounds::selector_ok(target),
        written_option_ok(camera),
        commands::mouse_button(button) is Ok,
        1 <= frames <= limits.max_wait_frames,
        client::click_target_of(
            client::selector_value(target),
            kind,
            camera,
            button,
            frames,
        ) matches JsonValue::Object(request) && arrives(line, request, id, limits, parsed),
    ensures
        parsed matches Ok(body) && body.id@ == client::unsigned(id) && (body.command matches
            AgentCommand::ClickTarget { target: t, kind: k, camera: c, button: b, frames: n }
            && same_target(t, target) && k == kind && same_option(c, camera)
            && commands::mouse_button(button) == Ok::<MouseButton, Seq<char>>(b) && n == frames),
{
    let request = client::click_target_of(
        client::selector_value(target),
        kind,
        camera,
        button,
        frames,
    )->Object_0;
    assert(wire::place_from(COMMAND_TAGS@, "click_target"@, 0) == Some(25int)) by {
        lemma_tag_places();
    }
    lemma_names();
    lemma_kinds();
    lemma_selector_fits(target);
    assert(all_suit(
        wire::command_rules(wire::command_tag(25)),
        client::identified(request, id),
    )) by {
        reveal_with_fuel(wire::rule_for, 6);
    }
    let o = lemma_reads(line, request, id, limits, parsed, "click_target"@, 25);
    json::law_lookup_reads_object(o, "target"@);
    json::law_lookup_reads_object(o, "kind"@);
    json::law_lookup_reads_object(o, "camera"@);
    json::law_lookup_reads_object(o, "button"@);
    json::law_lookup_reads_object(o, "frames"@);
    lemma_lookup_canonical(o, "target"@);
    lemma_target_read(json::lookup(o, "target"@)->Some_0, target);
}

/// Law: a line that holds the client's request for resources is read as that, for the same resource
/// and field.
pub proof fn law_resource_requests_are_read(
    line: Seq<char>,
    resource: Option<&str>,
    field: Option<&str>,
    id: u64,
    limits: ParseLimits,
    parsed: Result<AgentRequestBody, ParseRequestError>,
)
    requires
        written_option_ok(resource),
        written_option_ok(field),
        arrives(
            line,
            client::resource_request(resource, field),
            id,
            limits,
            parsed,
        ),
    ensures
        parsed matches Ok(body) && body.id@ == client::unsigned(id) && (body.command matches
            AgentCommand::ResourceInfo { resource: r, field: f } && same_option(r, resource)
            && same_option(f, field)),
{
    let request = client::resource_request(resource, field);
    assert(wire::place_from(COMMAND_TAGS@, "resource_info"@, 0) == Some(26int)) by {
        lemma_tag_places();
    }
    lemma_names();
    assert(all_suit(
        wire::command_rules(wire::command_tag(26)),
        client::identified(request, id),
    )) by {
        reveal_with_fuel(wire::rule_for, 3);
    }
    let o = lemma_reads(line, request, id, limits, parsed, "resource_info"@, 26);
    json::law_lookup_reads_object(o, "resource"@);
    json::law_lookup_reads_object(o, "field"@);
}

/// A JSON value is what a diagnostic value is written as.
pub open spec fn writes_value(v: JsonValue, value: DiagnosticValue) -> bool {
    match value {
        DiagnosticValue::Null => v is Null,
        DiagnosticValue::Bool(b) => v == JsonValue::Bool(b),
        DiagnosticValue::Number(bits) => v matches JsonValue::Number(n) && json::double_of(n)
            == bits,
        DiagnosticValue::String(s) => v == JsonValue::Text(s@),
    }
}

/// Two diagnostic values are the same.
pub open spec fn same_value(a: DiagnosticValue, b: DiagnosticValue) -> bool {
    match (a, b) {
        (DiagnosticValue::String(a), DiagnosticValue::String(b)) => a@ == b@,
        _ => a == b,
    }
}

/// A JSON value is the condition that the client writes for a predicate.
pub open spec fn writes_condition(v: JsonValue, predicate: Predicate) -> bool {
    match predicate {
        Predicate::StateEquals { state, value } => exists|w: JsonValue|
            writes_value(w, value) && v == #[trigger] conditions::state_condition(state@, w),
        Predicate::ResourceField { resource, field, operator, value } => exists|w: JsonValue|
            writes_value(w, value) && v == #[trigger] conditions::resource_condition(
                resource@,
                field@,
                operator,
                w,
            ),
        Predicate::MarkerCount { marker, min, max } => v == conditions::marker_condition(
            marker@,
            min,
            max,
        ),
        Predicate::TargetExists { target, kind, camera } => exists|c: Option<&str>|
            same_option(camera, c) && v == #[trigger] conditions::target_condition_value(
                true,
                target,
                kind,
                c,
            ),
        Predicate::TargetAbsent { target, kind, camera } => exists|c: Option<&str>|
            same_option(camera, c) && v == #[trigger] conditions::target_condition_value(
                false,
                target,
                kind,
                c,
            ),
    }
}

/// Two optional texts of predicates are the same.
pub open spec fn same_camera(a: Option<String>, b: Option<String>) -> bool {
    match (a, b) {
        (Some(a), Some(b)) => a@ == b@,
        (None, None) => true,
        _ => false,
    }
}

/// Two predicates say the same.
pub open spec fn same_predicate(a: Predicate, b: Predicate) -> bool {
    match (a, b) {
        (
            Predicate::StateEquals { state, value },
            Predicate::StateEquals { state: s, value: v },
        ) => state@ == s@ && same_value(value, v),
        (
            Predicate::ResourceField { resource, field, operator, value },
            Predicate::ResourceField { resource: r, field: f, operator: o, value: v },
        ) => resource@ == r@ && field@ == f@ && operator == o && same_value(value, v),
        (
            Predicate::MarkerCount { marker, min, max },
            Predicate::MarkerCount { marker: m, min: l, max: h },
        ) => marker@ == m@ && min == l && max == h,
        (
            Predicate::TargetExists { target, kind, camera },
            Predicate::TargetExists { target: t, kind: k, camera: c },
        ) => same_target(target, t) && kind == k && same_camera(camera, c),
        (
            Predicate::TargetAbsent { target, kind, camera },
            Predicate::TargetAbsent { target: t, kind: k, camera: c },
        ) => same_target(target, t) && kind == k && same_camera(camera, c),
        _ => false,
    }
}

/// A value is read as a predicate.
pub open spec fn condition_read(v: Json, predicate: Predicate) -> bool {
    wire::predicate_value(v) matches Ok(written) && (commands::predicate_of(written) matches Ok(
        read,
    ) && same_predicate(read, predicate))
}

proof fn lemma_predicate_places()
    ensures
        wire::place_from(wire::PREDICATE_TAGS@, "state_equals"@, 0) == Some(0int),
        wire::place_from(wire::PREDICATE_TAGS@, "resource_field"@, 0) == Some(1int),
        wire::place_from(wire::PREDICATE_TAGS@, "marker_count"@, 0) == Some(2int),
        wire::place_from(wire::PREDICATE_TAGS@, "target_exists"@, 0) == Some(3int),
        wire::place_from(wire::PREDICATE_TAGS@, "target_absent"@, 0) == Some(4int),
{
    reveal_strlit("state_equals");
    reveal_strlit("resource_field");
    reveal_strlit("marker_count");
    reveal_strlit("target_exists");
    reveal_strlit("target_absent");
    assert(wire::PREDICATE_TAGS@[0]@.len() == 12);
    assert(wire::PREDICATE_TAGS@[1]@.len() == 14);
    assert(wire::PREDICATE_TAGS@[2]@.len() == 12);
    assert(wire::PREDICATE_TAGS@[3]@.len() == 13);
    assert(wire::PREDICATE_TAGS@[4]@.len() == 13);
    assert("marker_count"@[0] != "state_equals"@[0]);
    assert("target_absent"@[7] != "target_exists"@[7]);
    reveal_with_fuel(wire::place_from, 6);
}

/// An object whose fields fit its predicate meets no objection.
proof fn lemma_condition_fits(v: Json, tag: Seq<char>, place: int) -> (o: Seq<(String, Json)>)
    requires
        json::canonical(v),
        v@ matches JsonValue::Object(m) && m.dom().contains("type"@) && m["type"@]
            == JsonValue::Text(tag) && all_fit(
            wire::predicate_rules(wire::predicate_tag(place)),
            m,
        ),
        wire::place_from(wire::PREDICATE_TAGS@, tag, 0) == Some(place),
    ensures
        v@ == JsonValue::Object(json::object_value(o)),
        wire::predicate_value(v) == wire::predicate_in_fields(wire::predicate_tag(place), o),
        forall|i: int| 0 <= i < o.len() ==> json::canonical((#[trigger] o[i]).1),
{
    let o = v->Object_0@;
    let m = v@->Object_0;
    let rules = wire::predicate_rules(wire::predicate_tag(place));
    json::law_lookup_reads_object(o, "type"@);
    assert forall|i: int| 0 <= i < o.len() implies json::canonical((#[trigger] o[i]).1)
        && match wire::rule_for(rules, o[i].0@) {
        Some(kind) => fits(kind, o[i].1@),
        None => true,
    } by {
        json::lemma_entry_counts(o, i);
        assert(m.dom().contains(o[i].0@));
    }
    lemma_plain_fields_fit(rules, o);
    o
}

/// A written value spells out the value.
proof fn lemma_value_read(v: Json, value: DiagnosticValue)
    requires
        writes_value(v@, value),
        bounds::value_ok(value),
    ensures
        commands::scalar_of("value"@, wire::scalar_value(v)) matches Ok(read) && same_value(
            read,
            value,
        ),
{
}

proof fn lemma_state_read(v: Json, state: String, value: DiagnosticValue, w: JsonValue)
    requires
        json::canonical(v),
        writes_value(w, value),
        v@ == conditions::state_condition(state@, w),
        bounds::predicate_ok(Predicate::StateEquals { state, value }),
    ensures
        condition_read(v, Predicate::StateEquals { state, value }),
{
    lemma_predicate_places();
    lemma_names();
    let m = v@->Object_0;
    assert(all_fit(wire::predicate_rules(wire::predicate_tag(0)), m)) by {
        reveal_with_fuel(wire::rule_for, 3);
    }
    let o = lemma_condition_fits(v, "state_equals"@, 0);
    json::law_lookup_reads_object(o, "state"@);
    json::law_lookup_reads_object(o, "value"@);
    lemma_value_read(json::lookup(o, "value"@)->Some_0, value);
}

proof fn lemma_field_read(
    v: Json,
    resource: String,
    field: String,
    operator: ComparisonOperator,
    value: DiagnosticValue,
    w: JsonValue,
)
    requires
        json::canonical(v),
        writes_value(w, value),
        v@ == conditions::resource_condition(resource@, field@, operator, w),
        bounds::predicate_ok(Predicate::ResourceField { resource, field, operator, value }),
    ensures
        condition_read(v, Predicate::ResourceField { resource, field, operator, value }),
{
    lemma_predicate_places();
    lemma_names();
    lemma_operators();
    let m = v@->Object_0;
    assert(m["operator"@] == JsonValue::Text(client::operator_name(operator)));
    assert(all_fit(wire::predicate_rules(wire::predicate_tag(1)), m)) by {
        reveal_with_fuel(wire::rule_for, 5);
    }
    let o = lemma_condition_fits(v, "resource_field"@, 1);
    json::law_lookup_reads_object(o, "resource"@);
    json::law_lookup_reads_object(o, "field"@);
    json::law_lookup_reads_object(o, "operator"@);
    json::law_lookup_reads_object(o, "value"@);
    lemma_value_read(json::lookup(o, "value"@)->Some_0, value);
}

proof fn lemma_count_read(v: Json, marker: String, min: Option<u32>, max: Option<u32>)
    requires
        json::canonical(v),
        v@ == conditions::marker_condition(marker@, min, max),
        bounds::predicate_ok(Predicate::MarkerCount { marker, min, max }),
    ensures
        condition_read(v, Predicate::MarkerCount { marker, min, max }),
{
    lemma_predicate_places();
    lemma_names();
    let m = v@->Object_0;
    assert(all_fit(wire::predicate_rules(wire::predicate_tag(2)), m)) by {
        reveal_with_fuel(wire::rule_for, 4);
    }
    let o = lemma_condition_fits(v, "marker_count"@, 2);
    json::law_lookup_reads_object(o, "marker"@);
    json::law_lookup_reads_object(o, "min"@);
    json::law_lookup_reads_object(o, "max"@);
}

proof fn lemma_sight_read(
    v: Json,
    exists: bool,
    target: TargetSelector,
    kind: TargetKind,
    camera: Option<String>,
    c: Option<&str>,
)
    requires
        json::canonical(v),
        same_option(camera, c),
        v@ == conditions::target_condition_value(exists, target, kind, c),
        bounds::selector_ok(target),
        bounds::option_ok(camera),
    ensures
        exists ==> condition_read(v, Predicate::TargetExists { target, kind, camera }),
        !exists ==> condition_read(v, Predicate::TargetAbsent { target, kind, camera }),
{
    lemma_predicate_places();
    lemma_names();
    lemma_kinds();
    lemma_selector_fits(target);
    let m = v@->Object_0;
    let place = if exists {
        3int
    } else {
        4int
    };
    let tag = if exists {
        "target_exists"@
    } else {
        "target_absent"@
    };
    assert(all_fit(wire::predicate_rules(wire::predicate_tag(place)), m)) by {
        reveal_with_fuel(wire::rule_for, 4);
    }
    let o = lemma_condition_fits(v, tag, place);
    json::law_lookup_reads_object(o, "target"@);
    json::law_lookup_reads_object(o, "kind"@);
    json::law_lookup_reads_object(o, "camera"@);
    lemma_lookup_canonical(o, "target"@);
    lemma_target_read(json::lookup(o, "target"@)->Some_0, target);
}

/// Law: a condition that the client writes for a bounded predicate is read as that predicate.
pub proof fn law_conditions_are_read(v: Json, predicate: Predicate)
    requires
        json::canonical(v),
        writes_condition(v@, predicate),
        bounds::predicate_ok(predicate),
    ensures
        condition_read(v, predicate),
{
    match predicate {
        Predicate::StateEquals { state, value } => {
            let w = choose|w: JsonValue|
                writes_value(w, value) && v@ == #[trigger] conditions::state_condition(state@, w);
            lemma_state_read(v, state, value, w);
        },
        Predicate::ResourceField { resource, field, operator, value } => {
            let w = choose|w: JsonValue|
                writes_value(w, value) && v@ == #[trigger] conditions::resource_condition(
                    resource@,
                    field@,
                    operator,
                    w,
                );
            lemma_field_read(v, resource, field, operator, value, w);
        },
        Predicate::MarkerCount { marker, min, max } => {
            lemma_count_read(v, marker, min, max);
        },
        Predicate::TargetExists { target, kind, camera } => {
            let c = choose|c: Option<&str>|
                same_option(camera, c) && v@ == #[trigger] conditions::target_condition_value(
                    true,
                    target,
                    kind,
                    c,
                );
            lemma_sight_read(v, true, target, kind, camera, c);
        },
        Predicate::TargetAbsent { target, kind, camera } => {
            let c = choose|c: Option<&str>|
                same_option(camera, c) && v@ == #[trigger] conditions::target_condition_value(
                    false,
                    target,
                    kind,
                    c,
                );
            lemma_sight_read(v, false, target, kind, camera, c);
        },
    }
}

/// Law: a line that holds the client's request to evaluate a condition is read as that, for the
/// predicate that the condition was written for.
pub proof fn law_evaluations_are_read(
    line: Seq<char>,
    condition: JsonValue,
    predicate: Predicate,
    id: u64,
    limits: ParseLimits,
    parsed: Result<AgentRequestBody, ParseRequestError>,
)
    requires
        writes_condition(condition, predicate),
        bounds::predicate_ok(predicate),
        conditions::evaluation_of(condition) matches JsonValue::Object(request) && arrives(
            line,
            request,
            id,
            limits,
            parsed,
        ),
    ensures
        parsed matches Ok(body) && body.id@ == client::unsigned(id) && (body.command matches
            AgentCommand::EvaluatePredicate { predicate: read } && same_predicate(
            read,
            predicate,
        )),
{
    let request = conditions::evaluation_of(condition)->Object_0;
    assert(wire::place_from(COMMAND_TAGS@, "evaluate_predicate"@, 0) == Some(27int)) by {
        lemma_tag_places();
    }
    lemma_names();
    assert(is_condition(condition));
    assert(all_suit(
        wire::command_rules(wire::command_tag(27)),
        client::identified(request, id),
    )) by {
        reveal_with_fuel(wire::rule_for, 2);
    }
    let o = lemma_reads(line, request, id, limits, parsed, "evaluate_predicate"@, 27);
    json::law_lookup_reads_object(o, "predicate"@);
    lemma_lookup_canonical(o, "predicate"@);
    law_conditions_are_read(json::lookup(o, "predicate"@)->Some_0, predicate);
}

/// Conditions are read one by one.
proof fn lemma_conditions_read(items: Seq<Json>, predicates: Seq<Predicate>)
    requires
        items.len() == predicates.len(),
        forall|i: int|
            0 <= i < items.len() ==> condition_read(#[trigger] items[i], predicates[i]),
    ensures
        wire::predicate_values(items) matches Ok(list) && list.len() == items.len() && forall|i: int|
            0 <= i < list.len() ==> wire::predicate_value(items[i]) == Ok::<
                WirePredicate,
                Seq<char>,
            >(#[trigger] list[i]),
    decreases items.len(),
{
    if items.len() > 0 {
        let t = items.drop_last();
        assert forall|i: int| 0 <= i < t.len() implies condition_read(
            #[trigger] t[i],
            predicates.drop_last()[i],
        ) by {
            assert(condition_read(items[i], predicates[i]));
        }
        lemma_conditions_read(t, predicates.drop_last());
        assert(condition_read(items[items.len() - 1], predicates[items.len() - 1]));
        let head = wire::predicate_values(t)->Ok_0;
        let list = wire::predicate_values(items)->Ok_0;
        assert forall|i: int| 0 <= i < list.len() implies wire::predicate_value(items[i]) == Ok::<
            WirePredicate,
            Seq<char>,
        >(#[trigger] list[i]) by {
            if i < head.len() {
                assert(list[i] == head[i]);
                assert(items[i] == t[i]);
            }
        }
    }
}

/// Written predicates are taken up one by one.
proof fn lemma_predicates_taken(list: Seq<WirePredicate>, predicates: Seq<Predicate>)
    requires
        list.len() == predicates.len(),
        forall|i: int|
            0 <= i < list.len() ==> (commands::predicate_of(#[trigger] list[i]) matches Ok(p)
                && same_predicate(p, predicates[i])),
    ensures
        commands::predicates_of(list) matches Ok(read) && read.len() == list.len() && forall|i: int|
            0 <= i < read.len() ==> same_predicate(#[trigger] read[i], predicates[i]),
    decreases list.len(),
{
    if list.len() > 0 {
        let t = list.skip(1);
        let p = predicates.skip(1);
        assert forall|i: int| 0 <= i < t.len() implies (commands::predicate_of(
            #[trigger] t[i],
        ) matches Ok(q) && same_predicate(q, p[i])) by {
            assert(t[i] == list[i + 1]);
        }
        lemma_predicates_taken(t, p);
        assert(commands::predicate_of(list[0]) is Ok);
        let read = commands::predicates_of(list)->Ok_0;
        let rest = commands::predicates_of(t)->Ok_0;
        assert forall|i: int| 0 <= i < read.len() implies same_predicate(
            #[trigger] read[i],
            predicates[i],
        ) by {
            if i > 0 {
                assert(read[i] == rest[i - 1]);
                assert(same_predicate(rest[i - 1], p[i - 1]));
            }
        }
    }
}

/// Law: a line that holds the client's request to wait for a condition is read as that, for the
/// predicate that the condition was written for, the predicates that its abort conditions were
/// written for, in their order, and the same number of frames.
pub proof fn law_condition_waits_are_read(
    line: Seq<char>,
    condition: JsonValue,
    predicate: Predicate,
    aborts: Seq<Json>,
    abort_predicates: Seq<Predicate>,
    max_frames: u16,
    id: u64,
    limits: ParseLimits,
    parsed: Result<AgentRequestBody, ParseRequestError>,
)
    requires
        writes_condition(condition, predicate),
        bounds::predicate_ok(predicate),
        aborts.len() == abort_predicates.len(),
        forall|i: int|
            0 <= i < aborts.len() ==> writes_condition(
                (#[trigger] aborts[i])@,
                abort_predicates[i],
            ) && bounds::predicate_ok(abort_predicates[i]),
        1 <= max_frames <= limits.max_wait_frames,
        client::predicate_request_of(
            "wait_for"@,
            condition,
            aborts,
            Some(max_frames),
        ) matches JsonValue::Object(request) && arrives(line, request, id, limits, parsed),
    ensures
        parsed matches Ok(body) && body.id@ == client::unsigned(id) && (body.command matches
            AgentCommand::WaitFor { predicate: p, abort_predicates: a, max_frames: n }
            && same_predicate(p, predicate) && a@.len() == aborts.len() && (forall|i: int|
            0 <= i < a@.len() ==> same_predicate(#[trigger] a@[i], abort_predicates[i])) && n
            == max_frames),
{
    let request = client::predicate_request_of(
        "wait_for"@,
        condition,
        aborts,
        Some(max_frames),
    )->Object_0;
    assert(wire::place_from(COMMAND_TAGS@, "wait_for"@, 0) == Some(28int)) by {
        lemma_tag_places();
    }
    lemma_names();
    assert(is_condition(condition));
    let list = client::value_list(aborts);
    assert(suits(FieldKind::Predicates, list)) by {
        assert forall|i: int| 0 <= i < list->Array_0.len() implies is_condition(
            #[trigger] list->Array_0[i],
        ) by {
            assert(writes_condition(aborts[i]@, abort_predicates[i]));
        }
    }
    assert(all_suit(
        wire::command_rules(wire::command_tag(28)),
        client::identified(request, id),
    )) by {
        reveal_with_fuel(wire::rule_for, 4);
    }
    let (o, wire) = lemma_arrived(line, request, id, limits, parsed, "wait_for"@, 28);
    json::law_lookup_reads_object(o, "predicate"@);
    json::law_lookup_reads_object(o, "abort_predicates"@);
    json::law_lookup_reads_object(o, "max_frames"@);
    lemma_lookup_canonical(o, "predicate"@);
    lemma_lookup_canonical(o, "abort_predicates"@);
    law_conditions_are_read(json::lookup(o, "predicate"@)->Some_0, predicate);
    assert(wire is Ok);
    let written = wire->Ok_0;
    let told = wire::predicates_in(o, "abort_predicates"@);
    if aborts.len() > 0 {
        let v = json::lookup(o, "abort_predicates"@)->Some_0;
        let items = v->Array_0@;
        assert(v@ == list);
        assert(v@->Array_0.len() == items.len());
        assert forall|i: int| 0 <= i < items.len() implies condition_read(
            #[trigger] items[i],
            abort_predicates[i],
        ) by {
            assert(v@->Array_0[i] == items[i]@);
            assert(list->Array_0[i] == aborts[i]@);
            assert(json::canonical(items[i]));
            law_conditions_are_read(items[i], abort_predicates[i]);
        }
        lemma_conditions_read(items, abort_predicates);
        assert forall|i: int| 0 <= i < told.len() implies (commands::predicate_of(
            #[trigger] told[i],
        ) matches Ok(q) && same_predicate(q, abort_predicates[i])) by {
            assert(condition_read(items[i], abort_predicates[i]));
        }
        lemma_predicates_taken(told, abort_predicates);
    } else {
        lemma_predicates_taken(told, abort_predicates);
    }
    let read = choose|read: Result<AgentCommand, String>| #[trigger]
        requests::command_agrees(written, limits, read) && outcome(read, parsed, id);
    assert(requests::command_agrees(written, limits, read) && outcome(read, parsed, id));
}

/// Law: the requests that a client makes without arguments are read as what they ask for: to tell of
/// the window, to take a capture, to release what is held, and to leave.
pub proof fn law_plain_requests_are_read(
    line: Seq<char>,
    id: u64,
    limits: ParseLimits,
    parsed: Result<AgentRequestBody, ParseRequestError>,
)
    ensures
        arrives(line, client::window_info_request(), id, limits, parsed) ==> understood(
            parsed,
            id,
            AgentCommand::WindowInfo,
        ),
        arrives(line, client::capture_request(), id, limits, parsed) ==> understood(
            parsed,
            id,
            AgentCommand::Capture { label: None },
        ),
        arrives(line, client::release_all_inputs_request(), id, limits, parsed) ==> understood(
            parsed,
            id,
            AgentCommand::ReleaseAllInputs,
        ),
        arrives(line, client::shutdown_request(), id, limits, parsed) ==> understood(
            parsed,
            id,
            AgentCommand::Shutdown,
        ),
{
    if arrives(line, client::window_info_request(), id, limits, parsed) {
        law_bare_requests_are_read(line, "window_info"@, id, limits, parsed);
    }
    if arrives(line, client::capture_request(), id, limits, parsed) {
        law_bare_requests_are_read(line, "capture"@, id, limits, parsed);
    }
    if arrives(line, client::release_all_inputs_request(), id, limits, parsed) {
        law_bare_requests_are_read(line, "release_all_inputs"@, id, limits, parsed);
    }
    if arrives(line, client::shutdown_request(), id, limits, parsed) {
        law_bare_requests_are_read(line, "shutdown"@, id, limits, parsed);
    }
}

/// Law: a line that holds the client's request for a capture after some frames, without a label, is
/// read as such, for as many frames.
pub proof fn law_unlabeled_late_captures_are_read(
    line: Seq<char>,
    frames: u16,
    id: u64,
    limits: ParseLimits,
    parsed: Result<AgentRequestBody, ParseRequestError>,
)
    requires
        1 <= frames <= limits.max_wait_frames,
        arrives(line, client::late_request(frames), id, limits, parsed),
    ensures
        understood(parsed, id, AgentCommand::CaptureAfterFrames { frames, label: None }),
{
    let request = client::late_request(frames);
    assert(wire::place_from(COMMAND_TAGS@, "capture_after_frames"@, 0) == Some(16int)) by {
        lemma_tag_places();
    }
    lemma_names();
    assert(all_suit(
        wire::command_rules(wire::command_tag(16)),
        client::identified(request, id),
    )) by {
        reveal_with_fuel(wire::rule_for, 3);
    }
    let o = lemma_reads(line, request, id, limits, parsed, "capture_after_frames"@, 16);
    json::law_lookup_reads_object(o, "frames"@);
    json::law_lookup_reads_object(o, "label"@);
}

/// Law: a line that holds the client's request to advance time at once is read as the advance that
/// its seconds make, where the application allows it.
pub proof fn law_whole_advances_are_read(
    line: Seq<char>,
    seconds: NumberValue,
    id: u64,
    limits: ParseLimits,
    parsed: Result<AgentRequestBody, ParseRequestError>,
)
    requires
        requests::advance_of(written_seconds(seconds), None, limits) is Ok,
        arrives(line, client::advance_request(seconds), id, limits, parsed),
    ensures
        requests::advance_of(written_seconds(seconds), None, limits) matches Ok(command)
            ==> understood(parsed, id, command),
{
    let request = client::advance_request(seconds);
    assert(wire::place_from(COMMAND_TAGS@, "advance_time"@, 0) == Some(14int)) by {
        lemma_tag_places();
    }
    lemma_names();
    assert(all_suit(
        wire::command_rules(wire::command_tag(14)),
        client::identified(request, id),
    )) by {
        reveal_with_fuel(wire::rule_for, 3);
    }
    let o = lemma_reads(line, request, id, limits, parsed, "advance_time"@, 14);
    json::law_lookup_reads_object(o, "seconds"@);
    json::law_lookup_reads_object(o, "step_seconds"@);
}

} // verus!
