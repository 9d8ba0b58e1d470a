//! Conditions on the application as the client waits for them and asserts them.
use crate::client;
use crate::client::{
    marker_count, resource_field, state_equals, target_condition, AgentClient, ClientError,
};
use crate::commands::{ComparisonOperator, DiagnosticValue, TargetKind, TargetSelector};
use crate::json;
use crate::json::{copy_json, double_bits, member, print_json, Json, JsonValue};
use crate::responses::PredicateOutcome;
use crate::wire;
use crate::wire::invalid_type;
use crate::text::cat2;
use vstd::prelude::*;

verus! {

/// The condition that a state has a value, as a JSON value.
pub open spec fn state_condition(state: Seq<char>, value: JsonValue) -> JsonValue {
    JsonValue::Object(
        Map::empty().insert("type"@, JsonValue::Text("state_equals"@)).insert(
            "state"@,
            JsonValue::Text(state),
        ).insert("value"@, value),
    )
}

/// The condition that a field of a resource compares with a value, as a JSON value.
pub open spec fn resource_condition(
    resource: Seq<char>,
    field: Seq<char>,
    operator: ComparisonOperator,
    value: JsonValue,
) -> JsonValue {
    JsonValue::Object(
        Map::empty().insert("type"@, JsonValue::Text("resource_field"@)).insert(
            "resource"@,
            JsonValue::Text(resource),
        ).insert("field"@, JsonValue::Text(field)).insert(
            "operator"@,
            JsonValue::Text(client::operator_name(operator)),
        ).insert("value"@, value),
    )
}

/// The condition that a marker counts between two bounds, as a JSON value.
pub open spec fn marker_condition(marker: Seq<char>, min: Option<u32>, max: Option<u32>) -> JsonValue {
    JsonValue::Object(
        Map::empty().insert("type"@, JsonValue::Text("marker_count"@)).insert(
            "marker"@,
            JsonValue::Text(marker),
        ).insert("min"@, client::count_or_null(min)).insert("max"@, client::count_or_null(max)),
    )
}

/// The condition that a target exists, or that it does not, as a JSON value.
pub open spec fn target_condition_value(
    exists: bool,
    target: TargetSelector,
    kind: TargetKind,
    camera: Option<&str>,
) -> JsonValue {
    JsonValue::Object(
        Map::empty().insert(
            "type"@,
            JsonValue::Text(
                if exists {
                    "target_exists"@
                } else {
                    "target_absent"@
                },
            ),
        ).insert("target"@, client::selector_value(target)).insert(
            "kind"@,
            JsonValue::Text(client::kind_name(kind)),
        ).insert("camera"@, client::text_or_null(camera)),
    )
}

/// The result `r` is the request to wait for a condition, or refuses it.
pub open spec fn waits_for(
    c: AgentClient,
    condition: JsonValue,
    max_frames: u16,
    r: Result<Json, ClientError>,
) -> bool {
    match c.semantic_refusal(max_frames, 0) {
        Some(reason) => client::refused(r, reason),
        None => r matches Ok(json) && json@ == client::predicate_request_of(
            "wait_for"@,
            condition,
            Seq::empty(),
            Some(max_frames),
        ),
    }
}

/// The request to evaluate a condition once.
pub open spec fn evaluation_of(condition: JsonValue) -> JsonValue {
    client::predicate_request_of("evaluate_predicate"@, condition, Seq::empty(), None)
}

/// The request to wait for a state, and to give up where it has one of some other values.
pub open spec fn state_wait(
    state: Seq<char>,
    value: JsonValue,
    aborts: Seq<Json>,
    max_frames: u16,
) -> JsonValue {
    let first = client::bare_request("wait_for"@).insert(
        "predicate"@,
        state_condition(state, value),
    );
    let second = if aborts.len() > 0 {
        first.insert(
            "abort_predicates"@,
            JsonValue::Array(
                Seq::new(aborts.len(), |i: int| state_condition(state, aborts[i]@)),
            ),
        )
    } else {
        first
    };
    JsonValue::Object(second.insert("max_frames"@, client::unsigned(max_frames as u64)))
}

impl AgentClient {
    /// Asks to wait for a state.
    pub fn wait_for_state(&self, state: &str, value: Json, max_frames: u16) -> (r: Result<
        Json,
        ClientError,
    >)
        ensures
            waits_for(*self, state_condition(state@, value@), max_frames, r),
    {
        self.wait_for(state_equals(state, value), max_frames)
    }

    /// Asks to wait for a state, and to give up where it has one of some other values.
    pub fn wait_for_state_with_abort(
        &self,
        state: &str,
        value: Json,
        abort_values: &Vec<Json>,
        max_frames: u16,
    ) -> (r: Result<Json, ClientError>)
        ensures
            match self.semantic_refusal(max_frames, abort_values@.len() as usize) {
                Some(reason) => client::refused(r, reason),
                None => r matches Ok(json) && json@ == state_wait(
                    state@,
                    value@,
                    abort_values@,
                    max_frames,
                ),
            },
    {
        let mut aborts: Vec<Json> = Vec::new();
        let mut i: usize = 0;
        while i < abort_values.len()
            invariant
                i <= abort_values@.len(),
                aborts@.len() == i,
                forall|k: int|
                    0 <= k < i ==> (#[trigger] aborts@[k])@ == state_condition(
                        state@,
                        abort_values@[k]@,
                    ),
            decreases abort_values@.len() - i,
        {
            aborts.push(state_equals(state, copy_json(&abort_values[i])));
            i = i + 1;
        }
        assert(client::value_list(aborts@) == JsonValue::Array(
            Seq::new(
                abort_values@.len(),
                |k: int| state_condition(state@, abort_values@[k]@),
            ),
        )) by {
            assert(Seq::new(aborts@.len(), |k: int| aborts@[k]@) =~= Seq::new(
                abort_values@.len(),
                |k: int| state_condition(state@, abort_values@[k]@),
            ));
        }
        self.wait_for_with_abort(state_equals(state, value), aborts, max_frames)
    }

    /// Asks to wait for a field of a resource.
    pub fn wait_for_resource(
        &self,
        resource: &str,
        field: &str,
        operator: ComparisonOperator,
        value: Json,
        max_frames: u16,
    ) -> (r: Result<Json, ClientError>)
        ensures
            waits_for(
                *self,
                resource_condition(resource@, field@, operator, value@),
                max_frames,
                r,
            ),
    {
        self.wait_for(resource_field(resource, field, operator, value), max_frames)
    }

    /// Asks to wait until a marker counts between two bounds.
    pub fn wait_for_marker_count(
        &self,
        marker: &str,
        min: Option<u32>,
        max: Option<u32>,
        max_frames: u16,
    ) -> (r: Result<Json, ClientError>)
        ensures
            waits_for(*self, marker_condition(marker@, min, max), max_frames, r),
    {
        self.wait_for(marker_count(marker, min, max), max_frames)
    }

    /// Asks to wait until something has a marker.
    pub fn wait_for_marker_present(&self, marker: &str, max_frames: u16) -> (r: Result<
        Json,
        ClientError,
    >)
        ensures
            waits_for(*self, marker_condition(marker@, Some(1), None), max_frames, r),
    {
        self.wait_for_marker_count(marker, Some(1), None, max_frames)
    }

    /// Asks to wait until nothing has a marker.
    pub fn wait_for_marker_absent(&self, marker: &str, max_frames: u16) -> (r: Result<
        Json,
        ClientError,
    >)
        ensures
            waits_for(*self, marker_condition(marker@, None, Some(0)), max_frames, r),
    {
        self.wait_for_marker_count(marker, None, Some(0), max_frames)
    }

    /// Asks to wait until a target exists.
    pub fn wait_for_target(
        &self,
        target: &TargetSelector,
        kind: TargetKind,
        camera: Option<&str>,
        max_frames: u16,
    ) -> (r: Result<Json, ClientError>)
        ensures
            waits_for(*self, target_condition_value(true, *target, kind, camera), max_frames, r),
    {
        self.wait_for(target_condition(true, target, kind, camera), max_frames)
    }

    /// Asks to wait until a target does not exist.
    pub fn wait_for_target_absent(
        &self,
        target: &TargetSelector,
        kind: TargetKind,
        camera: Option<&str>,
        max_frames: u16,
    ) -> (r: Result<Json, ClientError>)
        ensures
            waits_for(*self, target_condition_value(false, *target, kind, camera), max_frames, r),
    {
        self.wait_for(target_condition(false, target, kind, camera), max_frames)
    }

    /// Asks whether a state has a value.
    pub fn assert_state(&self, state: &str, value: Json) -> (r: Json)
        ensures
            r@ == evaluation_of(state_condition(state@, value@)),
    {
        self.evaluate_predicate(state_equals(state, value))
    }

    /// Asks whether a field of a resource compares with a value.
    pub fn assert_resource(
        &self,
        resource: &str,
        field: &str,
        operator: ComparisonOperator,
        value: Json,
    ) -> (r: Json)
        ensures
            r@ == evaluation_of(resource_condition(resource@, field@, operator, value@)),
    {
        self.evaluate_predicate(resource_field(resource, field, operator, value))
    }

    /// Asks whether a marker counts between two bounds.
    pub fn assert_marker_count(&self, marker: &str, min: Option<u32>, max: Option<u32>) -> (r: Json)
        ensures
            r@ == evaluation_of(marker_condition(marker@, min, max)),
    {
        self.evaluate_predicate(marker_count(marker, min, max))
    }

    /// Asks whether something has a marker.
    pub fn assert_marker_present(&self, marker: &str) -> (r: Json)
        ensures
            r@ == evaluation_of(marker_condition(marker@, Some(1), None)),
    {
        self.assert_marker_count(marker, Some(1), None)
    }

    /// Asks whether nothing has a marker.
    pub fn assert_marker_absent(&self, marker: &str) -> (r: Json)
        ensures
            r@ == evaluation_of(marker_condition(marker@, None, Some(0))),
    {
        self.assert_marker_count(marker, None, Some(0))
    }

    /// Asks whether a target exists.
    pub fn assert_target_exists(
        &self,
        target: &TargetSelector,
        kind: TargetKind,
        camera: Option<&str>,
    ) -> (r: Json)
        ensures
            r@ == evaluation_of(target_condition_value(true, *target, kind, camera)),
    {
        self.evaluate_predicate(target_condition(true, target, kind, camera))
    }

    /// Asks whether a target does not exist.
    pub fn assert_target_absent(
        &self,
        target: &TargetSelector,
        kind: TargetKind,
        camera: Option<&str>,
    ) -> (r: Json)
        ensures
            r@ == evaluation_of(target_condition_value(false, *target, kind, camera)),
    {
        self.evaluate_predicate(target_condition(false, target, kind, camera))
    }
}

impl AgentClient {
    /// Judges an asserted condition: only one that holds is met. `shown` is the observation as it is
    /// written in the error.
    pub fn assert_predicate(&self, outcome: PredicateOutcome, shown: &str) -> (r: Result<(), ClientError>)
        ensures
            if outcome is Matched {
                r is Ok
            } else {
                r matches Err(ClientError::Assertion(message)) && message@
                    == "predicate assertion did not match: "@ + shown@
            },
    {
        match outcome {
            PredicateOutcome::Matched => Ok(()),
            _ => Err(
                ClientError::Assertion(cat2("predicate assertion did not match: ", shown)),
            ),
        }
    }
}

/// The diagnostic value that a JSON value is, where it is one.
pub open spec fn scalar_of(value: JsonValue, r: DiagnosticValue) -> bool {
    match value {
        JsonValue::Null => r is Null,
        JsonValue::Bool(b) => r == DiagnosticValue::Bool(b),
        JsonValue::Number(n) => r == DiagnosticValue::Number(json::double_of(n)),
        JsonValue::Text(s) => r matches DiagnosticValue::String(t) && t@ == s,
        _ => false,
    }
}

/// The value that an answer about a field holds.
pub open spec fn field_told(details: JsonValue) -> JsonValue {
    match json::value_at(details, "value"@) {
        Some(value) => value,
        None => JsonValue::Null,
    }
}

impl AgentClient {
    /// Reads the value of a field out of the details of an answer. A missing value reads as null.
    pub fn read_resource_field(&self, details: &Json) -> (r: Result<DiagnosticValue, ClientError>)
        ensures
            match field_told(details@) {
                JsonValue::Array(_) | JsonValue::Object(_) => client::refused(
                    r,
                    "invalid resource field response (data did not match any variant of untagged enum DiagnosticValue): "@
                        + json::printed_json(details@),
                ),
                value => r matches Ok(read) && scalar_of(value, read),
            },
    {
        match member(details, "value") {
            None => Ok(DiagnosticValue::Null),
            Some(Json::Null) => Ok(DiagnosticValue::Null),
            Some(Json::Bool(b)) => Ok(DiagnosticValue::Bool(*b)),
            Some(Json::Number(n)) => Ok(DiagnosticValue::Number(double_bits(n))),
            Some(Json::Text(s)) => Ok(DiagnosticValue::String(s.clone())),
            _ => Err(
                ClientError::Protocol(
                    cat2(
                        "invalid resource field response (data did not match any variant of untagged enum DiagnosticValue): ",
                        print_json(details).as_str(),
                    ),
                ),
            ),
        }
    }
}

/// The value under a name, or else under another one.
pub open spec fn either(m: Map<Seq<char>, JsonValue>, a: Seq<char>, b: Seq<char>) -> Option<JsonValue> {
    if m.dom().contains(a) {
        Some(m[a])
    } else if m.dom().contains(b) {
        Some(m[b])
    } else {
        None
    }
}

/// What one more field makes of a selector that is being read: `chosen` is what was read before,
/// and `place` is the place of the field among the three.
pub open spec fn choose_field(
    chosen: Result<Option<(int, Seq<char>)>, Seq<char>>,
    place: int,
    value: Option<JsonValue>,
) -> Result<Option<(int, Seq<char>)>, Seq<char>> {
    match chosen {
        Err(reason) => Err(reason),
        Ok(before) => match value {
            None => Ok(before),
            Some(JsonValue::Text(s)) => if before is Some {
                Err("target selector must contain exactly one field"@)
            } else {
                Ok(Some((place, s)))
            },
            Some(_) => Err("target selector must be a string"@),
        },
    }
}

/// What an object says of a selector: which of the three fields it has, and the text in it.
pub open spec fn fields_chosen(m: Map<Seq<char>, JsonValue>) -> Result<
    Option<(int, Seq<char>)>,
    Seq<char>,
> {
    choose_field(
        choose_field(
            choose_field(Ok(None), 0, either(m, "name"@, "Name"@)),
            1,
            either(m, "accessibility_label"@, "AccessibilityLabel"@),
        ),
        2,
        either(m, "marker"@, "Marker"@),
    )
}

/// The result `r` is the selector that a value spells, or says why it spells none.
pub open spec fn selector_read(value: JsonValue, r: Result<TargetSelector, String>) -> bool {
    match value {
        JsonValue::Object(m) => match fields_chosen(m) {
            Err(reason) => r matches Err(message) && message@ == reason,
            Ok(None) => r matches Err(message) && message@
                == "target selector must contain exactly one known field"@,
            Ok(Some((place, s))) => r matches Ok(selector) && match selector {
                TargetSelector::Name(t) => place == 0 && t@ == s,
                TargetSelector::AccessibilityLabel(t) => place == 1 && t@ == s,
                TargetSelector::Marker(t) => place == 2 && t@ == s,
            },
        },
        _ => r matches Err(message) && message@ == wire::invalid_type_text(value, "a map"@),
    }
}

fn either_member<'a>(json: &'a Json, a: &str, b: &str) -> (r: Option<&'a Json>)
    requires
        json is Object,
    ensures
        json@ matches JsonValue::Object(m) && either(m, a@, b@) == (match r {
            Some(value) => Some(value@),
            None => None,
        }),
{
    match member(json, a) {
        Some(value) => Some(value),
        None => member(json, b),
    }
}

fn next_field(
    chosen: Result<Option<(u8, String)>, &'static str>,
    place: u8,
    value: Option<&Json>,
) -> (r: Result<Option<(u8, String)>, &'static str>)
    ensures
        chosen_view(r) == choose_field(
            chosen_view(chosen),
            place as int,
            match value {
                Some(json) => Some(json@),
                None => None,
            },
        ),
{
    match chosen {
        Err(reason) => Err(reason),
        Ok(before) => match value {
            None => Ok(before),
            Some(Json::Text(s)) => if before.is_some() {
                Err("target selector must contain exactly one field")
            } else {
                Ok(Some((place, s.clone())))
            },
            Some(_) => Err("target selector must be a string"),
        },
    }
}

spec fn chosen_view(chosen: Result<Option<(u8, String)>, &'static str>) -> Result<
    Option<(int, Seq<char>)>,
    Seq<char>,
> {
    match chosen {
        Err(reason) => Err(reason@),
        Ok(None) => Ok(None),
        Ok(Some((place, s))) => Ok(Some((place as int, s@))),
    }
}

/// Reads a selector as an answer spells it: an object with one of three fields, each under the
/// name of a request or under that of a variant.
pub fn read_selector(json: &Json) -> (r: Result<TargetSelector, String>)
    ensures
        selector_read(json@, r),
{
    match json {
        Json::Object(_) => {},
        _ => return Err(invalid_type(json, "a map")),
    }
    let name = next_field(Ok(None), 0, either_member(json, "name", "Name"));
    let label = next_field(
        name,
        1,
        either_member(json, "accessibility_label", "AccessibilityLabel"),
    );
    let marker = next_field(label, 2, either_member(json, "marker", "Marker"));
    match marker {
        Err(reason) => Err(reason.to_owned()),
        Ok(None) => Err("target selector must contain exactly one known field".to_owned()),
        Ok(Some((place, s))) => if place == 0 {
            Ok(TargetSelector::Name(s))
        } else if place == 1 {
            Ok(TargetSelector::AccessibilityLabel(s))
        } else {
            Ok(TargetSelector::Marker(s))
        },
    }
}

/// Law: a selector that the client writes is read back as the same selector.
pub proof fn law_written_selectors_are_read(
    selector: TargetSelector,
    r: Result<TargetSelector, String>,
)
    requires
        selector_read(client::selector_value(selector), r),
    ensures
        r matches Ok(read) && match (selector, read) {
            (TargetSelector::Name(a), TargetSelector::Name(b)) => a@ == b@,
            (TargetSelector::AccessibilityLabel(a), TargetSelector::AccessibilityLabel(b)) => a@
                == b@,
            (TargetSelector::Marker(a), TargetSelector::Marker(b)) => a@ == b@,
            _ => false,
        },
{
    reveal_strlit("name");
    reveal_strlit("Name");
    reveal_strlit("accessibility_label");
    reveal_strlit("AccessibilityLabel");
    reveal_strlit("marker");
    reveal_strlit("Marker");
    assert("name"@.len() == 4 && "Name"@.len() == 4 && "marker"@.len() == 6 && "Marker"@.len() == 6);
    assert("accessibility_label"@.len() == 19 && "AccessibilityLabel"@.len() == 18);
    assert("name"@[0] != "Name"@[0]);
    assert("marker"@[0] != "Marker"@[0]);
}

} // verus!
