//! Discovery: the document by which a client finds a running application and learns what it may
//! ask for.
use crate::commands;
use crate::config::{AgentFeedbackConfig, AgentFeedbackSession, PROTOCOL_VERSION};
use crate::json::{
    json_text, parse_json, pretty_json, span_json, Json, JsonNumber, JsonValue, NumberValue,
    ObjectBuilder,
};
use crate::json;
use crate::span::{seconds_text, Span, NANOS_PER_MILLI};
use crate::span;
use crate::text::{cat2, cat3, cat4, decimal};
use crate::text;
use vstd::prelude::*;

verus! {

/// A range of frames with one as its default.
pub open spec fn frames_text(max: u16) -> Seq<char> {
    "1..="@ + text::digits(max as nat) + "; default 1"@
}

fn frames_doc(max: u16) -> (r: String)
    ensures
        r@ == frames_text(max),
{
    cat3("1..=", decimal(max as u128).as_str(), "; default 1")
}

/// A range of frames with the most as its default.
pub open spec fn max_frames_text(max: u16) -> Seq<char> {
    "1..="@ + text::digits(max as nat) + "; default "@ + text::digits(max as nat)
}

fn max_frames_doc(max: u16) -> (r: String)
    ensures
        r@ == max_frames_text(max),
{
    cat4("1..=", decimal(max as u128).as_str(), "; default ", decimal(max as u128).as_str())
}

/// A range of frames that has to be given.
pub open spec fn required_frames_text(max: u16) -> Seq<char> {
    "required 1..="@ + text::digits(max as nat)
}

fn required_frames_doc(max: u16) -> (r: String)
    ensures
        r@ == required_frames_text(max),
{
    cat2("required 1..=", decimal(max as u128).as_str())
}

/// The range of the moves of a drag.
pub open spec fn drag_steps_text(max: u16) -> Seq<char> {
    "1..="@ + text::digits(commands::at_least_one(max) as nat) + "; default 10"@
}

fn drag_steps_doc(max: u16) -> (r: String)
    ensures
        r@ == drag_steps_text(max),
{
    let most: u16 = if max == 0 {
        1
    } else {
        max
    };
    cat3("1..=", decimal(most as u128).as_str(), "; default 10")
}

/// The range of the frames of a drag.
pub open spec fn drag_frames_text(max: u16) -> Seq<char> {
    "steps..="@ + text::digits(max as nat) + "; default steps"@
}

fn drag_frames_doc(max: u16) -> (r: String)
    ensures
        r@ == drag_frames_text(max),
{
    cat3("steps..=", decimal(max as u128).as_str(), "; default steps")
}

/// The range of an advance of time.
pub open spec fn advance_seconds_text(max: Span) -> Seq<char> {
    "positive finite duration <= "@ + span::span_text(max) + " seconds"@
}

fn advance_seconds_doc(max: Span) -> (r: String)
    requires
        max.wf(),
    ensures
        r@ == advance_seconds_text(max),
{
    cat3("positive finite duration <= ", seconds_text(max).as_str(), " seconds")
}

/// The range of the step of an advance of time.
pub open spec fn advance_steps_text(max: u16) -> Seq<char> {
    "optional positive finite duration; ceil(seconds/step_seconds) <= "@ + text::digits(
        commands::at_least_one(max) as nat,
    ) + "; default Time<Fixed>::timestep or 1/60"@
}

fn advance_steps_doc(max: u16) -> (r: String)
    ensures
        r@ == advance_steps_text(max),
{
    let most: u16 = if max == 0 {
        1
    } else {
        max
    };
    cat3(
        "optional positive finite duration; ceil(seconds/step_seconds) <= ",
        decimal(most as u128).as_str(),
        "; default Time<Fixed>::timestep or 1/60",
    )
}

/// The names of the fields of a target selector.
pub open spec fn selector_value() -> JsonValue {
    JsonValue::Object(
        Map::empty().insert(
            "exactly_one"@,
            JsonValue::Array(
                seq![
                    JsonValue::Text("name"@),
                    JsonValue::Text("accessibility_label"@),
                    JsonValue::Text("marker"@),
                ],
            ),
        ).insert("string_bytes"@, JsonValue::Text("1..=128"@)),
    )
}

fn three_texts(a: &str, b: &str, c: &str) -> (r: Json)
    ensures
        r@ == JsonValue::Array(
            seq![JsonValue::Text(a@), JsonValue::Text(b@), JsonValue::Text(c@)],
        ),
{
    let mut items: Vec<Json> = Vec::new();
    items.push(json_text(a));
    items.push(json_text(b));
    items.push(json_text(c));
    let r = Json::Array(items);
    assert(r@ matches JsonValue::Array(s) && s =~= seq![
        JsonValue::Text(a@),
        JsonValue::Text(b@),
        JsonValue::Text(c@),
    ]);
    r
}

fn selector_doc() -> (r: Json)
    ensures
        r@ == selector_value(),
{
    ObjectBuilder::new().with(
        "exactly_one",
        three_texts("name", "accessibility_label", "marker"),
    ).with("string_bytes", json_text("1..=128")).build()
}

/// How a predicate is written.
pub open spec fn predicates_value() -> JsonValue {
    JsonValue::Object(
        Map::empty()
            .insert("discriminator"@, JsonValue::Text("type: state_equals|resource_field|marker_count|target_exists|target_absent"@))
            .insert("state_equals"@, JsonValue::Object(
                Map::empty()
                    .insert("state"@, JsonValue::Text("exact 1..=128 byte key"@))
                    .insert("value"@, JsonValue::Text("bounded scalar"@)),
            ))
            .insert("resource_field"@, JsonValue::Object(
                Map::empty()
                    .insert("resource"@, JsonValue::Text("exact 1..=128 byte key"@))
                    .insert("field"@, JsonValue::Text("exact 1..=128 byte key"@))
                    .insert("operator"@, JsonValue::Text("eq|ne|lt|lte|gt|gte"@))
                    .insert("value"@, JsonValue::Text("bounded scalar; ordering requires a number"@)),
            ))
            .insert("marker_count"@, JsonValue::Object(
                Map::empty()
                    .insert("marker"@, JsonValue::Text("exact 1..=128 byte key"@))
                    .insert("min"@, JsonValue::Text("optional u32"@))
                    .insert("max"@, JsonValue::Text("optional u32; at least one bound is required"@)),
            ))
            .insert("target_exists"@, JsonValue::Object(
                Map::empty()
                    .insert("target"@, selector_value())
                    .insert("kind"@, JsonValue::Text("any|ui|world; default any"@))
                    .insert("camera"@, JsonValue::Text("optional exact 1..=128 byte name"@)),
            ))
            .insert("target_absent"@, JsonValue::Object(
                Map::empty()
                    .insert("target"@, selector_value())
                    .insert("kind"@, JsonValue::Text("any|ui|world; default any"@))
                    .insert("camera"@, JsonValue::Text("optional exact 1..=128 byte name"@)),
            ))
            .insert("scalar"@, JsonValue::Text("null, boolean, finite number, or UTF-8 string of 1..=1024 bytes"@)),
    )
}

fn predicates_doc() -> (r: Json)
    ensures
        r@ == predicates_value(),
{
    ObjectBuilder::new()
        .with("discriminator", json_text("type: state_equals|resource_field|marker_count|target_exists|target_absent"))
        .with("state_equals", ObjectBuilder::new()
            .with("state", json_text("exact 1..=128 byte key"))
            .with("value", json_text("bounded scalar"))
            .build())
        .with("resource_field", ObjectBuilder::new()
            .with("resource", json_text("exact 1..=128 byte key"))
            .with("field", json_text("exact 1..=128 byte key"))
            .with("operator", json_text("eq|ne|lt|lte|gt|gte"))
            .with("value", json_text("bounded scalar; ordering requires a number"))
            .build())
        .with("marker_count", ObjectBuilder::new()
            .with("marker", json_text("exact 1..=128 byte key"))
            .with("min", json_text("optional u32"))
            .with("max", json_text("optional u32; at least one bound is required"))
            .build())
        .with("target_exists", ObjectBuilder::new()
            .with("target", selector_doc())
            .with("kind", json_text("any|ui|world; default any"))
            .with("camera", json_text("optional exact 1..=128 byte name"))
            .build())
        .with("target_absent", ObjectBuilder::new()
            .with("target", selector_doc())
            .with("kind", json_text("any|ui|world; default any"))
            .with("camera", json_text("optional exact 1..=128 byte name"))
            .build())
        .with("scalar", json_text("null, boolean, finite number, or UTF-8 string of 1..=1024 bytes"))
        .build()
}

/// The description of the commands for input, added to `m`.
pub open spec fn input_commands(m: Map<Seq<char>, JsonValue>, config: AgentFeedbackConfig) -> Map<
    Seq<char>,
    JsonValue,
> {
    m
        .insert("key_down"@, JsonValue::Object(
            Map::empty()
                .insert("key"@, JsonValue::Text("case-insensitive Bevy KeyCode string, e.g. KeyW"@)),
        ))
        .insert("key_up"@, JsonValue::Object(
            Map::empty()
                .insert("key"@, JsonValue::Text("case-insensitive Bevy KeyCode string, e.g. KeyW"@)),
        ))
        .insert("mouse_down"@, JsonValue::Object(
            Map::empty()
                .insert("button"@, JsonValue::Text("case-insensitive MouseButton string, e.g. Left"@)),
        ))
        .insert("mouse_up"@, JsonValue::Object(
            Map::empty()
                .insert("button"@, JsonValue::Text("case-insensitive MouseButton string, e.g. Left"@)),
        ))
        .insert("cursor_move"@, JsonValue::Object(
            Map::empty()
                .insert("x"@, JsonValue::Text("logical pixels"@))
                .insert("y"@, JsonValue::Text("logical pixels"@)),
        ))
        .insert("mouse_motion"@, JsonValue::Object(
            Map::empty()
                .insert("dx"@, JsonValue::Text("raw motion delta"@))
                .insert("dy"@, JsonValue::Text("raw motion delta"@)),
        ))
        .insert("mouse_scroll"@, JsonValue::Object(
            Map::empty()
                .insert("x"@, JsonValue::Text("horizontal scroll"@))
                .insert("y"@, JsonValue::Text("vertical scroll"@))
                .insert("unit"@, JsonValue::Text("Line or Pixel; default Line"@)),
        ))
        .insert("scroll"@, JsonValue::Object(
            Map::empty()
                .insert("lines"@, JsonValue::Text("vertical line delta"@))
                .insert("x"@, JsonValue::Text("optional horizontal line delta"@)),
        ))
        .insert("click"@, JsonValue::Object(
            Map::empty()
                .insert("x"@, JsonValue::Text("logical pixels"@))
                .insert("y"@, JsonValue::Text("logical pixels"@))
                .insert("button"@, JsonValue::Text("default Left"@))
                .insert("frames"@, JsonValue::Text(frames_text(config.max_wait_frames))),
        ))
        .insert("drag"@, JsonValue::Object(
            Map::empty()
                .insert("from"@, JsonValue::Text("[x,y]"@))
                .insert("to"@, JsonValue::Text("[x,y]"@))
                .insert("button"@, JsonValue::Text("default Left"@))
                .insert("steps"@, JsonValue::Text(drag_steps_text(config.max_action_steps)))
                .insert("frames"@, JsonValue::Text(drag_frames_text(config.max_wait_frames))),
        ))
        .insert("key_tap"@, JsonValue::Object(
            Map::empty()
                .insert("key"@, JsonValue::Text("case-insensitive Bevy KeyCode string"@))
                .insert("frames"@, JsonValue::Text(frames_text(config.max_wait_frames))),
        ))
        .insert("key_hold"@, JsonValue::Object(
            Map::empty()
                .insert("key"@, JsonValue::Text("case-insensitive Bevy KeyCode string"@))
                .insert("frames"@, JsonValue::Text(frames_text(config.max_wait_frames))),
        ))
        .insert("release_all_inputs"@, JsonValue::Object(Map::empty()))
        .insert("shutdown"@, JsonValue::Object(Map::empty()))
        .insert("text"@, JsonValue::Object(
            Map::empty()
                .insert("value"@, JsonValue::Text("UTF-8 text committed through Bevy Ime"@)),
        ))
        .insert("file_hover"@, JsonValue::Object(
            Map::empty()
                .insert("path"@, JsonValue::Text("path string"@)),
        ))
        .insert("file_drop"@, JsonValue::Object(
            Map::empty()
                .insert("path"@, JsonValue::Text("path string"@)),
        ))
        .insert("file_cancel"@, JsonValue::Object(Map::empty()))
        .insert("window_info"@, JsonValue::Object(Map::empty()))
}

fn describe_input_commands(object: ObjectBuilder, config: &AgentFeedbackConfig) -> (r: ObjectBuilder)
    requires
        config.wf(),
    ensures
        r@ == input_commands(object@, *config),
{
    object
        .with("key_down", ObjectBuilder::new()
            .with("key", json_text("case-insensitive Bevy KeyCode string, e.g. KeyW"))
            .build())
        .with("key_up", ObjectBuilder::new()
            .with("key", json_text("case-insensitive Bevy KeyCode string, e.g. KeyW"))
            .build())
        .with("mouse_down", ObjectBuilder::new()
            .with("button", json_text("case-insensitive MouseButton string, e.g. Left"))
            .build())
        .with("mouse_up", ObjectBuilder::new()
            .with("button", json_text("case-insensitive MouseButton string, e.g. Left"))
            .build())
        .with("cursor_move", ObjectBuilder::new()
            .with("x", json_text("logical pixels"))
            .with("y", json_text("logical pixels"))
            .build())
        .with("mouse_motion", ObjectBuilder::new()
            .with("dx", json_text("raw motion delta"))
            .with("dy", json_text("raw motion delta"))
            .build())
        .with("mouse_scroll", ObjectBuilder::new()
            .with("x", json_text("horizontal scroll"))
            .with("y", json_text("vertical scroll"))
            .with("unit", json_text("Line or Pixel; default Line"))
            .build())
        .with("scroll", ObjectBuilder::new()
            .with("lines", json_text("vertical line delta"))
            .with("x", json_text("optional horizontal line delta"))
            .build())
        .with("click", ObjectBuilder::new()
            .with("x", json_text("logical pixels"))
            .with("y", json_text("logical pixels"))
            .with("button", json_text("default Left"))
            .with("frames", Json::Text(frames_doc(config.max_wait_frames)))
            .build())
        .with("drag", ObjectBuilder::new()
            .with("from", json_text("[x,y]"))
            .with("to", json_text("[x,y]"))
            .with("button", json_text("default Left"))
            .with("steps", Json::Text(drag_steps_doc(config.max_action_steps)))
            .with("frames", Json::Text(drag_frames_doc(config.max_wait_frames)))
            .build())
        .with("key_tap", ObjectBuilder::new()
            .with("key", json_text("case-insensitive Bevy KeyCode string"))
            .with("frames", Json::Text(frames_doc(config.max_wait_frames)))
            .build())
        .with("key_hold", ObjectBuilder::new()
            .with("key", json_text("case-insensitive Bevy KeyCode string"))
            .with("frames", Json::Text(frames_doc(config.max_wait_frames)))
            .build())
        .with("release_all_inputs", ObjectBuilder::new().build())
        .with("shutdown", ObjectBuilder::new().build())
        .with("text", ObjectBuilder::new()
            .with("value", json_text("UTF-8 text committed through Bevy Ime"))
            .build())
        .with("file_hover", ObjectBuilder::new()
            .with("path", json_text("path string"))
            .build())
        .with("file_drop", ObjectBuilder::new()
            .with("path", json_text("path string"))
            .build())
        .with("file_cancel", ObjectBuilder::new().build())
        .with("window_info", ObjectBuilder::new().build())
}

/// The description of the commands for time and captures, added to `m`.
pub open spec fn time_commands(m: Map<Seq<char>, JsonValue>, config: AgentFeedbackConfig) -> Map<
    Seq<char>,
    JsonValue,
> {
    m
        .insert("wait"@, JsonValue::Object(
            Map::empty()
                .insert("frames"@, JsonValue::Text(frames_text(config.max_wait_frames))),
        ))
        .insert("wait_seconds"@, JsonValue::Object(
            Map::empty()
                .insert("seconds"@, JsonValue::Text("positive finite f64 converted to nonzero duration"@))
                .insert("max_frames"@, JsonValue::Text(max_frames_text(config.max_wait_frames))),
        ))
        .insert("advance_time"@, JsonValue::Object(
            Map::empty()
                .insert("seconds"@, JsonValue::Text(advance_seconds_text(config.max_time_advance)))
                .insert("step_seconds"@, JsonValue::Text(advance_steps_text(config.max_time_advance_steps))),
        ))
        .insert("capture"@, JsonValue::Object(
            Map::empty()
                .insert("label"@, JsonValue::Text("optional [A-Za-z0-9_-]{1,40}"@)),
        ))
        .insert("capture_after_frames"@, JsonValue::Object(
            Map::empty()
                .insert("frames"@, JsonValue::Text(required_frames_text(config.max_wait_frames)))
                .insert("label"@, JsonValue::Text("optional [A-Za-z0-9_-]{1,40}"@)),
        ))
}

fn describe_time_commands(object: ObjectBuilder, config: &AgentFeedbackConfig) -> (r: ObjectBuilder)
    requires
        config.wf(),
    ensures
        r@ == time_commands(object@, *config),
{
    object
        .with("wait", ObjectBuilder::new()
            .with("frames", Json::Text(frames_doc(config.max_wait_frames)))
            .build())
        .with("wait_seconds", ObjectBuilder::new()
            .with("seconds", json_text("positive finite f64 converted to nonzero duration"))
            .with("max_frames", Json::Text(max_frames_doc(config.max_wait_frames)))
            .build())
        .with("advance_time", ObjectBuilder::new()
            .with("seconds", Json::Text(advance_seconds_doc(config.max_time_advance)))
            .with("step_seconds", Json::Text(advance_steps_doc(config.max_time_advance_steps)))
            .build())
        .with("capture", ObjectBuilder::new()
            .with("label", json_text("optional [A-Za-z0-9_-]{1,40}"))
            .build())
        .with("capture_after_frames", ObjectBuilder::new()
            .with("frames", Json::Text(required_frames_doc(config.max_wait_frames)))
            .with("label", json_text("optional [A-Za-z0-9_-]{1,40}"))
            .build())
}

/// The description of the commands for diagnostics, added to `m`.
pub open spec fn diagnostic_commands(m: Map<Seq<char>, JsonValue>, config: AgentFeedbackConfig) -> Map<
    Seq<char>,
    JsonValue,
> {
    m
        .insert("target_info"@, JsonValue::Object(
            Map::empty()
                .insert("target"@, selector_value())
                .insert("kind"@, JsonValue::Text("any|ui|world; default any"@))
                .insert("camera"@, JsonValue::Text("optional exact 1..=128 byte name"@))
                .insert("requires"@, JsonValue::Text("diagnostics feature and AgentFeedbackDiagnosticsPlugin"@)),
        ))
        .insert("click_target"@, JsonValue::Object(
            Map::empty()
                .insert("target"@, selector_value())
                .insert("kind"@, JsonValue::Text("any|ui|world; default any"@))
                .insert("camera"@, JsonValue::Text("optional exact 1..=128 byte name"@))
                .insert("button"@, JsonValue::Text("default Left"@))
                .insert("frames"@, JsonValue::Text(frames_text(config.max_wait_frames)))
                .insert("requires"@, JsonValue::Text("diagnostics feature and AgentFeedbackDiagnosticsPlugin"@)),
        ))
        .insert("resource_info"@, JsonValue::Object(
            Map::empty()
                .insert("resource"@, JsonValue::Text("optional exact 1..=128 byte key"@))
                .insert("field"@, JsonValue::Text("optional exact 1..=128 byte key"@))
                .insert("requires"@, JsonValue::Text("diagnostics feature and AgentFeedbackDiagnosticsPlugin"@)),
        ))
        .insert("evaluate_predicate"@, JsonValue::Object(
            Map::empty()
                .insert("predicate"@, predicates_value())
                .insert("requires"@, JsonValue::Text("diagnostics feature and AgentFeedbackDiagnosticsPlugin"@)),
        ))
        .insert("wait_for"@, JsonValue::Object(
            Map::empty()
                .insert("predicate"@, predicates_value())
                .insert("max_frames"@, JsonValue::Text(max_frames_text(config.max_wait_frames)))
                .insert("requires"@, JsonValue::Text("diagnostics feature and AgentFeedbackDiagnosticsPlugin"@)),
        ))
        .insert("ecs_summary"@, JsonValue::Object(
            Map::empty()
                .insert("requires"@, JsonValue::Text("diagnostics feature and AgentFeedbackDiagnosticsPlugin"@)),
        ))
        .insert("list_entities"@, JsonValue::Object(
            Map::empty()
                .insert("requires"@, JsonValue::Text("diagnostics feature and AgentFeedbackDiagnosticsPlugin"@)),
        ))
        .insert("camera_info"@, JsonValue::Object(
            Map::empty()
                .insert("requires"@, JsonValue::Text("diagnostics feature and AgentFeedbackDiagnosticsPlugin"@)),
        ))
        .insert("state_info"@, JsonValue::Object(
            Map::empty()
                .insert("requires"@, JsonValue::Text("diagnostics feature and AgentFeedbackDiagnosticsPlugin"@)),
        ))
        .insert("marker_info"@, JsonValue::Object(
            Map::empty()
                .insert("requires"@, JsonValue::Text("diagnostics feature and AgentFeedbackDiagnosticsPlugin::with_marker::<T>()"@)),
        ))
}

fn describe_diagnostic_commands(object: ObjectBuilder, config: &AgentFeedbackConfig) -> (r: ObjectBuilder)
    requires
        config.wf(),
    ensures
        r@ == diagnostic_commands(object@, *config),
{
    object
        .with("target_info", ObjectBuilder::new()
            .with("target", selector_doc())
            .with("kind", json_text("any|ui|world; default any"))
            .with("camera", json_text("optional exact 1..=128 byte name"))
            .with("requires", json_text("diagnostics feature and AgentFeedbackDiagnosticsPlugin"))
            .build())
        .with("click_target", ObjectBuilder::new()
            .with("target", selector_doc())
            .with("kind", json_text("any|ui|world; default any"))
            .with("camera", json_text("optional exact 1..=128 byte name"))
            .with("button", json_text("default Left"))
            .with("frames", Json::Text(frames_doc(config.max_wait_frames)))
            .with("requires", json_text("diagnostics feature and AgentFeedbackDiagnosticsPlugin"))
            .build())
        .with("resource_info", ObjectBuilder::new()
            .with("resource", json_text("optional exact 1..=128 byte key"))
            .with("field", json_text("optional exact 1..=128 byte key"))
            .with("requires", json_text("diagnostics feature and AgentFeedbackDiagnosticsPlugin"))
            .build())
        .with("evaluate_predicate", ObjectBuilder::new()
            .with("predicate", predicates_doc())
            .with("requires", json_text("diagnostics feature and AgentFeedbackDiagnosticsPlugin"))
            .build())
        .with("wait_for", ObjectBuilder::new()
            .with("predicate", predicates_doc())
            .with("max_frames", Json::Text(max_frames_doc(config.max_wait_frames)))
            .with("requires", json_text("diagnostics feature and AgentFeedbackDiagnosticsPlugin"))
            .build())
        .with("ecs_summary", ObjectBuilder::new()
            .with("requires", json_text("diagnostics feature and AgentFeedbackDiagnosticsPlugin"))
            .build())
        .with("list_entities", ObjectBuilder::new()
            .with("requires", json_text("diagnostics feature and AgentFeedbackDiagnosticsPlugin"))
            .build())
        .with("camera_info", ObjectBuilder::new()
            .with("requires", json_text("diagnostics feature and AgentFeedbackDiagnosticsPlugin"))
            .build())
        .with("state_info", ObjectBuilder::new()
            .with("requires", json_text("diagnostics feature and AgentFeedbackDiagnosticsPlugin"))
            .build())
        .with("marker_info", ObjectBuilder::new()
            .with("requires", json_text("diagnostics feature and AgentFeedbackDiagnosticsPlugin::with_marker::<T>()"))
            .build())
}

/// Example requests, as JSON.
pub const EXAMPLES: &'static str = "[{\"id\":1,\"command\":\"window_info\"},{\"id\":2,\"command\":\"click\",\"x\":320.0,\"y\":240.0,\"button\":\"left\"},{\"id\":3,\"command\":\"drag\",\"from\":[320.0,240.0],\"to\":[420.0,240.0],\"button\":\"Right\",\"steps\":5,\"frames\":5},{\"id\":4,\"command\":\"key_tap\",\"key\":\"keyw\"},{\"id\":5,\"command\":\"capture\",\"label\":\"default\"},{\"id\":6,\"command\":\"release_all_inputs\"},{\"id\":7,\"command\":\"marker_info\"},{\"id\":8,\"command\":\"shutdown\"}]";

/// The example requests.
pub open spec fn examples_value() -> JsonValue {
    match json::parsed_json(EXAMPLES@) {
        Ok(value) => value,
        Err(_) => JsonValue::Null,
    }
}

fn examples_doc() -> (r: Json)
    ensures
        r@ == examples_value(),
{
    match parse_json(EXAMPLES) {
        Ok(json) => json,
        Err(_) => Json::Null,
    }
}

/// The description of every command.
pub open spec fn commands_value(config: AgentFeedbackConfig) -> JsonValue {
    JsonValue::Object(
        diagnostic_commands(time_commands(input_commands(Map::empty(), config), config), config),
    )
}

fn commands_doc(config: &AgentFeedbackConfig) -> (r: Json)
    requires
        config.wf(),
    ensures
        r@ == commands_value(*config),
{
    let object = describe_input_commands(ObjectBuilder::new(), config);
    let object = describe_time_commands(object, config);
    describe_diagnostic_commands(object, config).build()
}

/// A number of milliseconds as a JSON value.
pub open spec fn millis_value(span: Span) -> JsonValue {
    JsonValue::Number(NumberValue::Unsigned((span.nanos / NANOS_PER_MILLI) as u64))
}

fn millis_json(span: Span) -> (r: Json)
    ensures
        r@ == millis_value(span),
{
    Json::Number(JsonNumber::Unsigned(span.as_millis() as u64))
}

/// An unsigned number as a JSON value.
pub open spec fn unsigned_value(n: u64) -> JsonValue {
    JsonValue::Number(NumberValue::Unsigned(n))
}

fn unsigned_json(n: u64) -> (r: Json)
    ensures
        r@ == unsigned_value(n),
{
    Json::Number(JsonNumber::Unsigned(n))
}

/// The discovery document.
pub open spec fn document_value(
    config: AgentFeedbackConfig,
    session: AgentFeedbackSession,
    socket_addr: Seq<char>,
) -> JsonValue {
    JsonValue::Object(
        Map::empty()
            .insert("protocol"@, JsonValue::Text(PROTOCOL_VERSION@))
            .insert("session_id"@, JsonValue::Text(session.session_id@))
            .insert("pid"@, unsigned_value(session.pid as u64))
            .insert("started_at_unix_ms"@, unsigned_value(session.started_at_unix_ms))
            .insert("heartbeat_file"@, JsonValue::Text(session.heartbeat_file@))
            .insert("heartbeat_interval_ms"@, millis_value(session.heartbeat_interval))
            .insert("stale_after_ms"@, millis_value(session.stale_after))
            .insert("socket_addr"@, JsonValue::Text(socket_addr))
            .insert("transport"@, JsonValue::Text("json-lines-over-tcp"@))
            .insert("clients"@, JsonValue::Text("single local client at a time"@))
            .insert(
                "coordinates"@,
                JsonValue::Text(
                    "logical window pixels, origin at the top-left of the primary window"@,
                ),
            )
            .insert("capture_dir"@, JsonValue::Text(config.capture_dir@))
            .insert("command_timeout_ms"@, millis_value(config.command_timeout))
            .insert("deterministic_time"@, JsonValue::Bool(config.deterministic_time))
            .insert("max_action_steps"@, unsigned_value(config.max_action_steps as u64))
            .insert("max_wait_frames"@, unsigned_value(config.max_wait_frames as u64))
            .insert(
                "max_time_advance_steps"@,
                unsigned_value(commands::at_least_one(config.max_time_advance_steps) as u64),
            )
            .insert(
                "max_time_advance_seconds"@,
                JsonValue::Number(json::span_number(config.max_time_advance)),
            )
            .insert(
                "window_modes"@,
                JsonValue::Array(
                    seq![
                        JsonValue::Text("windowed"@),
                        JsonValue::Text("borderless_fullscreen"@),
                        JsonValue::Text("fullscreen"@),
                    ],
                ),
            )
            .insert("capture_completion"@, JsonValue::Text("screenshot_captured"@))
            .insert("commands"@, commands_value(config))
            .insert("examples"@, examples_value()),
    )
}

/// Writes the discovery document.
pub fn protocol_document(
    config: &AgentFeedbackConfig,
    session: &AgentFeedbackSession,
    socket_addr: &str,
) -> (r: Json)
    requires
        config.wf(),
    ensures
        r@ == document_value(*config, *session, socket_addr@),
{
    let steps: u16 = if config.max_time_advance_steps == 0 {
        1
    } else {
        config.max_time_advance_steps
    };
    ObjectBuilder::new()
        .with("protocol", json_text(PROTOCOL_VERSION))
        .with("session_id", json_text(session.session_id.as_str()))
        .with("pid", unsigned_json(session.pid as u64))
        .with("started_at_unix_ms", unsigned_json(session.started_at_unix_ms))
        .with("heartbeat_file", json_text(session.heartbeat_file.as_str()))
        .with("heartbeat_interval_ms", millis_json(session.heartbeat_interval))
        .with("stale_after_ms", millis_json(session.stale_after))
        .with("socket_addr", json_text(socket_addr))
        .with("transport", json_text("json-lines-over-tcp"))
        .with("clients", json_text("single local client at a time"))
        .with(
            "coordinates",
            json_text("logical window pixels, origin at the top-left of the primary window"),
        )
        .with("capture_dir", json_text(config.capture_dir.as_str()))
        .with("command_timeout_ms", millis_json(config.command_timeout))
        .with("deterministic_time", Json::Bool(config.deterministic_time))
        .with("max_action_steps", unsigned_json(config.max_action_steps as u64))
        .with("max_wait_frames", unsigned_json(config.max_wait_frames as u64))
        .with("max_time_advance_steps", unsigned_json(steps as u64))
        .with("max_time_advance_seconds", span_json(config.max_time_advance))
        .with("window_modes", three_texts("windowed", "borderless_fullscreen", "fullscreen"))
        .with("capture_completion", json_text("screenshot_captured"))
        .with("commands", commands_doc(config))
        .with("examples", examples_doc())
        .build()
}

/// The text of the discovery file.
pub fn protocol_file_text(
    config: &AgentFeedbackConfig,
    session: &AgentFeedbackSession,
    socket_addr: &str,
) -> (r: String)
    requires
        config.wf(),
    ensures
        r@ == json::printed_pretty(document_value(*config, *session, socket_addr@)),
{
    pretty_json(&protocol_document(config, session, socket_addr))
}

} // verus!
