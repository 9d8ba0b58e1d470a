//! The written form of requests: which fields a command has, what each may hold, and the command
//! that they spell out.
//!
//! An object is judged in two passes. First every field that a command knows must hold what it
//! may hold, in the order of the object. Then every field that the command needs must be there,
//! in the order of the command. Other fields are passed over.
use crate::commands::{
    AgentCommand, ComparisonOperator, ParseLimits, Point, TargetKind, WireCommand, WirePredicate,
    WireScalar, WireSeconds, WireTargetSelector,
};
use crate::commands;
use crate::json::{
    double_bits, find_entry, parse_json, seconds_to_nanos, single_bits, Json, JsonNumber, JsonValue,
};
use crate::json;
use crate::requests::parse_wire_command;
use crate::requests;
use crate::text::{cat2, cat3, cat4, cat5, decimal, same_text};
use crate::text;
use vstd::prelude::*;
use vstd::string::StringExecFns;

verus! {

/// What a field of a command may hold.
#[derive(Clone, Copy, Debug, PartialEq, Eq, Structural)]
pub enum FieldKind {
    /// A text.
    Text,
    /// A text, or nothing.
    OptionalText,
    /// A path, written as a text.
    Path,
    /// A single-precision number.
    Single,
    /// A single-precision number, or zero where it is left out.
    DefaultSingle,
    /// A number of seconds.
    Seconds,
    /// A number of seconds, or nothing.
    OptionalSeconds,
    /// A 16-bit number of frames or steps.
    Frames,
    /// A 16-bit number of frames or steps, or nothing.
    OptionalFrames,
    /// A 32-bit number, or nothing.
    OptionalCount,
    /// Two single-precision numbers.
    Pair,
    /// A target selector.
    Target,
    /// A kind of target, or `any` where it is left out.
    Kind,
    /// A comparison.
    Operator,
    /// Any value.
    Scalar,
    /// A predicate.
    Predicate,
    /// A list of predicates, or an empty one where it is left out.
    Predicates,
}

/// A field that a command knows.
#[derive(Clone, Copy, Debug)]
pub struct FieldRule {
    /// Its name.
    pub name: &'static str,
    /// What it may hold.
    pub kind: FieldKind,
}

/// The names of the kinds of targets.
pub const TARGET_KIND_TAGS: [&'static str; 3] = ["any", "ui", "world"];

/// The names of the comparisons.
pub const OPERATOR_TAGS: [&'static str; 6] = ["eq", "ne", "lt", "lte", "gt", "gte"];

/// The names of the fields of a target selector.
pub const SELECTOR_FIELDS: [&'static str; 3] = ["name", "accessibility_label", "marker"];

/// The names of the commands.
pub const COMMAND_TAGS: [&'static str; 34] = [
    "key_down", "key_up", "mouse_down", "mouse_up", "cursor_move", "mouse_motion",
    "mouse_scroll", "text", "file_hover", "file_drop", "file_cancel", "window_info", "wait",
    "wait_seconds", "advance_time", "capture", "capture_after_frames", "release_all_inputs",
    "shutdown", "click", "drag", "scroll", "key_tap", "key_hold", "target_info", "click_target",
    "resource_info", "evaluate_predicate", "wait_for", "ecs_summary", "list_entities",
    "camera_info", "state_info", "marker_info",
];

/// The names of the kinds of predicates.
pub const PREDICATE_TAGS: [&'static str; 5] = [
    "state_equals", "resource_field", "marker_count", "target_exists", "target_absent",
];

/// Which command a request names.
#[derive(Clone, Copy, Debug, PartialEq, Eq, Structural)]
pub enum CommandTag {
    /// `key_down`.
    KeyDown,
    /// `key_up`.
    KeyUp,
    /// `mouse_down`.
    MouseDown,
    /// `mouse_up`.
    MouseUp,
    /// `cursor_move`.
    CursorMove,
    /// `mouse_motion`.
    MouseMotion,
    /// `mouse_scroll`.
    MouseScroll,
    /// `text`.
    Text,
    /// `file_hover`.
    FileHover,
    /// `file_drop`.
    FileDrop,
    /// `file_cancel`.
    FileCancel,
    /// `window_info`.
    WindowInfo,
    /// `wait`.
    Wait,
    /// `wait_seconds`.
    WaitSeconds,
    /// `advance_time`.
    AdvanceTime,
    /// `capture`.
    Capture,
    /// `capture_after_frames`.
    CaptureAfterFrames,
    /// `release_all_inputs`.
    ReleaseAllInputs,
    /// `shutdown`.
    Shutdown,
    /// `click`.
    Click,
    /// `drag`.
    Drag,
    /// `scroll`.
    Scroll,
    /// `key_tap`.
    KeyTap,
    /// `key_hold`.
    KeyHold,
    /// `target_info`.
    TargetInfo,
    /// `click_target`.
    ClickTarget,
    /// `resource_info`.
    ResourceInfo,
    /// `evaluate_predicate`.
    EvaluatePredicate,
    /// `wait_for`.
    WaitFor,
    /// `ecs_summary`.
    EcsSummary,
    /// `list_entities`.
    ListEntities,
    /// `camera_info`.
    CameraInfo,
    /// `state_info`.
    StateInfo,
    /// `marker_info`.
    MarkerInfo,
}

/// Which kind of predicate a request names.
#[derive(Clone, Copy, Debug, PartialEq, Eq, Structural)]
pub enum PredicateTag {
    /// `state_equals`.
    StateEquals,
    /// `resource_field`.
    ResourceField,
    /// `marker_count`.
    MarkerCount,
    /// `target_exists`.
    TargetExists,
    /// `target_absent`.
    TargetAbsent,
}

/// The command at a place in [`COMMAND_TAGS`].
pub open spec fn command_tag(place: int) -> CommandTag {
    if place == 0 {
        CommandTag::KeyDown
    } else if place == 1 {
        CommandTag::KeyUp
    } else if place == 2 {
        CommandTag::MouseDown
    } else if place == 3 {
        CommandTag::MouseUp
    } else if place == 4 {
        CommandTag::CursorMove
    } else if place == 5 {
        CommandTag::MouseMotion
    } else if place == 6 {
        CommandTag::MouseScroll
    } else if place == 7 {
        CommandTag::Text
    } else if place == 8 {
        CommandTag::FileHover
    } else if place == 9 {
        CommandTag::FileDrop
    } else if place == 10 {
        CommandTag::FileCancel
    } else if place == 11 {
        CommandTag::WindowInfo
    } else if place == 12 {
        CommandTag::Wait
    } else if place == 13 {
        CommandTag::WaitSeconds
    } else if place == 14 {
        CommandTag::AdvanceTime
    } else if place == 15 {
        CommandTag::Capture
    } else if place == 16 {
        CommandTag::CaptureAfterFrames
    } else if place == 17 {
        CommandTag::ReleaseAllInputs
    } else if place == 18 {
        CommandTag::Shutdown
    } else if place == 19 {
        CommandTag::Click
    } else if place == 20 {
        CommandTag::Drag
    } else if place == 21 {
        CommandTag::Scroll
    } else if place == 22 {
        CommandTag::KeyTap
    } else if place == 23 {
        CommandTag::KeyHold
    } else if place == 24 {
        CommandTag::TargetInfo
    } else if place == 25 {
        CommandTag::ClickTarget
    } else if place == 26 {
        CommandTag::ResourceInfo
    } else if place == 27 {
        CommandTag::EvaluatePredicate
    } else if place == 28 {
        CommandTag::WaitFor
    } else if place == 29 {
        CommandTag::EcsSummary
    } else if place == 30 {
        CommandTag::ListEntities
    } else if place == 31 {
        CommandTag::CameraInfo
    } else if place == 32 {
        CommandTag::StateInfo
    } else {
        CommandTag::MarkerInfo
    }
}

fn command_tag_at(place: usize) -> (r: CommandTag)
    ensures
        r == command_tag(place as int),
{
    if place == 0 {
        CommandTag::KeyDown
    } else if place == 1 {
        CommandTag::KeyUp
    } else if place == 2 {
        CommandTag::MouseDown
    } else if place == 3 {
        CommandTag::MouseUp
    } else if place == 4 {
        CommandTag::CursorMove
    } else if place == 5 {
        CommandTag::MouseMotion
    } else if place == 6 {
        CommandTag::MouseScroll
    } else if place == 7 {
        CommandTag::Text
    } else if place == 8 {
        CommandTag::FileHover
    } else if place == 9 {
        CommandTag::FileDrop
    } else if place == 10 {
        CommandTag::FileCancel
    } else if place == 11 {
        CommandTag::WindowInfo
    } else if place == 12 {
        CommandTag::Wait
    } else if place == 13 {
        CommandTag::WaitSeconds
    } else if place == 14 {
        CommandTag::AdvanceTime
    } else if place == 15 {
        CommandTag::Capture
    } else if place == 16 {
        CommandTag::CaptureAfterFrames
    } else if place == 17 {
        CommandTag::ReleaseAllInputs
    } else if place == 18 {
        CommandTag::Shutdown
    } else if place == 19 {
        CommandTag::Click
    } else if place == 20 {
        CommandTag::Drag
    } else if place == 21 {
        CommandTag::Scroll
    } else if place == 22 {
        CommandTag::KeyTap
    } else if place == 23 {
        CommandTag::KeyHold
    } else if place == 24 {
        CommandTag::TargetInfo
    } else if place == 25 {
        CommandTag::ClickTarget
    } else if place == 26 {
        CommandTag::ResourceInfo
    } else if place == 27 {
        CommandTag::EvaluatePredicate
    } else if place == 28 {
        CommandTag::WaitFor
    } else if place == 29 {
        CommandTag::EcsSummary
    } else if place == 30 {
        CommandTag::ListEntities
    } else if place == 31 {
        CommandTag::CameraInfo
    } else if place == 32 {
        CommandTag::StateInfo
    } else {
        CommandTag::MarkerInfo
    }
}

/// The kind of predicate at a place in [`PREDICATE_TAGS`].
pub open spec fn predicate_tag(place: int) -> PredicateTag {
    if place == 0 {
        PredicateTag::StateEquals
    } else if place == 1 {
        PredicateTag::ResourceField
    } else if place == 2 {
        PredicateTag::MarkerCount
    } else if place == 3 {
        PredicateTag::TargetExists
    } else {
        PredicateTag::TargetAbsent
    }
}

fn predicate_tag_at(place: usize) -> (r: PredicateTag)
    ensures
        r == predicate_tag(place as int),
{
    if place == 0 {
        PredicateTag::StateEquals
    } else if place == 1 {
        PredicateTag::ResourceField
    } else if place == 2 {
        PredicateTag::MarkerCount
    } else if place == 3 {
        PredicateTag::TargetExists
    } else {
        PredicateTag::TargetAbsent
    }
}

/// The fields of a command.
pub open spec fn command_rules(tag: CommandTag) -> Seq<FieldRule> {
    match tag {
        CommandTag::KeyDown => seq![
            FieldRule { name: "key", kind: FieldKind::Text },
        ],
        CommandTag::KeyUp => seq![
            FieldRule { name: "key", kind: FieldKind::Text },
        ],
        CommandTag::MouseDown => seq![
            FieldRule { name: "button", kind: FieldKind::Text },
        ],
        CommandTag::MouseUp => seq![
            FieldRule { name: "button", kind: FieldKind::Text },
        ],
        CommandTag::CursorMove => seq![
            FieldRule { name: "x", kind: FieldKind::Single },
            FieldRule { name: "y", kind: FieldKind::Single },
        ],
        CommandTag::MouseMotion => seq![
            FieldRule { name: "dx", kind: FieldKind::Single },
            FieldRule { name: "dy", kind: FieldKind::Single },
        ],
        CommandTag::MouseScroll => seq![
            FieldRule { name: "x", kind: FieldKind::DefaultSingle },
            FieldRule { name: "y", kind: FieldKind::Single },
            FieldRule { name: "unit", kind: FieldKind::OptionalText },
        ],
        CommandTag::Text => seq![
            FieldRule { name: "value", kind: FieldKind::Text },
        ],
        CommandTag::FileHover => seq![
            FieldRule { name: "path", kind: FieldKind::Path },
        ],
        CommandTag::FileDrop => seq![
            FieldRule { name: "path", kind: FieldKind::Path },
        ],
        CommandTag::FileCancel => Seq::empty(),
        CommandTag::WindowInfo => Seq::empty(),
        CommandTag::Wait => seq![
            FieldRule { name: "frames", kind: FieldKind::OptionalFrames },
        ],
        CommandTag::WaitSeconds => seq![
            FieldRule { name: "seconds", kind: FieldKind::Seconds },
            FieldRule { name: "max_frames", kind: FieldKind::OptionalFrames },
        ],
        CommandTag::AdvanceTime => seq![
            FieldRule { name: "seconds", kind: FieldKind::Seconds },
            FieldRule { name: "step_seconds", kind: FieldKind::OptionalSeconds },
        ],
        CommandTag::Capture => seq![
            FieldRule { name: "label", kind: FieldKind::OptionalText },
        ],
        CommandTag::CaptureAfterFrames => seq![
            FieldRule { name: "frames", kind: FieldKind::Frames },
            FieldRule { name: "label", kind: FieldKind::OptionalText },
        ],
        CommandTag::ReleaseAllInputs => Seq::empty(),
        CommandTag::Shutdown => Seq::empty(),
        CommandTag::Click => seq![
            FieldRule { name: "x", kind: FieldKind::Single },
            FieldRule { name: "y", kind: FieldKind::Single },
            FieldRule { name: "button", kind: FieldKind::OptionalText },
            FieldRule { name: "frames", kind: FieldKind::OptionalFrames },
        ],
        CommandTag::Drag => seq![
            FieldRule { name: "from", kind: FieldKind::Pair },
            FieldRule { name: "to", kind: FieldKind::Pair },
            FieldRule { name: "button", kind: FieldKind::OptionalText },
            FieldRule { name: "steps", kind: FieldKind::OptionalFrames },
            FieldRule { name: "frames", kind: FieldKind::OptionalFrames },
        ],
        CommandTag::Scroll => seq![
            FieldRule { name: "lines", kind: FieldKind::Single },
            FieldRule { name: "x", kind: FieldKind::DefaultSingle },
            FieldRule { name: "unit", kind: FieldKind::OptionalText },
        ],
        CommandTag::KeyTap => seq![
            FieldRule { name: "key", kind: FieldKind::Text },
            FieldRule { name: "frames", kind: FieldKind::OptionalFrames },
        ],
        CommandTag::KeyHold => seq![
            FieldRule { name: "key", kind: FieldKind::Text },
            FieldRule { name: "frames", kind: FieldKind::OptionalFrames },
        ],
        CommandTag::TargetInfo => seq![
            FieldRule { name: "target", kind: FieldKind::Target },
            FieldRule { name: "kind", kind: FieldKind::Kind },
            FieldRule { name: "camera", kind: FieldKind::OptionalText },
        ],
        CommandTag::ClickTarget => seq![
            FieldRule { name: "target", kind: FieldKind::Target },
            FieldRule { name: "kind", kind: FieldKind::Kind },
            FieldRule { name: "camera", kind: FieldKind::OptionalText },
            FieldRule { name: "button", kind: FieldKind::OptionalText },
            FieldRule { name: "frames", kind: FieldKind::OptionalFrames },
        ],
        CommandTag::ResourceInfo => seq![
            FieldRule { name: "resource", kind: FieldKind::OptionalText },
            FieldRule { name: "field", kind: FieldKind::OptionalText },
        ],
        CommandTag::EvaluatePredicate => seq![
            FieldRule { name: "predicate", kind: FieldKind::Predicate },
        ],
        CommandTag::WaitFor => seq![
            FieldRule { name: "predicate", kind: FieldKind::Predicate },
            FieldRule { name: "abort_predicates", kind: FieldKind::Predicates },
            FieldRule { name: "max_frames", kind: FieldKind::OptionalFrames },
        ],
        CommandTag::EcsSummary => Seq::empty(),
        CommandTag::ListEntities => Seq::empty(),
        CommandTag::CameraInfo => Seq::empty(),
        CommandTag::StateInfo => Seq::empty(),
        CommandTag::MarkerInfo => Seq::empty(),
    }
}

fn rules_of_command(tag: CommandTag) -> (r: Vec<FieldRule>)
    ensures
        r@ == command_rules(tag),
{
    let mut r: Vec<FieldRule> = Vec::new();
    match tag {
        CommandTag::KeyDown => {
            r.push(FieldRule { name: "key", kind: FieldKind::Text });
        },
        CommandTag::KeyUp => {
            r.push(FieldRule { name: "key", kind: FieldKind::Text });
        },
        CommandTag::MouseDown => {
            r.push(FieldRule { name: "button", kind: FieldKind::Text });
        },
        CommandTag::MouseUp => {
            r.push(FieldRule { name: "button", kind: FieldKind::Text });
        },
        CommandTag::CursorMove => {
            r.push(FieldRule { name: "x", kind: FieldKind::Single });
            r.push(FieldRule { name: "y", kind: FieldKind::Single });
        },
        CommandTag::MouseMotion => {
            r.push(FieldRule { name: "dx", kind: FieldKind::Single });
            r.push(FieldRule { name: "dy", kind: FieldKind::Single });
        },
        CommandTag::MouseScroll => {
            r.push(FieldRule { name: "x", kind: FieldKind::DefaultSingle });
            r.push(FieldRule { name: "y", kind: FieldKind::Single });
            r.push(FieldRule { name: "unit", kind: FieldKind::OptionalText });
        },
        CommandTag::Text => {
            r.push(FieldRule { name: "value", kind: FieldKind::Text });
        },
        CommandTag::FileHover => {
            r.push(FieldRule { name: "path", kind: FieldKind::Path });
        },
        CommandTag::FileDrop => {
            r.push(FieldRule { name: "path", kind: FieldKind::Path });
        },
        CommandTag::FileCancel => {},
        CommandTag::WindowInfo => {},
        CommandTag::Wait => {
            r.push(FieldRule { name: "frames", kind: FieldKind::OptionalFrames });
        },
        CommandTag::WaitSeconds => {
            r.push(FieldRule { name: "seconds", kind: FieldKind::Seconds });
            r.push(FieldRule { name: "max_frames", kind: FieldKind::OptionalFrames });
        },
        CommandTag::AdvanceTime => {
            r.push(FieldRule { name: "seconds", kind: FieldKind::Seconds });
            r.push(FieldRule { name: "step_seconds", kind: FieldKind::OptionalSeconds });
        },
        CommandTag::Capture => {
            r.push(FieldRule { name: "label", kind: FieldKind::OptionalText });
        },
        CommandTag::CaptureAfterFrames => {
            r.push(FieldRule { name: "frames", kind: FieldKind::Frames });
            r.push(FieldRule { name: "label", kind: FieldKind::OptionalText });
        },
        CommandTag::ReleaseAllInputs => {},
        CommandTag::Shutdown => {},
        CommandTag::Click => {
            r.push(FieldRule { name: "x", kind: FieldKind::Single });
            r.push(FieldRule { name: "y", kind: FieldKind::Single });
            r.push(FieldRule { name: "button", kind: FieldKind::OptionalText });
            r.push(FieldRule { name: "frames", kind: FieldKind::OptionalFrames });
        },
        CommandTag::Drag => {
            r.push(FieldRule { name: "from", kind: FieldKind::Pair });
            r.push(FieldRule { name: "to", kind: FieldKind::Pair });
            r.push(FieldRule { name: "button", kind: FieldKind::OptionalText });
            r.push(FieldRule { name: "steps", kind: FieldKind::OptionalFrames });
            r.push(FieldRule { name: "frames", kind: FieldKind::OptionalFrames });
        },
        CommandTag::Scroll => {
            r.push(FieldRule { name: "lines", kind: FieldKind::Single });
            r.push(FieldRule { name: "x", kind: FieldKind::DefaultSingle });
            r.push(FieldRule { name: "unit", kind: FieldKind::OptionalText });
        },
        CommandTag::KeyTap => {
            r.push(FieldRule { name: "key", kind: FieldKind::Text });
            r.push(FieldRule { name: "frames", kind: FieldKind::OptionalFrames });
        },
        CommandTag::KeyHold => {
            r.push(FieldRule { name: "key", kind: FieldKind::Text });
            r.push(FieldRule { name: "frames", kind: FieldKind::OptionalFrames });
        },
        CommandTag::TargetInfo => {
            r.push(FieldRule { name: "target", kind: FieldKind::Target });
            r.push(FieldRule { name: "kind", kind: FieldKind::Kind });
            r.push(FieldRule { name: "camera", kind: FieldKind::OptionalText });
        },
        CommandTag::ClickTarget => {
            r.push(FieldRule { name: "target", kind: FieldKind::Target });
            r.push(FieldRule { name: "kind", kind: FieldKind::Kind });
            r.push(FieldRule { name: "camera", kind: FieldKind::OptionalText });
            r.push(FieldRule { name: "button", kind: FieldKind::OptionalText });
            r.push(FieldRule { name: "frames", kind: FieldKind::OptionalFrames });
        },
        CommandTag::ResourceInfo => {
            r.push(FieldRule { name: "resource", kind: FieldKind::OptionalText });
            r.push(FieldRule { name: "field", kind: FieldKind::OptionalText });
        },
        CommandTag::EvaluatePredicate => {
            r.push(FieldRule { name: "predicate", kind: FieldKind::Predicate });
        },
        CommandTag::WaitFor => {
            r.push(FieldRule { name: "predicate", kind: FieldKind::Predicate });
            r.push(FieldRule { name: "abort_predicates", kind: FieldKind::Predicates });
            r.push(FieldRule { name: "max_frames", kind: FieldKind::OptionalFrames });
        },
        CommandTag::EcsSummary => {},
        CommandTag::ListEntities => {},
        CommandTag::CameraInfo => {},
        CommandTag::StateInfo => {},
        CommandTag::MarkerInfo => {},
    }
    assert(r@ =~= command_rules(tag));
    r
}

/// The fields of a predicate.
pub open spec fn predicate_rules(tag: PredicateTag) -> Seq<FieldRule> {
    match tag {
        PredicateTag::StateEquals => seq![
            FieldRule { name: "state", kind: FieldKind::Text },
            FieldRule { name: "value", kind: FieldKind::Scalar },
        ],
        PredicateTag::ResourceField => seq![
            FieldRule { name: "resource", kind: FieldKind::Text },
            FieldRule { name: "field", kind: FieldKind::Text },
            FieldRule { name: "operator", kind: FieldKind::Operator },
            FieldRule { name: "value", kind: FieldKind::Scalar },
        ],
        PredicateTag::MarkerCount => seq![
            FieldRule { name: "marker", kind: FieldKind::Text },
            FieldRule { name: "min", kind: FieldKind::OptionalCount },
            FieldRule { name: "max", kind: FieldKind::OptionalCount },
        ],
        PredicateTag::TargetExists => seq![
            FieldRule { name: "target", kind: FieldKind::Target },
            FieldRule { name: "kind", kind: FieldKind::Kind },
            FieldRule { name: "camera", kind: FieldKind::OptionalText },
        ],
        PredicateTag::TargetAbsent => seq![
            FieldRule { name: "target", kind: FieldKind::Target },
            FieldRule { name: "kind", kind: FieldKind::Kind },
            FieldRule { name: "camera", kind: FieldKind::OptionalText },
        ],
    }
}

fn rules_of_predicate(tag: PredicateTag) -> (r: Vec<FieldRule>)
    ensures
        r@ == predicate_rules(tag),
{
    let mut r: Vec<FieldRule> = Vec::new();
    match tag {
        PredicateTag::StateEquals => {
            r.push(FieldRule { name: "state", kind: FieldKind::Text });
            r.push(FieldRule { name: "value", kind: FieldKind::Scalar });
        },
        PredicateTag::ResourceField => {
            r.push(FieldRule { name: "resource", kind: FieldKind::Text });
            r.push(FieldRule { name: "field", kind: FieldKind::Text });
            r.push(FieldRule { name: "operator", kind: FieldKind::Operator });
            r.push(FieldRule { name: "value", kind: FieldKind::Scalar });
        },
        PredicateTag::MarkerCount => {
            r.push(FieldRule { name: "marker", kind: FieldKind::Text });
            r.push(FieldRule { name: "min", kind: FieldKind::OptionalCount });
            r.push(FieldRule { name: "max", kind: FieldKind::OptionalCount });
        },
        PredicateTag::TargetExists => {
            r.push(FieldRule { name: "target", kind: FieldKind::Target });
            r.push(FieldRule { name: "kind", kind: FieldKind::Kind });
            r.push(FieldRule { name: "camera", kind: FieldKind::OptionalText });
        },
        PredicateTag::TargetAbsent => {
            r.push(FieldRule { name: "target", kind: FieldKind::Target });
            r.push(FieldRule { name: "kind", kind: FieldKind::Kind });
            r.push(FieldRule { name: "camera", kind: FieldKind::OptionalText });
        },
    }
    assert(r@ =~= predicate_rules(tag));
    r
}

/// The first place from `i` on of a text in a table.
pub open spec fn place_from(table: Seq<&'static str>, value: Seq<char>, i: int) -> Option<int>
    decreases table.len() - i,
{
    if i < 0 || i >= table.len() {
        None
    } else if table[i]@ == value {
        Some(i)
    } else {
        place_from(table, value, i + 1)
    }
}

/// Finds the first place of a text in a table.
pub fn find_place(table: &[&'static str], value: &str) -> (r: Option<usize>)
    ensures
        match r {
            Some(place) => place < table@.len() && place_from(table@, value@, 0) == Some(
                place as int,
            ),
            None => place_from(table@, value@, 0) is None,
        },
{
    let mut i: usize = 0;
    while i < table.len()
        invariant
            i <= table@.len(),
            place_from(table@, value@, 0) == place_from(table@, value@, i as int),
        decreases table@.len() - i,
    {
        if same_text(table[i], value) {
            return Some(i);
        }
        i = i + 1;
    }
    None
}

/// The names of a table from `i` on, each in backquotes, with commas between them.
pub open spec fn listed_from(table: Seq<&'static str>, i: int) -> Seq<char>
    decreases table.len() - i,
{
    if i < 0 || i >= table.len() {
        Seq::empty()
    } else {
        (if i == 0 {
            "`"@
        } else {
            ", `"@
        }) + table[i]@ + "`"@ + listed_from(table, i + 1)
    }
}

fn listed(table: &[&'static str]) -> (r: String)
    ensures
        r@ == listed_from(table@, 0),
{
    let mut r = String::new();
    let mut i: usize = 0;
    assert(r@ + listed_from(table@, 0) =~= listed_from(table@, 0));
    while i < table.len()
        invariant
            i <= table@.len(),
            r@ + listed_from(table@, i as int) == listed_from(table@, 0),
        decreases table@.len() - i,
    {
        let ghost before = r@;
        let opening = if i == 0 {
            "`"
        } else {
            ", `"
        };
        r.append(opening);
        r.append(table[i]);
        r.append("`");
        assert(r@ + listed_from(table@, i + 1) =~= before + listed_from(table@, i as int));
        i = i + 1;
    }
    assert(r@ + Seq::<char>::empty() =~= r@);
    r
}

/// What is said of a name that is in none of the places of a table.
pub open spec fn unknown_variant(value: Seq<char>, table: Seq<&'static str>) -> Seq<char> {
    "unknown variant `"@ + value + "`, expected one of "@ + listed_from(table, 0)
}

fn unknown_variant_message(value: &str, table: &[&'static str]) -> (r: String)
    ensures
        r@ == unknown_variant(value@, table@),
{
    cat4("unknown variant `", value, "`, expected one of ", listed(table).as_str())
}

/// What is said of a field that is needed and not there.
pub open spec fn missing(name: Seq<char>) -> Seq<char> {
    "missing field `"@ + name + "`"@
}

fn missing_field(name: &str) -> (r: String)
    ensures
        r@ == missing(name@),
{
    cat3("missing field `", name, "`")
}

/// A value that is needed, or what is said where it is not there.
pub open spec fn required<T>(value: Option<T>, name: Seq<char>) -> Result<T, Seq<char>> {
    match value {
        Some(v) => Ok(v),
        None => Err(missing(name)),
    }
}

/// The text of the error that `serde_json` raises for a value of a wrong type.
pub uninterp spec fn invalid_type_text(found: JsonValue, expected: Seq<char>) -> Seq<char>;

/// `serde::de::Error::invalid_type` of `serde_json::Error`: says which value was found and what
/// was expected.
#[verifier::external_body]
pub(crate) fn invalid_type(found: &Json, expected: &str) -> (r: String)
    ensures
        r@ == invalid_type_text(found@, expected@),
{
    let unexpected = match found {
        Json::Null => serde::de::Unexpected::Unit,
        Json::Bool(b) => serde::de::Unexpected::Bool(*b),
        Json::Number(JsonNumber::Unsigned(n)) => serde::de::Unexpected::Unsigned(*n),
        Json::Number(JsonNumber::Negative(n)) => serde::de::Unexpected::Signed(n.get()),
        Json::Number(JsonNumber::Float(f)) => serde::de::Unexpected::Float(
            f.raw().as_f64().unwrap_or_default(),
        ),
        Json::Text(s) => serde::de::Unexpected::Str(s),
        Json::Array(_) => serde::de::Unexpected::Seq,
        Json::Object(_) => serde::de::Unexpected::Map,
    };
    <serde_json::Error as serde::de::Error>::invalid_type(unexpected, &expected).to_string()
}

/// The objection against a value that must be a text.
pub open spec fn text_objection(v: Json, expected: Seq<char>) -> Option<Seq<char>> {
    if v is Text {
        None
    } else {
        Some(invalid_type_text(v@, expected))
    }
}

fn object_to_text(v: &Json, expected: &str) -> (r: Option<String>)
    ensures
        objects(r, text_objection(*v, expected@)),
{
    match v {
        Json::Text(_) => None,
        _ => Some(invalid_type(v, expected)),
    }
}

/// The objection `r` is `s`, with its message read as text.
pub open spec fn objects(r: Option<String>, s: Option<Seq<char>>) -> bool {
    match (r, s) {
        (None, None) => true,
        (Some(m), Some(n)) => m@ == n,
        _ => false,
    }
}

/// The objection against a value that must be a number.
pub open spec fn number_objection(v: Json, expected: Seq<char>) -> Option<Seq<char>> {
    if v is Number {
        None
    } else {
        Some(invalid_type_text(v@, expected))
    }
}

fn object_to_number(v: &Json, expected: &str) -> (r: Option<String>)
    ensures
        objects(r, number_objection(*v, expected@)),
{
    match v {
        Json::Number(_) => None,
        _ => Some(invalid_type(v, expected)),
    }
}

/// What is said of an integer that is out of range.
pub open spec fn invalid_integer(negative: bool, magnitude: nat, expected: Seq<char>) -> Seq<char> {
    "invalid value: integer `"@ + (if negative {
        "-"@
    } else {
        ""@
    }) + text::digits(magnitude) + "`, expected "@ + expected
}

/// The objection against a value that must be an integer from zero to `max`.
pub open spec fn integer_objection(v: Json, max: u64, expected: Seq<char>) -> Option<Seq<char>> {
    match v {
        Json::Number(JsonNumber::Unsigned(n)) => if n <= max {
            None
        } else {
            Some(invalid_integer(false, n as nat, expected))
        },
        Json::Number(JsonNumber::Negative(n)) => Some(
            invalid_integer(
                n@ < 0,
                if n@ < 0 {
                    -n@ as nat
                } else {
                    n@ as nat
                },
                expected,
            ),
        ),
        _ => Some(invalid_type_text(v@, expected)),
    }
}

fn object_to_integer(v: &Json, max: u64, expected: &str) -> (r: Option<String>)
    ensures
        objects(r, integer_objection(*v, max, expected@)),
{
    match v {
        Json::Number(JsonNumber::Unsigned(n)) => {
            if *n <= max {
                None
            } else {
                Some(
                    cat5(
                        "invalid value: integer `",
                        "",
                        decimal(*n as u128).as_str(),
                        "`, expected ",
                        expected,
                    ),
                )
            }
        },
        Json::Number(JsonNumber::Negative(n)) => {
            let wide: i128 = n.get() as i128;
            let magnitude: u128 = if wide < 0 {
                (-wide) as u128
            } else {
                wide as u128
            };
            let sign = if wide < 0 {
                "-"
            } else {
                ""
            };
            Some(
                cat5(
                    "invalid value: integer `",
                    sign,
                    decimal(magnitude).as_str(),
                    "`, expected ",
                    expected,
                ),
            )
        },
        _ => Some(invalid_type(v, expected)),
    }
}

/// The objection against a value that must be two numbers.
pub open spec fn pair_objection(v: Json) -> Option<Seq<char>> {
    match v {
        Json::Array(items) => {
            if items@.len() >= 1 && number_objection(items@[0], "f32"@) is Some {
                number_objection(items@[0], "f32"@)
            } else if items@.len() >= 2 && number_objection(items@[1], "f32"@) is Some {
                number_objection(items@[1], "f32"@)
            } else if items@.len() < 2 {
                Some(
                    "invalid length "@ + text::digits(items@.len())
                        + ", expected an array of length 2"@,
                )
            } else if items@.len() > 2 {
                Some(
                    "invalid length "@ + text::digits(items@.len())
                        + ", expected 2 elements in sequence"@,
                )
            } else {
                None
            }
        },
        _ => Some(invalid_type_text(v@, "an array of length 2"@)),
    }
}

fn object_to_pair(v: &Json) -> (r: Option<String>)
    ensures
        objects(r, pair_objection(*v)),
{
    match v {
        Json::Array(items) => {
            let len: usize = items.len();
            if len >= 1 {
                if let Some(m) = object_to_number(&items[0], "f32") {
                    return Some(m);
                }
            }
            if len >= 2 {
                if let Some(m) = object_to_number(&items[1], "f32") {
                    return Some(m);
                }
            }
            if len < 2 {
                return Some(
                    cat3(
                        "invalid length ",
                        decimal(len as u128).as_str(),
                        ", expected an array of length 2",
                    ),
                );
            }
            if len > 2 {
                return Some(
                    cat3(
                        "invalid length ",
                        decimal(len as u128).as_str(),
                        ", expected 2 elements in sequence",
                    ),
                );
            }
            None
        },
        _ => Some(invalid_type(v, "an array of length 2")),
    }
}

/// The objection against a name that must be in a table.
pub open spec fn name_objection(name: Seq<char>, table: Seq<&'static str>) -> Option<Seq<char>> {
    if place_from(table, name, 0) is Some {
        None
    } else {
        Some(unknown_variant(name, table))
    }
}

/// The objection against what stands beside a name that needs nothing beside it: null and an
/// object without fields are nothing.
pub open spec fn nothing_objection(v: Json) -> Option<Seq<char>> {
    match v {
        Json::Null => None,
        Json::Object(o) => if o@.len() == 0 {
            None
        } else {
            Some(invalid_type_text(v@, "unit"@))
        },
        _ => Some(invalid_type_text(v@, "unit"@)),
    }
}

fn object_to_more(v: &Json) -> (r: Option<String>)
    ensures
        objects(r, nothing_objection(*v)),
{
    match v {
        Json::Null => None,
        Json::Object(o) => if o.len() == 0 {
            None
        } else {
            Some(invalid_type(v, "unit"))
        },
        _ => Some(invalid_type(v, "unit")),
    }
}

/// What is said of an object that should have one field.
pub open spec fn not_single() -> Seq<char> {
    "invalid value: map, expected map with a single key"@
}

/// The objection against a value that must be one of the names of a table: the name as a text, or
/// as the one name of an object with nothing under it.
pub open spec fn variant_objection(v: Json, table: Seq<&'static str>) -> Option<Seq<char>> {
    match v {
        Json::Text(s) => name_objection(s@, table),
        Json::Object(o) => if o@.len() != 1 {
            Some(not_single())
        } else if name_objection(o@[0].0@, table) is Some {
            name_objection(o@[0].0@, table)
        } else {
            nothing_objection(o@[0].1)
        },
        _ => Some(invalid_type_text(v@, "string or map"@)),
    }
}

fn object_to_name(name: &str, table: &[&'static str]) -> (r: Option<String>)
    ensures
        objects(r, name_objection(name@, table@)),
{
    match find_place(table, name) {
        Some(_) => None,
        None => Some(unknown_variant_message(name, table)),
    }
}

fn object_to_variant(v: &Json, table: &[&'static str]) -> (r: Option<String>)
    ensures
        objects(r, variant_objection(*v, table@)),
{
    match v {
        Json::Text(s) => object_to_name(s.as_str(), table),
        Json::Object(o) => {
            if o.len() != 1 {
                return Some("invalid value: map, expected map with a single key".to_owned());
            }
            match object_to_name(o[0].0.as_str(), table) {
                Some(m) => Some(m),
                None => object_to_more(&o[0].1),
            }
        },
        _ => Some(invalid_type(v, "string or map")),
    }
}

/// The place in a table of the name that a value is, or has.
pub open spec fn variant_place(v: Json, table: Seq<&'static str>) -> Option<int> {
    match v {
        Json::Text(s) => place_from(table, s@, 0),
        Json::Object(o) => if o@.len() == 1 {
            place_from(table, o@[0].0@, 0)
        } else {
            None
        },
        _ => None,
    }
}

fn find_variant(v: &Json, table: &[&'static str]) -> (r: Option<usize>)
    ensures
        match r {
            Some(place) => variant_place(*v, table@) == Some(place as int),
            None => variant_place(*v, table@) is None,
        },
{
    match v {
        Json::Text(s) => find_place(table, s.as_str()),
        Json::Object(o) => if o.len() == 1 {
            find_place(table, o[0].0.as_str())
        } else {
            None
        },
        _ => None,
    }
}

/// What is said of a list that ends before the element at `place`.
pub open spec fn too_short(place: nat, expected: Seq<char>, count: nat) -> Seq<char> {
    "invalid length "@ + text::digits(place) + ", expected "@ + expected + " with "@ + text::digits(
        count,
    ) + " elements"@
}

fn too_short_message(place: usize, expected: &str, count: usize) -> (r: String)
    ensures
        r@ == too_short(place as nat, expected@, count as nat),
{
    let head = cat4("invalid length ", decimal(place as u128).as_str(), ", expected ", expected);
    cat4(head.as_str(), " with ", decimal(count as u128).as_str(), " elements")
}

/// What is said of a list with more elements than are read.
pub open spec fn too_long(len: nat, count: nat) -> Seq<char> {
    "invalid length "@ + text::digits(len) + ", expected "@ + text::digits(count)
        + " elements in sequence"@
}

fn too_long_message(len: usize, count: usize) -> (r: String)
    ensures
        r@ == too_long(len as nat, count as nat),
{
    cat5(
        "invalid length ",
        decimal(len as u128).as_str(),
        ", expected ",
        decimal(count as u128).as_str(),
        " elements in sequence",
    )
}

/// The objection against a value that must be a text or nothing.
pub open spec fn optional_text_objection(v: Json) -> Option<Seq<char>> {
    if v is Null {
        None
    } else {
        text_objection(v, "a string"@)
    }
}

fn object_to_optional_text(v: &Json) -> (r: Option<String>)
    ensures
        objects(r, optional_text_objection(*v)),
{
    match v {
        Json::Null => None,
        _ => object_to_text(v, "a string"),
    }
}

/// The objection against a target selector that lists what its fields hold, in their order.
pub open spec fn selector_items_objection(items: Seq<Json>) -> Option<Seq<char>> {
    if items.len() > 0 && optional_text_objection(items[0]) is Some {
        optional_text_objection(items[0])
    } else if items.len() > 1 && optional_text_objection(items[1]) is Some {
        optional_text_objection(items[1])
    } else if items.len() > 2 && optional_text_objection(items[2]) is Some {
        optional_text_objection(items[2])
    } else if items.len() < 3 {
        Some(too_short(items.len(), "struct WireTargetSelector"@, 3))
    } else if items.len() > 3 {
        Some(too_long(items.len(), 3))
    } else {
        None
    }
}

fn object_to_selector_items(items: &Vec<Json>) -> (r: Option<String>)
    ensures
        objects(r, selector_items_objection(items@)),
{
    let len: usize = items.len();
    let mut i: usize = 0;
    while i < len && i < 3
        invariant
            i <= len,
            i <= 3,
            len == items@.len(),
            forall|k: int| 0 <= k < i ==> optional_text_objection(#[trigger] items@[k]) is None,
        decreases 3 - i,
    {
        if let Some(m) = object_to_optional_text(&items[i]) {
            return Some(m);
        }
        i = i + 1;
    }
    if len < 3 {
        return Some(too_short_message(len, "struct WireTargetSelector", 3));
    }
    if len > 3 {
        return Some(too_long_message(len, 3));
    }
    None
}

/// The first objection against the fields of a target selector.
pub open spec fn selector_objection(o: Seq<(String, Json)>) -> Option<Seq<char>>
    decreases o.len(),
{
    if o.len() == 0 {
        None
    } else if place_from(SELECTOR_FIELDS@, o[0].0@, 0) is None {
        Some(
            "unknown field `"@ + o[0].0@ + "`, expected one of "@ + listed_from(
                SELECTOR_FIELDS@,
                0,
            ),
        )
    } else if !(o[0].1 is Null) && text_objection(o[0].1, "a string"@) is Some {
        text_objection(o[0].1, "a string"@)
    } else {
        selector_objection(o.skip(1))
    }
}

fn object_to_selector(o: &Vec<(String, Json)>) -> (r: Option<String>)
    ensures
        objects(r, selector_objection(o@)),
{
    let fields = SELECTOR_FIELDS;
    let mut i: usize = 0;
    assert(o@.skip(0) =~= o@);
    while i < o.len()
        invariant
            i <= o@.len(),
            fields == SELECTOR_FIELDS,
            selector_objection(o@) == selector_objection(o@.skip(i as int)),
        decreases o@.len() - i,
    {
        assert(o@.skip(i as int)[0] == o@[i as int]);
        assert(o@.skip(i as int).skip(1) =~= o@.skip(i + 1));
        let name = o[i].0.as_str();
        match find_place(fields.as_slice(), name) {
            None => return Some(
                cat4(
                    "unknown field `",
                    name,
                    "`, expected one of ",
                    listed(fields.as_slice()).as_str(),
                ),
            ),
            Some(_) => {},
        }
        if !matches!(o[i].1, Json::Null) {
            if let Some(m) = object_to_text(&o[i].1, "a string") {
                return Some(m);
            }
        }
        i = i + 1;
    }
    None
}

/// The objection against what a field holds, but for a predicate.
pub open spec fn plain_objection(kind: FieldKind, v: Json) -> Option<Seq<char>> {
    match kind {
        FieldKind::Text => text_objection(v, "a string"@),
        FieldKind::OptionalText => optional_text_objection(v),
        FieldKind::Path => text_objection(v, "path string"@),
        FieldKind::Single => number_objection(v, "f32"@),
        FieldKind::DefaultSingle => number_objection(v, "f32"@),
        FieldKind::Seconds => number_objection(v, "f64"@),
        FieldKind::OptionalSeconds => if v is Null {
            None
        } else {
            number_objection(v, "f64"@)
        },
        FieldKind::Frames => integer_objection(v, 65535, "u16"@),
        FieldKind::OptionalFrames => if v is Null {
            None
        } else {
            integer_objection(v, 65535, "u16"@)
        },
        FieldKind::OptionalCount => if v is Null {
            None
        } else {
            integer_objection(v, 4294967295, "u32"@)
        },
        FieldKind::Pair => pair_objection(v),
        FieldKind::Target => match v {
            Json::Object(o) => selector_objection(o@),
            Json::Array(items) => selector_items_objection(items@),
            _ => Some(invalid_type_text(v@, "struct WireTargetSelector"@)),
        },
        FieldKind::Kind => variant_objection(v, TARGET_KIND_TAGS@),
        FieldKind::Operator => variant_objection(v, OPERATOR_TAGS@),
        FieldKind::Scalar => None,
        FieldKind::Predicate => None,
        FieldKind::Predicates => None,
    }
}

fn object_to_plain(kind: FieldKind, v: &Json) -> (r: Option<String>)
    ensures
        objects(r, plain_objection(kind, *v)),
{
    let absent = matches!(v, Json::Null);
    let kinds = TARGET_KIND_TAGS;
    let operators = OPERATOR_TAGS;
    match kind {
        FieldKind::Text => object_to_text(v, "a string"),
        FieldKind::OptionalText => object_to_optional_text(v),
        FieldKind::Path => object_to_text(v, "path string"),
        FieldKind::Single => object_to_number(v, "f32"),
        FieldKind::DefaultSingle => object_to_number(v, "f32"),
        FieldKind::Seconds => object_to_number(v, "f64"),
        FieldKind::OptionalSeconds => if absent {
            None
        } else {
            object_to_number(v, "f64")
        },
        FieldKind::Frames => object_to_integer(v, 65535, "u16"),
        FieldKind::OptionalFrames => if absent {
            None
        } else {
            object_to_integer(v, 65535, "u16")
        },
        FieldKind::OptionalCount => if absent {
            None
        } else {
            object_to_integer(v, 4294967295, "u32")
        },
        FieldKind::Pair => object_to_pair(v),
        FieldKind::Target => match v {
            Json::Object(o) => object_to_selector(o),
            Json::Array(items) => object_to_selector_items(items),
            _ => Some(invalid_type(v, "struct WireTargetSelector")),
        },
        FieldKind::Kind => object_to_variant(v, kinds.as_slice()),
        FieldKind::Operator => object_to_variant(v, operators.as_slice()),
        FieldKind::Scalar => None,
        FieldKind::Predicate => None,
        FieldKind::Predicates => None,
    }
}

/// What the first rule for a name lets the field hold.
pub open spec fn rule_for(rules: Seq<FieldRule>, name: Seq<char>) -> Option<FieldKind>
    decreases rules.len(),
{
    if rules.len() == 0 {
        None
    } else if rules[0].name@ == name {
        Some(rules[0].kind)
    } else {
        rule_for(rules.skip(1), name)
    }
}

fn find_rule(rules: &Vec<FieldRule>, name: &str) -> (r: Option<FieldKind>)
    ensures
        r == rule_for(rules@, name@),
{
    let mut i: usize = 0;
    assert(rules@.skip(0) =~= rules@);
    while i < rules.len()
        invariant
            i <= rules@.len(),
            rule_for(rules@, name@) == rule_for(rules@.skip(i as int), name@),
        decreases rules@.len() - i,
    {
        assert(rules@.skip(i as int)[0] == rules@[i as int]);
        assert(rules@.skip(i as int).skip(1) =~= rules@.skip(i + 1));
        if same_text(rules[i].name, name) {
            return Some(rules[i].kind);
        }
        i = i + 1;
    }
    None
}

/// The objection against a field of an object under the rules for a predicate.
pub open spec fn plain_field_objection(rules: Seq<FieldRule>, field: (String, Json)) -> Option<
    Seq<char>,
> {
    match rule_for(rules, field.0@) {
        Some(kind) => plain_objection(kind, field.1),
        None => None,
    }
}

/// The first objection against the fields of an object under the rules for a predicate.
pub open spec fn plain_fields_objection(rules: Seq<FieldRule>, o: Seq<(String, Json)>) -> Option<
    Seq<char>,
>
    decreases o.len(),
{
    if o.len() == 0 {
        None
    } else if plain_field_objection(rules, o[0]) is Some {
        plain_field_objection(rules, o[0])
    } else {
        plain_fields_objection(rules, o.skip(1))
    }
}

fn object_to_plain_fields(rules: &Vec<FieldRule>, o: &Vec<(String, Json)>) -> (r: Option<String>)
    ensures
        objects(r, plain_fields_objection(rules@, o@)),
{
    let mut i: usize = 0;
    assert(o@.skip(0) =~= o@);
    while i < o.len()
        invariant
            i <= o@.len(),
            plain_fields_objection(rules@, o@) == plain_fields_objection(rules@, o@.skip(i as int)),
        decreases o@.len() - i,
    {
        assert(o@.skip(i as int)[0] == o@[i as int]);
        assert(o@.skip(i as int).skip(1) =~= o@.skip(i + 1));
        if let Some(kind) = find_rule(rules, o[i].0.as_str()) {
            if let Some(m) = object_to_plain(kind, &o[i].1) {
                return Some(m);
            }
        }
        i = i + 1;
    }
    None
}

/// The text under a name.
pub open spec fn text_in(o: Seq<(String, Json)>, name: Seq<char>) -> Option<String> {
    match json::lookup(o, name) {
        Some(Json::Text(s)) => Some(s),
        _ => None,
    }
}

fn read_text(o: &Vec<(String, Json)>, name: &str) -> (r: Option<String>)
    ensures
        r == text_in(o@, name@),
{
    match find_entry(o, name) {
        Some(Json::Text(s)) => Some(s.clone()),
        _ => None,
    }
}

/// The single-precision number under a name.
pub open spec fn single_in(o: Seq<(String, Json)>, name: Seq<char>) -> Option<u32> {
    match json::lookup(o, name) {
        Some(Json::Number(n)) => Some(json::single_of(n@)),
        _ => None,
    }
}

fn read_single(o: &Vec<(String, Json)>, name: &str) -> (r: Option<u32>)
    ensures
        r == single_in(o@, name@),
{
    match find_entry(o, name) {
        Some(Json::Number(n)) => Some(single_bits(n)),
        _ => None,
    }
}

/// The single-precision number under a name, or zero.
pub open spec fn single_or_zero(o: Seq<(String, Json)>, name: Seq<char>) -> u32 {
    match single_in(o, name) {
        Some(bits) => bits,
        None => 0,
    }
}

fn read_single_or_zero(o: &Vec<(String, Json)>, name: &str) -> (r: u32)
    ensures
        r == single_or_zero(o@, name@),
{
    match read_single(o, name) {
        Some(bits) => bits,
        None => 0,
    }
}

/// The number of seconds under a name.
pub open spec fn seconds_in(o: Seq<(String, Json)>, name: Seq<char>) -> Option<WireSeconds> {
    match json::lookup(o, name) {
        Some(Json::Number(n)) => Some(
            WireSeconds { bits: json::double_of(n@), nanos: json::nanos_of_seconds(n@) },
        ),
        _ => None,
    }
}

fn read_seconds(o: &Vec<(String, Json)>, name: &str) -> (r: Option<WireSeconds>)
    ensures
        r == seconds_in(o@, name@),
{
    match find_entry(o, name) {
        Some(Json::Number(n)) => Some(
            WireSeconds { bits: double_bits(n), nanos: seconds_to_nanos(n) },
        ),
        _ => None,
    }
}

/// The 16-bit number under a name.
pub open spec fn frames_in(o: Seq<(String, Json)>, name: Seq<char>) -> Option<u16> {
    match json::lookup(o, name) {
        Some(Json::Number(JsonNumber::Unsigned(n))) => if n <= 65535 {
            Some(n as u16)
        } else {
            None
        },
        _ => None,
    }
}

fn read_frames(o: &Vec<(String, Json)>, name: &str) -> (r: Option<u16>)
    ensures
        r == frames_in(o@, name@),
{
    match find_entry(o, name) {
        Some(Json::Number(JsonNumber::Unsigned(n))) => if *n <= 65535 {
            Some(*n as u16)
        } else {
            None
        },
        _ => None,
    }
}

/// The 32-bit number that a value is.
pub open spec fn count_value(v: Json) -> Option<u32> {
    match v {
        Json::Number(JsonNumber::Unsigned(n)) => if n <= 4294967295 {
            Some(n as u32)
        } else {
            None
        },
        _ => None,
    }
}

fn read_count_value(v: &Json) -> (r: Option<u32>)
    ensures
        r == count_value(*v),
{
    match v {
        Json::Number(JsonNumber::Unsigned(n)) => if *n <= 4294967295 {
            Some(*n as u32)
        } else {
            None
        },
        _ => None,
    }
}

/// The 32-bit number under a name.
pub open spec fn count_in(o: Seq<(String, Json)>, name: Seq<char>) -> Option<u32> {
    match json::lookup(o, name) {
        Some(v) => count_value(v),
        None => None,
    }
}

fn read_count(o: &Vec<(String, Json)>, name: &str) -> (r: Option<u32>)
    ensures
        r == count_in(o@, name@),
{
    match find_entry(o, name) {
        Some(v) => read_count_value(v),
        None => None,
    }
}

/// The single-precision number that a value is, or zero.
pub open spec fn coordinate(v: Json) -> u32 {
    match v {
        Json::Number(n) => json::single_of(n@),
        _ => 0,
    }
}

fn read_coordinate(v: &Json) -> (r: u32)
    ensures
        r == coordinate(*v),
{
    match v {
        Json::Number(n) => single_bits(n),
        _ => 0,
    }
}

/// The two single-precision numbers under a name.
pub open spec fn pair_in(o: Seq<(String, Json)>, name: Seq<char>) -> Option<Point> {
    match json::lookup(o, name) {
        Some(Json::Array(items)) => if items@.len() == 2 {
            Some(Point { x: coordinate(items@[0]), y: coordinate(items@[1]) })
        } else {
            None
        },
        _ => None,
    }
}

fn read_pair(o: &Vec<(String, Json)>, name: &str) -> (r: Option<Point>)
    ensures
        r == pair_in(o@, name@),
{
    match find_entry(o, name) {
        Some(Json::Array(items)) => if items.len() == 2 {
            Some(Point { x: read_coordinate(&items[0]), y: read_coordinate(&items[1]) })
        } else {
            None
        },
        _ => None,
    }
}

/// The text that a value is.
pub open spec fn text_value(v: Json) -> Option<String> {
    match v {
        Json::Text(s) => Some(s),
        _ => None,
    }
}

fn read_text_value(v: &Json) -> (r: Option<String>)
    ensures
        r == text_value(*v),
{
    match v {
        Json::Text(s) => Some(s.clone()),
        _ => None,
    }
}

/// The target selector that a value spells out.
pub open spec fn target_value(v: Json) -> Option<WireTargetSelector> {
    match v {
        Json::Object(fields) => Some(
            WireTargetSelector {
                name: text_in(fields@, "name"@),
                accessibility_label: text_in(fields@, "accessibility_label"@),
                marker: text_in(fields@, "marker"@),
            },
        ),
        Json::Array(items) => if items@.len() == 3 {
            Some(
                WireTargetSelector {
                    name: text_value(items@[0]),
                    accessibility_label: text_value(items@[1]),
                    marker: text_value(items@[2]),
                },
            )
        } else {
            None
        },
        _ => None,
    }
}

fn read_target_value(v: &Json) -> (r: Option<WireTargetSelector>)
    ensures
        r == target_value(*v),
{
    match v {
        Json::Object(fields) => Some(
            WireTargetSelector {
                name: read_text(fields, "name"),
                accessibility_label: read_text(fields, "accessibility_label"),
                marker: read_text(fields, "marker"),
            },
        ),
        Json::Array(items) => if items.len() == 3 {
            Some(
                WireTargetSelector {
                    name: read_text_value(&items[0]),
                    accessibility_label: read_text_value(&items[1]),
                    marker: read_text_value(&items[2]),
                },
            )
        } else {
            None
        },
        _ => None,
    }
}

/// The target selector under a name.
pub open spec fn target_in(o: Seq<(String, Json)>, name: Seq<char>) -> Option<WireTargetSelector> {
    match json::lookup(o, name) {
        Some(v) => target_value(v),
        None => None,
    }
}

fn read_target(o: &Vec<(String, Json)>, name: &str) -> (r: Option<WireTargetSelector>)
    ensures
        r == target_in(o@, name@),
{
    match find_entry(o, name) {
        Some(v) => read_target_value(v),
        None => None,
    }
}

/// The kind of target that a value names.
pub open spec fn kind_value(v: Json) -> TargetKind {
    match variant_place(v, TARGET_KIND_TAGS@) {
        Some(place) => if place == 1 {
            TargetKind::Ui
        } else if place == 2 {
            TargetKind::World
        } else {
            TargetKind::Any
        },
        None => TargetKind::Any,
    }
}

fn read_kind_value(v: &Json) -> (r: TargetKind)
    ensures
        r == kind_value(*v),
{
    let kinds = TARGET_KIND_TAGS;
    match find_variant(v, kinds.as_slice()) {
        Some(place) => if place == 1 {
            TargetKind::Ui
        } else if place == 2 {
            TargetKind::World
        } else {
            TargetKind::Any
        },
        None => TargetKind::Any,
    }
}

/// The kind of target under a name.
pub open spec fn kind_in(o: Seq<(String, Json)>, name: Seq<char>) -> TargetKind {
    match json::lookup(o, name) {
        Some(v) => kind_value(v),
        None => TargetKind::Any,
    }
}

fn read_kind(o: &Vec<(String, Json)>, name: &str) -> (r: TargetKind)
    ensures
        r == kind_in(o@, name@),
{
    match find_entry(o, name) {
        Some(v) => read_kind_value(v),
        None => TargetKind::Any,
    }
}

/// The comparison at a place in [`OPERATOR_TAGS`].
pub open spec fn operator_at(place: int) -> ComparisonOperator {
    if place == 0 {
        ComparisonOperator::Eq
    } else if place == 1 {
        ComparisonOperator::Ne
    } else if place == 2 {
        ComparisonOperator::Lt
    } else if place == 3 {
        ComparisonOperator::Lte
    } else if place == 4 {
        ComparisonOperator::Gt
    } else {
        ComparisonOperator::Gte
    }
}

/// The comparison that a value names.
pub open spec fn operator_value(v: Json) -> Option<ComparisonOperator> {
    match variant_place(v, OPERATOR_TAGS@) {
        Some(place) => Some(operator_at(place)),
        None => None,
    }
}

fn read_operator_value(v: &Json) -> (r: Option<ComparisonOperator>)
    ensures
        r == operator_value(*v),
{
    let operators = OPERATOR_TAGS;
    match find_variant(v, operators.as_slice()) {
        Some(place) => Some(
            if place == 0 {
                ComparisonOperator::Eq
            } else if place == 1 {
                ComparisonOperator::Ne
            } else if place == 2 {
                ComparisonOperator::Lt
            } else if place == 3 {
                ComparisonOperator::Lte
            } else if place == 4 {
                ComparisonOperator::Gt
            } else {
                ComparisonOperator::Gte
            },
        ),
        None => None,
    }
}

/// The comparison under a name.
pub open spec fn operator_in(o: Seq<(String, Json)>, name: Seq<char>) -> Option<
    ComparisonOperator,
> {
    match json::lookup(o, name) {
        Some(v) => operator_value(v),
        None => None,
    }
}

fn read_operator(o: &Vec<(String, Json)>, name: &str) -> (r: Option<ComparisonOperator>)
    ensures
        r == operator_in(o@, name@),
{
    match find_entry(o, name) {
        Some(v) => read_operator_value(v),
        None => None,
    }
}

/// A value taken as a diagnostic value.
pub open spec fn scalar_value(v: Json) -> WireScalar {
    match v {
        Json::Null => WireScalar::Null,
        Json::Bool(b) => WireScalar::Bool(b),
        Json::Number(n) => WireScalar::Number(json::double_of(n@)),
        Json::Text(s) => WireScalar::Text(s),
        _ => WireScalar::Compound,
    }
}

/// The diagnostic value under a name.
pub open spec fn scalar_in(o: Seq<(String, Json)>, name: Seq<char>) -> Option<WireScalar> {
    match json::lookup(o, name) {
        Some(v) => Some(scalar_value(v)),
        None => None,
    }
}

fn read_scalar_value(v: &Json) -> (r: WireScalar)
    ensures
        r == scalar_value(*v),
{
    match v {
        Json::Null => WireScalar::Null,
        Json::Bool(b) => WireScalar::Bool(*b),
        Json::Number(n) => WireScalar::Number(double_bits(n)),
        Json::Text(s) => WireScalar::Text(s.clone()),
        _ => WireScalar::Compound,
    }
}

fn read_scalar(o: &Vec<(String, Json)>, name: &str) -> (r: Option<WireScalar>)
    ensures
        r == scalar_in(o@, name@),
{
    match find_entry(o, name) {
        Some(v) => Some(read_scalar_value(v)),
        None => None,
    }
}

/// The predicate that well-typed fields spell out.
pub open spec fn predicate_in_fields(tag: PredicateTag, o: Seq<(String, Json)>) -> Result<WirePredicate, Seq<char>> {
    match tag {
        PredicateTag::StateEquals => match required(text_in(o, "state"@), "state"@) {
            Err(m) => Err(m),
            Ok(state) => match required(scalar_in(o, "value"@), "value"@) {
                Err(m) => Err(m),
                Ok(value) => Ok(WirePredicate::StateEquals { state, value }),
            },
        },
        PredicateTag::ResourceField => match required(text_in(o, "resource"@), "resource"@) {
            Err(m) => Err(m),
            Ok(resource) => match required(text_in(o, "field"@), "field"@) {
                Err(m) => Err(m),
                Ok(field) => match required(operator_in(o, "operator"@), "operator"@) {
                    Err(m) => Err(m),
                    Ok(operator) => match required(scalar_in(o, "value"@), "value"@) {
                        Err(m) => Err(m),
                        Ok(value) => Ok(WirePredicate::ResourceField { resource, field, operator, value }),
                    },
                },
            },
        },
        PredicateTag::MarkerCount => match required(text_in(o, "marker"@), "marker"@) {
            Err(m) => Err(m),
            Ok(marker) => {
                let min = count_in(o, "min"@);
                {
                let max = count_in(o, "max"@);
                Ok(WirePredicate::MarkerCount { marker, min, max })
            }
            },
        },
        PredicateTag::TargetExists => match required(target_in(o, "target"@), "target"@) {
            Err(m) => Err(m),
            Ok(target) => {
                let kind = kind_in(o, "kind"@);
                {
                let camera = text_in(o, "camera"@);
                Ok(WirePredicate::TargetExists { target, kind, camera })
            }
            },
        },
        PredicateTag::TargetAbsent => match required(target_in(o, "target"@), "target"@) {
            Err(m) => Err(m),
            Ok(target) => {
                let kind = kind_in(o, "kind"@);
                {
                let camera = text_in(o, "camera"@);
                Ok(WirePredicate::TargetAbsent { target, kind, camera })
            }
            },
        },
    }
}

fn read_predicate_fields(tag: PredicateTag, o: &Vec<(String, Json)>) -> (r: Result<WirePredicate, String>)
    ensures
        commands::agrees(r, predicate_in_fields(tag, o@)),
{
    match tag {
        PredicateTag::StateEquals => {
            let state = match read_text(o, "state") {
                Some(state) => state,
                None => return Err(missing_field("state")),
            };
            let value = match read_scalar(o, "value") {
                Some(value) => value,
                None => return Err(missing_field("value")),
            };
            Ok(WirePredicate::StateEquals { state, value })
        },
        PredicateTag::ResourceField => {
            let resource = match read_text(o, "resource") {
                Some(resource) => resource,
                None => return Err(missing_field("resource")),
            };
            let field = match read_text(o, "field") {
                Some(field) => field,
                None => return Err(missing_field("field")),
            };
            let operator = match read_operator(o, "operator") {
                Some(operator) => operator,
                None => return Err(missing_field("operator")),
            };
            let value = match read_scalar(o, "value") {
                Some(value) => value,
                None => return Err(missing_field("value")),
            };
            Ok(WirePredicate::ResourceField { resource, field, operator, value })
        },
        PredicateTag::MarkerCount => {
            let marker = match read_text(o, "marker") {
                Some(marker) => marker,
                None => return Err(missing_field("marker")),
            };
            let min = read_count(o, "min");
            let max = read_count(o, "max");
            Ok(WirePredicate::MarkerCount { marker, min, max })
        },
        PredicateTag::TargetExists => {
            let target = match read_target(o, "target") {
                Some(target) => target,
                None => return Err(missing_field("target")),
            };
            let kind = read_kind(o, "kind");
            let camera = read_text(o, "camera");
            Ok(WirePredicate::TargetExists { target, kind, camera })
        },
        PredicateTag::TargetAbsent => {
            let target = match read_target(o, "target") {
                Some(target) => target,
                None => return Err(missing_field("target")),
            };
            let kind = read_kind(o, "kind");
            let camera = read_text(o, "camera");
            Ok(WirePredicate::TargetAbsent { target, kind, camera })
        },
    }
}

/// The place in a table that a tag stands for: that of a name, or the place itself as a number.
pub open spec fn tag_value(v: Json, table: Seq<&'static str>) -> Result<int, Seq<char>> {
    match v {
        Json::Text(s) => match place_from(table, s@, 0) {
            Some(place) => Ok(place),
            None => Err(unknown_variant(s@, table)),
        },
        Json::Number(JsonNumber::Unsigned(n)) => if n < table.len() {
            Ok(n as int)
        } else {
            Err(
                invalid_integer(
                    false,
                    n as nat,
                    "variant index 0 <= i < "@ + text::digits(table.len()),
                ),
            )
        },
        _ => Err(invalid_type_text(v@, "variant identifier"@)),
    }
}

fn read_tag_value(v: &Json, table: &[&'static str]) -> (r: Result<usize, String>)
    ensures
        match r {
            Ok(place) => tag_value(*v, table@) == Ok::<int, Seq<char>>(place as int),
            Err(m) => tag_value(*v, table@) == Err::<int, Seq<char>>(m@),
        },
{
    match v {
        Json::Text(s) => match find_place(table, s.as_str()) {
            Some(place) => Ok(place),
            None => Err(unknown_variant_message(s.as_str(), table)),
        },
        Json::Number(JsonNumber::Unsigned(n)) => {
            let len: usize = table.len();
            if *n < len as u64 {
                return Ok(*n as usize);
            }
            let expected = cat2("variant index 0 <= i < ", decimal(len as u128).as_str());
            Err(
                cat5(
                    "invalid value: integer `",
                    "",
                    decimal(*n as u128).as_str(),
                    "`, expected ",
                    expected.as_str(),
                ),
            )
        },
        _ => Err(invalid_type(v, "variant identifier")),
    }
}

/// The place in a table that the tag under a field stands for.
pub open spec fn tag_in(o: Seq<(String, Json)>, field: Seq<char>, table: Seq<&'static str>) -> Result<
    int,
    Seq<char>,
> {
    match json::lookup(o, field) {
        None => Err(missing(field)),
        Some(v) => tag_value(v, table),
    }
}

fn read_tag(o: &Vec<(String, Json)>, field: &str, table: &[&'static str]) -> (r: Result<
    usize,
    String,
>)
    ensures
        match r {
            Ok(place) => tag_in(o@, field@, table@) == Ok::<int, Seq<char>>(place as int),
            Err(m) => tag_in(o@, field@, table@) == Err::<int, Seq<char>>(m@),
        },
{
    match find_entry(o, field) {
        None => Err(missing_field(field)),
        Some(v) => read_tag_value(v, table),
    }
}

/// The first objection, from the place `i` on, against a list of what the fields of a predicate
/// hold, in their order.
pub open spec fn items_objection(rules: Seq<FieldRule>, items: Seq<Json>, i: int) -> Option<
    Seq<char>,
>
    decreases items.len() - i,
{
    if i < 0 || i >= items.len() || i >= rules.len() {
        None
    } else if plain_objection(rules[i].kind, items[i]) is Some {
        plain_objection(rules[i].kind, items[i])
    } else {
        items_objection(rules, items, i + 1)
    }
}

/// The place, from `i` on, of the first field that may not be left out of a list.
pub open spec fn needed_from(rules: Seq<FieldRule>, i: int) -> int
    decreases rules.len() - i,
{
    if 0 <= i < rules.len() && rules[i].kind is Kind {
        needed_from(rules, i + 1)
    } else {
        i
    }
}

/// The objection against a list of what the fields of a predicate hold, in their order.
pub open spec fn list_objection(rules: Seq<FieldRule>, items: Seq<Json>, expected: Seq<char>) -> Option<
    Seq<char>,
> {
    if items_objection(rules, items, 0) is Some {
        items_objection(rules, items, 0)
    } else if needed_from(rules, items.len() as int) < rules.len() {
        Some(too_short(needed_from(rules, items.len() as int) as nat, expected, rules.len()))
    } else if items.len() > rules.len() {
        Some(too_long(items.len(), rules.len()))
    } else {
        None
    }
}

fn object_to_list(rules: &Vec<FieldRule>, items: &[Json], expected: &str) -> (r: Option<String>)
    ensures
        objects(r, list_objection(rules@, items@, expected@)),
{
    let len: usize = items.len();
    let count: usize = rules.len();
    let mut i: usize = 0;
    while i < len && i < count
        invariant
            i <= len,
            i <= count,
            len == items@.len(),
            count == rules@.len(),
            items_objection(rules@, items@, 0) == items_objection(rules@, items@, i as int),
        decreases len - i,
    {
        if let Some(m) = object_to_plain(rules[i].kind, &items[i]) {
            return Some(m);
        }
        i = i + 1;
    }
    let mut needed: usize = len;
    while needed < count && matches!(rules[needed].kind, FieldKind::Kind)
        invariant
            len <= needed,
            len < count ==> needed <= count,
            len >= count ==> needed == len,
            count == rules@.len(),
            needed_from(rules@, len as int) == needed_from(rules@, needed as int),
        decreases count - needed,
    {
        needed = needed + 1;
    }
    if needed < count {
        return Some(too_short_message(needed, expected, count));
    }
    if len > count {
        return Some(too_long_message(len, count));
    }
    None
}

/// What the place of a kind of predicate is called.
pub open spec fn predicate_place(tag: PredicateTag) -> Seq<char> {
    match tag {
        PredicateTag::StateEquals => "struct variant WirePredicate::StateEquals"@,
        PredicateTag::ResourceField => "struct variant WirePredicate::ResourceField"@,
        PredicateTag::MarkerCount => "struct variant WirePredicate::MarkerCount"@,
        PredicateTag::TargetExists => "struct variant WirePredicate::TargetExists"@,
        PredicateTag::TargetAbsent => "struct variant WirePredicate::TargetAbsent"@,
    }
}

fn place_of_predicate(tag: PredicateTag) -> (r: &'static str)
    ensures
        r@ == predicate_place(tag),
{
    match tag {
        PredicateTag::StateEquals => "struct variant WirePredicate::StateEquals",
        PredicateTag::ResourceField => "struct variant WirePredicate::ResourceField",
        PredicateTag::MarkerCount => "struct variant WirePredicate::MarkerCount",
        PredicateTag::TargetExists => "struct variant WirePredicate::TargetExists",
        PredicateTag::TargetAbsent => "struct variant WirePredicate::TargetAbsent",
    }
}

/// The predicate that a well-typed list spells out: what its fields hold, in their order.
pub open spec fn predicate_in_items(tag: PredicateTag, items: Seq<Json>) -> Result<
    WirePredicate,
    Seq<char>,
> {
    match tag {
        PredicateTag::StateEquals => match required(text_value(items[0]), "state"@) {
            Err(m) => Err(m),
            Ok(state) => Ok(WirePredicate::StateEquals { state, value: scalar_value(items[1]) }),
        },
        PredicateTag::ResourceField => match required(text_value(items[0]), "resource"@) {
            Err(m) => Err(m),
            Ok(resource) => match required(text_value(items[1]), "field"@) {
                Err(m) => Err(m),
                Ok(field) => match required(operator_value(items[2]), "operator"@) {
                    Err(m) => Err(m),
                    Ok(operator) => Ok(
                        WirePredicate::ResourceField {
                            resource,
                            field,
                            operator,
                            value: scalar_value(items[3]),
                        },
                    ),
                },
            },
        },
        PredicateTag::MarkerCount => match required(text_value(items[0]), "marker"@) {
            Err(m) => Err(m),
            Ok(marker) => Ok(
                WirePredicate::MarkerCount {
                    marker,
                    min: count_value(items[1]),
                    max: count_value(items[2]),
                },
            ),
        },
        PredicateTag::TargetExists => match required(target_value(items[0]), "target"@) {
            Err(m) => Err(m),
            Ok(target) => Ok(
                WirePredicate::TargetExists {
                    target,
                    kind: kind_value(items[1]),
                    camera: text_value(items[2]),
                },
            ),
        },
        PredicateTag::TargetAbsent => match required(target_value(items[0]), "target"@) {
            Err(m) => Err(m),
            Ok(target) => Ok(
                WirePredicate::TargetAbsent {
                    target,
                    kind: kind_value(items[1]),
                    camera: text_value(items[2]),
                },
            ),
        },
    }
}

fn read_predicate_items(tag: PredicateTag, items: &[Json]) -> (r: Result<WirePredicate, String>)
    requires
        items@.len() == predicate_rules(tag).len(),
    ensures
        commands::agrees(r, predicate_in_items(tag, items@)),
{
    match tag {
        PredicateTag::StateEquals => {
            let state = match read_text_value(&items[0]) {
                Some(state) => state,
                None => return Err(missing_field("state")),
            };
            Ok(WirePredicate::StateEquals { state, value: read_scalar_value(&items[1]) })
        },
        PredicateTag::ResourceField => {
            let resource = match read_text_value(&items[0]) {
                Some(resource) => resource,
                None => return Err(missing_field("resource")),
            };
            let field = match read_text_value(&items[1]) {
                Some(field) => field,
                None => return Err(missing_field("field")),
            };
            let operator = match read_operator_value(&items[2]) {
                Some(operator) => operator,
                None => return Err(missing_field("operator")),
            };
            let value = read_scalar_value(&items[3]);
            Ok(WirePredicate::ResourceField { resource, field, operator, value })
        },
        PredicateTag::MarkerCount => {
            let marker = match read_text_value(&items[0]) {
                Some(marker) => marker,
                None => return Err(missing_field("marker")),
            };
            let min = read_count_value(&items[1]);
            let max = read_count_value(&items[2]);
            Ok(WirePredicate::MarkerCount { marker, min, max })
        },
        PredicateTag::TargetExists => {
            let target = match read_target_value(&items[0]) {
                Some(target) => target,
                None => return Err(missing_field("target")),
            };
            let kind = read_kind_value(&items[1]);
            let camera = read_text_value(&items[2]);
            Ok(WirePredicate::TargetExists { target, kind, camera })
        },
        PredicateTag::TargetAbsent => {
            let target = match read_target_value(&items[0]) {
                Some(target) => target,
                None => return Err(missing_field("target")),
            };
            let kind = read_kind_value(&items[1]);
            let camera = read_text_value(&items[2]);
            Ok(WirePredicate::TargetAbsent { target, kind, camera })
        },
    }
}

/// The predicate that a list spells out: its tag, and what its fields hold, in their order.
pub open spec fn predicate_list(items: Seq<Json>) -> Result<WirePredicate, Seq<char>> {
    if items.len() == 0 {
        Err(missing("type"@))
    } else {
        match tag_value(items[0], PREDICATE_TAGS@) {
            Err(m) => Err(m),
            Ok(place) => {
                let tag = predicate_tag(place);
                match list_objection(predicate_rules(tag), items.skip(1), predicate_place(tag)) {
                    Some(m) => Err(m),
                    None => predicate_in_items(tag, items.skip(1)),
                }
            },
        }
    }
}

/// No predicate may leave out its last field in a list.
proof fn lemma_whole_list(tag: PredicateTag, len: nat)
    requires
        needed_from(predicate_rules(tag), len as int) >= predicate_rules(tag).len(),
        len <= predicate_rules(tag).len(),
    ensures
        len == predicate_rules(tag).len(),
{
    reveal_with_fuel(needed_from, 5);
}

fn read_predicate_list(items: &Vec<Json>) -> (r: Result<WirePredicate, String>)
    ensures
        commands::agrees(r, predicate_list(items@)),
{
    let tags = PREDICATE_TAGS;
    if items.len() == 0 {
        return Err(missing_field("type"));
    }
    let place = match read_tag_value(&items[0], tags.as_slice()) {
        Err(m) => return Err(m),
        Ok(place) => place,
    };
    let tag = predicate_tag_at(place);
    let rules = rules_of_predicate(tag);
    let rest = vstd::slice::slice_subrange(items.as_slice(), 1, items.len());
    assert(rest@ =~= items@.skip(1));
    if let Some(m) = object_to_list(&rules, rest, place_of_predicate(tag)) {
        return Err(m);
    }
    proof {
        lemma_whole_list(tag, rest@.len());
    }
    read_predicate_items(tag, rest)
}

/// The predicate that a value spells out: an object with a tag, or a list that begins with one.
pub open spec fn predicate_value(v: Json) -> Result<WirePredicate, Seq<char>> {
    match v {
        Json::Object(o) => match tag_in(o@, "type"@, PREDICATE_TAGS@) {
            Err(m) => Err(m),
            Ok(place) => {
                let tag = predicate_tag(place);
                match plain_fields_objection(predicate_rules(tag), o@) {
                    Some(m) => Err(m),
                    None => predicate_in_fields(tag, o@),
                }
            },
        },
        Json::Array(items) => predicate_list(items@),
        _ => Err(invalid_type_text(v@, "internally tagged enum WirePredicate"@)),
    }
}

/// Reads a value as a predicate.
pub fn read_predicate_value(v: &Json) -> (r: Result<WirePredicate, String>)
    ensures
        commands::agrees(r, predicate_value(*v)),
{
    let tags = PREDICATE_TAGS;
    match v {
        Json::Object(o) => match read_tag(o, "type", tags.as_slice()) {
            Err(m) => Err(m),
            Ok(place) => {
                let tag = predicate_tag_at(place);
                let rules = rules_of_predicate(tag);
                match object_to_plain_fields(&rules, o) {
                    Some(m) => Err(m),
                    None => read_predicate_fields(tag, o),
                }
            },
        },
        Json::Array(items) => read_predicate_list(items),
        _ => Err(invalid_type(v, "internally tagged enum WirePredicate")),
    }
}

/// The predicates that a list of values spells out.
pub open spec fn predicate_values(items: Seq<Json>) -> Result<Seq<WirePredicate>, Seq<char>>
    decreases items.len(),
{
    if items.len() == 0 {
        Ok(Seq::empty())
    } else {
        match predicate_values(items.drop_last()) {
            Err(m) => Err(m),
            Ok(head) => match predicate_value(items.last()) {
                Err(m) => Err(m),
                Ok(last) => Ok(head.push(last)),
            },
        }
    }
}

proof fn lemma_first_error_stays(items: Seq<Json>, i: int)
    requires
        0 <= i <= items.len(),
        predicate_values(items.take(i)) is Err,
    ensures
        predicate_values(items) == predicate_values(items.take(i)),
    decreases items.len(),
{
    if i == items.len() {
        assert(items.take(i) =~= items);
    } else {
        assert(items.drop_last().take(i) =~= items.take(i));
        lemma_first_error_stays(items.drop_last(), i);
    }
}

fn read_predicate_values(items: &Vec<Json>) -> (r: Result<Vec<WirePredicate>, String>)
    ensures
        match r {
            Ok(list) => predicate_values(items@) == Ok::<Seq<WirePredicate>, Seq<char>>(list@),
            Err(m) => predicate_values(items@) == Err::<Seq<WirePredicate>, Seq<char>>(m@),
        },
{
    let mut list: Vec<WirePredicate> = Vec::new();
    let mut i: usize = 0;
    assert(items@.take(0) =~= Seq::<Json>::empty());
    while i < items.len()
        invariant
            i <= items@.len(),
            predicate_values(items@.take(i as int)) == Ok::<Seq<WirePredicate>, Seq<char>>(list@),
        decreases items@.len() - i,
    {
        proof {
            let t = items@.take(i + 1);
            assert(t.drop_last() =~= items@.take(i as int));
            assert(t.last() == items@[i as int]);
        }
        match read_predicate_value(&items[i]) {
            Ok(p) => list.push(p),
            Err(m) => {
                proof {
                    lemma_first_error_stays(items@, i + 1);
                }
                return Err(m);
            },
        }
        i = i + 1;
    }
    assert(items@.take(items@.len() as int) =~= items@);
    Ok(list)
}

/// The objection against what a field holds.
pub open spec fn objection(kind: FieldKind, v: Json) -> Option<Seq<char>> {
    match kind {
        FieldKind::Predicate => match predicate_value(v) {
            Ok(_) => None,
            Err(m) => Some(m),
        },
        FieldKind::Predicates => match v {
            Json::Array(items) => match predicate_values(items@) {
                Ok(_) => None,
                Err(m) => Some(m),
            },
            _ => Some(invalid_type_text(v@, "a sequence"@)),
        },
        _ => plain_objection(kind, v),
    }
}

fn object_to(kind: FieldKind, v: &Json) -> (r: Option<String>)
    ensures
        objects(r, objection(kind, *v)),
{
    match kind {
        FieldKind::Predicate => match read_predicate_value(v) {
            Ok(_) => None,
            Err(m) => Some(m),
        },
        FieldKind::Predicates => match v {
            Json::Array(items) => match read_predicate_values(items) {
                Ok(_) => None,
                Err(m) => Some(m),
            },
            _ => Some(invalid_type(v, "a sequence")),
        },
        _ => object_to_plain(kind, v),
    }
}

/// The objection against a field of an object under the rules for a command.
pub open spec fn field_objection(rules: Seq<FieldRule>, field: (String, Json)) -> Option<
    Seq<char>,
> {
    match rule_for(rules, field.0@) {
        Some(kind) => objection(kind, field.1),
        None => None,
    }
}

/// The first objection against the fields of an object under the rules for a command.
pub open spec fn fields_objection(rules: Seq<FieldRule>, o: Seq<(String, Json)>) -> Option<
    Seq<char>,
>
    decreases o.len(),
{
    if o.len() == 0 {
        None
    } else if field_objection(rules, o[0]) is Some {
        field_objection(rules, o[0])
    } else {
        fields_objection(rules, o.skip(1))
    }
}

fn object_to_fields(rules: &Vec<FieldRule>, o: &Vec<(String, Json)>) -> (r: Option<String>)
    ensures
        objects(r, fields_objection(rules@, o@)),
{
    let mut i: usize = 0;
    assert(o@.skip(0) =~= o@);
    while i < o.len()
        invariant
            i <= o@.len(),
            fields_objection(rules@, o@) == fields_objection(rules@, o@.skip(i as int)),
        decreases o@.len() - i,
    {
        assert(o@.skip(i as int)[0] == o@[i as int]);
        assert(o@.skip(i as int).skip(1) =~= o@.skip(i + 1));
        if let Some(kind) = find_rule(rules, o[i].0.as_str()) {
            if let Some(m) = object_to(kind, &o[i].1) {
                return Some(m);
            }
        }
        i = i + 1;
    }
    None
}

/// The predicate under a name.
pub open spec fn predicate_in(o: Seq<(String, Json)>, name: Seq<char>) -> Option<WirePredicate> {
    match json::lookup(o, name) {
        Some(v) => match predicate_value(v) {
            Ok(p) => Some(p),
            Err(_) => None,
        },
        None => None,
    }
}

fn read_predicate(o: &Vec<(String, Json)>, name: &str) -> (r: Option<WirePredicate>)
    ensures
        r == predicate_in(o@, name@),
{
    match find_entry(o, name) {
        Some(v) => match read_predicate_value(v) {
            Ok(p) => Some(p),
            Err(_) => None,
        },
        None => None,
    }
}

/// The predicates under a name; none where it is left out.
pub open spec fn predicates_in(o: Seq<(String, Json)>, name: Seq<char>) -> Seq<WirePredicate> {
    match json::lookup(o, name) {
        Some(Json::Array(items)) => match predicate_values(items@) {
            Ok(list) => list,
            Err(_) => Seq::empty(),
        },
        _ => Seq::empty(),
    }
}

fn read_predicates(o: &Vec<(String, Json)>, name: &str) -> (r: Vec<WirePredicate>)
    ensures
        r@ == predicates_in(o@, name@),
{
    match find_entry(o, name) {
        Some(Json::Array(items)) => match read_predicate_values(items) {
            Ok(list) => list,
            Err(_) => Vec::new(),
        },
        _ => Vec::new(),
    }
}

/// The command that well-typed fields spell out, but for a wait for a predicate.
pub open spec fn command_in_fields(tag: CommandTag, o: Seq<(String, Json)>) -> Result<WireCommand, Seq<char>> {
    match tag {
        CommandTag::KeyDown => match required(text_in(o, "key"@), "key"@) {
            Err(m) => Err(m),
            Ok(key) => Ok(WireCommand::KeyDown { key }),
        },
        CommandTag::KeyUp => match required(text_in(o, "key"@), "key"@) {
            Err(m) => Err(m),
            Ok(key) => Ok(WireCommand::KeyUp { key }),
        },
        CommandTag::MouseDown => match required(text_in(o, "button"@), "button"@) {
            Err(m) => Err(m),
            Ok(button) => Ok(WireCommand::MouseDown { button }),
        },
        CommandTag::MouseUp => match required(text_in(o, "button"@), "button"@) {
            Err(m) => Err(m),
            Ok(button) => Ok(WireCommand::MouseUp { button }),
        },
        CommandTag::CursorMove => match required(single_in(o, "x"@), "x"@) {
            Err(m) => Err(m),
            Ok(x) => match required(single_in(o, "y"@), "y"@) {
                Err(m) => Err(m),
                Ok(y) => Ok(WireCommand::CursorMove { x, y }),
            },
        },
        CommandTag::MouseMotion => match required(single_in(o, "dx"@), "dx"@) {
            Err(m) => Err(m),
            Ok(dx) => match required(single_in(o, "dy"@), "dy"@) {
                Err(m) => Err(m),
                Ok(dy) => Ok(WireCommand::MouseMotion { dx, dy }),
            },
        },
        CommandTag::MouseScroll => {
            let x = single_or_zero(o, "x"@);
            match required(single_in(o, "y"@), "y"@) {
            Err(m) => Err(m),
            Ok(y) => {
                let unit = text_in(o, "unit"@);
                Ok(WireCommand::MouseScroll { x, y, unit })
            },
        }
        },
        CommandTag::Text => match required(text_in(o, "value"@), "value"@) {
            Err(m) => Err(m),
            Ok(value) => Ok(WireCommand::Text { value }),
        },
        CommandTag::FileHover => match required(text_in(o, "path"@), "path"@) {
            Err(m) => Err(m),
            Ok(path) => Ok(WireCommand::FileHover { path }),
        },
        CommandTag::FileDrop => match required(text_in(o, "path"@), "path"@) {
            Err(m) => Err(m),
            Ok(path) => Ok(WireCommand::FileDrop { path }),
        },
        CommandTag::FileCancel => Ok(WireCommand::FileCancel),
        CommandTag::WindowInfo => Ok(WireCommand::WindowInfo),
        CommandTag::Wait => {
            let frames = frames_in(o, "frames"@);
            Ok(WireCommand::Wait { frames })
        },
        CommandTag::WaitSeconds => match required(seconds_in(o, "seconds"@), "seconds"@) {
            Err(m) => Err(m),
            Ok(seconds) => {
                let max_frames = frames_in(o, "max_frames"@);
                Ok(WireCommand::WaitSeconds { seconds, max_frames })
            },
        },
        CommandTag::AdvanceTime => match required(seconds_in(o, "seconds"@), "seconds"@) {
            Err(m) => Err(m),
            Ok(seconds) => {
                let step_seconds = seconds_in(o, "step_seconds"@);
                Ok(WireCommand::AdvanceTime { seconds, step_seconds })
            },
        },
        CommandTag::Capture => {
            let label = text_in(o, "label"@);
            Ok(WireCommand::Capture { label })
        },
        CommandTag::CaptureAfterFrames => match required(frames_in(o, "frames"@), "frames"@) {
            Err(m) => Err(m),
            Ok(frames) => {
                let label = text_in(o, "label"@);
                Ok(WireCommand::CaptureAfterFrames { frames, label })
            },
        },
        CommandTag::ReleaseAllInputs => Ok(WireCommand::ReleaseAllInputs),
        CommandTag::Shutdown => Ok(WireCommand::Shutdown),
        CommandTag::Click => match required(single_in(o, "x"@), "x"@) {
            Err(m) => Err(m),
            Ok(x) => match required(single_in(o, "y"@), "y"@) {
                Err(m) => Err(m),
                Ok(y) => {
                    let button = text_in(o, "button"@);
                    {
                    let frames = frames_in(o, "frames"@);
                    Ok(WireCommand::Click { x, y, button, frames })
                }
                },
            },
        },
        CommandTag::Drag => match required(pair_in(o, "from"@), "from"@) {
            Err(m) => Err(m),
            Ok(from) => match required(pair_in(o, "to"@), "to"@) {
                Err(m) => Err(m),
                Ok(to) => {
                    let button = text_in(o, "button"@);
                    {
                    let steps = frames_in(o, "steps"@);
                    {
                    let frames = frames_in(o, "frames"@);
                    Ok(WireCommand::Drag { from, to, button, steps, frames })
                }
                }
                },
            },
        },
        CommandTag::Scroll => match required(single_in(o, "lines"@), "lines"@) {
            Err(m) => Err(m),
            Ok(lines) => {
                let x = single_or_zero(o, "x"@);
                {
                let unit = text_in(o, "unit"@);
                Ok(WireCommand::Scroll { lines, x, unit })
            }
            },
        },
        CommandTag::KeyTap => match required(text_in(o, "key"@), "key"@) {
            Err(m) => Err(m),
            Ok(key) => {
                let frames = frames_in(o, "frames"@);
                Ok(WireCommand::KeyTap { key, frames })
            },
        },
        CommandTag::KeyHold => match required(text_in(o, "key"@), "key"@) {
            Err(m) => Err(m),
            Ok(key) => {
                let frames = frames_in(o, "frames"@);
                Ok(WireCommand::KeyHold { key, frames })
            },
        },
        CommandTag::TargetInfo => match required(target_in(o, "target"@), "target"@) {
            Err(m) => Err(m),
            Ok(target) => {
                let kind = kind_in(o, "kind"@);
                {
                let camera = text_in(o, "camera"@);
                Ok(WireCommand::TargetInfo { target, kind, camera })
            }
            },
        },
        CommandTag::ClickTarget => match required(target_in(o, "target"@), "target"@) {
            Err(m) => Err(m),
            Ok(target) => {
                let kind = kind_in(o, "kind"@);
                {
                let camera = text_in(o, "camera"@);
                {
                let button = text_in(o, "button"@);
                {
                let frames = frames_in(o, "frames"@);
                Ok(WireCommand::ClickTarget { target, kind, camera, button, frames })
            }
            }
            }
            },
        },
        CommandTag::ResourceInfo => {
            let resource = text_in(o, "resource"@);
            {
            let field = text_in(o, "field"@);
            Ok(WireCommand::ResourceInfo { resource, field })
        }
        },
        CommandTag::EvaluatePredicate => match required(predicate_in(o, "predicate"@), "predicate"@) {
            Err(m) => Err(m),
            Ok(predicate) => Ok(WireCommand::EvaluatePredicate { predicate }),
        },
        CommandTag::WaitFor => Err(Seq::empty()),
        CommandTag::EcsSummary => Ok(WireCommand::EcsSummary),
        CommandTag::ListEntities => Ok(WireCommand::ListEntities),
        CommandTag::CameraInfo => Ok(WireCommand::CameraInfo),
        CommandTag::StateInfo => Ok(WireCommand::StateInfo),
        CommandTag::MarkerInfo => Ok(WireCommand::MarkerInfo),
    }
}

fn read_command_fields(tag: CommandTag, o: &Vec<(String, Json)>) -> (r: Result<WireCommand, String>)
    requires
        !(tag is WaitFor),
    ensures
        commands::agrees(r, command_in_fields(tag, o@)),
{
    match tag {
        CommandTag::KeyDown => {
            let key = match read_text(o, "key") {
                Some(key) => key,
                None => return Err(missing_field("key")),
            };
            Ok(WireCommand::KeyDown { key })
        },
        CommandTag::KeyUp => {
            let key = match read_text(o, "key") {
                Some(key) => key,
                None => return Err(missing_field("key")),
            };
            Ok(WireCommand::KeyUp { key })
        },
        CommandTag::MouseDown => {
            let button = match read_text(o, "button") {
                Some(button) => button,
                None => return Err(missing_field("button")),
            };
            Ok(WireCommand::MouseDown { button })
        },
        CommandTag::MouseUp => {
            let button = match read_text(o, "button") {
                Some(button) => button,
                None => return Err(missing_field("button")),
            };
            Ok(WireCommand::MouseUp { button })
        },
        CommandTag::CursorMove => {
            let x = match read_single(o, "x") {
                Some(x) => x,
                None => return Err(missing_field("x")),
            };
            let y = match read_single(o, "y") {
                Some(y) => y,
                None => return Err(missing_field("y")),
            };
            Ok(WireCommand::CursorMove { x, y })
        },
        CommandTag::MouseMotion => {
            let dx = match read_single(o, "dx") {
                Some(dx) => dx,
                None => return Err(missing_field("dx")),
            };
            let dy = match read_single(o, "dy") {
                Some(dy) => dy,
                None => return Err(missing_field("dy")),
            };
            Ok(WireCommand::MouseMotion { dx, dy })
        },
        CommandTag::MouseScroll => {
            let x = read_single_or_zero(o, "x");
            let y = match read_single(o, "y") {
                Some(y) => y,
                None => return Err(missing_field("y")),
            };
            let unit = read_text(o, "unit");
            Ok(WireCommand::MouseScroll { x, y, unit })
        },
        CommandTag::Text => {
            let value = match read_text(o, "value") {
                Some(value) => value,
                None => return Err(missing_field("value")),
            };
            Ok(WireCommand::Text { value })
        },
        CommandTag::FileHover => {
            let path = match read_text(o, "path") {
                Some(path) => path,
                None => return Err(missing_field("path")),
            };
            Ok(WireCommand::FileHover { path })
        },
        CommandTag::FileDrop => {
            let path = match read_text(o, "path") {
                Some(path) => path,
                None => return Err(missing_field("path")),
            };
            Ok(WireCommand::FileDrop { path })
        },
        CommandTag::FileCancel => Ok(WireCommand::FileCancel),
        CommandTag::WindowInfo => Ok(WireCommand::WindowInfo),
        CommandTag::Wait => {
            let frames = read_frames(o, "frames");
            Ok(WireCommand::Wait { frames })
        },
        CommandTag::WaitSeconds => {
            let seconds = match read_seconds(o, "seconds") {
                Some(seconds) => seconds,
                None => return Err(missing_field("seconds")),
            };
            let max_frames = read_frames(o, "max_frames");
            Ok(WireCommand::WaitSeconds { seconds, max_frames })
        },
        CommandTag::AdvanceTime => {
            let seconds = match read_seconds(o, "seconds") {
                Some(seconds) => seconds,
                None => return Err(missing_field("seconds")),
            };
            let step_seconds = read_seconds(o, "step_seconds");
            Ok(WireCommand::AdvanceTime { seconds, step_seconds })
        },
        CommandTag::Capture => {
            let label = read_text(o, "label");
            Ok(WireCommand::Capture { label })
        },
        CommandTag::CaptureAfterFrames => {
            let frames = match read_frames(o, "frames") {
                Some(frames) => frames,
                None => return Err(missing_field("frames")),
            };
            let label = read_text(o, "label");
            Ok(WireCommand::CaptureAfterFrames { frames, label })
        },
        CommandTag::ReleaseAllInputs => Ok(WireCommand::ReleaseAllInputs),
        CommandTag::Shutdown => Ok(WireCommand::Shutdown),
        CommandTag::Click => {
            let x = match read_single(o, "x") {
                Some(x) => x,
                None => return Err(missing_field("x")),
            };
            let y = match read_single(o, "y") {
                Some(y) => y,
                None => return Err(missing_field("y")),
            };
            let button = read_text(o, "button");
            let frames = read_frames(o, "frames");
            Ok(WireCommand::Click { x, y, button, frames })
        },
        CommandTag::Drag => {
            let from = match read_pair(o, "from") {
                Some(from) => from,
                None => return Err(missing_field("from")),
            };
            let to = match read_pair(o, "to") {
                Some(to) => to,
                None => return Err(missing_field("to")),
            };
            let button = read_text(o, "button");
            let steps = read_frames(o, "steps");
            let frames = read_frames(o, "frames");
            Ok(WireCommand::Drag { from, to, button, steps, frames })
        },
        CommandTag::Scroll => {
            let lines = match read_single(o, "lines") {
                Some(lines) => lines,
                None => return Err(missing_field("lines")),
            };
            let x = read_single_or_zero(o, "x");
            let unit = read_text(o, "unit");
            Ok(WireCommand::Scroll { lines, x, unit })
        },
        CommandTag::KeyTap => {
            let key = match read_text(o, "key") {
                Some(key) => key,
                None => return Err(missing_field("key")),
            };
            let frames = read_frames(o, "frames");
            Ok(WireCommand::KeyTap { key, frames })
        },
        CommandTag::KeyHold => {
            let key = match read_text(o, "key") {
                Some(key) => key,
                None => return Err(missing_field("key")),
            };
            let frames = read_frames(o, "frames");
            Ok(WireCommand::KeyHold { key, frames })
        },
        CommandTag::TargetInfo => {
            let target = match read_target(o, "target") {
                Some(target) => target,
                None => return Err(missing_field("target")),
            };
            let kind = read_kind(o, "kind");
            let camera = read_text(o, "camera");
            Ok(WireCommand::TargetInfo { target, kind, camera })
        },
        CommandTag::ClickTarget => {
            let target = match read_target(o, "target") {
                Some(target) => target,
                None => return Err(missing_field("target")),
            };
            let kind = read_kind(o, "kind");
            let camera = read_text(o, "camera");
            let button = read_text(o, "button");
            let frames = read_frames(o, "frames");
            Ok(WireCommand::ClickTarget { target, kind, camera, button, frames })
        },
        CommandTag::ResourceInfo => {
            let resource = read_text(o, "resource");
            let field = read_text(o, "field");
            Ok(WireCommand::ResourceInfo { resource, field })
        },
        CommandTag::EvaluatePredicate => {
            let predicate = match read_predicate(o, "predicate") {
                Some(predicate) => predicate,
                None => return Err(missing_field("predicate")),
            };
            Ok(WireCommand::EvaluatePredicate { predicate })
        },
        CommandTag::WaitFor => Err(String::new()),
        CommandTag::EcsSummary => Ok(WireCommand::EcsSummary),
        CommandTag::ListEntities => Ok(WireCommand::ListEntities),
        CommandTag::CameraInfo => Ok(WireCommand::CameraInfo),
        CommandTag::StateInfo => Ok(WireCommand::StateInfo),
        CommandTag::MarkerInfo => Ok(WireCommand::MarkerInfo),
    }
}

/// The result `r` is the command that an object spells out.
pub open spec fn wire_agrees(o: Seq<(String, Json)>, r: Result<WireCommand, String>) -> bool {
    match tag_in(o, "command"@, COMMAND_TAGS@) {
        Err(m) => r matches Err(n) && n@ == m,
        Ok(place) => {
            let tag = command_tag(place);
            match fields_objection(command_rules(tag), o) {
                Some(m) => r matches Err(n) && n@ == m,
                None => if tag is WaitFor {
                    match predicate_in(o, "predicate"@) {
                        None => r matches Err(n) && n@ == missing("predicate"@),
                        Some(p) => {
                            &&& r matches Ok(
                                WireCommand::WaitFor { predicate, abort_predicates, max_frames },
                            )
                            &&& predicate == p
                            &&& abort_predicates@ == predicates_in(o, "abort_predicates"@)
                            &&& max_frames == frames_in(o, "max_frames"@)
                        },
                    }
                } else {
                    commands::agrees(r, command_in_fields(tag, o))
                },
            }
        },
    }
}

/// Reads the command that an object spells out.
pub fn read_command(o: &Vec<(String, Json)>) -> (r: Result<WireCommand, String>)
    ensures
        wire_agrees(o@, r),
{
    let tags = COMMAND_TAGS;
    let place = match read_tag(o, "command", tags.as_slice()) {
        Ok(place) => place,
        Err(m) => return Err(m),
    };
    let tag = command_tag_at(place);
    let rules = rules_of_command(tag);
    if let Some(m) = object_to_fields(&rules, o) {
        return Err(m);
    }
    if matches!(tag, CommandTag::WaitFor) {
        return match read_predicate(o, "predicate") {
            Some(predicate) => Ok(
                WireCommand::WaitFor {
                    predicate,
                    abort_predicates: read_predicates(o, "abort_predicates"),
                    max_frames: read_frames(o, "max_frames"),
                },
            ),
            None => Err(missing_field("predicate")),
        };
    }
    read_command_fields(tag, o)
}

/// A request: what it is known by, and its command.
pub struct AgentRequestBody {
    /// What the response repeats.
    pub id: Json,
    /// The command.
    pub command: AgentCommand,
}

/// A request that was not understood.
pub struct ParseRequestError {
    /// What the response repeats.
    pub id: Json,
    /// `invalid_request` or `invalid_argument`.
    pub code: &'static str,
    /// What is wrong.
    pub message: String,
}

/// The result `r` is an error with this content.
pub open spec fn fails(
    r: Result<AgentRequestBody, ParseRequestError>,
    id: Json,
    code: &'static str,
    message: Seq<char>,
) -> bool {
    r matches Err(e) && e.id == id && e.code == code && e.message@ == message
}

/// The result `r` is the request that a JSON value spells out.
///
/// The identification of a request is repeated in the error wherever the value has one.
pub open spec fn request_agrees(
    json: Json,
    limits: ParseLimits,
    r: Result<AgentRequestBody, ParseRequestError>,
) -> bool {
    match json {
        Json::Object(o) => match json::lookup(o@, "id"@) {
            None => fails(r, Json::Null, "invalid_request", missing("id"@)),
            Some(id) => exists|wire: Result<WireCommand, String>|
                {
                    &&& #[trigger] wire_agrees(o@, wire)
                    &&& match wire {
                        Err(m) => fails(r, id, "invalid_request", m@),
                        Ok(command) => exists|parsed: Result<AgentCommand, String>|
                            {
                                &&& #[trigger] requests::command_agrees(command, limits, parsed)
                                &&& match parsed {
                                    Err(m) => fails(r, id, "invalid_argument", m@),
                                    Ok(command) => r matches Ok(body) && body.id == id
                                        && body.command == command,
                                }
                            },
                    }
                },
        },
        _ => fails(
            r,
            Json::Null,
            "invalid_request",
            invalid_type_text(json@, "struct WireRequest"@),
        ),
    }
}

fn take_entry(o: Vec<(String, Json)>, name: &str) -> (r: Option<Json>)
    ensures
        r == json::lookup(o@, name@),
{
    let mut rest = o;
    while rest.len() > 0
        invariant
            json::lookup(o@, name@) == json::lookup(rest@, name@),
        decreases rest@.len(),
    {
        let ghost before = rest@;
        match rest.pop() {
            Some(entry) => {
                assert(rest@ =~= before.drop_last());
                if same_text(entry.0.as_str(), name) {
                    return Some(entry.1);
                }
            },
            None => {},
        }
    }
    None
}

/// Reads the request that a JSON value spells out.
pub fn request_of_json(json: Json, limits: ParseLimits) -> (r: Result<
    AgentRequestBody,
    ParseRequestError,
>)
    requires
        limits.wf(),
    ensures
        request_agrees(json, limits, r),
{
    let o = match json {
        Json::Object(o) => o,
        other => return Err(
            ParseRequestError {
                id: Json::Null,
                code: "invalid_request",
                message: invalid_type(&other, "struct WireRequest"),
            },
        ),
    };
    let wire = read_command(&o);
    let id = match take_entry(o, "id") {
        Some(id) => id,
        None => return Err(
            ParseRequestError {
                id: Json::Null,
                code: "invalid_request",
                message: missing_field("id"),
            },
        ),
    };
    let command = match wire {
        Ok(command) => command,
        Err(message) => return Err(ParseRequestError { id, code: "invalid_request", message }),
    };
    let parsed = parse_wire_command(command, limits);
    assert(requests::command_agrees(command, limits, parsed));
    match parsed {
        Ok(command) => Ok(AgentRequestBody { id, command }),
        Err(message) => Err(ParseRequestError { id, code: "invalid_argument", message }),
    }
}

/// Reads a line as a request, and holds its command to `limits`.
pub fn parse_request_with_limits(line: &str, limits: ParseLimits) -> (r: Result<
    AgentRequestBody,
    ParseRequestError,
>)
    requires
        limits.wf(),
    ensures
        match json::parsed_json(line@) {
            Err(m) => fails(r, Json::Null, "invalid_request", m),
            Ok(value) => exists|json: Json|
                json@ == value && json::canonical(json) && #[trigger] request_agrees(
                    json,
                    limits,
                    r,
                ),
        },
{
    match parse_json(line) {
        Ok(json) => request_of_json(json, limits),
        Err(message) => Err(ParseRequestError { id: Json::Null, code: "invalid_request", message }),
    }
}

/// Reads a line as a request, with ten seconds and 600 steps as the bounds of an advance of time.
pub fn parse_request(line: &str, max_wait_frames: u16, max_action_steps: u16) -> (r: Result<
    AgentRequestBody,
    ParseRequestError,
>)
    ensures
        match json::parsed_json(line@) {
            Err(m) => fails(r, Json::Null, "invalid_request", m),
            Ok(value) => exists|json: Json|
                json@ == value && json::canonical(json) && #[trigger] request_agrees(
                    json,
                    ParseLimits {
                        max_wait_frames,
                        max_action_steps,
                        max_time_advance_steps: 600,
                        max_time_advance: crate::span::Span { nanos: 10_000_000_000 },
                    },
                    r,
                ),
        },
{
    parse_request_with_limits(
        line,
        ParseLimits {
            max_wait_frames,
            max_action_steps,
            max_time_advance_steps: 600,
            max_time_advance: crate::span::Span::from_secs(10),
        },
    )
}

} // verus!
