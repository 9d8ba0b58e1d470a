//! What holds of every command that is accepted.
use vstd::prelude::*;

use crate::commands;
use crate::commands::{
    AgentCommand, DiagnosticValue, ParseLimits, Point, Predicate, TargetSelector, WireCommand,
    WirePredicate, MAX_SCALAR_STRING_BYTES, MAX_SELECTOR_BYTES,
};
use crate::control;
use crate::json;
use crate::json::Json;
use crate::names;
use crate::names::KEY_CODE_NAMES;
use crate::reals;
use crate::requests;
use crate::text;
use crate::wire;
use crate::wire::{AgentRequestBody, ParseRequestError};

verus! {

/// A number of frames that is allowed.
pub open spec fn frames_ok(frames: u16, limits: ParseLimits) -> bool {
    1 <= frames <= limits.max_wait_frames
}

/// A position that is finite.
pub open spec fn point_ok(p: Point) -> bool {
    reals::single_finite(p.x) && reals::single_finite(p.y)
}

/// A text that is not empty and not too long.
pub open spec fn text_ok(s: Seq<char>, most: usize) -> bool {
    s.len() > 0 && text::byte_len(s) <= most
}

/// An optional text that is not empty and not too long.
pub open spec fn option_ok(s: Option<String>) -> bool {
    s matches Some(t) ==> text_ok(t@, MAX_SELECTOR_BYTES)
}

/// A selector whose text is not empty and not too long.
pub open spec fn selector_ok(target: TargetSelector) -> bool {
    match target {
        TargetSelector::Name(s) => text_ok(s@, MAX_SELECTOR_BYTES),
        TargetSelector::AccessibilityLabel(s) => text_ok(s@, MAX_SELECTOR_BYTES),
        TargetSelector::Marker(s) => text_ok(s@, MAX_SELECTOR_BYTES),
    }
}

/// A value that is a finite number or a bounded text where it is a number or a text.
pub open spec fn value_ok(value: DiagnosticValue) -> bool {
    match value {
        DiagnosticValue::Number(bits) => reals::double_finite(bits),
        DiagnosticValue::String(s) => text_ok(s@, MAX_SCALAR_STRING_BYTES),
        _ => true,
    }
}

/// A predicate that is bounded, and that can hold.
pub open spec fn predicate_ok(predicate: Predicate) -> bool {
    match predicate {
        Predicate::StateEquals { state, value } => text_ok(state@, MAX_SELECTOR_BYTES) && value_ok(
            value,
        ),
        Predicate::ResourceField { resource, field, operator, value } => {
            &&& text_ok(resource@, MAX_SELECTOR_BYTES)
            &&& text_ok(field@, MAX_SELECTOR_BYTES)
            &&& value_ok(value)
            &&& operator.spec_is_ordering() ==> value is Number
        },
        Predicate::MarkerCount { marker, min, max } => {
            &&& text_ok(marker@, MAX_SELECTOR_BYTES)
            &&& min is Some || max is Some
            &&& min is Some && max is Some ==> min->Some_0 <= max->Some_0
        },
        Predicate::TargetExists { target, kind, camera } => selector_ok(target) && option_ok(
            camera,
        ),
        Predicate::TargetAbsent { target, kind, camera } => selector_ok(target) && option_ok(
            camera,
        ),
    }
}

/// A command that is within the limits.
pub open spec fn within(command: AgentCommand, limits: ParseLimits) -> bool {
    match command {
        AgentCommand::CursorMove { position } => point_ok(position),
        AgentCommand::MouseMotion { delta } => point_ok(delta),
        AgentCommand::MouseScroll { delta, unit } => point_ok(delta),
        AgentCommand::Wait { frames } => frames_ok(frames, limits),
        AgentCommand::WaitSeconds { duration, max_frames } => duration.nanos > 0 && frames_ok(
            max_frames,
            limits,
        ),
        AgentCommand::AdvanceTime { duration, step } => {
            &&& 0 < duration.nanos <= limits.max_time_advance.nanos
            &&& step matches Some(step) ==> step.nanos > 0 && commands::steps_needed(duration, step)
                <= commands::at_least_one(limits.max_time_advance_steps)
        },
        AgentCommand::Capture { label } => label matches Some(l) ==> commands::capture_label_ok(l@),
        AgentCommand::CaptureAfterFrames { frames, label } => frames_ok(frames, limits) && (
        label matches Some(l) ==> commands::capture_label_ok(l@)),
        AgentCommand::Click { position, button, frames } => point_ok(position) && frames_ok(
            frames,
            limits,
        ),
        AgentCommand::Drag { from, to, button, steps, frames } => {
            &&& point_ok(from)
            &&& point_ok(to)
            &&& 1 <= steps <= commands::at_least_one(limits.max_action_steps)
            &&& steps <= frames
            &&& frames_ok(frames, limits)
        },
        AgentCommand::KeyHold { key, frames } => frames_ok(frames, limits),
        AgentCommand::TargetInfo { target, kind, camera } => selector_ok(target) && option_ok(
            camera,
        ),
        AgentCommand::ClickTarget { target, kind, camera, button, frames } => selector_ok(target)
            && option_ok(camera) && frames_ok(frames, limits),
        AgentCommand::ResourceInfo { resource, field } => option_ok(resource) && option_ok(field),
        AgentCommand::EvaluatePredicate { predicate } => predicate_ok(predicate),
        AgentCommand::WaitFor { predicate, abort_predicates, max_frames } => {
            &&& predicate_ok(predicate)
            &&& forall|i: int|
                0 <= i < abort_predicates@.len() ==> predicate_ok(#[trigger] abort_predicates@[i])
            &&& frames_ok(max_frames, limits)
        },
        _ => true,
    }
}

proof fn lemma_key_known(value: Seq<char>)
    ensures
        commands::key_code(value) matches Ok(key) ==> key.place < KEY_CODE_NAMES@.len(),
{
    reveal(names::named);
    if exists|place: int| #[trigger] names::is_first_match(KEY_CODE_NAMES@, value, place) {
        let place = choose|place: int| #[trigger]
            names::is_first_match(KEY_CODE_NAMES@, value, place);
        assert(names::is_first_match(KEY_CODE_NAMES@, value, place));
    }
}

proof fn lemma_predicates_ok(list: Seq<WirePredicate>)
    ensures
        commands::predicates_of(list) matches Ok(all) ==> forall|i: int|
            0 <= i < all.len() ==> predicate_ok(#[trigger] all[i]),
    decreases list.len(),
{
    if list.len() > 0 {
        lemma_predicates_ok(list.skip(1));
        lemma_predicate_ok(list[0]);
        if let Ok(first) = commands::predicate_of(list[0]) {
            if let Ok(rest) = commands::predicates_of(list.skip(1)) {
                let all = seq![first] + rest;
                assert forall|i: int| 0 <= i < all.len() implies predicate_ok(#[trigger] all[i]) by {
                    if i > 0 {
                        assert(all[i] == rest[i - 1]);
                    }
                }
            }
        }
    }
}

proof fn lemma_predicate_ok(predicate: WirePredicate)
    ensures
        commands::predicate_of(predicate) matches Ok(p) ==> predicate_ok(p),
{
    match predicate {
        WirePredicate::StateEquals { state, value } => {},
        WirePredicate::ResourceField { resource, field, operator, value } => {},
        WirePredicate::MarkerCount { marker, min, max } => {},
        WirePredicate::TargetExists { target, kind, camera } => {
            lemma_target_ok(target);
        },
        WirePredicate::TargetAbsent { target, kind, camera } => {
            lemma_target_ok(target);
        },
    }
}

proof fn lemma_target_ok(target: commands::WireTargetSelector)
    ensures
        commands::target_of(target) matches Ok(t) ==> selector_ok(t),
{
}

proof fn lemma_advance_within(
    seconds: commands::WireSeconds,
    step_seconds: Option<commands::WireSeconds>,
    limits: ParseLimits,
)
    ensures
        requests::advance_of(seconds, step_seconds, limits) matches Ok(c) ==> within(c, limits)
            && control::command_ok(c),
{
}

proof fn lemma_drag_within(
    from: Point,
    to: Point,
    button: Option<String>,
    steps: Option<u16>,
    frames: Option<u16>,
    limits: ParseLimits,
)
    ensures
        requests::drag_of(from, to, button, steps, frames, limits) matches Ok(c) ==> within(
            c,
            limits,
        ) && control::command_ok(c),
{
}

#[verifier::spinoff_prover]
#[verifier::rlimit(60)]
proof fn lemma_parsed_within(command: WireCommand, limits: ParseLimits, r: Result<
    AgentCommand,
    String,
>)
    requires
        requests::command_agrees(command, limits, r),
    ensures
        r matches Ok(c) ==> within(c, limits) && control::command_ok(c),
{
    match command {
        WireCommand::KeyDown { key } => lemma_key_known(key@),
        WireCommand::KeyUp { key } => lemma_key_known(key@),
        WireCommand::KeyTap { key, frames } => lemma_key_known(key@),
        WireCommand::KeyHold { key, frames } => lemma_key_known(key@),
        WireCommand::WaitFor { predicate, abort_predicates, max_frames } => {
            lemma_predicate_ok(predicate);
            lemma_predicates_ok(abort_predicates@);
        },
        WireCommand::EvaluatePredicate { predicate } => lemma_predicate_ok(predicate),
        WireCommand::AdvanceTime { seconds, step_seconds } => lemma_advance_within(
            seconds,
            step_seconds,
            limits,
        ),
        WireCommand::Drag { from, to, button, steps, frames } => lemma_drag_within(
            from,
            to,
            button,
            steps,
            frames,
            limits,
        ),
        WireCommand::TargetInfo { target, kind, camera } => lemma_target_ok(target),
        WireCommand::ClickTarget { target, kind, camera, button, frames } => lemma_target_ok(
            target,
        ),
        _ => {},
    }
}

/// Law: every command that is accepted is within the limits: its frames, moves and steps are
/// between one and what is allowed, its times are above zero, its positions are finite, its texts
/// are not empty and not too long, and its key is known.
pub proof fn law_accepted_commands_are_bounded(
    json: Json,
    limits: ParseLimits,
    r: Result<AgentRequestBody, ParseRequestError>,
)
    requires
        wire::request_agrees(json, limits, r),
    ensures
        r matches Ok(body) ==> within(body.command, limits) && control::command_ok(body.command),
{
    if r is Ok {
        let o = json->Object_0;
        let wire = choose|wire: Result<WireCommand, String>|
            {
                &&& #[trigger] wire::wire_agrees(o@, wire)
                &&& match wire {
                    Err(m) => wire::fails(
                        r,
                        json::lookup(o@, "id"@)->Some_0,
                        "invalid_request",
                        m@,
                    ),
                    Ok(command) => exists|parsed: Result<AgentCommand, String>|
                        {
                            &&& #[trigger] requests::command_agrees(command, limits, parsed)
                            &&& match parsed {
                                Err(m) => wire::fails(
                                    r,
                                    json::lookup(o@, "id"@)->Some_0,
                                    "invalid_argument",
                                    m@,
                                ),
                                Ok(command) => r matches Ok(body) && body.id == json::lookup(
                                    o@,
                                    "id"@,
                                )->Some_0 && body.command == command,
                            }
                        },
                }
            };
        let command = wire->Ok_0;
        let parsed = choose|parsed: Result<AgentCommand, String>|
            {
                &&& #[trigger] requests::command_agrees(command, limits, parsed)
                &&& match parsed {
                    Err(m) => wire::fails(
                        r,
                        json::lookup(o@, "id"@)->Some_0,
                        "invalid_argument",
                        m@,
                    ),
                    Ok(command) => r matches Ok(body) && body.id == json::lookup(
                        o@,
                        "id"@,
                    )->Some_0 && body.command == command,
                }
            };
        lemma_parsed_within(command, limits, parsed);
    }
}

/// Law: a key, a button or a scroll unit is read as the one whose name was written, up to ASCII
/// case; a button that is not named is the left one, and a scroll unit that is not named is lines.
pub proof fn law_inputs_are_read_by_their_names(
    value: Seq<char>,
    button: Option<String>,
    unit: Option<String>,
)
    ensures
        commands::key_code(value) matches Ok(key) ==> key.place < KEY_CODE_NAMES@.len()
            && names::same_but_for_case(
            KEY_CODE_NAMES@[key.place as int]@,
            value,
        ),
        commands::mouse_button(value) matches Ok(read) ==> names::same_but_for_case(
            control::button_text(read)@,
            value,
        ),
        commands::button_name(button) == (if button is Some {
            button->Some_0@
        } else {
            "Left"@
        }),
        unit is None ==> commands::scroll_unit(unit) == Ok::<
            crate::commands::MouseScrollUnit,
            Seq<char>,
        >(crate::commands::MouseScrollUnit::Line),
        unit matches Some(name) ==> (commands::scroll_unit(unit) matches Ok(read)
            ==> names::same_but_for_case(
            if read is Line {
                "Line"@
            } else {
                "Pixel"@
            },
            name@,
        )),
{
    names::law_names_are_read_without_case(
        "key"@,
        value,
        KEY_CODE_NAMES@,
    );
    names::law_names_are_read_without_case(
        "button"@,
        value,
        names::MOUSE_BUTTON_NAMES@,
    );
    if unit is Some {
        names::law_names_are_read_without_case(
            "scroll unit"@,
            unit->Some_0@,
            names::MOUSE_SCROLL_UNIT_NAMES@,
        );
    }
}

/// A written position is the one that was read.
pub open spec fn stands_at(p: Point, x: u32, y: u32) -> bool {
    p.x == x && p.y == y
}

/// The frames that were written, or so many where none were.
pub open spec fn written_or(frames: Option<u16>, other: u16, read: u16) -> bool {
    read == (if frames is Some {
        frames->Some_0
    } else {
        other
    })
}

/// Law: a written command is taken up as the command of its name with what was written: positions,
/// texts, labels, targets and frames stay, and what was not written has its default. A tap is a hold,
/// and a scroll by lines moves down by them.
pub proof fn law_written_commands_keep_what_they_say(command: WireCommand, limits: ParseLimits)
    requires
        !(command is WaitFor),
        requests::command_of(command, limits) is Ok,
    ensures
        ({
            let read = requests::command_of(command, limits)->Ok_0;
            match command {
                WireCommand::KeyDown { key } => read is KeyDown && commands::key_code(key@) == Ok::<
                    crate::commands::KeyCode,
                    Seq<char>,
                >(read->KeyDown_0),
                WireCommand::KeyUp { key } => read is KeyUp && commands::key_code(key@) == Ok::<
                    crate::commands::KeyCode,
                    Seq<char>,
                >(read->KeyUp_0),
                WireCommand::MouseDown { button } => read is MouseDown && commands::mouse_button(
                    button@,
                ) == Ok::<crate::commands::MouseButton, Seq<char>>(read->MouseDown_0),
                WireCommand::MouseUp { button } => read is MouseUp && commands::mouse_button(button@)
                    == Ok::<crate::commands::MouseButton, Seq<char>>(read->MouseUp_0),
                WireCommand::CursorMove { x, y } => (read matches AgentCommand::CursorMove {
                    position,
                } && stands_at(position, x, y)),
                WireCommand::MouseMotion { dx, dy } => (read matches AgentCommand::MouseMotion {
                    delta,
                } && stands_at(delta, dx, dy)),
                WireCommand::MouseScroll { x, y, .. } => (read matches AgentCommand::MouseScroll {
                    delta,
                    ..
                } && stands_at(delta, x, y)),
                WireCommand::Scroll { lines, x, .. } => (read matches AgentCommand::MouseScroll {
                    delta,
                    ..
                } && stands_at(delta, x, lines)),
                WireCommand::Text { value } => read == (AgentCommand::Text { value }),
                WireCommand::FileHover { path } => read == (AgentCommand::FileHover { path }),
                WireCommand::FileDrop { path } => read == (AgentCommand::FileDrop { path }),
                WireCommand::FileCancel => read is FileCancel,
                WireCommand::WindowInfo => read is WindowInfo,
                WireCommand::ReleaseAllInputs => read is ReleaseAllInputs,
                WireCommand::Shutdown => read is Shutdown,
                WireCommand::Wait { frames } => (read matches AgentCommand::Wait { frames: n }
                    && written_or(frames, 1, n)),
                WireCommand::WaitSeconds { seconds, max_frames } => (read matches
                    AgentCommand::WaitSeconds { duration, max_frames: n } && Some(duration.nanos)
                    == seconds.nanos && written_or(max_frames, limits.max_wait_frames, n)),
                WireCommand::AdvanceTime { seconds, step_seconds } => (read matches
                    AgentCommand::AdvanceTime { duration, step } && Some(duration.nanos)
                    == seconds.nanos && (step is Some <==> step_seconds is Some) && (
                step matches Some(length) ==> Some(length.nanos) == step_seconds->Some_0.nanos)),
                WireCommand::Capture { label } => read == (AgentCommand::Capture { label }),
                WireCommand::CaptureAfterFrames { frames, label } => read == (
                AgentCommand::CaptureAfterFrames { frames, label }),
                WireCommand::Click { x, y, button, frames } => (read matches AgentCommand::Click {
                    position,
                    button: b,
                    frames: n,
                } && stands_at(position, x, y) && written_or(frames, 1, n)
                    && commands::mouse_button(commands::button_name(button)) == Ok::<
                    crate::commands::MouseButton,
                    Seq<char>,
                >(b)),
                WireCommand::Drag { from, to, button, steps, frames } => (read matches
                    AgentCommand::Drag { from: f, to: t, button: b, steps: k, frames: n } && f
                    == from && t == to && written_or(steps, 10, k) && written_or(frames, k, n)
                    && commands::mouse_button(commands::button_name(button)) == Ok::<
                    crate::commands::MouseButton,
                    Seq<char>,
                >(b)),
                WireCommand::KeyTap { key, frames } => (read matches AgentCommand::KeyHold {
                    key: k,
                    frames: n,
                } && written_or(frames, 1, n) && commands::key_code(key@) == Ok::<
                    crate::commands::KeyCode,
                    Seq<char>,
                >(k)),
                WireCommand::KeyHold { key, frames } => (read matches AgentCommand::KeyHold {
                    key: k,
                    frames: n,
                } && written_or(frames, 1, n) && commands::key_code(key@) == Ok::<
                    crate::commands::KeyCode,
                    Seq<char>,
                >(k)),
                WireCommand::TargetInfo { target, kind, camera } => (read matches
                    AgentCommand::TargetInfo { target: t, kind: k, camera: c } && k == kind && c
                    == camera && selects(t, target)),
                WireCommand::ClickTarget { target, kind, camera, button, frames } => (read matches
                    AgentCommand::ClickTarget { target: t, kind: k, camera: c, button: b, frames: n }
                    && k == kind && c == camera && selects(t, target) && written_or(frames, 1, n)
                    && commands::mouse_button(commands::button_name(button)) == Ok::<
                    crate::commands::MouseButton,
                    Seq<char>,
                >(b)),
                WireCommand::ResourceInfo { resource, field } => read == (
                AgentCommand::ResourceInfo { resource, field }),
                WireCommand::EvaluatePredicate { predicate } => (read matches
                    AgentCommand::EvaluatePredicate { predicate: p } && asks_the_same(p, predicate)),
                WireCommand::EcsSummary => read is EcsSummary,
                WireCommand::ListEntities => read is ListEntities,
                WireCommand::CameraInfo => read is CameraInfo,
                WireCommand::StateInfo => read is StateInfo,
                WireCommand::MarkerInfo => read is MarkerInfo,
                WireCommand::WaitFor { .. } => true,
            }
        }),
{
    if let WireCommand::EvaluatePredicate { predicate } = command {
        law_written_predicates_keep_what_they_say(predicate);
    }
}

/// A target is selected by the one text that was written for it, in the way it was written.
pub open spec fn selects(target: TargetSelector, written: crate::commands::WireTargetSelector) -> bool {
    match target {
        TargetSelector::Name(s) => written.name == Some(s) && written.accessibility_label is None
            && written.marker is None,
        TargetSelector::AccessibilityLabel(s) => written.accessibility_label == Some(s)
            && written.name is None && written.marker is None,
        TargetSelector::Marker(s) => written.marker == Some(s) && written.name is None
            && written.accessibility_label is None,
    }
}

/// A value is the one that was written.
pub open spec fn value_written(value: DiagnosticValue, written: crate::commands::WireScalar) -> bool {
    match value {
        DiagnosticValue::Null => written is Null,
        DiagnosticValue::Bool(b) => written == crate::commands::WireScalar::Bool(b),
        DiagnosticValue::Number(bits) => written == crate::commands::WireScalar::Number(bits),
        DiagnosticValue::String(s) => written == crate::commands::WireScalar::Text(s),
    }
}

/// A predicate asks what was written.
pub open spec fn asks_the_same(predicate: Predicate, written: WirePredicate) -> bool {
    match (predicate, written) {
        (
            Predicate::StateEquals { state, value },
            WirePredicate::StateEquals { state: s, value: v },
        ) => state == s && value_written(value, v),
        (
            Predicate::ResourceField { resource, field, operator, value },
            WirePredicate::ResourceField {
                resource: r,
                field: f,
                operator: o,
                value: v,
            },
        ) => resource == r && field == f && operator == o && value_written(value, v),
        (
            Predicate::MarkerCount { marker, min, max },
            WirePredicate::MarkerCount { marker: m, min: low, max: high },
        ) => marker == m && min == low && max == high,
        (
            Predicate::TargetExists { target, kind, camera },
            WirePredicate::TargetExists { target: t, kind: k, camera: c },
        ) => selects(target, t) && kind == k && camera == c,
        (
            Predicate::TargetAbsent { target, kind, camera },
            WirePredicate::TargetAbsent { target: t, kind: k, camera: c },
        ) => selects(target, t) && kind == k && camera == c,
        _ => false,
    }
}

/// Law: a written predicate is taken up as the one that asks the same.
pub proof fn law_written_predicates_keep_what_they_say(written: WirePredicate)
    ensures
        commands::predicate_of(written) matches Ok(predicate) ==> asks_the_same(predicate, written),
{
}

} // verus!
