//! Requests: a line of JSON, the written command in it, and the command that it stands for.
use crate::text;
use crate::span;
use crate::commands;
use crate::commands::{
    bounded_frames, bounded_optional, parse_button_or_left, parse_key_code, parse_mouse_button,
    parse_predicate, parse_predicates, parse_scroll_unit, parse_target, positive_duration,
    validate_capture_label, validate_step_count, vec2, AgentCommand, ParseLimits, Point,
    WireCommand, WirePredicate, WireSeconds, MAX_SELECTOR_BYTES,
};
use crate::span::seconds_text;
use crate::text::{cat2, cat4, decimal};
use vstd::prelude::*;
use vstd::string::StringExecFns;

verus! {

/// A number of frames, or another where it is left out.
pub open spec fn frames_or(frames: Option<u16>, other: u16) -> u16 {
    match frames {
        Some(n) => n,
        None => other,
    }
}

fn or_frames(frames: Option<u16>, other: u16) -> (r: u16)
    ensures
        r == frames_or(frames, other),
{
    match frames {
        Some(n) => n,
        None => other,
    }
}

/// What a written advance of time is.
pub open spec fn advance_of(
    seconds: WireSeconds,
    step_seconds: Option<WireSeconds>,
    limits: ParseLimits,
) -> Result<AgentCommand, Seq<char>> {
    match commands::positive_span("seconds"@, seconds) {
        Err(m) => Err(m),
        Ok(duration) => if duration.nanos > limits.max_time_advance.nanos {
            Err("seconds must not exceed "@ + span::span_text(limits.max_time_advance))
        } else {
            match step_seconds {
                None => Ok(AgentCommand::AdvanceTime { duration, step: None }),
                Some(written) => match commands::positive_span("step_seconds"@, written) {
                    Err(m) => Err(m),
                    Ok(step) => match commands::step_objection(
                        duration,
                        step,
                        limits.max_time_advance_steps,
                    ) {
                        Some(m) => Err(m),
                        None => Ok(AgentCommand::AdvanceTime { duration, step: Some(step) }),
                    },
                },
            }
        },
    }
}

fn parse_advance(
    seconds: WireSeconds,
    step_seconds: Option<WireSeconds>,
    limits: ParseLimits,
) -> (r: Result<AgentCommand, String>)
    requires
        limits.wf(),
    ensures
        commands::agrees(r, advance_of(seconds, step_seconds, limits)),
{
    let duration = match positive_duration("seconds", seconds) {
        Ok(duration) => duration,
        Err(m) => return Err(m),
    };
    if duration.nanos > limits.max_time_advance.nanos {
        return Err(
            cat2("seconds must not exceed ", seconds_text(limits.max_time_advance).as_str()),
        );
    }
    let written = match step_seconds {
        None => return Ok(AgentCommand::AdvanceTime { duration, step: None }),
        Some(written) => written,
    };
    let step = match positive_duration("step_seconds", written) {
        Ok(step) => step,
        Err(m) => return Err(m),
    };
    match validate_step_count(duration, step, limits.max_time_advance_steps) {
        Ok(()) => Ok(AgentCommand::AdvanceTime { duration, step: Some(step) }),
        Err(m) => Err(m),
    }
}

/// What a written drag is.
pub open spec fn drag_of(
    from: Point,
    to: Point,
    button: Option<String>,
    steps: Option<u16>,
    frames: Option<u16>,
    limits: ParseLimits,
) -> Result<AgentCommand, Seq<char>> {
    match commands::frames_within("steps"@, frames_or(steps, 10), commands::at_least_one(limits.max_action_steps)) {
        Err(m) => Err(m),
        Ok(steps) => match commands::frames_within(
            "frames"@,
            frames_or(frames, steps),
            limits.max_wait_frames,
        ) {
            Err(m) => Err(m),
            Ok(frames) => if frames < steps {
                Err(
                    "frames must be >= steps, got "@ + text::digits(frames as nat) + " < "@ + text::digits(
                        steps as nat,
                    ),
                )
            } else {
                match commands::point_of("drag start"@, from.x, from.y) {
                    Err(m) => Err(m),
                    Ok(from) => match commands::point_of("drag end"@, to.x, to.y) {
                        Err(m) => Err(m),
                        Ok(to) => match commands::mouse_button(commands::button_name(button)) {
                            Err(m) => Err(m),
                            Ok(button) => Ok(
                                AgentCommand::Drag { from, to, button, steps, frames },
                            ),
                        },
                    },
                }
            },
        },
    }
}

fn parse_drag(
    from: Point,
    to: Point,
    button: Option<String>,
    steps: Option<u16>,
    frames: Option<u16>,
    limits: ParseLimits,
) -> (r: Result<AgentCommand, String>)
    ensures
        commands::agrees(r, drag_of(from, to, button, steps, frames, limits)),
{
    let most: u16 = if limits.max_action_steps == 0 {
        1
    } else {
        limits.max_action_steps
    };
    let steps = match bounded_frames("steps", or_frames(steps, 10), most) {
        Ok(steps) => steps,
        Err(m) => return Err(m),
    };
    let frames = match bounded_frames("frames", or_frames(frames, steps), limits.max_wait_frames) {
        Ok(frames) => frames,
        Err(m) => return Err(m),
    };
    if frames < steps {
        return Err(
            cat4(
                "frames must be >= steps, got ",
                decimal(frames as u128).as_str(),
                " < ",
                decimal(steps as u128).as_str(),
            ),
        );
    }
    let from = match vec2("drag start", from.x, from.y) {
        Ok(from) => from,
        Err(m) => return Err(m),
    };
    let to = match vec2("drag end", to.x, to.y) {
        Ok(to) => to,
        Err(m) => return Err(m),
    };
    match parse_button_or_left(button) {
        Ok(button) => Ok(AgentCommand::Drag { from, to, button, steps, frames }),
        Err(m) => Err(m),
    }
}

/// What a written command is, but for a wait for a predicate.
pub open spec fn command_of(command: WireCommand, limits: ParseLimits) -> Result<
    AgentCommand,
    Seq<char>,
>
    recommends
        !(command is WaitFor),
{
    match command {
        WireCommand::KeyDown { key } => match commands::key_code(key@) {
            Err(m) => Err(m),
            Ok(key) => Ok(AgentCommand::KeyDown(key)),
        },
        WireCommand::KeyUp { key } => match commands::key_code(key@) {
            Err(m) => Err(m),
            Ok(key) => Ok(AgentCommand::KeyUp(key)),
        },
        WireCommand::MouseDown { button } => match commands::mouse_button(button@) {
            Err(m) => Err(m),
            Ok(button) => Ok(AgentCommand::MouseDown(button)),
        },
        WireCommand::MouseUp { button } => match commands::mouse_button(button@) {
            Err(m) => Err(m),
            Ok(button) => Ok(AgentCommand::MouseUp(button)),
        },
        WireCommand::CursorMove { x, y } => match commands::point_of("cursor position"@, x, y) {
            Err(m) => Err(m),
            Ok(position) => Ok(AgentCommand::CursorMove { position }),
        },
        WireCommand::MouseMotion { dx, dy } => match commands::point_of("mouse motion"@, dx, dy) {
            Err(m) => Err(m),
            Ok(delta) => Ok(AgentCommand::MouseMotion { delta }),
        },
        WireCommand::MouseScroll { x, y, unit } => match commands::point_of("mouse scroll"@, x, y) {
            Err(m) => Err(m),
            Ok(delta) => match commands::scroll_unit(unit) {
                Err(m) => Err(m),
                Ok(unit) => Ok(AgentCommand::MouseScroll { delta, unit }),
            },
        },
        WireCommand::Text { value } => Ok(AgentCommand::Text { value }),
        WireCommand::FileHover { path } => Ok(AgentCommand::FileHover { path }),
        WireCommand::FileDrop { path } => Ok(AgentCommand::FileDrop { path }),
        WireCommand::FileCancel => Ok(AgentCommand::FileCancel),
        WireCommand::WindowInfo => Ok(AgentCommand::WindowInfo),
        WireCommand::Wait { frames } => match commands::frames_within("frames"@, frames_or(frames, 1), limits.max_wait_frames) {
            Err(m) => Err(m),
            Ok(frames) => Ok(AgentCommand::Wait { frames }),
        },
        WireCommand::WaitSeconds { seconds, max_frames } => match commands::positive_span("seconds"@, seconds) {
            Err(m) => Err(m),
            Ok(duration) => match commands::frames_within("max_frames"@, frames_or(max_frames, limits.max_wait_frames), limits.max_wait_frames) {
                Err(m) => Err(m),
                Ok(max_frames) => Ok(AgentCommand::WaitSeconds { duration, max_frames }),
            },
        },
        WireCommand::AdvanceTime { seconds, step_seconds } => advance_of(
            seconds,
            step_seconds,
            limits,
        ),
        WireCommand::Capture { label } => match commands::capture_label(label) {
            Err(m) => Err(m),
            Ok(label) => Ok(AgentCommand::Capture { label }),
        },
        WireCommand::CaptureAfterFrames { frames, label } => match commands::frames_within("frames"@, frames, limits.max_wait_frames) {
            Err(m) => Err(m),
            Ok(frames) => match commands::capture_label(label) {
                Err(m) => Err(m),
                Ok(label) => Ok(AgentCommand::CaptureAfterFrames { frames, label }),
            },
        },
        WireCommand::ReleaseAllInputs => Ok(AgentCommand::ReleaseAllInputs),
        WireCommand::Shutdown => Ok(AgentCommand::Shutdown),
        WireCommand::Click { x, y, button, frames } => match commands::point_of("click position"@, x, y) {
            Err(m) => Err(m),
            Ok(position) => match commands::mouse_button(commands::button_name(button)) {
                Err(m) => Err(m),
                Ok(button) => match commands::frames_within("frames"@, frames_or(frames, 1), limits.max_wait_frames) {
                    Err(m) => Err(m),
                    Ok(frames) => Ok(AgentCommand::Click { position, button, frames }),
                },
            },
        },
        WireCommand::Drag { from, to, button, steps, frames } => drag_of(
            from,
            to,
            button,
            steps,
            frames,
            limits,
        ),
        WireCommand::Scroll { lines, x, unit } => match commands::point_of("scroll"@, x, lines) {
            Err(m) => Err(m),
            Ok(delta) => match commands::scroll_unit(unit) {
                Err(m) => Err(m),
                Ok(unit) => Ok(AgentCommand::MouseScroll { delta, unit }),
            },
        },
        WireCommand::KeyTap { key, frames } => match commands::key_code(key@) {
            Err(m) => Err(m),
            Ok(key) => match commands::frames_within("frames"@, frames_or(frames, 1), limits.max_wait_frames) {
                Err(m) => Err(m),
                Ok(frames) => Ok(AgentCommand::KeyHold { key, frames }),
            },
        },
        WireCommand::KeyHold { key, frames } => match commands::key_code(key@) {
            Err(m) => Err(m),
            Ok(key) => match commands::frames_within("frames"@, frames_or(frames, 1), limits.max_wait_frames) {
                Err(m) => Err(m),
                Ok(frames) => Ok(AgentCommand::KeyHold { key, frames }),
            },
        },
        WireCommand::TargetInfo { target, kind, camera } => match commands::target_of(target) {
            Err(m) => Err(m),
            Ok(target) => match commands::bounded_option("camera"@, camera, MAX_SELECTOR_BYTES) {
                Err(m) => Err(m),
                Ok(camera) => Ok(AgentCommand::TargetInfo { target, kind, camera }),
            },
        },
        WireCommand::ClickTarget { target, kind, camera, button, frames } => match commands::target_of(target) {
            Err(m) => Err(m),
            Ok(target) => match commands::bounded_option("camera"@, camera, MAX_SELECTOR_BYTES) {
                Err(m) => Err(m),
                Ok(camera) => match commands::mouse_button(commands::button_name(button)) {
                    Err(m) => Err(m),
                    Ok(button) => match commands::frames_within("frames"@, frames_or(frames, 1), limits.max_wait_frames) {
                        Err(m) => Err(m),
                        Ok(frames) => Ok(AgentCommand::ClickTarget { target, kind, camera, button, frames }),
                    },
                },
            },
        },
        WireCommand::ResourceInfo { resource, field } => match commands::bounded_option("resource"@, resource, MAX_SELECTOR_BYTES) {
            Err(m) => Err(m),
            Ok(resource) => match commands::bounded_option("field"@, field, MAX_SELECTOR_BYTES) {
                Err(m) => Err(m),
                Ok(field) => Ok(AgentCommand::ResourceInfo { resource, field }),
            },
        },
        WireCommand::EvaluatePredicate { predicate } => match commands::predicate_of(predicate) {
            Err(m) => Err(m),
            Ok(predicate) => Ok(AgentCommand::EvaluatePredicate { predicate }),
        },
        WireCommand::EcsSummary => Ok(AgentCommand::EcsSummary),
        WireCommand::ListEntities => Ok(AgentCommand::ListEntities),
        WireCommand::CameraInfo => Ok(AgentCommand::CameraInfo),
        WireCommand::StateInfo => Ok(AgentCommand::StateInfo),
        WireCommand::MarkerInfo => Ok(AgentCommand::MarkerInfo),
        WireCommand::WaitFor { .. } => Err(Seq::empty()),
    }
}

/// The result `r` is what a written wait for a predicate stands for: the predicate, the abort
/// predicates in their order and the number of frames, or the first objection among them.
pub open spec fn wait_agrees(
    predicate: WirePredicate,
    abort_predicates: Seq<WirePredicate>,
    max_frames: Option<u16>,
    limits: ParseLimits,
    r: Result<AgentCommand, String>,
) -> bool {
    let frames = commands::frames_within(
        "max_frames"@,
        frames_or(max_frames, limits.max_wait_frames),
        limits.max_wait_frames,
    );
    match (commands::predicate_of(predicate), commands::predicates_of(abort_predicates), frames) {
        (Err(m), _, _) => r matches Err(n) && n@ == m,
        (_, Err(m), _) => r matches Err(n) && n@ == m,
        (_, _, Err(m)) => r matches Err(n) && n@ == m,
        (Ok(p), Ok(a), Ok(f)) => {
            &&& r matches Ok(AgentCommand::WaitFor { predicate, abort_predicates, max_frames })
            &&& predicate == p
            &&& abort_predicates@ == a
            &&& max_frames == f
        },
    }
}

/// The result `r` is what a written command stands for.
pub open spec fn command_agrees(
    command: WireCommand,
    limits: ParseLimits,
    r: Result<AgentCommand, String>,
) -> bool {
    match command {
        WireCommand::WaitFor { predicate, abort_predicates, max_frames } => wait_agrees(
            predicate,
            abort_predicates@,
            max_frames,
            limits,
            r,
        ),
        _ => commands::agrees(r, command_of(command, limits)),
    }
}

/// Checks a written command and turns it into the command that it stands for.
pub fn parse_wire_command(command: WireCommand, limits: ParseLimits) -> (r: Result<
    AgentCommand,
    String,
>)
    requires
        limits.wf(),
    ensures
        command_agrees(command, limits, r),
{
    match command {
        WireCommand::KeyDown { key } => {
            match parse_key_code(key.as_str()) {
                Ok(key) => Ok(AgentCommand::KeyDown(key)),
                Err(m) => Err(m),
            }
        },
        WireCommand::KeyUp { key } => {
            match parse_key_code(key.as_str()) {
                Ok(key) => Ok(AgentCommand::KeyUp(key)),
                Err(m) => Err(m),
            }
        },
        WireCommand::MouseDown { button } => {
            match parse_mouse_button(button.as_str()) {
                Ok(button) => Ok(AgentCommand::MouseDown(button)),
                Err(m) => Err(m),
            }
        },
        WireCommand::MouseUp { button } => {
            match parse_mouse_button(button.as_str()) {
                Ok(button) => Ok(AgentCommand::MouseUp(button)),
                Err(m) => Err(m),
            }
        },
        WireCommand::CursorMove { x, y } => {
            match vec2("cursor position", x, y) {
                Ok(position) => Ok(AgentCommand::CursorMove { position }),
                Err(m) => Err(m),
            }
        },
        WireCommand::MouseMotion { dx, dy } => {
            match vec2("mouse motion", dx, dy) {
                Ok(delta) => Ok(AgentCommand::MouseMotion { delta }),
                Err(m) => Err(m),
            }
        },
        WireCommand::MouseScroll { x, y, unit } => {
            let delta = match vec2("mouse scroll", x, y) {
                Ok(delta) => delta,
                Err(m) => return Err(m),
            };
            match parse_scroll_unit(unit) {
                Ok(unit) => Ok(AgentCommand::MouseScroll { delta, unit }),
                Err(m) => Err(m),
            }
        },
        WireCommand::Text { value } => Ok(AgentCommand::Text { value }),
        WireCommand::FileHover { path } => Ok(AgentCommand::FileHover { path }),
        WireCommand::FileDrop { path } => Ok(AgentCommand::FileDrop { path }),
        WireCommand::FileCancel => Ok(AgentCommand::FileCancel),
        WireCommand::WindowInfo => Ok(AgentCommand::WindowInfo),
        WireCommand::Wait { frames } => {
            match bounded_frames("frames", or_frames(frames, 1), limits.max_wait_frames) {
                Ok(frames) => Ok(AgentCommand::Wait { frames }),
                Err(m) => Err(m),
            }
        },
        WireCommand::WaitSeconds { seconds, max_frames } => {
            let duration = match positive_duration("seconds", seconds) {
                Ok(duration) => duration,
                Err(m) => return Err(m),
            };
            match bounded_frames("max_frames", or_frames(max_frames, limits.max_wait_frames), limits.max_wait_frames) {
                Ok(max_frames) => Ok(AgentCommand::WaitSeconds { duration, max_frames }),
                Err(m) => Err(m),
            }
        },
        WireCommand::AdvanceTime { seconds, step_seconds } => parse_advance(
            seconds,
            step_seconds,
            limits,
        ),
        WireCommand::Capture { label } => {
            match validate_capture_label(label) {
                Ok(label) => Ok(AgentCommand::Capture { label }),
                Err(m) => Err(m),
            }
        },
        WireCommand::CaptureAfterFrames { frames, label } => {
            let frames = match bounded_frames("frames", frames, limits.max_wait_frames) {
                Ok(frames) => frames,
                Err(m) => return Err(m),
            };
            match validate_capture_label(label) {
                Ok(label) => Ok(AgentCommand::CaptureAfterFrames { frames, label }),
                Err(m) => Err(m),
            }
        },
        WireCommand::ReleaseAllInputs => Ok(AgentCommand::ReleaseAllInputs),
        WireCommand::Shutdown => Ok(AgentCommand::Shutdown),
        WireCommand::Click { x, y, button, frames } => {
            let position = match vec2("click position", x, y) {
                Ok(position) => position,
                Err(m) => return Err(m),
            };
            let button = match parse_button_or_left(button) {
                Ok(button) => button,
                Err(m) => return Err(m),
            };
            match bounded_frames("frames", or_frames(frames, 1), limits.max_wait_frames) {
                Ok(frames) => Ok(AgentCommand::Click { position, button, frames }),
                Err(m) => Err(m),
            }
        },
        WireCommand::Drag { from, to, button, steps, frames } => parse_drag(
            from,
            to,
            button,
            steps,
            frames,
            limits,
        ),
        WireCommand::Scroll { lines, x, unit } => {
            let delta = match vec2("scroll", x, lines) {
                Ok(delta) => delta,
                Err(m) => return Err(m),
            };
            match parse_scroll_unit(unit) {
                Ok(unit) => Ok(AgentCommand::MouseScroll { delta, unit }),
                Err(m) => Err(m),
            }
        },
        WireCommand::KeyTap { key, frames } => {
            let key = match parse_key_code(key.as_str()) {
                Ok(key) => key,
                Err(m) => return Err(m),
            };
            match bounded_frames("frames", or_frames(frames, 1), limits.max_wait_frames) {
                Ok(frames) => Ok(AgentCommand::KeyHold { key, frames }),
                Err(m) => Err(m),
            }
        },
        WireCommand::KeyHold { key, frames } => {
            let key = match parse_key_code(key.as_str()) {
                Ok(key) => key,
                Err(m) => return Err(m),
            };
            match bounded_frames("frames", or_frames(frames, 1), limits.max_wait_frames) {
                Ok(frames) => Ok(AgentCommand::KeyHold { key, frames }),
                Err(m) => Err(m),
            }
        },
        WireCommand::TargetInfo { target, kind, camera } => {
            let target = match parse_target(target) {
                Ok(target) => target,
                Err(m) => return Err(m),
            };
            match bounded_optional("camera", camera, MAX_SELECTOR_BYTES) {
                Ok(camera) => Ok(AgentCommand::TargetInfo { target, kind, camera }),
                Err(m) => Err(m),
            }
        },
        WireCommand::ClickTarget { target, kind, camera, button, frames } => {
            let target = match parse_target(target) {
                Ok(target) => target,
                Err(m) => return Err(m),
            };
            let camera = match bounded_optional("camera", camera, MAX_SELECTOR_BYTES) {
                Ok(camera) => camera,
                Err(m) => return Err(m),
            };
            let button = match parse_button_or_left(button) {
                Ok(button) => button,
                Err(m) => return Err(m),
            };
            match bounded_frames("frames", or_frames(frames, 1), limits.max_wait_frames) {
                Ok(frames) => Ok(AgentCommand::ClickTarget { target, kind, camera, button, frames }),
                Err(m) => Err(m),
            }
        },
        WireCommand::ResourceInfo { resource, field } => {
            let resource = match bounded_optional("resource", resource, MAX_SELECTOR_BYTES) {
                Ok(resource) => resource,
                Err(m) => return Err(m),
            };
            match bounded_optional("field", field, MAX_SELECTOR_BYTES) {
                Ok(field) => Ok(AgentCommand::ResourceInfo { resource, field }),
                Err(m) => Err(m),
            }
        },
        WireCommand::EvaluatePredicate { predicate } => {
            match parse_predicate(predicate) {
                Ok(predicate) => Ok(AgentCommand::EvaluatePredicate { predicate }),
                Err(m) => Err(m),
            }
        },
        WireCommand::WaitFor { predicate, abort_predicates, max_frames } => {
            let predicate = match parse_predicate(predicate) {
                Ok(predicate) => predicate,
                Err(m) => return Err(m),
            };
            let abort_predicates = match parse_predicates(abort_predicates) {
                Ok(abort_predicates) => abort_predicates,
                Err(m) => return Err(m),
            };
            match bounded_frames(
                "max_frames",
                or_frames(max_frames, limits.max_wait_frames),
                limits.max_wait_frames,
            ) {
                Ok(max_frames) => Ok(
                    AgentCommand::WaitFor { predicate, abort_predicates, max_frames },
                ),
                Err(m) => Err(m),
            }
        },
        WireCommand::EcsSummary => Ok(AgentCommand::EcsSummary),
        WireCommand::ListEntities => Ok(AgentCommand::ListEntities),
        WireCommand::CameraInfo => Ok(AgentCommand::CameraInfo),
        WireCommand::StateInfo => Ok(AgentCommand::StateInfo),
        WireCommand::MarkerInfo => Ok(AgentCommand::MarkerInfo),
    }
}

/// Law: an advance is read exactly where its time is above zero and no more than is allowed, and its
/// step, where it has one, is above zero and long enough that no more steps are needed than are
/// allowed. It is read with the time and the step that were written.
pub proof fn law_advances_are_read_within_the_limits(
    seconds: WireSeconds,
    step_seconds: Option<WireSeconds>,
    limits: ParseLimits,
)
    requires
        commands::positive_span("seconds"@, seconds) is Ok,
        step_seconds is Some ==> commands::positive_span(
            "step_seconds"@,
            step_seconds->Some_0,
        ) is Ok,
    ensures
        ({
            let duration = commands::positive_span("seconds"@, seconds)->Ok_0;
            let step = commands::positive_span("step_seconds"@, step_seconds->Some_0)->Ok_0;
            let most = if limits.max_time_advance_steps == 0 {
                1
            } else {
                limits.max_time_advance_steps as int
            };
            &&& advance_of(seconds, step_seconds, limits) is Ok <==> duration.nanos
                <= limits.max_time_advance.nanos && (step_seconds is Some ==> duration.nanos <= most
                * step.nanos && duration.nanos + step.nanos - 1 <= u128::MAX)
            &&& advance_of(seconds, step_seconds, limits) matches Ok(command) ==> command == (
            AgentCommand::AdvanceTime {
                duration,
                step: if step_seconds is Some {
                    Some(step)
                } else {
                    None
                },
            })
        }),
{
    if step_seconds is Some {
        let duration = commands::positive_span("seconds"@, seconds)->Ok_0;
        let step = commands::positive_span("step_seconds"@, step_seconds->Some_0)->Ok_0;
        let most = if limits.max_time_advance_steps == 0 {
            1
        } else {
            limits.max_time_advance_steps as int
        };
        crate::timing::law_steps_are_the_fewest(duration, step);
        let n = commands::steps_needed(duration, step);
        let d = duration.nanos as int;
        let k = step.nanos as int;
        if n <= most {
            assert(d <= most * k) by (nonlinear_arith)
                requires
                    n <= most,
                    k > 0,
                    n * k >= d,
            ;
        } else {
            assert(d > most * k) by (nonlinear_arith)
                requires
                    n > most,
                    k > 0,
                    (n - 1) * k < d,
            ;
        }
    }
}

} // verus!
