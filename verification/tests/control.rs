//! Input control, captures and time control.
use bevy_agent_feedback::actions::PositionTexts;
use bevy_agent_feedback::captures::{
    retain_recent_captures, Admission, CaptureControl, CaptureStep, PendingCapture,
    ScreenshotOutcome,
};
use bevy_agent_feedback::commands::{AgentCommand, KeyCode, MouseButton, Point, TargetKind, TargetSelector};
use bevy_agent_feedback::control::{
    contains_position, track_button, track_key, validate_cursor_position, AgentFeedbackState,
    AgentRequest, CaptureRequest, CommandError, CursorOrigin, Drained, Effect, Handled, OwedKind, ResolvedClick,
};
use bevy_agent_feedback::documents::{response_document, Document};
use bevy_agent_feedback::json::{print_json, Json};
use bevy_agent_feedback::names::KEY_CODE_NAMES;
use bevy_agent_feedback::reals::{
    at_most_single, equal_double, is_finite_double, is_finite_single, is_positive_double,
    less_double, less_single,
};
use bevy_agent_feedback::responses::{AgentResponse, StableWindowMode, WindowInfo};
use bevy_agent_feedback::span::Span;
use bevy_agent_feedback::timing::{
    checked_step_count, Availability, Strategy, TimingControl, VirtualClock,
};
use serde_json::Value;
use std::collections::VecDeque;

fn shown(document: &Document) -> Value {
    match document {
        Document::Null => Value::Null,
        Document::Bool(b) => Value::Bool(*b),
        Document::Whole(n) => Value::from(*n as u64),
        Document::Single(bits) => Value::from(f32::from_bits(*bits)),
        Document::Double(bits) => Value::from(f64::from_bits(*bits)),
        Document::Seconds(span) => {
            Value::from(std::time::Duration::from_nanos(span.nanos as u64).as_secs_f64())
        }
        Document::Text(s) => Value::from(s.clone()),
        Document::Array(items) => Value::Array(items.iter().map(shown).collect()),
        Document::Object(fields) => Value::Object(
            fields.iter().map(|(name, field)| (name.to_string(), shown(field))).collect(),
        ),
        Document::Plain(json) => serde_json::from_str(&print_json(json)).expect("JSON"),
    }
}

fn answer(response: &AgentResponse) -> Value {
    shown(&response_document(response))
}

fn point(x: f32, y: f32) -> Point {
    Point { x: x.to_bits(), y: y.to_bits() }
}

fn window() -> WindowInfo {
    WindowInfo {
        logical_width: 640.0f32.to_bits(),
        logical_height: 360.0f32.to_bits(),
        physical_width: 640,
        physical_height: 360,
        scale_factor: 1.0f32.to_bits(),
        cursor_position: None,
        focused: true,
        visible: true,
        mode: StableWindowMode::Windowed,
    }
}

fn key(name: &str) -> KeyCode {
    let place = KEY_CODE_NAMES.iter().position(|known| *known == name).expect("a key");
    KeyCode { place }
}

fn request(command: AgentCommand) -> AgentRequest {
    AgentRequest { id: Json::Null, ticket: 3, command }
}

fn drain(state: &mut AgentFeedbackState, command: AgentCommand) -> Handled {
    match state.drain_agent_request(request(command), Some(window()), 4, true) {
        Drained::Handled(handled) => handled,
        _ => panic!("handled by input control"),
    }
}

fn no_texts() -> PositionTexts {
    PositionTexts {
        x: String::new(),
        y: String::new(),
        width: String::new(),
        height: String::new(),
    }
}

#[test]
fn keys_are_held_until_they_are_released() {
    let mut state = AgentFeedbackState::new();
    let handled = drain(&mut state, AgentCommand::KeyDown(key("KeyW")));
    assert!(handled.accepted);
    assert!(matches!(handled.effects[0], Effect::Key { pressed: true, .. }));
    drain(&mut state, AgentCommand::KeyDown(key("KeyA")));
    drain(&mut state, AgentCommand::KeyDown(key("KeyW")));
    drain(&mut state, AgentCommand::MouseDown(MouseButton::Left));
    let snapshot = state.snapshot(None);
    assert_eq!(snapshot.pressed_keys, ["KeyW", "KeyA"]);
    assert_eq!(snapshot.pressed_buttons, ["Left"]);
    drain(&mut state, AgentCommand::KeyUp(key("KeyW")));
    assert_eq!(state.snapshot(None).pressed_keys, ["KeyA"]);
    let handled = drain(&mut state, AgentCommand::ReleaseAllInputs);
    assert!(handled.effects.iter().any(|e| matches!(e, Effect::Key { pressed: false, .. })));
    assert!(handled
        .effects
        .iter()
        .any(|e| matches!(e, Effect::Button { button: MouseButton::Left, pressed: false })));
    assert!(state.held_keys.is_empty() && state.held_buttons.is_empty());
    let mut held = vec![key("KeyA")];
    track_key(&mut held, key("KeyA"), true);
    assert_eq!(held.len(), 1);
    let mut buttons = Vec::new();
    track_button(&mut buttons, MouseButton::Back, true);
    track_button(&mut buttons, MouseButton::Back, false);
    assert!(buttons.is_empty());
}

#[test]
fn moves_are_measured_from_where_the_cursor_was_put() {
    let mut state = AgentFeedbackState::new();
    let first = drain(&mut state, AgentCommand::CursorMove { position: point(1.0, 2.0) });
    assert!(matches!(
        first.effects[0],
        Effect::MoveCursor { previous: CursorOrigin::Window, .. }
    ));
    let second = drain(&mut state, AgentCommand::CursorMove { position: point(3.0, 4.0) });
    assert!(matches!(
        second.effects[0],
        Effect::MoveCursor { previous: CursorOrigin::Put(from), .. } if from == point(1.0, 2.0)
    ));
}

#[test]
fn a_click_presses_and_releases_after_its_frames() {
    let mut state = AgentFeedbackState::new();
    let handled = drain(
        &mut state,
        AgentCommand::Click { position: point(10.0, 20.0), button: MouseButton::Left, frames: 2 },
    );
    assert!(handled.owed.is_none());
    assert!(matches!(
        handled.effects[0],
        Effect::MoveCursor { position, previous: CursorOrigin::Window } if position == point(10.0, 20.0)
    ));
    assert!(matches!(handled.effects[1], Effect::Button { pressed: true, .. }));
    assert_eq!(state.actions_to_run(4), 1);
    let first = state.run_pending_action(point(0.0, 0.0), Some(window()));
    assert!(first.owed.is_none());
    let last = state.run_pending_action(point(0.0, 0.0), Some(window()));
    assert!(matches!(last.effects[0], Effect::Button { pressed: false, .. }));
    let owed = last.owed.expect("an answer");
    assert_eq!(owed.ticket, 3);
    let response = state.settle(owed, Some(window()), no_texts());
    assert_eq!(answer(&response)["result"]["status"], "ok");
    assert!(state.held_buttons.is_empty());
}

#[test]
fn a_drag_makes_its_moves() {
    let mut state = AgentFeedbackState::new();
    drain(
        &mut state,
        AgentCommand::Drag {
            from: point(0.0, 0.0),
            to: point(8.0, 0.0),
            button: MouseButton::Right,
            steps: 2,
            frames: 4,
        },
    );
    let mut moves = Vec::new();
    for _ in 0..4 {
        if let Some(progress) = state.drag_progress() {
            moves.push((progress.step, progress.steps));
        }
        state.run_pending_action(point(4.0, 0.0), Some(window()));
    }
    assert_eq!(moves.last(), Some(&(2, 2)));
    assert!(state.pending_actions.is_empty());
    assert!(state.held_buttons.is_empty());
}

#[test]
fn positions_outside_the_window_are_refused() {
    assert!(contains_position(&window(), point(0.0, 0.0)));
    assert!(contains_position(&window(), point(639.5, 359.5)));
    assert!(!contains_position(&window(), point(640.0, 0.0)));
    assert!(!contains_position(&window(), point(-1.0, 0.0)));
    assert!(matches!(
        validate_cursor_position(&None, point(1.0, 1.0)),
        Err(CommandError::MissingWindow)
    ));
    let mut state = AgentFeedbackState::new();
    let handled = drain(&mut state, AgentCommand::CursorMove { position: point(700.0, 1.0) });
    assert!(!handled.accepted);
    let owed = handled.owed.expect("an answer");
    assert!(matches!(owed.kind, OwedKind::Refused(CommandError::PositionOutOfBounds { .. })));
    let texts = PositionTexts {
        x: "700".to_string(),
        y: "1".to_string(),
        width: "640".to_string(),
        height: "360".to_string(),
    };
    let response = answer(&state.settle(owed, Some(window()), texts));
    assert_eq!(response["ok"], false);
    let message = response["error"]["message"].as_str().expect("message");
    assert!(message.contains("700") && message.contains("640"), "{message}");
}

#[test]
fn requests_go_where_they_belong() {
    let mut state = AgentFeedbackState::new();
    let mut place = |command: AgentCommand, diagnostics: bool| {
        match state.drain_agent_request(request(command), Some(window()), 4, diagnostics) {
            Drained::Handled(handled) => match handled.owed {
                Some(owed) => match owed.kind {
                    OwedKind::DiagnosticsUnavailable => "none",
                    _ => "handled",
                },
                None => "handled",
            },
            Drained::Timing(_) => "timing",
            Drained::Capture(_) => "capture",
            Drained::Diagnostics(_) => "diagnostics",
        }
    };
    assert_eq!(place(AgentCommand::Wait { frames: 1 }, true), "timing");
    assert_eq!(place(AgentCommand::Capture { label: None }, true), "capture");
    assert_eq!(place(AgentCommand::EcsSummary, true), "diagnostics");
    assert_eq!(place(AgentCommand::EcsSummary, false), "none");
    let info = || AgentCommand::TargetInfo {
        target: TargetSelector::Name("Door".to_string()),
        kind: TargetKind::Any,
        camera: None,
    };
    assert_eq!(place(info(), true), "diagnostics");
    assert_eq!(place(AgentCommand::WindowInfo, true), "handled");
}

#[test]
fn pending_actions_are_bounded() {
    let mut state = AgentFeedbackState::new();
    for _ in 0..4 {
        drain(&mut state, AgentCommand::KeyHold { key: key("KeyW"), frames: 2 });
    }
    let handled = drain(&mut state, AgentCommand::KeyHold { key: key("KeyW"), frames: 2 });
    assert!(matches!(handled.owed.expect("refused").kind, OwedKind::QueueFull(_)));
    let click = ResolvedClick {
        id: Json::Null,
        ticket: 9,
        position: point(1.0, 1.0),
        button: MouseButton::Left,
        frames: 1,
        details: Json::Null,
    };
    let ticked = state.inject_resolved_click(click, Some(window()), 4);
    assert!(matches!(ticked.owed.expect("refused").kind, OwedKind::QueueFull(_)));
}

#[test]
fn frames_are_counted_and_heartbeats_are_due() {
    let mut state = AgentFeedbackState::new();
    assert!(state.begin_agent_frame(Some(1.5f64.to_bits()), Some(100), 1_000));
    assert_eq!(state.frame, 1);
    assert_eq!(f64::from_bits(state.game_time_secs), 1.5);
    assert!(!state.begin_agent_frame(None, None, 1_001));
    assert_eq!(state.frame, 2);
}

fn capture_request(frames: u16) -> CaptureRequest {
    CaptureRequest { id: Json::Null, ticket: 5, frames, label: Some("boss".to_string()) }
}

fn admitted(captures: &CaptureControl, state: &AgentFeedbackState, frames: u16) -> PendingCapture {
    match captures.admit_request(state, capture_request(frames), false, Some(window()), 2) {
        Admission::NeedsDirectory(capture) => capture,
        Admission::Refused(_) => panic!("admitted"),
    }
}

#[test]
fn captures_are_numbered_saved_and_retained() {
    let mut state = AgentFeedbackState::new();
    let mut captures = CaptureControl::new();
    let capture = admitted(&captures, &state, 0);
    let CaptureStep::Spawn(job) = captures.admit_with_directory(&state, capture, Ok(()), false)
    else {
        panic!("a screenshot is asked for");
    };
    assert_eq!(job.sequence, 0);
    assert_eq!(job.file_name, "capture-000000-boss.png");
    let done = captures.complete(
        &mut state,
        job,
        ScreenshotOutcome::Saved,
        "dir/capture-000000-boss.png".to_string(),
        640,
        360,
        Some(window()),
        1,
    );
    let response = answer(&done.reply.response);
    assert_eq!(response["result"]["status"], "captured");
    assert_eq!(response["result"]["capture"]["path"], "dir/capture-000000-boss.png");
    assert!(done.removed.is_empty());
    assert_eq!(state.latest_capture.as_ref().map(|c| c.sequence), Some(0));

    let capture = admitted(&captures, &state, 0);
    let CaptureStep::Spawn(job) = captures.admit_with_directory(&state, capture, Ok(()), false)
    else {
        panic!("a screenshot is asked for");
    };
    assert_eq!(job.sequence, 1);
    let done = captures.complete(
        &mut state,
        job,
        ScreenshotOutcome::Saved,
        "dir/second.png".to_string(),
        640,
        360,
        None,
        1,
    );
    assert_eq!(done.removed, ["dir/capture-000000-boss.png"]);
    let mut kept: VecDeque<String> = ["a", "b", "c"].iter().map(|s| s.to_string()).collect();
    assert_eq!(retain_recent_captures(&mut kept, 2), ["a"]);
    assert_eq!(kept, ["b", "c"]);
}

#[test]
fn captures_fail_and_wait() {
    let mut state = AgentFeedbackState::new();
    let mut captures = CaptureControl::new();
    assert!(matches!(
        captures.admit_request(&state, capture_request(0), false, None, 2),
        Admission::Refused(_)
    ));
    let capture = admitted(&captures, &state, 1);
    let step = captures.admit_with_directory(&state, capture, Err("read only".to_string()), false);
    let CaptureStep::Failed(reply) = step else { panic!("no directory") };
    assert!(answer(&reply.response)["error"]["message"].as_str().expect("text").contains("read only"));
    let capture = admitted(&captures, &state, 2);
    assert!(matches!(
        captures.admit_with_directory(&state, capture, Ok(()), false),
        CaptureStep::Waiting
    ));
    assert!(matches!(captures.tick_pending(&state, false), CaptureStep::Waiting));
    let CaptureStep::Spawn(job) = captures.tick_pending(&state, false) else {
        panic!("its frame has come");
    };
    let done = captures.complete(
        &mut state,
        job,
        ScreenshotOutcome::Failed("disk".to_string()),
        "x.png".to_string(),
        1,
        1,
        None,
        1,
    );
    assert_eq!(answer(&done.reply.response)["ok"], false);
    assert!(state.latest_capture.is_none());
    assert_eq!(captures.in_flight, 0);
}

fn clock(elapsed: Span) -> VirtualClock {
    VirtualClock { elapsed, paused: false, unit_speed: true, max_delta: Span::from_secs(1) }
}

const FROZEN: Strategy = Strategy::Manual(Span { nanos: 0 });

fn timed(command: AgentCommand) -> (TimingControl, AgentFeedbackState) {
    let mut timing = TimingControl::configure(true, true, true, Strategy::Automatic);
    assert!(timing.enqueue(request(command), 4).is_none());
    let mut state = AgentFeedbackState::new();
    state.begin_agent_frame(None, None, 0);
    (timing, state)
}

#[test]
fn time_is_advanced_step_by_step() {
    let (mut timing, mut state) = timed(AgentCommand::AdvanceTime {
        duration: Span::from_millis(250),
        step: Some(Span::from_millis(100)),
    });
    let step = timing.admit_timing_request(
        &state,
        false,
        Some(clock(Span::from_secs(1))),
        Some(Span::from_millis(16)),
        Some(FROZEN),
        10,
        Span::from_secs(1),
    );
    assert!(step.reply.is_none());
    assert_eq!(step.strategy, Some(Strategy::Manual(Span::from_millis(100))));
    let mut elapsed = Span::from_secs(1);
    let mut armed = Span::from_millis(100);
    for (taken, next) in [(100, Some(100)), (100, Some(50)), (50, None)] {
        state.begin_agent_frame(None, None, 0);
        elapsed = Span { nanos: elapsed.nanos + taken * 1_000_000 };
        let step = timing.account_time_advance(
            &state,
            Some(Strategy::Manual(armed)),
            Some(elapsed),
            false,
        );
        match next {
            Some(ms) => {
                assert!(step.reply.is_none());
                armed = Span::from_millis(ms);
                assert_eq!(step.strategy, Some(Strategy::Manual(armed)));
            }
            None => {
                assert_eq!(step.strategy, Some(FROZEN));
                let response = answer(&step.reply.expect("an answer").response);
                assert_eq!(response["result"]["status"], "advanced_time");
                assert_eq!(response["result"]["details"]["actual_seconds"], 0.25);
                assert_eq!(response["result"]["details"]["step_count"], 3);
            }
        }
    }
    assert!(timing.advance.is_none());
}

#[test]
fn advances_that_cannot_run_are_refused() {
    let refuse = |mut timing: TimingControl, state: &AgentFeedbackState| {
        let step = timing.admit_timing_request(
            state,
            false,
            Some(clock(Span::zero())),
            Some(Span::from_millis(16)),
            Some(FROZEN),
            10,
            Span::from_secs(1),
        );
        answer(&step.reply.expect("refused").response)["error"]["code"].clone()
    };
    let advance = || AgentCommand::AdvanceTime { duration: Span::from_millis(250), step: None };
    let state = AgentFeedbackState::new();
    let mut free = TimingControl::configure(false, true, true, Strategy::Automatic);
    free.enqueue(request(advance()), 4);
    assert_eq!(refuse(free, &state), "time_control_disabled");
    let mut missing = TimingControl::configure(true, false, true, Strategy::Automatic);
    assert!(matches!(
        missing.availability,
        Availability::Unavailable("time_plugin_missing")
    ));
    missing.enqueue(request(advance()), 4);
    assert_eq!(refuse(missing, &state), "time_control_unavailable");
    let conflicting = TimingControl::configure(true, true, true, Strategy::FixedTimesteps);
    assert!(matches!(
        conflicting.availability,
        Availability::Unavailable("fixed_timesteps_already_configured")
    ));
    assert_eq!(checked_step_count(Span::from_millis(250), Span::from_millis(100)), Some(3));
    assert_eq!(checked_step_count(Span::from_millis(1), Span::zero()), None);
}

#[test]
fn one_timing_command_may_always_wait() {
    let mut timing = TimingControl::configure(false, true, true, Strategy::Automatic);
    assert!(timing.enqueue(request(AgentCommand::Wait { frames: 2 }), 0).is_none());
    let reply = timing.enqueue(request(AgentCommand::Wait { frames: 2 }), 0).expect("full");
    let error = answer(&reply.response)["error"].clone();
    assert_eq!(error["code"], "queue_full");
    assert_eq!(error["message"], "too many pending timing commands");
    assert_eq!(timing.incoming.len(), 1);
}

#[test]
fn waits_end_by_frames_and_by_time() {
    let (mut timing, state) = timed(AgentCommand::Wait { frames: 2 });
    timing.admit_timing_request(&state, false, None, None, None, 1, Span::from_secs(1));
    assert!(timing.tick_frame_wait(&state, false).is_none());
    let reply = timing.tick_frame_wait(&state, false).expect("over");
    assert_eq!(answer(&reply.response)["result"]["status"], "waited");

    let mut free = TimingControl::configure(false, true, true, Strategy::Automatic);
    let wait = AgentCommand::WaitSeconds { duration: Span::from_secs(1), max_frames: 2 };
    free.enqueue(request(wait), 4);
    let start = Some(clock(Span::zero()));
    let step = free.admit_timing_request(&state, false, start, None, None, 1, Span::from_secs(1));
    assert!(step.reply.is_none());
    assert!(free.tick_seconds_wait(&state, Some(Span::from_millis(500)), false).is_none());
    let reply = free.tick_seconds_wait(&state, Some(Span::from_millis(900)), false).expect("late");
    assert_eq!(answer(&reply.response)["error"]["code"], "wait_seconds_timeout");
}

#[test]
fn waits_for_virtual_time_are_refused_while_it_is_frozen() {
    let (mut timing, state) = timed(AgentCommand::WaitSeconds {
        duration: Span::from_secs(1),
        max_frames: 2,
    });
    let start = Some(clock(Span::zero()));
    let step = timing.admit_timing_request(&state, false, start, None, None, 1, Span::from_secs(1));
    let response = answer(&step.reply.expect("refused").response);
    assert_eq!(response["error"]["code"], "time_control_frozen");
    assert!(timing.advance.is_none());
}

#[test]
fn bits_are_ordered_as_the_numbers_they_are() {
    let b = |x: f64| x.to_bits();
    assert!(less_double(b(-1.0), b(2.0)) && !less_double(b(2.0), b(-1.0)));
    assert!(!less_double(b(f64::NAN), b(1.0)) && !equal_double(b(f64::NAN), b(f64::NAN)));
    assert!(equal_double(b(0.0), b(-0.0)) && !less_double(b(-0.0), b(0.0)));
    assert!(is_finite_double(b(1e300)) && !is_finite_double(b(f64::INFINITY)));
    assert!(is_positive_double(b(0.5)) && !is_positive_double(b(0.0)));
    let s = |x: f32| x.to_bits();
    assert!(less_single(s(-3.5), s(-1.0)) && at_most_single(s(0.0), s(-0.0)));
    assert!(is_finite_single(s(1.0)) && !is_finite_single(s(f32::NAN)));
}
