//! Requests, the discovery document and the answers on the wire.
use bevy_agent_feedback::client::check_version;
use bevy_agent_feedback::commands::{
    AgentCommand, ComparisonOperator, KeyCode, MouseButton, MouseScrollUnit, ParseLimits, Point,
    Predicate, TargetKind, TargetSelector,
};
use bevy_agent_feedback::config::{
    clamp_duration, heartbeat_file, idle_shutdown, protocol_belongs_to_session, session_in,
    AgentFeedbackConfig, AgentFeedbackSession, PROTOCOL_VERSION,
};
use bevy_agent_feedback::discovery::{protocol_document, protocol_file_text};
use bevy_agent_feedback::documents::{response_document, Document};
use bevy_agent_feedback::framing::{
    handle_line, queue_closed, queue_full, reply_wait, socket_error, timed_out, too_long,
    wait_for_response, LineBuffer, Polled, Received, ReplyStep,
};
use bevy_agent_feedback::json::{parse_json, print_json, Json, JsonNumber};
use bevy_agent_feedback::names::{edit_distance_with_cutoff, KEY_CODE_NAMES};
use bevy_agent_feedback::responses::{
    AgentErrorContext, AgentResponse, AgentSnapshot, AgentTimingContext, AgentTimingResult,
    CaptureCompletion, CaptureInfo, Details, DiagnosticErrorContext, EcsSummaryContext,
    ObservedPredicate, PredicateOutcome, StableWindowMode, WaitedSeconds, WindowInfo,
};
use bevy_agent_feedback::runner::ready_info;
use bevy_agent_feedback::span::{seconds_text, unix_ms, Span};
use bevy_agent_feedback::text::{
    clip, decimal, decimal_six, parse_number, text_at_most,
};
use bevy_agent_feedback::wire::{parse_request, parse_request_with_limits, ParseRequestError};
use serde_json::Value;

fn value(json: &Json) -> Value {
    serde_json::from_str(&print_json(json)).expect("printed JSON reads")
}

fn read(text: &str) -> Value {
    serde_json::from_str(text).expect("expected JSON")
}

fn shown(document: &Document) -> Value {
    match document {
        Document::Null => Value::Null,
        Document::Bool(b) => Value::Bool(*b),
        Document::Whole(n) => Value::from(*n as u64),
        Document::Single(bits) => Value::from(f32::from_bits(*bits)),
        Document::Double(bits) => Value::from(f64::from_bits(*bits)),
        Document::Seconds(span) => {
            Value::from(std::time::Duration::from_nanos(span.nanos as u64).as_secs_f64())
        }
        Document::Text(s) => Value::from(s.clone()),
        Document::Array(items) => Value::Array(items.iter().map(shown).collect()),
        Document::Object(fields) => Value::Object(
            fields.iter().map(|(name, field)| (name.to_string(), shown(field))).collect(),
        ),
        Document::Plain(json) => value(json),
    }
}

fn point(x: f32, y: f32) -> Point {
    Point { x: x.to_bits(), y: y.to_bits() }
}

fn refused(line: &str) -> ParseRequestError {
    match parse_request(line, 10, 10) {
        Ok(_) => panic!("accepted: {line}"),
        Err(error) => error,
    }
}

fn accepted(line: &str) -> AgentCommand {
    match parse_request(line, 10, 10) {
        Ok(body) => body.command,
        Err(error) => panic!("{}: {}", error.code, error.message),
    }
}

#[test]
fn parses_case_insensitive_input_names() {
    let request = parse_request(
        r#"{"id":1,"command":"click","x":12,"y":34,"button":"right"}"#,
        10,
        10,
    )
    .unwrap_or_else(|error| panic!("valid request: {}", error.message));

    assert_eq!(value(&request.id), Value::from(1));
    match request.command {
        AgentCommand::Click { position, button, frames } => {
            assert_eq!(position, point(12.0, 34.0));
            assert_eq!(button, MouseButton::Right);
            assert_eq!(frames, 1);
        }
        _ => panic!("a click"),
    }

    match accepted(r#"{"id":2,"command":"key_tap","key":"keyw"}"#) {
        AgentCommand::KeyHold { key, frames } => {
            assert_eq!(KEY_CODE_NAMES[key.place], "KeyW");
            assert_eq!(frames, 1);
        }
        _ => panic!("a key that is held"),
    }
}

#[test]
fn invalid_names_suggest_close_values() {
    let error = refused(r#"{"id":1,"command":"mouse_down","button":"rigth"}"#);
    assert_eq!(value(&error.id), Value::from(1));
    assert!(error.message.contains("Right"));

    let error = refused(r#"{"id":"bad-scroll","command":"scroll","lines":1,"unit":"lien"}"#);
    assert_eq!(value(&error.id), Value::from("bad-scroll"));
    assert!(error.message.contains("Line"));

    let error = refused(r#"{"id":3,"command":"key_tap","key":"keyww"}"#);
    assert_eq!(value(&error.id), Value::from(3));
    assert!(error.message.contains("KeyW"));
}

#[test]
fn parses_capture_label() {
    let request = parse_request(
        r#"{"id":"shot","command":"capture","label":"boss-Intro_1"}"#,
        10,
        10,
    )
    .unwrap_or_else(|error| panic!("valid labeled capture: {}", error.message));

    assert_eq!(value(&request.id), Value::from("shot"));
    match request.command {
        AgentCommand::Capture { label } => assert_eq!(label, Some("boss-Intro_1".to_string())),
        _ => panic!("a capture"),
    }
}

#[test]
fn rejects_invalid_capture_labels_as_invalid_arguments() {
    for label in [
        "",
        "has space",
        "slash/name",
        "12345678901234567890123456789012345678901",
    ] {
        let mut request = serde_json::Map::new();
        request.insert("id".to_string(), Value::from(label));
        request.insert("command".to_string(), Value::from("capture"));
        request.insert("label".to_string(), Value::from(label));
        let error = refused(&Value::Object(request).to_string());

        assert_eq!(value(&error.id), Value::from(label));
        assert_eq!(error.code, "invalid_argument");
        assert_eq!(
            error.message,
            "capture label must match [A-Za-z0-9_-]{1,40}"
        );
    }
}

#[test]
fn rejects_wait_commands_outside_the_frame_bound() {
    let error = refused(r#"{"id":"slow","command":"wait","frames":11}"#);

    assert_eq!(value(&error.id), Value::from("slow"));
    assert!(error.message.contains("frames"));
    assert_eq!(error.message, "frames must be between 1 and 10, got 11");
}

fn session_of(config: &AgentFeedbackConfig) -> AgentFeedbackSession {
    AgentFeedbackSession::new(config, 4242, 1_700_000_000_123, heartbeat_file(Some("agent.json")))
}

#[test]
fn writes_v2_protocol_with_session_metadata() {
    let config = AgentFeedbackConfig {
        bind_addr: "127.0.0.1:0".to_string(),
        protocol_file: "root/agent.json".to_string(),
        capture_dir: "root/captures".to_string(),
        command_timeout: Span::from_secs(2),
        ..Default::default()
    };
    let session = session_of(&config);
    let protocol = read(&protocol_file_text(&config, &session, "127.0.0.1:12345"));
    assert_eq!(protocol["protocol"], PROTOCOL_VERSION);
    assert_eq!(protocol["session_id"], session.session_id);
    assert_eq!(protocol["max_wait_frames"], config.max_wait_frames);
}

#[test]
fn discovery_documents_are_read_by_clients_and_runners() {
    let config = AgentFeedbackConfig {
        protocol_file: "root/agent.json".to_string(),
        capture_dir: "root/captures".to_string(),
        deterministic_time: true,
        ..Default::default()
    };
    let session = session_of(&config);
    let document = protocol_document(&config, &session, "127.0.0.1:12345");
    assert!(check_version(&document, "root/agent.json").is_ok());
    assert!(session_in(&document, &session.session_id));
    let text = protocol_file_text(&config, &session, "127.0.0.1:12345");
    assert!(protocol_belongs_to_session(Some(text.as_bytes()), &session.session_id));
    assert!(!protocol_belongs_to_session(Some(text.as_bytes()), "another"));
    let ready = ready_info(&document);
    assert_eq!(ready.session_id, session.session_id);
    assert_eq!(ready.socket_addr, "127.0.0.1:12345");
    assert_eq!(ready.capture_dir.as_deref(), Some("root/captures"));
}

#[test]
fn writes_complete_v2_discovery_metadata() {
    let config = AgentFeedbackConfig {
        bind_addr: "127.0.0.1:0".to_string(),
        protocol_file: "root/agent.json".to_string(),
        capture_dir: "root/captures".to_string(),
        max_wait_frames: 7,
        max_action_steps: 3,
        deterministic_time: true,
        max_time_advance_steps: 4,
        max_time_advance: Span::from_secs(3),
        command_timeout: Span::from_secs(2),
        ..Default::default()
    };
    let session = session_of(&config);
    let address = "127.0.0.1:12345";
    let protocol = read(&protocol_file_text(&config, &session, address));

    assert_eq!(protocol.as_object().expect("protocol object").len(), 22);
    for (key, expected) in [
        ("protocol", Value::from(PROTOCOL_VERSION)),
        ("session_id", Value::from(session.session_id.clone())),
        ("pid", Value::from(session.pid)),
        ("started_at_unix_ms", Value::from(session.started_at_unix_ms)),
        ("heartbeat_file", Value::from(session.heartbeat_file.clone())),
        (
            "heartbeat_interval_ms",
            Value::from(session.heartbeat_interval.as_millis() as u64),
        ),
        ("stale_after_ms", Value::from(session.stale_after.as_millis() as u64)),
        ("socket_addr", Value::from(address)),
        ("transport", Value::from("json-lines-over-tcp")),
        ("clients", Value::from("single local client at a time")),
        (
            "coordinates",
            Value::from("logical window pixels, origin at the top-left of the primary window"),
        ),
        ("capture_dir", Value::from(config.capture_dir.clone())),
        ("command_timeout_ms", Value::from(2000)),
        ("deterministic_time", Value::from(true)),
        ("max_action_steps", Value::from(3)),
        ("max_wait_frames", Value::from(7)),
        ("max_time_advance_steps", Value::from(4)),
        ("max_time_advance_seconds", Value::from(3.0)),
        (
            "window_modes",
            read(r#"["windowed", "borderless_fullscreen", "fullscreen"]"#),
        ),
        ("capture_completion", Value::from("screenshot_captured")),
    ] {
        assert_eq!(protocol[key], expected, "{key}");
    }

    let commands = &protocol["commands"];
    let command_names = "key_down,key_up,mouse_down,mouse_up,cursor_move,mouse_motion,mouse_scroll,scroll,click,drag,key_tap,key_hold,release_all_inputs,shutdown,text,file_hover,file_drop,file_cancel,window_info,wait,wait_seconds,advance_time,capture,capture_after_frames,target_info,click_target,resource_info,evaluate_predicate,wait_for,ecs_summary,list_entities,camera_info,state_info,marker_info";
    assert_eq!(commands.as_object().expect("commands object").len(), 34);
    for name in command_names.split(',') {
        assert!(commands.get(name).is_some(), "missing command {name}");
    }
    let assert_command = |name: &str, expected: &str| {
        assert_eq!(commands[name], read(expected), "{name}");
    };
    assert_command("wait", r#"{"frames":"1..=7; default 1"}"#);
    assert_command(
        "wait_seconds",
        r#"{"seconds":"positive finite f64 converted to nonzero duration","max_frames":"1..=7; default 7"}"#,
    );
    assert_command(
        "advance_time",
        r#"{"seconds":"positive finite duration <= 3 seconds","step_seconds":"optional positive finite duration; ceil(seconds/step_seconds) <= 4; default Time<Fixed>::timestep or 1/60"}"#,
    );
    assert_command(
        "capture_after_frames",
        r#"{"frames":"required 1..=7","label":"optional [A-Za-z0-9_-]{1,40}"}"#,
    );
    let requirement = "diagnostics feature and AgentFeedbackDiagnosticsPlugin";
    assert_command(
        "target_info",
        r#"{"target":{"exactly_one":["name","accessibility_label","marker"],"string_bytes":"1..=128"},"kind":"any|ui|world; default any","camera":"optional exact 1..=128 byte name","requires":"diagnostics feature and AgentFeedbackDiagnosticsPlugin"}"#,
    );
    assert_command(
        "click_target",
        r#"{"target":{"exactly_one":["name","accessibility_label","marker"],"string_bytes":"1..=128"},"kind":"any|ui|world; default any","camera":"optional exact 1..=128 byte name","button":"default Left","frames":"1..=7; default 1","requires":"diagnostics feature and AgentFeedbackDiagnosticsPlugin"}"#,
    );
    assert_command(
        "resource_info",
        r#"{"resource":"optional exact 1..=128 byte key","field":"optional exact 1..=128 byte key","requires":"diagnostics feature and AgentFeedbackDiagnosticsPlugin"}"#,
    );
    let predicates = read(
        r#"{"discriminator":"type: state_equals|resource_field|marker_count|target_exists|target_absent","state_equals":{"state":"exact 1..=128 byte key","value":"bounded scalar"},"resource_field":{"resource":"exact 1..=128 byte key","field":"exact 1..=128 byte key","operator":"eq|ne|lt|lte|gt|gte","value":"bounded scalar; ordering requires a number"},"marker_count":{"marker":"exact 1..=128 byte key","min":"optional u32","max":"optional u32; at least one bound is required"},"target_exists":{"target":{"exactly_one":["name","accessibility_label","marker"],"string_bytes":"1..=128"},"kind":"any|ui|world; default any","camera":"optional exact 1..=128 byte name"},"target_absent":{"target":{"exactly_one":["name","accessibility_label","marker"],"string_bytes":"1..=128"},"kind":"any|ui|world; default any","camera":"optional exact 1..=128 byte name"},"scalar":"null, boolean, finite number, or UTF-8 string of 1..=1024 bytes"}"#,
    );
    let mut evaluate = serde_json::Map::new();
    evaluate.insert("predicate".to_string(), predicates.clone());
    evaluate.insert("requires".to_string(), Value::from(requirement));
    assert_eq!(commands["evaluate_predicate"], Value::Object(evaluate.clone()));
    evaluate.insert("max_frames".to_string(), Value::from("1..=7; default 7"));
    assert_eq!(commands["wait_for"], Value::Object(evaluate));
    assert_eq!(
        protocol["examples"],
        read(
            r#"[{"id":1,"command":"window_info"},{"id":2,"command":"click","x":320.0,"y":240.0,"button":"left"},{"id":3,"command":"drag","from":[320.0,240.0],"to":[420.0,240.0],"button":"Right","steps":5,"frames":5},{"id":4,"command":"key_tap","key":"keyw"},{"id":5,"command":"capture","label":"default"},{"id":6,"command":"release_all_inputs"},{"id":7,"command":"marker_info"},{"id":8,"command":"shutdown"}]"#
        )
    );
    assert_eq!(
        value(&protocol_document(&config, &session, address)),
        protocol
    );
}

fn test_window() -> WindowInfo {
    WindowInfo {
        logical_width: 640.0f32.to_bits(),
        logical_height: 360.0f32.to_bits(),
        physical_width: 1280,
        physical_height: 720,
        scale_factor: 2.0f32.to_bits(),
        cursor_position: Some(point(12.5, 8.0)),
        focused: true,
        visible: true,
        mode: StableWindowMode::Windowed,
    }
}

fn test_capture() -> CaptureInfo {
    CaptureInfo {
        sequence: 4,
        path: "captures/frame-4.png".to_string(),
        label: Some("failure".to_string()),
        requested_frame: 40,
        completed_frame: 42,
        image_width: 1280,
        image_height: 720,
        window_at_request: test_window(),
        window_at_completion: Some(test_window()),
        completion: CaptureCompletion::ScreenshotCaptured,
    }
}

fn text_json(text: &str) -> Json {
    Json::Text(text.to_string())
}

#[test]
fn serializes_full_structured_error_context() {
    let mut timing = AgentTimingContext::empty();
    timing.state = Some("frozen");
    timing.reason = Some("frame_budget_exhausted");
    let response = AgentResponse::contextual_error(
        text_json("timed-out"),
        "predicate_timeout",
        "predicate did not match".to_string(),
        AgentErrorContext {
            latest_capture: Some(test_capture()),
            snapshot: Some(AgentSnapshot {
                frame: 42,
                game_time_secs: 1.25f64.to_bits(),
                window: None,
                mouse_position: None,
                pressed_keys: Vec::new(),
                pressed_buttons: Vec::new(),
            }),
            observed_predicate: Some(ObservedPredicate {
                predicate: Predicate::MarkerCount {
                    marker: "Enemy".to_string(),
                    min: Some(5),
                    max: None,
                },
                outcome: PredicateOutcome::Indeterminate,
                value: None,
                count: Some(3),
                count_is_lower_bound: true,
            }),
            ecs_summary: Some(EcsSummaryContext {
                entity_count: 100,
                entity_count_is_lower_bound: true,
                component_count: 12,
                archetype_count: 5,
            }),
            timing: Some(timing),
            diagnostic: Some(DiagnosticErrorContext {
                reason: Some("target_search_truncated".to_string()),
                entity: None,
                resource: None,
                field: None,
                limit: Some(100),
                candidates: Vec::new(),
                registered: vec!["Score".to_string()],
            }),
        },
    );
    assert_eq!(
        shown(&response_document(&response)),
        read(
            r#"{
            "id": "timed-out",
            "ok": false,
            "error": {
                "code": "predicate_timeout",
                "message": "predicate did not match",
                "context": {
                    "latest_capture": {
                        "sequence": 4, "path": "captures/frame-4.png", "label": "failure",
                        "requested_frame": 40, "completed_frame": 42,
                        "image_width": 1280, "image_height": 720,
                        "window_at_request": {
                            "logical_width": 640.0, "logical_height": 360.0,
                            "physical_width": 1280, "physical_height": 720,
                            "scale_factor": 2.0, "cursor_position": [12.5, 8.0],
                            "focused": true, "visible": true, "mode": "windowed"
                        },
                        "window_at_completion": {
                            "logical_width": 640.0, "logical_height": 360.0,
                            "physical_width": 1280, "physical_height": 720,
                            "scale_factor": 2.0, "cursor_position": [12.5, 8.0],
                            "focused": true, "visible": true, "mode": "windowed"
                        },
                        "completion": "screenshot_captured"
                    },
                    "snapshot": {
                        "frame": 42, "game_time_secs": 1.25,
                        "pressed_keys": [], "pressed_buttons": []
                    },
                    "observed_predicate": {
                        "predicate": {
                            "type": "marker_count", "marker": "Enemy", "min": 5, "max": null
                        },
                        "outcome": "indeterminate", "count": 3, "count_is_lower_bound": true
                    },
                    "ecs_summary": {
                        "entity_count": 100, "entity_count_is_lower_bound": true,
                        "component_count": 12, "archetype_count": 5
                    },
                    "timing": {"state": "frozen", "reason": "frame_budget_exhausted"},
                    "diagnostic": {
                        "reason": "target_search_truncated",
                        "limit": 100, "registered": ["Score"]
                    }
                }
            }
        }"#
        )
    );
}

#[test]
fn writes_results_with_what_the_application_looks_like() {
    let response = AgentResponse::timing(
        Json::Number(JsonNumber::Unsigned(7)),
        None,
        AgentSnapshot {
            frame: 3,
            game_time_secs: 0.5f64.to_bits(),
            window: Some(test_window()),
            mouse_position: Some(point(1.0, 2.0)),
            pressed_keys: vec!["KeyW"],
            pressed_buttons: vec!["Left"],
        },
        AgentTimingResult {
            start: Span::from_millis(250),
            end: Span::from_millis(750),
            actual: Span::from_millis(500),
            step_count: 4,
        },
    );
    assert_eq!(
        shown(&response_document(&response)),
        read(
            r#"{"id": 7, "ok": true, "result": {
                "status": "advanced_time",
                "frame": 3, "game_time_secs": 0.5,
                "window": {
                    "logical_width": 640.0, "logical_height": 360.0,
                    "physical_width": 1280, "physical_height": 720,
                    "scale_factor": 2.0, "cursor_position": [12.5, 8.0],
                    "focused": true, "visible": true, "mode": "windowed"
                },
                "mouse_position": [1.0, 2.0],
                "pressed_keys": ["KeyW"], "pressed_buttons": ["Left"],
                "details": {
                    "start_seconds": 0.25, "end_seconds": 0.75,
                    "actual_seconds": 0.5, "step_count": 4
                }
            }}"#
        )
    );
}

#[test]
fn writes_waits_and_plain_results() {
    let snapshot = || AgentSnapshot {
        frame: 1,
        game_time_secs: 0,
        window: None,
        mouse_position: None,
        pressed_keys: Vec::new(),
        pressed_buttons: Vec::new(),
    };
    let waited = AgentResponse::details_with_context(
        Json::Null,
        "waited",
        None,
        snapshot(),
        Details::Waited(WaitedSeconds {
            requested: Span::from_millis(100),
            observed: Span::from_millis(125),
            frames: 2,
        }),
    );
    assert_eq!(
        shown(&response_document(&waited))["result"]["details"],
        read(r#"{"requested_seconds": 0.1, "observed_seconds": 0.125, "frames": 2}"#)
    );
    let queued = AgentResponse::done(Json::Number(JsonNumber::Unsigned(17)), "queued", None, None);
    assert_eq!(
        shown(&response_document(&queued)),
        read(r#"{"id": 17, "ok": true, "result": {"status": "queued"}}"#)
    );
    let observed = AgentResponse::details_with_context(
        Json::Null,
        "predicate_evaluated",
        None,
        snapshot(),
        Details::Observation(ObservedPredicate {
            predicate: Predicate::TargetExists {
                target: TargetSelector::AccessibilityLabel("Start".to_string()),
                kind: TargetKind::Ui,
                camera: None,
            },
            outcome: PredicateOutcome::NotMatched,
            value: None,
            count: None,
            count_is_lower_bound: false,
        }),
    );
    assert_eq!(
        shown(&response_document(&observed))["result"]["details"],
        read(
            r#"{"predicate": {"type": "target_exists", "target": {"accessibility_label": "Start"},
                "kind": "ui", "camera": null}, "outcome": "not_matched"}"#
        )
    );
}

#[test]
fn queued_response_wins_at_zero_deadline() {
    assert_eq!(reply_wait(Span::zero(), Span::zero()), None);
    assert_eq!(wait_for_response(Polled::Answered, true, true), ReplyStep::Send);
    let response = AgentResponse::done(Json::Number(JsonNumber::Unsigned(17)), "queued", None, None);
    assert_eq!(
        shown(&response_document(&response)),
        read(r#"{"id": 17, "ok": true, "result": {"status": "queued"}}"#)
    );
}

#[test]
fn answers_are_looked_for_until_the_deadline() {
    assert_eq!(
        reply_wait(Span::from_millis(5), Span::from_millis(10)),
        Some(Span::from_millis(5))
    );
    assert_eq!(
        reply_wait(Span::zero(), Span::from_secs(1)),
        Some(Span::from_millis(20))
    );
    assert_eq!(reply_wait(Span::from_secs(2), Span::from_secs(1)), None);
    assert_eq!(wait_for_response(Polled::Pending, false, false), ReplyStep::Again);
    assert_eq!(wait_for_response(Polled::Pending, false, true), ReplyStep::Gone);
    assert_eq!(wait_for_response(Polled::Pending, true, false), ReplyStep::TimedOut);
    assert_eq!(wait_for_response(Polled::Disconnected, false, false), ReplyStep::Closed);
}

#[test]
fn cleanup_only_removes_current_session_protocol() {
    let config = AgentFeedbackConfig { bind_addr: "127.0.0.1:0".to_string(), ..Default::default() };
    let session = session_of(&config);
    assert!(!protocol_belongs_to_session(
        Some(br#"{"session_id":"other"}"#),
        &session.session_id
    ));
    let own = protocol_file_text(&config, &session, "127.0.0.1:1");
    assert!(protocol_belongs_to_session(Some(own.as_bytes()), &session.session_id));
    assert!(!protocol_belongs_to_session(None, &session.session_id));
    assert!(!protocol_belongs_to_session(Some(b"not json"), &session.session_id));
}

#[test]
fn sessions_are_named_and_held_within_bounds() {
    let config = AgentFeedbackConfig {
        heartbeat_interval: Span::from_millis(1),
        session_stale_after: Span::from_secs(600),
        ..Default::default()
    };
    let session = session_of(&config);
    assert_eq!(session.session_id, "4242-1700000000123");
    assert_eq!(session.heartbeat_interval, Span::from_millis(50));
    assert_eq!(session.stale_after, Span::from_secs(120));
    assert_eq!(
        clamp_duration(Span::from_secs(3), Span::from_secs(1), Span::from_secs(5)),
        Span::from_secs(3)
    );
    assert!(!idle_shutdown(None, Span::from_secs(100)));
    assert!(!idle_shutdown(Some(Span::from_secs(1)), Span::from_secs(4)));
    assert!(idle_shutdown(Some(Span::from_secs(1)), Span::from_secs(5)));
    assert!(!idle_shutdown(Some(Span::from_secs(9)), Span::from_secs(8)));
    assert_eq!(config.command_limit(), 32);
    assert_eq!(
        AgentFeedbackConfig { max_pending_commands: 0, max_captures: 0, ..Default::default() }
            .command_limit(),
        1
    );
    assert_eq!(unix_ms(None), 0);
    assert_eq!(unix_ms(Some(Span::from_millis(1234))), 1234);
    assert_eq!(seconds_text(Span::from_millis(1500)), "1.5");
}

#[test]
fn requests_that_are_none_are_refused_with_their_identity() {
    let error = refused("{");
    assert!(matches!(error.id, Json::Null));
    assert_eq!(error.code, "invalid_request");
    assert!(error.message.contains("EOF"));

    let error = refused("[1,2]");
    assert_eq!(error.code, "invalid_request");
    assert_eq!(error.message, "invalid type: sequence, expected struct WireRequest");

    let error = refused(r#"{"command":"wait"}"#);
    assert!(matches!(error.id, Json::Null));
    assert_eq!(error.message, "missing field `id`");

    let error = refused(r#"{"id":9,"command":"fly"}"#);
    assert_eq!(value(&error.id), Value::from(9));
    assert!(error.message.starts_with("unknown variant `fly`, expected one of `key_down`"));

    let error = refused(r#"{"id":9}"#);
    assert_eq!(value(&error.id), Value::from(9));
    assert_eq!(error.code, "invalid_request");

    let error = refused(r#"{"id":9,"command":"key_down"}"#);
    assert_eq!(error.message, "missing field `key`");

    let error = refused(r#"{"id":9,"command":"wait","frames":"many"}"#);
    assert_eq!(error.message, r#"invalid type: string "many", expected u16"#);
}

#[test]
fn every_kind_of_command_is_read() {
    assert!(matches!(accepted(r#"{"id":1,"command":"window_info"}"#), AgentCommand::WindowInfo));
    assert!(matches!(
        accepted(r#"{"id":1,"command":"release_all_inputs"}"#),
        AgentCommand::ReleaseAllInputs
    ));
    assert!(matches!(accepted(r#"{"id":1,"command":"shutdown"}"#), AgentCommand::Shutdown));
    assert!(matches!(
        accepted(r#"{"id":1,"command":"wait","frames":4}"#),
        AgentCommand::Wait { frames: 4 }
    ));
    assert!(matches!(
        accepted(r#"{"id":1,"command":"wait"}"#),
        AgentCommand::Wait { frames: 1 }
    ));
    match accepted(r#"{"id":1,"command":"wait_seconds","seconds":0.5}"#) {
        AgentCommand::WaitSeconds { duration, max_frames } => {
            assert_eq!(duration, Span::from_millis(500));
            assert_eq!(max_frames, 10);
        }
        _ => panic!("a wait"),
    }
    match accepted(r#"{"id":1,"command":"mouse_scroll","y":-2,"unit":"pixel"}"#) {
        AgentCommand::MouseScroll { delta, unit } => {
            assert_eq!(delta, point(0.0, -2.0));
            assert_eq!(unit, MouseScrollUnit::Pixel);
        }
        _ => panic!("scrolling"),
    }
    match accepted(r#"{"id":1,"command":"drag","from":[1,2],"to":[3,4.5]}"#) {
        AgentCommand::Drag { from, to, button, .. } => {
            assert_eq!(from, point(1.0, 2.0));
            assert_eq!(to, point(3.0, 4.5));
            assert_eq!(button, MouseButton::Left);
        }
        _ => panic!("a drag"),
    }
    match accepted(
        r#"{"id":1,"command":"wait_for","predicate":{"type":"marker_count","marker":"Enemy","min":1}}"#,
    ) {
        AgentCommand::WaitFor { predicate, abort_predicates, max_frames } => {
            assert!(matches!(
                predicate,
                Predicate::MarkerCount { ref marker, min: Some(1), max: None } if marker == "Enemy"
            ));
            assert!(abort_predicates.is_empty());
            assert_eq!(max_frames, 10);
        }
        _ => panic!("a wait for a condition"),
    }
}

#[test]
fn requests_are_read_in_their_other_spellings() {
    assert!(matches!(accepted(r#"{"id":1,"command":11}"#), AgentCommand::WindowInfo));
    match accepted(
        r#"{"id":1,"command":24,"target":[null,null,"Play"],"kind":{"ui":null},"camera":null}"#,
    ) {
        AgentCommand::TargetInfo { target: TargetSelector::Marker(marker), kind, camera } => {
            assert_eq!(marker, "Play");
            assert_eq!(kind, TargetKind::Ui);
            assert_eq!(camera, None);
        }
        _ => panic!("a target"),
    }
    let condition = |predicate: &str| {
        let line = format!(r#"{{"id":1,"command":"evaluate_predicate","predicate":{predicate}}}"#);
        match parse_request(&line, 10, 10) {
            Ok(body) => match body.command {
                AgentCommand::EvaluatePredicate { predicate } => Ok(predicate),
                _ => panic!("a condition"),
            },
            Err(error) => {
                assert_eq!(error.code, "invalid_request");
                Err(error.message)
            }
        }
    };
    let fails = |predicate: &str| match condition(predicate) {
        Ok(_) => panic!("accepted: {predicate}"),
        Err(message) => message,
    };
    assert!(matches!(
        condition(r#"["state_equals","Phase","Playing"]"#),
        Ok(Predicate::StateEquals { state, .. }) if state == "Phase"
    ));
    assert!(matches!(
        condition(r#"[1,"Score","value",{"gte":{}},3]"#),
        Ok(Predicate::ResourceField { operator: ComparisonOperator::Gte, .. })
    ));
    assert!(matches!(
        condition(r#"{"type":2,"marker":"Enemy","min":1}"#),
        Ok(Predicate::MarkerCount { min: Some(1), max: None, .. })
    ));
    assert!(matches!(
        condition(r#"["target_absent",{"name":"Play"},"world",null]"#),
        Ok(Predicate::TargetAbsent { kind: TargetKind::World, camera: None, .. })
    ));
    assert_eq!(fails("[]"), "missing field `type`");
    assert_eq!(
        fails("[5]"),
        "invalid value: integer `5`, expected variant index 0 <= i < 5"
    );
    assert_eq!(
        fails(r#"["state_equals","Phase"]"#),
        "invalid length 1, expected struct variant WirePredicate::StateEquals with 2 elements"
    );
    assert_eq!(
        fails(r#"["target_exists",{"name":"Play"}]"#),
        "invalid length 2, expected struct variant WirePredicate::TargetExists with 3 elements"
    );
    assert_eq!(
        fails(r#"["state_equals","Phase",1,2]"#),
        "invalid length 3, expected 2 elements in sequence"
    );
    assert_eq!(
        fails(r#"["target_exists",["Play"],"any",null]"#),
        "invalid length 1, expected struct WireTargetSelector with 3 elements"
    );
    assert_eq!(
        fails(r#"["target_exists",[null,null,null,null],"any",null]"#),
        "invalid length 4, expected 3 elements in sequence"
    );
    assert_eq!(
        fails(r#"["target_exists",{"name":"Play"},{"ui":1},null]"#),
        "invalid type: integer `1`, expected unit"
    );
    assert_eq!(
        fails(r#"["target_exists",{"name":"Play"},{},null]"#),
        "invalid value: map, expected map with a single key"
    );
    assert_eq!(
        fails(r#"["target_exists",{"name":"Play"},{"sky":null},null]"#),
        "unknown variant `sky`, expected one of `any`, `ui`, `world`"
    );
    assert_eq!(
        fails(r#"["target_exists",{"name":"Play"},1,null]"#),
        "invalid type: integer `1`, expected string or map"
    );
}

#[test]
fn arguments_outside_their_bounds_are_refused() {
    let message = |line: &str| {
        let error = refused(line);
        assert_eq!(error.code, "invalid_argument");
        error.message
    };
    assert!(message(r#"{"id":1,"command":"wait_seconds","seconds":0}"#).contains("seconds"));
    assert!(message(r#"{"id":1,"command":"wait_seconds","seconds":-1}"#).contains("seconds"));
    assert!(message(r#"{"id":1,"command":"advance_time","seconds":11}"#).contains("seconds"));
    assert!(
        message(r#"{"id":1,"command":"advance_time","seconds":10,"step_seconds":0.01}"#)
            .contains("600")
    );
    assert!(message(r#"{"id":1,"command":"drag","from":[0,0],"to":[1,1],"steps":11}"#)
        .contains("steps"));
    assert!(message(
        r#"{"id":1,"command":"evaluate_predicate","predicate":{"type":"marker_count","marker":"A"}}"#
    )
    .contains("marker_count"));
    assert!(message(r#"{"id":1,"command":"target_info","target":{"name":""}}"#).contains("name"));
    assert!(message(r#"{"id":1,"command":"target_info","target":{}}"#).contains("exactly one"));
    assert!(message(r#"{"id":1,"command":"cursor_move","x":1e300,"y":0}"#).contains("finite"));
}

#[test]
fn limits_are_those_that_are_given() {
    let limits = ParseLimits {
        max_wait_frames: 2,
        max_action_steps: 1,
        max_time_advance_steps: 1,
        max_time_advance: Span::from_secs(1),
    };
    let line = r#"{"id":1,"command":"wait","frames":3}"#;
    assert!(parse_request_with_limits(line, limits).is_err());
    assert!(parse_request(line, 3, 1).is_ok());
    match handle_line(line, limits) {
        Err(response) => {
            let answer = shown(&response_document(&response));
            assert_eq!(answer["id"], 1);
            assert_eq!(answer["ok"], false);
            assert_eq!(answer["error"]["code"], "invalid_argument");
        }
        Ok(_) => panic!("refused"),
    }
    assert!(handle_line(r#"{"id":1,"command":"wait","frames":2}"#, limits).is_ok());
}

#[test]
fn lines_are_put_together_from_pieces() {
    let mut buffer = LineBuffer::new();
    match buffer.receive(b" {\"id\":1") {
        Received::Lines(lines) => assert!(lines.is_empty()),
        Received::TooLong => panic!("short"),
    }
    match buffer.receive(b"}\r\n\n  \n{\"id\":2}\nrest") {
        Received::Lines(lines) => assert_eq!(lines, ["{\"id\":1}", "{\"id\":2}"]),
        Received::TooLong => panic!("short"),
    }
    assert_eq!(buffer.pending, b"rest");
    let big = vec![b'x'; 8189];
    assert!(matches!(buffer.receive(&big), Received::TooLong));
    assert_eq!(buffer.pending, b"rest");
    match buffer.receive(b"\xff\n") {
        Received::Lines(lines) => assert_eq!(lines, ["rest\u{fffd}"]),
        Received::TooLong => panic!("short"),
    }
}

#[test]
fn the_server_answers_what_it_cannot_take() {
    let code = |response: AgentResponse| shown(&response_document(&response))["error"].clone();
    assert_eq!(code(queue_full(Json::Null))["code"], "queue_full");
    assert_eq!(
        code(queue_closed(Json::Null))["message"],
        "game command queue is closed; game likely exited - check game.log"
    );
    assert_eq!(
        code(timed_out(Json::Null, Span::from_secs(2)))["message"],
        "game did not answer within 2000 ms"
    );
    assert!(code(too_long())["message"].is_string());
    assert_eq!(code(socket_error("broken".to_string()))["message"], "broken");
}

#[test]
fn names_are_compared_by_the_edits_between_them() {
    let bytes = |s: &str| s.as_bytes().to_vec();
    assert_eq!(edit_distance_with_cutoff(&bytes("right"), &bytes("rigth"), 3), Some(2));
    assert_eq!(edit_distance_with_cutoff(&bytes("rigth"), &bytes("right"), 3), Some(2));
    assert_eq!(edit_distance_with_cutoff(&bytes("left"), &bytes("left"), 0), Some(0));
    assert_eq!(edit_distance_with_cutoff(&bytes("a"), &bytes("wxyz"), 2), None);
    assert_eq!(KEY_CODE_NAMES[KeyCode { place: 0 }.place], KEY_CODE_NAMES[0]);
}

#[test]
fn numbers_are_written_and_read_back() {
    assert_eq!(decimal(0), "0");
    assert_eq!(decimal(340_282_366_920_938_463_463_374_607_431_768_211_455),
        "340282366920938463463374607431768211455");
    assert_eq!(decimal_six(42), "000042");
    assert_eq!(decimal_six(1_234_567), "1234567");
    assert_eq!(parse_number("1234", u64::MAX), Some(1234));
    assert_eq!(parse_number("+7", u64::MAX), Some(7));
    assert_eq!(parse_number("", u64::MAX), None);
    assert_eq!(parse_number("12x", u64::MAX), None);
    assert_eq!(parse_number("18446744073709551616", u64::MAX), None);
    assert_eq!(clip("grün", 3), "gr");
    assert_eq!(clip("grün", 4), "grü");
    assert!(text_at_most("abc", "abd"));
    assert!(!text_at_most("b", "abc"));
}

#[test]
fn json_is_read_and_written() {
    let json = match parse_json(r#"{"b":[1,-2,0.5,null,true],"a":"x","b":2}"#) {
        Ok(json) => json,
        Err(message) => panic!("{message}"),
    };
    assert_eq!(print_json(&json), r#"{"a":"x","b":2}"#);
    assert!(parse_json("{").is_err());
    match parse_json("0.25") {
        Ok(Json::Number(JsonNumber::Float(_))) => {}
        _ => panic!("a fraction"),
    }
    assert!(matches!(parse_json("-3"), Ok(Json::Number(JsonNumber::Negative(n))) if n.get() == -3));
}
