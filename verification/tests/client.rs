//! The client: what it sends, how it reads answers, and what it asserts on captures.
use bevy_agent_feedback::advance::{duration_from_nanos, request_fits, AdvancePlan, ChunkError};
use bevy_agent_feedback::client::{
    capture_value, check_version, default_max_wait_frames, exact_wire_seconds, marker_count,
    normalize_text, observation_value, positive_duration, process_alive, read_document,
    read_protocol, replay_line, run_tesseract, socket_error, state_equals, target_condition, transcript_record,
    Advance, AgentClient, AgentClientConfig, ClientError, OcrOptions, OcrOutcome, ProtocolFile,
    Region,
};
use bevy_agent_feedback::commands::{
    AgentCommand, ComparisonOperator, DiagnosticValue, MouseButton, MouseScrollUnit, Predicate,
    TargetKind, TargetSelector,
};
use bevy_agent_feedback::conditions::read_selector;
use bevy_agent_feedback::config::PROTOCOL_VERSION;
use bevy_agent_feedback::images::{
    changed_enough, close, color_pixel_count, decode, diff_images, image_has_color,
    validate_region, Picture, PictureFile, Rgba,
};
use bevy_agent_feedback::json::{parse_json, print_json, Json, JsonNumber};
use bevy_agent_feedback::responses::{ObservedPredicate, PredicateOutcome};
use bevy_agent_feedback::span::Span;
use bevy_agent_feedback::wire::parse_request;
use serde_json::Value;

fn json(text: &str) -> Json {
    match parse_json(text) {
        Ok(json) => json,
        Err(message) => panic!("{message}: {text}"),
    }
}

fn value(json: &Json) -> Value {
    serde_json::from_str(&print_json(json)).expect("printed JSON reads")
}

fn read(text: &str) -> Value {
    serde_json::from_str(text).expect("expected JSON")
}

fn text(s: &str) -> Json {
    Json::Text(s.to_string())
}

fn number(text: &str) -> JsonNumber {
    match json(text) {
        Json::Number(n) => n,
        _ => panic!("a number"),
    }
}

fn protocol() -> ProtocolFile {
    ProtocolFile {
        socket_addr: "127.0.0.1:1".to_string(),
        pid: 1,
        heartbeat_file: "heartbeat".to_string(),
        stale_after_ms: 10_000,
        max_wait_frames: 7,
        max_abort_predicates: 2,
        deterministic_time: false,
        max_time_advance_steps: 4,
        max_time_advance_seconds: number("3.0"),
    }
}

fn client_of(protocol: &ProtocolFile) -> Result<AgentClient, ClientError> {
    AgentClient::with_config(&AgentClientConfig::with_environment(None, None, None), protocol)
}

fn client() -> AgentClient {
    match client_of(&protocol()) {
        Ok(client) => client,
        Err(error) => panic!("{}", error.text()),
    }
}

fn sent(result: Result<Json, ClientError>) -> Value {
    match result {
        Ok(request) => value(&request),
        Err(error) => panic!("{}", error.text()),
    }
}

fn said<T>(result: Result<T, ClientError>) -> String {
    match result {
        Ok(_) => panic!("refused"),
        Err(error) => error.text(),
    }
}

fn named(name: &str, bytes: &[u8]) -> PictureFile {
    PictureFile { name: name.to_string(), bytes: bytes.to_vec() }
}

fn png(pixels: [[u8; 4]; 4]) -> PictureFile {
    let raw: Vec<u8> = pixels.iter().flatten().copied().collect();
    let buffer = image::ImageBuffer::<image::Rgba<u8>, _>::from_raw(2, 2, raw).expect("2x2");
    let mut file = std::io::Cursor::new(Vec::new());
    buffer.write_to(&mut file, image::ImageFormat::Png).expect("encode");
    named("capture.png", &file.into_inner())
}

const BLACK: [u8; 4] = [0, 0, 0, 255];
const RED: [u8; 4] = [255, 0, 0, 255];

fn region(x: u32, y: u32, width: u32, height: u32) -> Region {
    Region { x, y, width, height }
}

#[test]
fn image_diff_counts_changed_pixels() {
    let a = png([BLACK, BLACK, BLACK, BLACK]);
    let b = png([BLACK, BLACK, BLACK, RED]);
    let red = Rgba { red: 255, green: 0, blue: 0, alpha: 0 };

    assert!(matches!(AgentClient::pixel_diff(&a, &b), Ok(1)));
    assert!(matches!(AgentClient::region_diff(&a, &b, region(0, 0, 1, 1)), Ok(0)));
    assert!(AgentClient::assert_changed(&a, &b, 1).is_ok());
    assert!(said(AgentClient::assert_changed(&a, &b, 2)).contains("changed 1 pixels"));
    assert!(AgentClient::assert_region_changed(&a, &b, region(1, 1, 1, 1), 1).is_ok());
    assert!(AgentClient::assert_color_present(&b, red, None, 0, 1).is_ok());
    assert!(
        said(AgentClient::assert_color_present(&b, red, None, 0, 2)).contains("found 1 pixels")
    );
}

#[test]
fn images_are_decoded_row_by_row() {
    let file = png([[1, 2, 3, 4], [5, 6, 7, 8], [9, 10, 11, 12], [13, 14, 15, 16]]);
    match decode(&file) {
        Ok(picture) => {
            assert_eq!((picture.width, picture.height), (2, 2));
            assert_eq!(picture.pixels[2], Rgba { red: 9, green: 10, blue: 11, alpha: 12 });
        }
        Err(error) => panic!("{}", error.text()),
    }
    assert!(matches!(decode(&named("a.png", b"no image")), Err(ClientError::Assertion(_))));
    assert!(AgentClient::pixel_diff(&named("a.png", b"no image"), &file).is_err());
    assert!(decode(&named("capture.PNG", &file.bytes)).is_ok());
    assert!(said(decode(&named("capture.txt", &file.bytes))).contains("`.\"txt\"`"));
    assert!(decode(&named("capture.jpg", &file.bytes)).is_err());
    for name in ["capture", "capture.", ""] {
        let message = said(decode(&named(name, &file.bytes)));
        assert!(message.contains("The image format could not be determined"), "{message}");
    }
}

#[test]
fn regions_are_held_to_the_image() {
    let plain = |width: u32, height: u32| Picture {
        width,
        height,
        pixels: vec![
            Rgba { red: 10, green: 20, blue: 30, alpha: 255 };
            width as usize * height as usize
        ],
    };
    let a = plain(3, 2);
    assert_eq!(
        said(diff_images(&a, &plain(2, 2), None)),
        "image dimensions differ: (3, 2) vs (2, 2) (window resized; wait_until_stable + re-capture)"
    );
    assert_eq!(
        said(validate_region(3, 2, region(2, 0, 2, 1))),
        "region Region { x: 2, y: 0, width: 2, height: 1 } is outside image 3x2"
    );
    assert_eq!(
        said(validate_region(3, 2, region(u32::MAX, 0, 1, 1))),
        "region x + width overflowed u32"
    );
    assert_eq!(
        said(validate_region(3, 2, region(0, u32::MAX, 1, 1))),
        "region y + height overflowed u32"
    );
    assert!(validate_region(3, 2, region(0, 0, 0, 1)).is_err());
    let near = Rgba { red: 12, green: 18, blue: 30, alpha: 0 };
    assert!(matches!(color_pixel_count(&a, near, None, 2), Ok(6)));
    assert!(matches!(color_pixel_count(&a, near, None, 1), Ok(0)));
    assert!(matches!(image_has_color(&a, near, region(1, 1, 1, 1), 2), Ok(true)));
    assert!(close(3, 5, 2) && !close(3, 6, 2));
    assert!(changed_enough(&a, &a, None, 0).is_ok());
    assert!(changed_enough(&a, &a, None, 1).is_err());
}

#[test]
fn rejects_old_protocol_files() {
    let document = json(
        r#"{"protocol": "bevy-agent-feedback/1", "socket_addr": "127.0.0.1:1", "pid": 1, "heartbeat_file": "heartbeat", "stale_after_ms": 1000}"#,
    );
    let error = said(check_version(&document, "agent.json"));
    assert!(error.contains("expected bevy-agent-feedback/3"));
}

#[test]
fn rejects_unknown_protocol_files() {
    let error = said(check_version(&json("{}"), "agent.json"));
    assert!(error.contains("missing protocol"));
    let current = format!(r#"{{"protocol": "{PROTOCOL_VERSION}"}}"#);
    assert!(check_version(&json(&current), "agent.json").is_ok());
}

#[test]
fn rejects_stale_heartbeat() {
    let mut stale = protocol();
    stale.stale_after_ms = 1;
    let error = said(read_protocol(&stale, true, &Ok("1".to_string()), 1_000_000));
    assert!(error.contains("protocol stale"));
    assert_eq!(error, "protocol stale: heartbeat is 999999 ms old, stale after 1 ms");
}

#[test]
fn discovery_documents_are_judged() {
    let fresh = protocol();
    assert!(read_protocol(&fresh, true, &Ok(" 995000\n".to_string()), 1_000_000).is_ok());
    assert!(read_protocol(&fresh, true, &Ok("2000000".to_string()), 1_000_000).is_ok());
    assert_eq!(
        said(read_protocol(&fresh, false, &Ok("1".to_string()), 1)),
        "protocol stale: process 1 is not alive"
    );
    assert_eq!(
        said(read_protocol(&fresh, true, &Err("gone".to_string()), 1)),
        "protocol stale: failed to read heartbeat heartbeat: gone"
    );
    assert_eq!(
        said(read_protocol(&fresh, true, &Ok("soon".to_string()), 1)),
        "protocol stale: heartbeat is invalid: invalid digit found in string"
    );
    let document = format!(r#"{{"protocol": "{PROTOCOL_VERSION}", "pid": 5}}"#);
    match read_document(document.as_bytes(), "a.json") {
        Ok(json) => assert_eq!(value(&json)["pid"], 5),
        Err(error) => panic!("{}", error.text()),
    }
    assert!(matches!(read_document(b"{", "a.json"), Err(ClientError::Json(_))));
    assert!(said(read_document(b"{}", "a.json")).contains("unknown protocol file a.json"));
    assert!(process_alive(5, None));
    assert!(process_alive(5, Some(true)));
    assert!(!process_alive(5, Some(false)));
    assert!(!process_alive(0, Some(true)));
    assert_eq!(default_max_wait_frames(), 300);
    assert!(socket_error(true, "127.0.0.1:1", "refused").text().contains("127.0.0.1:1"));
}

#[test]
fn capabilities_that_cannot_work_are_refused() {
    let mut without = protocol();
    without.max_wait_frames = 0;
    assert_eq!(said(client_of(&without)), "protocol advertises zero max_wait_frames");
    let mut without = protocol();
    without.max_abort_predicates = 0;
    assert_eq!(said(client_of(&without)), "protocol advertises zero max_abort_predicates");
    let mut without = protocol();
    without.max_time_advance_steps = 0;
    assert_eq!(said(client_of(&without)), "protocol advertises zero max_time_advance_steps");
    let mut without = protocol();
    without.max_time_advance_seconds = number("-1");
    assert_eq!(
        said(client_of(&without)),
        "protocol max_time_advance_seconds must be finite and positive"
    );
}

#[test]
fn ocr_missing_binary_is_unavailable() {
    let options = OcrOptions::with_environment(Some("missing-tesseract".to_string()));

    let error = run_tesseract(&options, OcrOutcome::NotStarted("not found".to_string()));
    match error {
        Err(ClientError::OcrUnavailable(message)) => {
            assert_eq!(message, "tesseract unavailable at missing-tesseract: not found");
        }
        _ => panic!("unavailable"),
    }
}

#[test]
fn recognised_text_is_read() {
    let options = OcrOptions::with_environment(None);
    let ended = |success: bool, stdout: &[u8], stderr: &[u8]| OcrOutcome::Ended {
        success,
        stdout: stdout.to_vec(),
        stderr: stderr.to_vec(),
    };
    match run_tesseract(&options, ended(true, "Grüß".as_bytes(), b"")) {
        Ok(text) => assert_eq!(text, "Grüß"),
        Err(error) => panic!("{}", error.text()),
    }
    assert!(matches!(
        run_tesseract(&options, ended(true, b"\xff", b"")),
        Err(ClientError::Ocr(message)) if message.contains("invalid utf-8")
    ));
    assert!(matches!(
        run_tesseract(&options, ended(false, b"", b" no language \n")),
        Err(ClientError::OcrUnavailable(message)) if message == "no language"
    ));
    assert!(matches!(
        run_tesseract(&options, OcrOutcome::TimedOut),
        Err(ClientError::OcrUnavailable(message)) if message == "tesseract timed out after 5000 ms"
    ));
    assert!(matches!(
        run_tesseract(&options, OcrOutcome::Failed("x".to_string())),
        Err(ClientError::Ocr(_))
    ));
    assert_eq!(normalize_text("  Press\n START  Ä "), "press start ä");
    assert_eq!(normalize_text("  Hello\n\tWORLD "), "hello world");
    assert_eq!(normalize_text("hello\u{2003}World"), normalize_text("HELLO world\u{85}"));
    assert_eq!(normalize_text(&normalize_text(" A  b ")), "a b");
}

#[test]
fn exposes_capabilities_and_rejects_oversized_wait_before_transmission() {
    let mut client = client();
    assert_eq!(client.capabilities().max_wait_frames, 7);
    assert_eq!(client.capabilities().max_abort_predicates, 2);
    assert_eq!(client.max_wait_frames(), 7);
    let message = said(client.wait_frames(8));
    assert!(message.contains("frames=8"), "{message}");
    assert!(message.contains("server limit 7"), "{message}");
    assert!(message.contains("explicit bounded requests"), "{message}");
    let request = client.window_info();
    assert_eq!(sent(client.request(request)), read(r#"{"command": "window_info", "id": 1}"#));
}

const ABORTED: &str = r#"{"id": 1, "ok": false, "error": {"code": "predicate_aborted",
    "message": "abort predicate matched", "context": {"snapshot": {"frame": 42}}}}"#;

#[test]
fn semantic_abort_attaches_a_labeled_capture_to_the_original_error() {
    let client = client();
    let wait = sent(client.wait_for_with_abort(
        state_equals("GamePhase", text("Playing")),
        vec![state_equals("GamePhase", text("LoadFailed"))],
        3,
    ));
    assert_eq!(wait["command"], "wait_for");
    assert_eq!(wait["abort_predicates"].as_array().map(Vec::len), Some(1));
    let mut error = match client.read_answer(json(ABORTED)) {
        Ok(_) => panic!("semantic abort"),
        Err(error) => error,
    };
    let capture = client.failure_capture(&error).expect("a capture is asked for");
    assert_eq!(value(&capture)["command"], "capture");
    assert_eq!(value(&capture)["label"], "semantic-wait-failure");
    let answer = json(
        r#"{"id": 2, "ok": true, "result": {"status": "captured", "capture": {"path": "/captures/semantic-wait-failure.png", "label": "semantic-wait-failure"}}}"#,
    );
    let told = capture_value(&answer).expect("a capture");
    error.attach_failure_capture(json(&print_json(told)));
    let ClientError::Command { code, context, .. } = error else {
        panic!("expected command error");
    };
    assert_eq!(code, "predicate_aborted");
    assert_eq!(
        value(&context.expect("context"))["failure_capture"]["path"],
        "/captures/semantic-wait-failure.png"
    );
}

#[test]
fn capture_failure_does_not_replace_the_semantic_error() {
    let client = client();
    assert!(client.wait_for(state_equals("GamePhase", text("Playing")), 3).is_ok());
    let answer = json(
        r#"{"id": 1, "ok": false, "error": {"code": "predicate_timeout", "message": "deadline"}}"#,
    );
    let Err(error) = client.read_answer(answer) else {
        panic!("semantic timeout");
    };
    assert!(client.failure_capture(&error).is_some());
    let failed = json(
        r#"{"id": 2, "ok": false, "error": {"code": "capture_failed", "message": "no renderer"}}"#,
    );
    assert!(client.read_answer(failed).is_err());
    assert!(matches!(
        error,
        ClientError::Command { ref code, .. } if code == "predicate_timeout"
    ));
}

#[test]
fn requests_are_numbered_unless_they_have_an_identity() {
    let mut client = client();
    assert_eq!(sent(client.request(json(r#"{"command": "wait"}"#)))["id"], 1);
    assert_eq!(sent(client.request(json(r#"{"command": "wait", "id": "x"}"#)))["id"], "x");
    assert_eq!(sent(client.request(json(r#"{"command": "wait"}"#)))["id"], 3);
    assert_eq!(said(client.request(json("[]"))), "request must be a JSON object");
}

#[test]
fn lines_hold_their_requests() {
    let mut client = client();
    let request = json(r#"{"command": "capture", "label": "a\\b \"c\" \u0007 \u00e9", "n": -7}"#);
    let (request, line) = client.request_line(request).ok().expect("a line");
    assert!(!line.contains('\n'));
    assert_eq!(value(&json(&line)), value(&request));
    assert_eq!(value(&request)["id"], 1);
    assert_eq!(value(&request)["n"], -7);
    assert!(matches!(JsonNumber::signed(7), JsonNumber::Unsigned(7)));
    assert!(matches!(JsonNumber::signed(-7), JsonNumber::Negative(n) if n.get() == -7));
    assert_eq!(said(client.request_line(json("[]"))), "request must be a JSON object");
}

#[test]
fn requests_are_read_as_their_commands() {
    let mut client = client();
    let mut reads = |request: Json| {
        let line = match client.request(request) {
            Ok(request) => print_json(&request),
            Err(error) => panic!("{}", error.text()),
        };
        match parse_request(&line, 7, 7) {
            Ok(body) => body.command,
            Err(error) => panic!("{}", error.message),
        }
    };
    let maker = client_of(&protocol()).ok().expect("client");
    assert!(matches!(reads(maker.window_info()), AgentCommand::WindowInfo));
    assert!(matches!(reads(maker.release_all_inputs()), AgentCommand::ReleaseAllInputs));
    assert!(matches!(reads(maker.shutdown()), AgentCommand::Shutdown));
    assert!(matches!(
        reads(maker.wait_frames(5).ok().expect("wait")),
        AgentCommand::Wait { frames: 5 }
    ));
    assert!(matches!(reads(maker.key_down("KeyW")), AgentCommand::KeyDown(_)));
    assert!(matches!(
        reads(maker.click(number("3"), number("4.5"), "Left")),
        AgentCommand::Click { frames: 1, .. }
    ));
    assert!(matches!(reads(maker.capture()), AgentCommand::Capture { label: None }));
    match reads(maker.wait_for_marker_present("Enemy", 3).ok().expect("wait")) {
        AgentCommand::WaitFor { predicate, max_frames, .. } => {
            assert_eq!(max_frames, 3);
            assert!(matches!(
                predicate,
                Predicate::MarkerCount { ref marker, min: Some(1), max: None } if marker == "Enemy"
            ));
        }
        _ => panic!("a wait"),
    }
    match reads(maker.click_named("Start").ok().expect("click")) {
        AgentCommand::ClickTarget { target, frames, .. } => {
            assert!(matches!(target, TargetSelector::Name(name) if name == "Start"));
            assert_eq!(frames, 1);
        }
        _ => panic!("a click"),
    }
    assert!(matches!(reads(maker.key_up("KeyW")), AgentCommand::KeyUp(_)));
    assert!(matches!(reads(maker.key_tap("KeyW")), AgentCommand::KeyHold { frames: 1, .. }));
    assert!(matches!(reads(maker.key_hold("KeyW", 6)), AgentCommand::KeyHold { frames: 6, .. }));
    assert!(matches!(reads(maker.mouse_down("Right")), AgentCommand::MouseDown(MouseButton::Right)));
    assert!(matches!(reads(maker.mouse_up("Right")), AgentCommand::MouseUp(MouseButton::Right)));
    match reads(maker.cursor_move(number("3"), number("-4.5"))) {
        AgentCommand::CursorMove { position } => {
            assert_eq!((f32::from_bits(position.x), f32::from_bits(position.y)), (3.0, -4.5));
        }
        _ => panic!("a move"),
    }
    match reads(maker.scroll(number("-2"))) {
        AgentCommand::MouseScroll { delta, unit } => {
            assert_eq!((f32::from_bits(delta.x), f32::from_bits(delta.y)), (0.0, -2.0));
            assert!(matches!(unit, MouseScrollUnit::Line));
        }
        _ => panic!("a scroll"),
    }
    match reads(maker.drag("Left", (number("1"), number("2")), (number("3"), number("4")), 5, 6)) {
        AgentCommand::Drag { from, to, button, steps, frames } => {
            assert_eq!((f32::from_bits(from.x), f32::from_bits(from.y)), (1.0, 2.0));
            assert_eq!((f32::from_bits(to.x), f32::from_bits(to.y)), (3.0, 4.0));
            assert!(matches!(button, MouseButton::Left));
            assert_eq!((steps, frames), (5, 6));
        }
        _ => panic!("a drag"),
    }
    match reads(maker.wait_seconds(&number("0.5"), Some(4)).ok().expect("wait")) {
        AgentCommand::WaitSeconds { duration, max_frames } => {
            assert_eq!((duration.nanos, max_frames), (500_000_000, 4));
        }
        _ => panic!("a wait"),
    }
    match reads(maker.advance_time_request(250_000_000, Span::from_millis(125)).ok().expect("step")) {
        AgentCommand::AdvanceTime { duration, step } => {
            assert_eq!(duration.nanos, 250_000_000);
            assert_eq!(step.expect("a step").nanos, 125_000_000);
        }
        _ => panic!("an advance"),
    }
    match reads(maker.capture_after_frames(2, Some("menu")).ok().expect("capture")) {
        AgentCommand::CaptureAfterFrames { frames, label } => {
            assert_eq!((frames, label.as_deref()), (2, Some("menu")));
        }
        _ => panic!("a capture"),
    }
    match reads(maker.resource_info(Some("Stats"), None)) {
        AgentCommand::ResourceInfo { resource, field } => {
            assert_eq!((resource.as_deref(), field), (Some("Stats"), None));
        }
        _ => panic!("a resource"),
    }
    match reads(maker.evaluate_predicate(state_equals("Phase", text("Play")))) {
        AgentCommand::EvaluatePredicate { predicate: Predicate::StateEquals { state, value } } => {
            assert_eq!(state, "Phase");
            assert!(matches!(value, DiagnosticValue::String(s) if s == "Play"));
        }
        _ => panic!("an evaluation"),
    }
    let teardown = maker.shutdown_game();
    assert_eq!(value(&teardown[0])["command"], "release_all_inputs");
    assert_eq!(value(&teardown[1])["command"], "shutdown");
}

#[test]
fn answers_are_read() {
    let mut client = client();
    assert!(client.read_answer(json(r#"{"id": 1, "ok": true}"#)).is_ok());
    assert_eq!(
        said(client.read_answer(json(r#"{"id": 1}"#))),
        "command failed [command_failed]: game returned an error"
    );
    assert_eq!(
        said(client.read_answer(json(ABORTED))),
        "command failed [predicate_aborted]: abort predicate matched; context={\"snapshot\":{\"frame\":42}}"
    );
    client.record_response_context(Some("shot.png".to_string()), None);
    let late = json(r#"{"id": 1, "ok": false, "error": {"code": "timeout", "message": "late"}}"#);
    assert_eq!(
        said(client.read_answer(late)),
        "command failed [timeout]: late; last captured frame: shot.png"
    );
    assert_eq!(
        client.read_error(true, "x").text(),
        "agent request timed out after 10000 ms; last captured frame: shot.png"
    );
    assert_eq!(client.read_error(false, "broken pipe").text(), "broken pipe");
    assert_eq!(client.last_capture_info().map(String::as_str), Some("shot.png"));
    assert!(client.last_observation().is_none());
    client.record_response_context(
        None,
        Some(ObservedPredicate {
            predicate: Predicate::MarkerCount { marker: "A".to_string(), min: None, max: Some(0) },
            outcome: PredicateOutcome::Matched,
            value: None,
            count: Some(0),
            count_is_lower_bound: false,
        }),
    );
    assert_eq!(client.last_observation().map(|seen| seen.count), Some(Some(0)));
    assert_eq!(client.last_capture_info().map(String::as_str), Some("shot.png"));
    assert!(observation_value(&json(r#"{"result": {"details": 1}}"#)).is_some());
    assert!(client.wait_for_disconnect(false).is_ok());
    assert!(client.wait_for_disconnect(true).is_err());
}

#[test]
fn conditions_are_written_for_waits_and_assertions() {
    let client = client();
    assert_eq!(
        sent(client.wait_for_state("Phase", text("Play"), 3)),
        read(
            r#"{"command": "wait_for", "max_frames": 3,
                "predicate": {"type": "state_equals", "state": "Phase", "value": "Play"}}"#
        )
    );
    assert_eq!(
        sent(client.wait_for_state_with_abort("Phase", text("Play"), &vec![text("Fail")], 3))
            ["abort_predicates"],
        read(r#"[{"type": "state_equals", "state": "Phase", "value": "Fail"}]"#)
    );
    assert_eq!(
        said(client.wait_for_state_with_abort(
            "Phase",
            text("Play"),
            &vec![text("a"), text("b"), text("c")],
            3
        )),
        "abort_predicates has 3 items, but server supports 2; reduce abort predicates or configure separate explicit waits"
    );
    assert_eq!(said(client.wait_for_state("P", text("x"), 0)), "max_frames must be greater than zero");
    assert!(said(client.wait_for_marker_absent("A", 8)).contains("max_frames=8"));
    assert_eq!(
        sent(client.wait_for_resource("Score", "value", ComparisonOperator::Gte, json("10"), 2))
            ["predicate"],
        read(
            r#"{"type": "resource_field", "resource": "Score", "field": "value", "operator": "gte", "value": 10}"#
        )
    );
    assert_eq!(
        value(&client.assert_marker_absent("Enemy")),
        read(
            r#"{"command": "evaluate_predicate",
                "predicate": {"type": "marker_count", "marker": "Enemy", "min": null, "max": 0}}"#
        )
    );
    let target = TargetSelector::Marker("Door".to_string());
    assert_eq!(
        value(&client.assert_target_absent(&target, TargetKind::World, Some("Main")))["predicate"],
        read(
            r#"{"type": "target_absent", "target": {"marker": "Door"}, "kind": "world", "camera": "Main"}"#
        )
    );
    assert_eq!(
        value(&target_condition(true, &target, TargetKind::Any, None))["type"],
        "target_exists"
    );
    assert_eq!(value(&marker_count("A", Some(1), Some(2)))["max"], 2);
    assert!(client.assert_predicate(PredicateOutcome::Matched, "x").is_ok());
    assert_eq!(
        said(client.assert_predicate(PredicateOutcome::Indeterminate, "seen")),
        "predicate assertion did not match: seen"
    );
}

#[test]
fn fields_and_selectors_are_read_back() {
    let client = client();
    let field = |details: &str| client.read_resource_field(&json(details));
    assert!(matches!(field(r#"{"value": null}"#), Ok(DiagnosticValue::Null)));
    assert!(matches!(field("{}"), Ok(DiagnosticValue::Null)));
    assert!(matches!(field(r#"{"value": true}"#), Ok(DiagnosticValue::Bool(true))));
    match field(r#"{"value": 3}"#) {
        Ok(DiagnosticValue::Number(bits)) => assert_eq!(f64::from_bits(bits), 3.0),
        _ => panic!("a number"),
    }
    match field(r#"{"value": 0.25}"#) {
        Ok(DiagnosticValue::Number(bits)) => assert_eq!(f64::from_bits(bits), 0.25),
        _ => panic!("a number"),
    }
    assert_eq!(
        said(field(r#"{"value": []}"#)),
        "invalid resource field response (data did not match any variant of untagged enum DiagnosticValue): {\"value\":[]}"
    );
    let read = |text: &str| read_selector(&json(text));
    assert!(matches!(read(r#"{"name": "a"}"#), Ok(TargetSelector::Name(s)) if s == "a"));
    assert!(matches!(read(r#"{"Marker": "m"}"#), Ok(TargetSelector::Marker(s)) if s == "m"));
    assert_eq!(
        read(r#"{"name": "a", "marker": "b"}"#).err().as_deref(),
        Some("target selector must contain exactly one field")
    );
    assert_eq!(
        read(r#"{"name": 1}"#).err().as_deref(),
        Some("target selector must be a string")
    );
    assert_eq!(
        read("{}").err().as_deref(),
        Some("target selector must contain exactly one known field")
    );
    assert_eq!(read("3").err().as_deref(), Some("invalid type: integer `3`, expected a map"));
}

#[test]
fn lengths_of_time_are_sent_exactly() {
    let client = client();
    assert_eq!(
        sent(client.wait_seconds(&number("0.5"), None)),
        read(r#"{"command": "wait_seconds", "seconds": 0.5, "max_frames": 7}"#)
    );
    assert!(client.wait_seconds(&number("0"), None).is_err());
    assert!(client.wait_seconds(&number("1"), Some(8)).is_err());
    match client.advance_time(&number("2"), None) {
        Ok(Advance::Once(request)) => {
            assert_eq!(value(&request), read(r#"{"command": "advance_time", "seconds": 2.0}"#));
        }
        _ => panic!("one request"),
    }
    assert!(client.advance_time(&number("4"), None).is_err());
    let mut plan = match client.advance_time(&number("10"), Some(&number("0.5"))) {
        Ok(Advance::Chunked(plan)) => plan,
        _ => panic!("a plan"),
    };
    let mut total: u128 = 0;
    let mut requests = 0;
    loop {
        match plan.next_chunk() {
            Ok(chunk) => {
                assert!(chunk.nanos <= 2_000_000_000);
                assert!(client.advance_time_request(chunk.nanos, Span::from_millis(500)).is_ok());
                total += chunk.nanos;
                requests += 1;
                if chunk.last {
                    break;
                }
            }
            Err(error) => panic!("{}", error.text()),
        }
    }
    assert_eq!(total, 10_000_000_000);
    assert_eq!(requests, 5);
    let mut stuck = AdvancePlan::new(Span::from_secs(9), Span::from_secs(4), Span::from_secs(3), 4);
    assert_eq!(stuck.next_chunk(), Err(ChunkError::NoWholeStep));
    assert!(request_fits(10, 3, 100, 4));
    assert!(!request_fits(10, 3, 100, 3));
    assert_eq!(duration_from_nanos(5), Some(Span { nanos: 5 }));
    assert_eq!(duration_from_nanos(u128::MAX), None);
    assert!(matches!(positive_duration("seconds", &number("1.5")), Ok(span) if span == Span::from_millis(1500)));
    assert!(positive_duration("seconds", &number("-2")).is_err());
    assert!(exact_wire_seconds("chunk", Span::from_millis(250)).is_ok());
    assert!(exact_wire_seconds("chunk", Span { nanos: 18_014_398_509_481_985_000_000_001 }).is_err());
}

#[test]
fn transcripts_are_written_and_replayed() {
    let record = transcript_record(5, 2, &json(r#"{"command": "wait"}"#), &json(r#"{"ok": true}"#));
    assert_eq!(
        print_json(&record),
        r#"{"duration_ms":2,"request":{"command":"wait"},"response":{"ok":true},"ts_ms":5}"#
    );
    match replay_line(&print_json(&record)) {
        Ok(Some(request)) => assert_eq!(print_json(&request), r#"{"command":"wait"}"#),
        _ => panic!("a request"),
    }
    match replay_line(r#"{"command":"capture"}"#) {
        Ok(Some(request)) => assert_eq!(value(&request)["command"], "capture"),
        _ => panic!("a request"),
    }
    assert!(matches!(replay_line("  \t"), Ok(None)));
    assert!(matches!(replay_line("{"), Err(ClientError::Json(_))));
}
