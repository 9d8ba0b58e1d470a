//! Runs: their lifecycle, their summaries, what a failed run tells, and the check of the
//! installation.
use bevy_agent_feedback::arguments::RequiredWindowSize;
use bevy_agent_feedback::client::{AgentClient, AgentClientConfig, ProtocolFile};
use bevy_agent_feedback::doctor::{
    check_capture_dir, check_protocol, check_python_import, check_python_version, clean_output,
    exit_code, report_protocol_capabilities, without_additive_capabilities, Probe,
};
use bevy_agent_feedback::documents::Document;
use bevy_agent_feedback::evidence::{
    deduplicated_log_tail, looks_like_timestamp, normalize_log_line, read_transcript_evidence,
    render_failure, render_semantic_evidence, semantic_capture_path, FailureFiles, Tail,
    SEMANTIC_EVIDENCE_MAX_BYTES,
};
use bevy_agent_feedback::evidence;
use bevy_agent_feedback::json::{parse_json, print_json, Json, JsonNumber};
use bevy_agent_feedback::lines::{
    contains_text, join_lines, lines, single_spaced, starts_with, trim, trim_end,
};
use bevy_agent_feedback::runner::{
    exit_category, inspect_window_contract, not_ready, read_window, ready_info, run_driver,
    run_prepare, spawn_error, wait_ready, wait_step, window_diagnostic, Action, ChildOutcome, ClientTeardown,
    Ending, Event, ExitInfo, Lifecycle, Plan, ProcessExit, ReadyStep, RunFailure, TeardownSummary, WaitStep,
};
use bevy_agent_feedback::span::Span;
use bevy_agent_feedback::summary::{
    empty_summary, run_document, ArtifactSummary, LaunchSummary, RunResult, RunSummary,
    WindowSummary,
};
use bevy_agent_feedback::transcript::{
    append_transcript_context, captures_to_copy, fail_run, is_png, newest_png, print_screenshots,
    tail_lines, write_failure_artifacts, FailureContext, FoundFile, TranscriptScan,
    DIAGNOSTIC_BLOCK_MAX_BYTES,
};
use serde_json::Value;

fn json(text: &str) -> Json {
    match parse_json(text) {
        Ok(json) => json,
        Err(message) => panic!("{message}: {text}"),
    }
}

fn value(json: &Json) -> Value {
    serde_json::from_str(&print_json(json)).expect("printed JSON reads")
}

fn read(text: &str) -> Value {
    serde_json::from_str(text).expect("expected JSON")
}

fn shown(document: &Document) -> Value {
    match document {
        Document::Null => Value::Null,
        Document::Bool(b) => Value::Bool(*b),
        Document::Whole(n) => Value::from(*n as u64),
        Document::Single(bits) => Value::from(f32::from_bits(*bits)),
        Document::Double(bits) => Value::from(f64::from_bits(*bits)),
        Document::Seconds(span) => {
            Value::from(std::time::Duration::from_nanos(span.nanos as u64).as_secs_f64())
        }
        Document::Text(s) => Value::from(s.clone()),
        Document::Array(items) => Value::Array(items.iter().map(shown).collect()),
        Document::Object(fields) => Value::Object(
            fields.iter().map(|(name, field)| (name.to_string(), shown(field))).collect(),
        ),
        Document::Plain(json) => value(json),
    }
}

fn words(list: &[&str]) -> Vec<String> {
    list.iter().map(|word| word.to_string()).collect()
}

fn exited(success: bool, code: Option<i32>, text: &str) -> ExitInfo {
    ExitInfo { success, code, text: text.to_string() }
}

#[test]
fn spawn_error_hints_when_executable_contains_whitespace() {
    let error = spawn_error("--game", &words(&["cargo run --features agent"]), "missing");

    assert!(
        error.contains("spawn --game [\"cargo run --features agent\"]: missing"),
        "{error}"
    );
    assert!(error.contains("pass each argv word separately"), "{error}");
    assert_eq!(
        spawn_error("--game", &words(&["cargo", "run"]), "missing"),
        "spawn --game [\"cargo\", \"run\"]: missing"
    );
}

#[test]
fn copies_only_png_captures_sorted() {
    let copied = captures_to_copy(&words(&[
        "capture-000002-b.png",
        "capture-000001-a.png",
        "notes.txt",
    ]));

    assert_eq!(copied, ["capture-000001-a.png", "capture-000002-b.png"]);
    assert!(is_png("a.png"));
    assert!(!is_png(".png"));
    assert!(!is_png("a.PNG"));
}

fn scan(transcript: &str) -> Option<Json> {
    let mut scan = TranscriptScan::new();
    scan.feed(transcript.as_bytes());
    scan.transcript_diagnostic_context()
}

#[test]
fn transcript_prefers_latest_error_context_over_later_diagnostic_details() {
    let context = scan(concat_lines(&[
        r#"{"response": {"error": {"context": {"error": "older"}}}}"#,
        r#"{"response": {"error": {"context": {"error": "latest", "frame": 41}}}}"#,
        r#"{"request": {"command": "evaluate_predicate"}, "response": {"result": {"status": "predicate_evaluated", "details": {"matched": true, "frame": 42}}}}"#,
    ]).as_str());

    assert_eq!(
        context.map(|json| value(&json)),
        Some(read(r#"{"error": "latest", "frame": 41}"#))
    );
}

fn concat_lines(records: &[&str]) -> String {
    records.iter().map(|record| format!("{record}\n")).collect()
}

#[test]
fn transcript_uses_latest_diagnostic_details_without_error_context() {
    let context = scan(concat_lines(&[
        r#"{"response": {"result": {"status": "target_info", "details": {"target": "older"}}}}"#,
        r#"{"request": {"command": "ecs_summary"}, "response": {"result": {"status": "ok", "details": {"entities": 17, "frame": 73}}}}"#,
        r#"{"request": {"command": "wait_seconds"}, "response": {"result": {"status": "waited", "details": {"frames": 2}}}}"#,
    ]).as_str());

    assert_eq!(
        context.map(|json| value(&json)),
        Some(read(r#"{"entities": 17, "frame": 73}"#))
    );
}

#[test]
fn diagnostic_context_block_is_capped_at_eight_kibibytes() {
    let record = format!(
        r#"{{"response": {{"error": {{"context": {{"message": "prefix-{}-suffix"}}}}}}}}"#,
        "x".repeat(20 * 1024)
    );
    let context = scan(&format!("{record}\n"));
    let mut summary = String::new();

    append_transcript_context(&mut summary, context.as_ref());

    assert!(
        summary.len() <= DIAGNOSTIC_BLOCK_MAX_BYTES,
        "diagnostic block was {} bytes",
        summary.len()
    );
    assert!(summary.starts_with("diagnostic context:\n"));
    assert!(summary.contains("\"truncated\":true"));
    assert!(summary.contains("prefix-"));
    assert!(!summary.contains("-suffix"));
    let rendered = summary
        .strip_prefix("diagnostic context:\n")
        .and_then(|value| value.strip_suffix('\n'))
        .expect("bounded diagnostic block");
    serde_json::from_str::<Value>(rendered).expect("truncated context remains valid JSON");
}

#[test]
fn cut_texts_stay_small_however_they_are_escaped() {
    assert_eq!(
        print_json(&json(r#"{"context_json_prefix":"","truncated":true}"#)).len(),
        43
    );
    let controls = "\u{1}".repeat(9000);
    let context = Json::Object(vec![("m".to_string(), Json::Text(controls))]);
    let rendered = render_semantic_evidence(&context);
    assert!(rendered.len() <= SEMANTIC_EVIDENCE_MAX_BYTES);
    assert_eq!(read(&rendered)["truncated"], true);
}

#[test]
fn transcript_ignores_malformed_lines_and_trailing_partial_record() {
    let valid = r#"{"response": {"result": {"status": "resource_info", "details": {"resource": "Score", "value": 99}}}}"#;
    let context = scan(&format!("not JSON\n{valid}\n{{\"response\":{{\"error\":"));

    assert_eq!(
        context.map(|json| value(&json)),
        Some(read(r#"{"resource": "Score", "value": 99}"#))
    );
}

#[test]
fn transcript_without_complete_diagnostic_context_reports_unavailable() {
    let cases: [(&str, Option<Vec<u8>>); 5] = [
        ("empty", Some(Vec::new())),
        ("malformed", Some(b"not JSON\n\xff\n".to_vec())),
        (
            "partial",
            Some(br#"{"response":{"error":{"context":{"reason":"unfinished"}}}}"#.to_vec()),
        ),
        (
            "request-only",
            Some(br#"{"request":{"command":"ecs_summary"}}"#.to_vec()),
        ),
        ("missing", None),
    ];

    for (name, bytes) in cases {
        let context = match bytes {
            Some(bytes) => {
                let mut scan = TranscriptScan::new();
                scan.feed(&bytes);
                scan.transcript_diagnostic_context()
            }
            None => None,
        };
        let mut summary = String::new();

        append_transcript_context(&mut summary, context.as_ref());

        assert_eq!(
            summary, "diagnostic context unavailable\n",
            "unexpected context for {name}"
        );
    }
}

#[test]
fn transcripts_read_the_same_in_any_pieces() {
    let whole = concat_lines(&[
        r#"{"response": {"error": {"context": {"n": 1}}}}"#,
        r#"{"response": {"error": {"context": {"n": 2}}}}"#,
    ]);
    let mut scan = TranscriptScan::new();
    for byte in whole.as_bytes() {
        scan.feed(&[*byte]);
    }
    assert_eq!(
        scan.transcript_diagnostic_context().map(|json| print_json(&json)),
        Some(r#"{"n":2}"#.to_string())
    );
    let mut scan = TranscriptScan::new();
    scan.feed(&vec![b'x'; 70_000]);
    scan.feed(b"\n{\"response\": {\"error\": {\"context\": {\"n\": 3}}}}\n");
    assert_eq!(
        scan.transcript_diagnostic_context().map(|json| print_json(&json)),
        Some(r#"{"n":3}"#.to_string())
    );
}

#[test]
fn fail_run_preserves_original_failure_capture_and_log_tails() {
    let game_lines = (0..25)
        .map(|line| format!("game-line-{line:02}"))
        .collect::<Vec<_>>()
        .join("\n");
    let driver_lines = (0..23)
        .map(|line| format!("driver-line-{line:02}"))
        .collect::<Vec<_>>()
        .join("\n");
    let files = [FoundFile {
        path: "captures/failure-frame.png".to_string(),
        name: "failure-frame.png".to_string(),
        modified: 1,
    }];
    let newest = newest_png(&files).map(|place| files[place].path.as_str());
    let context = scan(
        "{\"response\": {\"error\": {\"context\": {\"predicate\": \"target_exists\", \"matched\": false}}}}\n",
    );
    let original = "driver exited with status exit status: 7\n".to_string();

    let summary = write_failure_artifacts(
        &original,
        &FailureContext {
            game_log: "artifacts/game.log",
            driver_log: Some("artifacts/driver.log"),
            newest_capture: newest,
            game_tail: Some(game_lines.as_bytes()),
            driver_tail: Some(driver_lines.as_bytes()),
            context: context.as_ref(),
        },
    );
    let error = fail_run("artifacts", &summary);

    assert!(summary.starts_with(&original), "{summary}");
    assert!(error.contains(&original), "{error}");
    assert!(summary.contains("game log: artifacts/game.log"), "{summary}");
    assert!(summary.contains("driver log: artifacts/driver.log"), "{summary}");
    assert!(
        summary.contains("newest capture: captures/failure-frame.png"),
        "{summary}"
    );
    assert!(!summary.contains("game-line-04"), "{summary}");
    assert!(summary.contains("game-line-05"), "{summary}");
    assert!(!summary.contains("driver-line-02"), "{summary}");
    assert!(summary.contains("driver-line-03"), "{summary}");
    assert!(
        summary.contains(r#"{"matched":false,"predicate":"target_exists"}"#),
        "{summary}"
    );
}

#[test]
fn the_newest_screenshot_is_found() {
    let file = |name: &str, modified: i128| FoundFile {
        path: format!("d/{name}"),
        name: name.to_string(),
        modified,
    };
    let files = [file("a.png", 3), file("b.txt", 9), file("c.png", 7), file("d.png", 7)];
    assert!(newest_png(&files).is_some());
    assert_eq!(evidence::newest_png(&files), Some(2));
    assert_eq!(evidence::newest_png(&[file("b.txt", 9)]), None);
    assert_eq!(print_screenshots(&[]), ["screenshots: none captured"]);
    let paths: Vec<String> = (0..12).map(|n| format!("p{n}")).collect();
    let listing = print_screenshots(&paths);
    assert_eq!(listing[0], "screenshots (12):");
    assert_eq!(listing[1], "  p0");
    assert_eq!(listing[11], "  +2 more");
    assert_eq!(listing.len(), 12);
}

#[test]
fn normalizes_ansi_timestamps_and_whitespace() {
    assert_eq!(
        normalize_log_line("\u{1b}[2m2026-07-10T10:11:12Z\u{1b}[0m  INFO   game: ready"),
        "INFO game: ready"
    );
    assert!(looks_like_timestamp("2026-07-10T10:11:12Z"));
    assert!(!looks_like_timestamp("INFO"));
}

#[test]
fn semantic_evidence_is_bounded_and_remains_json() {
    let context = Json::Object(vec![(
        "message".to_string(),
        Json::Text(format!("prefix-{}-suffix", "x".repeat(20 * 1024))),
    )]);

    let rendered = render_semantic_evidence(&context);

    assert!(rendered.len() <= SEMANTIC_EVIDENCE_MAX_BYTES);
    assert!(rendered.contains("\"truncated\":true"));
    assert!(rendered.contains("prefix-"));
    assert!(!rendered.contains("-suffix"));
    serde_json::from_str::<Value>(&rendered).expect("valid truncated JSON");
    assert_eq!(render_semantic_evidence(&json(r#"{"b": 1, "a": 2}"#)), r#"{"a":2,"b":1}"#);
}

fn whole(text: &str) -> Option<Tail> {
    Some(Tail { bytes: text.as_bytes().to_vec(), cut: false })
}

#[test]
fn failure_report_is_ordered_deduplicated_and_prefers_post_failure_capture() {
    let root = "root";
    let files = FailureFiles {
        transcript: whole(&concat_lines(&[
            r#"{"response": {"error": {"context": {"latest_capture": {"path": "/captures/loading.png"}, "observed_predicate": {"outcome": "not_matched", "value": 17}}}}}"#,
            r#"{"response": {"result": {"status": "captured", "capture": {"label": "semantic-wait-failure", "path": "/captures/semantic-wait-failure.png"}}}}"#,
        ])),
        game_log: whole(
            "2026-07-10T10:00:00Z INFO game: loading\n2026-07-10T10:00:01Z WARN retry\n",
        ),
        driver_log: whole(
            "\u{1b}[33m2026-07-10T10:00:02Z\u{1b}[0m WARN retry\ndiagnostic context: repeated\nassertion failed\n",
        ),
        newest_screenshot: None,
    };
    let path = |name: &str| format!("{root}/{name}");
    let summary = RunSummary {
        schema_version: 1,
        result: RunResult {
            success: false,
            code: "driver_nonzero_exit",
            message: "driver exited with status 7".to_string(),
        },
        phase: "driver",
        elapsed_ms: 1,
        timings_ms: Vec::new(),
        launch: LaunchSummary {
            prepare_command: None,
            game_command: words(&["game"]),
            driver_command: Some(words(&["driver"])),
            caller_cwd: root.to_string(),
            game_cwd: root.to_string(),
        },
        artifacts: ArtifactSummary {
            directory: root.to_string(),
            run_summary: path("run-summary.json"),
            failure_summary: Some(path("failure-summary.txt")),
            game_log: path("game.log"),
            prepare_log: None,
            driver_log: Some(path("driver.log")),
            protocol: path("protocol.json"),
            transcript: path("transcript.jsonl"),
            screenshots: path("screenshots"),
        },
        window: WindowSummary { required_logical: None, actual: None },
        process_exit: ProcessExit::Nonzero,
        teardown: TeardownSummary {
            input_release: "acknowledged",
            shutdown_acknowledgment: "acknowledged",
            socket_closure: "closed",
            child_exit: "exited",
            forced_termination: false,
        },
        warnings: Vec::new(),
    };
    let failure = RunFailure {
        phase: "driver",
        code: "driver_nonzero_exit",
        message: "driver exited with status 7".to_string(),
    };

    let report = render_failure(&failure, &summary, &files);
    let expected = format!(
        "[driver_nonzero_exit] driver exited with status 7\nphase: driver\nsemantic evidence: {{\"latest_capture\":{{\"path\":\"/captures/loading.png\"}},\"observed_predicate\":{{\"outcome\":\"not_matched\",\"value\":17}}}}\ncapture: /captures/semantic-wait-failure.png\nlog tail (deduplicated, max 20):\n  [game] INFO game: loading\n  [game] WARN retry\n  [driver] assertion failed\nartifacts:\n  run summary: {}\n  game log: {}\n  driver log: {}\n  transcript: {}\n  screenshots: {}\nteardown: inputs=acknowledged shutdown=acknowledged socket=closed child=exited forced=false\n",
        path("run-summary.json"),
        path("game.log"),
        path("driver.log"),
        path("transcript.jsonl"),
        path("screenshots"),
    );
    assert_eq!(report, expected);
    assert!(!report.contains("diagnostic context: repeated"));
    assert_eq!(report.matches("WARN retry").count(), 1);
}

#[test]
fn evidence_is_read_from_whole_lines() {
    let record = r#"{"response": {"error": {"context": {"n": 1}}}}"#;
    let cut = Tail { bytes: format!("{record}\n{record}x\n").into_bytes(), cut: true };
    assert!(read_transcript_evidence(&cut).semantic.is_none());
    let read = read_transcript_evidence(&Tail { bytes: format!("{record}\n").into_bytes(), cut: false });
    assert_eq!(read.semantic.map(|json| print_json(&json)), Some(r#"{"n":1}"#.to_string()));
    assert_eq!(
        semantic_capture_path(Some(&json(r#"{"latest_capture": {"path": "p"}}"#))),
        Some("p".to_string())
    );
    assert_eq!(semantic_capture_path(None), None);
    let tail = deduplicated_log_tail(&whole("a\nb\na\n"), &whole("b\nc\n"), None);
    assert_eq!(tail.len(), 3);
}

fn observed(text: &str) -> bevy_agent_feedback::runner::ObservedWindow {
    match read_window(&json(text)) {
        Some(window) => window,
        None => panic!("a window"),
    }
}

const WINDOW: &str = r#"{"logical_width": 955.0, "logical_height": 1170.0, "physical_width": 1910,
    "physical_height": 2340, "scale_factor": 2.0, "cursor_position": [100.0, 100.0],
    "focused": true, "visible": true, "mode": "windowed"}"#;

fn test_summary(required: Option<RequiredWindowSize>) -> RunSummary {
    empty_summary(
        LaunchSummary {
            prepare_command: None,
            game_command: words(&["game"]),
            driver_command: None,
            caller_cwd: "root".to_string(),
            game_cwd: "root".to_string(),
        },
        ArtifactSummary {
            directory: "root".to_string(),
            run_summary: "root/run-summary.json".to_string(),
            failure_summary: None,
            game_log: "root/game.log".to_string(),
            prepare_log: None,
            driver_log: None,
            protocol: "root/protocol-artifact.json".to_string(),
            transcript: "root/transcript.jsonl".to_string(),
            screenshots: "root/screenshots".to_string(),
        },
        required,
    )
}

#[test]
fn mismatch_is_stable_and_records_required_and_actual_dimensions() {
    let required = RequiredWindowSize { width: 1280, height: 720 };
    let mut summary = test_summary(Some(required));

    let failure =
        inspect_window_contract(required, &observed(WINDOW)).expect("window must mismatch");
    summary.window.actual = Some(observed(WINDOW));

    assert_eq!(failure.code, "window_size_mismatch");
    assert_eq!(
        failure.message,
        "required logical window 1280x720, observed 955x1170"
    );
    assert_eq!(
        window_diagnostic(
            required,
            summary.window.actual.as_ref().expect("actual window")
        ),
        "bevy-feedback window: required_logical=1280x720 actual_logical=955x1170 actual_physical=1910x2340 scale_factor=2"
    );
    let json = shown(&run_document(&summary));
    assert_eq!(json["window"]["required_logical"]["width"], 1280);
    assert_eq!(json["window"]["required_logical"]["height"], 720);
    assert_eq!(json["window"]["actual"]["logical_width"], 955.0);
    assert_eq!(json["window"]["actual"]["logical_height"], 1170.0);
    assert_eq!(json["window"]["actual"]["physical_width"], 1910);
    assert_eq!(json["window"]["actual"]["physical_height"], 2340);
    assert_eq!(json["window"]["actual"]["scale_factor"], 2.0);
    assert_eq!(json["result"]["code"], "runner_internal");
    assert_eq!(json["process_exit"], "not_started");
    assert_eq!(json["launch"]["game_command"], read(r#"["game"]"#));
    assert_eq!(json["launch"]["driver_command"], Value::Null);

    let fitting = RequiredWindowSize { width: 955, height: 1170 };
    assert!(inspect_window_contract(fitting, &observed(WINDOW)).is_none());
    assert!(read_window(&json_without_scale()).is_none());
}

fn json_without_scale() -> Json {
    json(r#"{"logical_width": 1, "logical_height": 1, "physical_width": 1, "physical_height": 1}"#)
}

#[test]
fn summaries_record_times_and_outcomes() {
    let mut summary = test_summary(None);
    summary.record_timing("setup", 5);
    summary.record_timing("driver", 7);
    summary.record_timing("setup", 9);
    let json = shown(&run_document(&summary));
    assert_eq!(json["timings_ms"], read(r#"{"setup": 9, "driver": 7}"#));

    summary.conclude(
        42,
        Some(RunFailure { phase: "driver", code: "driver_timeout", message: "late".to_string() }),
    );
    let json = shown(&run_document(&summary));
    assert_eq!(json["elapsed_ms"], 42);
    assert_eq!(json["result"]["success"], false);
    assert_eq!(json["result"]["code"], "driver_timeout");
    assert_eq!(json["phase"], "driver");

    let mut good = test_summary(None);
    good.conclude(1, None);
    let json = shown(&run_document(&good));
    assert_eq!(json["result"]["success"], true);
    assert_eq!(json["phase"], "complete");
}

#[test]
fn runs_are_told_in_a_line() {
    let mut good = test_summary(None);
    good.conclude(1250, None);
    assert_eq!(
        good.success_line(),
        "bevy-feedback ok: phase=complete elapsed_ms=1250 artifacts=root"
    );
    assert_eq!(
        good.teardown_line(),
        "teardown: inputs=not_attempted shutdown=not_attempted socket=not_attempted \
         child=not_attempted"
    );
    let mut bad = test_summary(None);
    bad.conclude(
        7,
        Some(RunFailure { phase: "driver", code: "driver_timeout", message: "late".to_string() }),
    );
    assert_eq!(
        bad.failure_line(),
        "late [driver_timeout] (phase=driver); summary=root/run-summary.json"
    );
}

#[test]
fn processes_are_judged_by_how_they_ended() {
    assert_eq!(exit_category(&exited(true, Some(0), "")), ProcessExit::Success);
    assert_eq!(exit_category(&exited(false, Some(3), "")), ProcessExit::Nonzero);
    assert_eq!(exit_category(&exited(false, None, "")), ProcessExit::Signal);
    assert!(run_prepare(ChildOutcome::Exited(exited(true, Some(0), "")), Span::zero()).is_none());
    let failure = run_prepare(ChildOutcome::TimedOut, Span::from_secs(2)).expect("failed");
    assert_eq!(failure.code, "prepare_timeout");
    assert_eq!(failure.message, "prepare timed out after 2000 ms");
    let failure = run_prepare(ChildOutcome::SpawnFailed("no".to_string()), Span::zero());
    assert_eq!(failure.expect("failed").code, "prepare_spawn_failed");
    let failure = run_prepare(ChildOutcome::WaitFailed("no".to_string()), Span::zero());
    assert_eq!(failure.expect("failed").code, "prepare_wait_failed");
    let failure = run_driver(
        ChildOutcome::Exited(exited(false, Some(7), "exit status: 7")),
        Span::zero(),
    )
    .expect("failed");
    assert_eq!(failure.code, "driver_nonzero_exit");
    assert!(failure.message.contains("exit status: 7"));
    assert!(run_driver(ChildOutcome::Exited(exited(true, Some(0), "")), Span::zero()).is_none());
}

#[test]
fn readiness_is_waited_for() {
    let second = Span::from_secs(1);
    assert_eq!(wait_ready(Span::zero(), second, false, false, false), ReadyStep::Again);
    assert_eq!(wait_ready(Span::zero(), second, false, false, true), ReadyStep::Ready);
    assert_eq!(wait_ready(second, second, false, false, true), ReadyStep::GiveUp);
    assert_eq!(wait_ready(Span::zero(), second, true, false, true), ReadyStep::GiveUp);
    assert_eq!(wait_ready(Span::zero(), second, false, true, false), ReadyStep::Exited);
    assert_eq!(wait_ready(second, second, false, true, false), ReadyStep::GiveUp);
    assert_eq!(wait_step(Span::zero(), Some(second), false, false), WaitStep::Again);
    assert_eq!(wait_step(Span::zero(), Some(second), false, true), WaitStep::Ended);
    assert_eq!(wait_step(second, Some(second), false, true), WaitStep::GiveUp);
    assert_eq!(wait_step(second, None, false, true), WaitStep::Ended);
    assert_eq!(wait_step(second, None, true, true), WaitStep::GiveUp);
    assert_eq!(
        not_ready(&Some(exited(false, Some(1), "exit status: 1")), second),
        "game exited before protocol was ready: exit status: 1"
    );
    assert_eq!(
        not_ready(&None, second),
        "protocol was not ready within 1000 ms while the game process remained live"
    );
    let info = ready_info(&json(r#"{"session_id": "s", "capture_dir": ""}"#));
    assert_eq!(info.session_id, "s");
    assert_eq!(info.socket_addr, "unknown");
    assert_eq!(info.capture_dir, None);
}

fn plan(prepare: bool, driver: bool) -> Plan {
    Plan {
        prepare,
        driver,
        window: None,
        prepare_timeout: Span::from_secs(1),
        driver_timeout: Span::from_secs(1),
    }
}

fn clean_end() -> Ending {
    Ending {
        process_exit: ProcessExit::Success,
        teardown: TeardownSummary {
            input_release: "acknowledged",
            shutdown_acknowledgment: "acknowledged",
            socket_closure: "closed",
            child_exit: "exited",
            forced_termination: false,
        },
    }
}

#[test]
fn a_run_goes_through_its_phases() {
    let mut run = Lifecycle::new(plan(true, true));
    assert_eq!(run.doing, Action::Prepare);
    let done = ChildOutcome::Exited(exited(true, Some(0), ""));
    assert_eq!(run.run_lifecycle(Event::Prepared(done)), Action::SetUp);
    assert_eq!(run.run_lifecycle(Event::SetUpDone(Ok(()))), Action::SpawnGame);
    assert_eq!(run.run_lifecycle(Event::GameSpawned(Ok(()))), Action::WaitReady);
    assert_eq!(run.run_lifecycle(Event::Ready), Action::RunDriver);
    let done = ChildOutcome::Exited(exited(true, Some(0), ""));
    assert_eq!(run.run_lifecycle(Event::Driven(done)), Action::TearDown);
    assert_eq!(run.run_lifecycle(Event::Ended(clean_end())), Action::CopyCaptures);
    assert_eq!(run.run_lifecycle(Event::Copied(Ok(()))), Action::Finish);
    assert!(run.failure.is_none());
    assert!(!run.unacknowledged);
}

#[test]
fn a_failed_driver_is_told_after_the_teardown() {
    let mut run = Lifecycle::new(plan(false, true));
    assert_eq!(run.doing, Action::SetUp);
    run.run_lifecycle(Event::SetUpDone(Ok(())));
    run.run_lifecycle(Event::GameSpawned(Ok(())));
    run.run_lifecycle(Event::Ready);
    assert_eq!(run.run_lifecycle(Event::Driven(ChildOutcome::TimedOut)), Action::TearDown);
    run.run_lifecycle(Event::Ended(clean_end()));
    assert_eq!(run.run_lifecycle(Event::Copied(Ok(()))), Action::WriteFailure);
    assert_eq!(run.run_lifecycle(Event::FailureWritten), Action::Finish);
    assert_eq!(run.failure.expect("failed").code, "driver_timeout");
}

#[test]
fn a_teardown_asks_before_it_kills() {
    let mut ending = Ending::running();
    assert!(!ending.teardown_game(None));
    ending.asked(Some(ClientTeardown { released: true, acknowledged: true, disconnected: true }));
    assert_eq!(ending.teardown.input_release, "acknowledged");
    assert!(ending.waited(Some(&exited(true, Some(0), ""))));
    assert_eq!(ending.process_exit, ProcessExit::Success);
    assert!(!ending.teardown.forced_termination);

    let mut ending = Ending::running();
    assert!(ending.terminate_game(None));
    ending.killed(Some(&exited(false, None, "signal: 9")));
    assert!(ending.teardown.forced_termination);
}

fn report(document: &str) -> Vec<String> {
    report_protocol_capabilities(&Ok(json(document))).iter().map(|f| f.emit()).collect()
}

fn protocol_of(document: Json) -> ProtocolFile {
    let document = value(&document);
    ProtocolFile {
        socket_addr: "127.0.0.1:1".to_string(),
        pid: 1,
        heartbeat_file: "heartbeat".to_string(),
        stale_after_ms: 10_000,
        max_wait_frames: document["max_wait_frames"].as_u64().unwrap_or_default() as u16,
        max_abort_predicates: 16,
        deterministic_time: document["deterministic_time"].as_bool().unwrap_or_default(),
        max_time_advance_steps: document["max_time_advance_steps"].as_u64().unwrap_or_default()
            as u16,
        max_time_advance_seconds: match json(&document["max_time_advance_seconds"].to_string()) {
            Json::Number(n) => n,
            _ => JsonNumber::Unsigned(0),
        },
    }
}

#[test]
fn live_protocol_reports_deterministic_mode_and_advertised_caps() {
    let stdout = report(
        r#"{"deterministic_time": true, "max_wait_frames": 240, "max_time_advance_steps": 480, "max_time_advance_seconds": 7.5}"#,
    );
    let verdict = check_protocol("agent.json", Some(Ok(())));
    assert!(verdict.passed);
    assert_eq!(verdict.finding.emit(), "ok: protocol file agent.json fresh and reachable");
    assert_eq!(
        stdout,
        [
            "ok: protocol deterministic_time=true",
            "ok: protocol max_wait_frames=240",
            "ok: protocol max_time_advance_steps=480",
            "ok: protocol max_time_advance_seconds=7.5",
        ]
    );
}

const ALL_MISSING: [&str; 4] = [
    "warn: protocol deterministic_time missing or malformed; omitted",
    "warn: protocol max_wait_frames missing or malformed; omitted",
    "warn: protocol max_time_advance_steps missing or malformed; omitted",
    "warn: protocol max_time_advance_seconds missing or malformed; omitted",
];

#[test]
fn live_protocol_warns_when_additive_capability_metadata_is_missing() {
    assert_eq!(report("{}"), ALL_MISSING);
    let patched = without_additive_capabilities(json("{}")).expect("an object");
    assert!(AgentClient::with_config(&AgentClientConfig::with_environment(None, None, None), &protocol_of(patched)).is_ok());
}

#[test]
fn live_protocol_warns_when_additive_capability_metadata_is_malformed() {
    let malformed = r#"{"deterministic_time": "enabled", "max_wait_frames": 0, "max_time_advance_steps": -1, "max_time_advance_seconds": "unbounded"}"#;
    assert_eq!(report(malformed), ALL_MISSING);
    let patched = without_additive_capabilities(json(malformed)).expect("an object");
    assert_eq!(
        value(&patched),
        read(
            r#"{"deterministic_time": false, "max_wait_frames": 1, "max_time_advance_steps": 1, "max_time_advance_seconds": 1.0}"#
        )
    );
    assert!(AgentClient::with_config(&AgentClientConfig::with_environment(None, None, None), &protocol_of(patched)).is_ok());
    assert!(without_additive_capabilities(json("[]")).is_none());
}

#[test]
fn the_installation_is_judged_check_by_check() {
    assert!(check_protocol("p", None).passed);
    assert_eq!(
        check_protocol("p", None).finding.emit(),
        "warn: protocol file p not present (no game running)"
    );
    let bad = check_protocol("p", Some(Err("old".to_string())));
    assert!(!bad.passed);
    assert_eq!(bad.finding.emit(), "fail: protocol file p stale or invalid: old");
    assert_eq!(check_capture_dir("d", Ok(())).finding.emit(), "ok: capture dir d writable");
    assert_eq!(
        check_capture_dir("d", Err("no".to_string())).finding.emit(),
        "fail: capture dir d not writable: no"
    );
    let ran = |success: bool| Probe::Ran {
        success,
        status: "exit status: 1".to_string(),
        stdout: b"Python 3.12\n".to_vec(),
        stderr: Vec::new(),
    };
    assert_eq!(check_python_version(&ran(true)).finding.emit(), "ok: python3 on PATH: Python 3.12");
    assert_eq!(
        check_python_version(&ran(false)).finding.emit(),
        "fail: python3 --version exited with status exit status: 1: Python 3.12"
    );
    assert!(!check_python_version(&Probe::NotStarted("gone".to_string())).passed);
    assert!(check_python_import(&Ok(ran(true))).passed);
    assert!(!check_python_import(&Err("disk".to_string())).passed);
    assert_eq!(clean_output(b" a\nb ", b"c\r"), "a; b; c");
    assert_eq!(exit_code(&[check_protocol("p", None)]), 0);
    assert_eq!(exit_code(&[check_protocol("p", None), bad]), 1);
    assert_eq!(
        report_protocol_capabilities(&Err("gone".to_string()))[0].emit(),
        "warn: protocol capabilities unavailable: gone"
    );
}

#[test]
fn texts_are_taken_apart_into_lines_and_words() {
    assert_eq!(lines("a\r\nb\n\nc"), ["a", "b", "", "c"]);
    assert_eq!(trim(" \t x y \u{a0}\n"), "x y");
    assert_eq!(trim_end(" x \n"), " x");
    assert_eq!(single_spaced("  a \t b\nc "), "a b c");
    assert_eq!(join_lines(&words(&["a", "b"])), "a\nb");
    assert!(contains_text("haystack", "st"));
    assert!(!contains_text("haystack", "ts"));
    assert!(starts_with("abc", "ab"));
    assert_eq!(tail_lines(b"1\n2\n3\n", 2), "2\n3");
    assert_eq!(tail_lines(b"\xff\n", 1), "\u{fffd}");
}
