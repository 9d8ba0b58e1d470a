//! Diagnostics: what is registered, how conditions are judged, how targets are found, and how
//! diagnostic requests are answered.
use bevy_agent_feedback::answers::{
    camera_info, ecs_summary, list_entities, marker_info, resolve_target, resource_answer,
    state_info, CameraEntry, EntityEntry, Findings, PhysicalViewport,
    ResourceReading, Sighting,
};
use bevy_agent_feedback::captures::Reply;
use bevy_agent_feedback::client::ResolvedTargetKind;
use bevy_agent_feedback::commands::{
    AgentCommand, ComparisonOperator, DiagnosticValue, MouseButton, Point, Predicate, TargetKind,
    TargetSelector,
};
use bevy_agent_feedback::control::{AgentFeedbackState, AgentRequest};
use bevy_agent_feedback::diagnostics::{
    bounded_diagnostic_details, bounded_listing, diagnostic_error, ecs_summary_context,
    matching_abort, AgentDiagnosticsQueue, Evaluation, Listing, ResourcePlan, Scene,
};
use bevy_agent_feedback::documents::{response_document, Document};
use bevy_agent_feedback::evaluate::{
    bounded_count, compare_values, equal_values, evaluate, marker_count_outcome, validate_value,
    ReadPlan, Reading, TargetPresence,
};
use bevy_agent_feedback::json::{parse_json, print_json, Json};
use bevy_agent_feedback::registry::{
    short_type_name, BoundedCount, DiagnosticFailure, PredicateRegistry, ReaderError,
};
use bevy_agent_feedback::responses::{ObservedPredicate, PredicateOutcome};
use bevy_agent_feedback::targets::{
    find_camera, find_marker, find_primary_window, find_target, target_resolvability,
    target_unavailable, Candidate, Scanned, ScannedCamera,
};
use bevy_agent_feedback::projection::{
    intersect_rect, points_rect, project_ui, project_world, Rectangle, UiFacts, WorldFacts,
    WorldSight,
};
use serde_json::Value;

fn json(text: &str) -> Json {
    match parse_json(text) {
        Ok(json) => json,
        Err(message) => panic!("{message}: {text}"),
    }
}

fn value(json: &Json) -> Value {
    serde_json::from_str(&print_json(json)).expect("printed JSON reads")
}

fn read(text: &str) -> Value {
    serde_json::from_str(text).expect("expected JSON")
}

fn shown(document: &Document) -> Value {
    match document {
        Document::Null => Value::Null,
        Document::Bool(b) => Value::Bool(*b),
        Document::Whole(n) => Value::from(*n as u64),
        Document::Single(bits) => Value::from(f32::from_bits(*bits)),
        Document::Double(bits) => Value::from(f64::from_bits(*bits)),
        Document::Seconds(span) => {
            Value::from(std::time::Duration::from_nanos(span.nanos as u64).as_secs_f64())
        }
        Document::Text(s) => Value::from(s.clone()),
        Document::Array(items) => Value::Array(items.iter().map(shown).collect()),
        Document::Object(fields) => Value::Object(
            fields.iter().map(|(name, field)| (name.to_string(), shown(field))).collect(),
        ),
        Document::Plain(json) => value(json),
    }
}

fn answer(reply: Option<Reply>) -> Value {
    shown(&response_document(&reply.expect("should have responded").response))
}

fn request(command: AgentCommand) -> AgentRequest {
    AgentRequest { id: Json::Text("request".to_string()), ticket: 7, command }
}

fn scene() -> Scene {
    Scene { window: None, ecs: ecs_summary_context(257, 12, 3) }
}

fn counting(min: u32) -> Predicate {
    Predicate::MarkerCount { marker: "TestMarker".to_string(), min: Some(min), max: None }
}

fn registry_with_marker() -> PredicateRegistry {
    let mut registry = PredicateRegistry::new();
    assert!(registry.register_marker(short_type_name("tests::TestMarker")).is_ok());
    registry
}

fn evaluation(registry: &PredicateRegistry, predicate: &Predicate, count: u32) -> Evaluation {
    match registry.plan(predicate) {
        Ok(ReadPlan::Marker(0)) => evaluate(
            predicate,
            Reading::Count(BoundedCount { value: count, is_lower_bound: false }),
        ),
        Ok(_) => panic!("the first marker"),
        Err(error) => Err(error),
    }
}

#[test]
fn wait_for_matches_during_its_admission_evaluation() {
    let registry = registry_with_marker();
    let predicate = counting(1);
    let mut queue = AgentDiagnosticsQueue::new();
    let command = AgentCommand::WaitFor {
        predicate: predicate.copy(),
        abort_predicates: Vec::new(),
        max_frames: 4,
    };
    assert!(queue.enqueue(request(command), 1).is_none());
    assert_eq!(queue.requests_in_a_frame(), 1);
    let taken = queue.next_request().expect("a request");
    let observed = evaluation(&registry, &predicate, 1);

    let reply = queue.answer_request(
        &AgentFeedbackState::new(),
        &scene(),
        taken,
        Findings::Evaluated { observed, aborts: Vec::new() },
    );

    let response = answer(reply);
    assert_eq!(response["result"]["status"], "predicate_matched");
    assert_eq!(
        response["result"]["details"],
        read(
            r#"{"predicate": {"type": "marker_count", "marker": "TestMarker", "min": 1, "max": null},
                "outcome": "matched", "count": 1}"#
        )
    );
}

#[test]
fn wait_for_times_out_only_on_the_exact_future_evaluation_boundary() {
    let registry = registry_with_marker();
    let predicate = counting(2);
    let state = AgentFeedbackState::new();
    let mut queue = AgentDiagnosticsQueue::new();
    let command = AgentCommand::WaitFor {
        predicate: predicate.copy(),
        abort_predicates: Vec::new(),
        max_frames: 2,
    };
    assert!(queue.enqueue(request(command), 1).is_none());
    let taken = queue.next_request().expect("a request");
    let observed = evaluation(&registry, &predicate, 1);
    let findings = Findings::Evaluated { observed, aborts: Vec::new() };
    assert!(queue.answer_request(&state, &scene(), taken, findings).is_none());

    assert_eq!(queue.waits_in_a_frame(), 1);
    let observed = evaluation(&registry, &predicate, 1);
    let scene = scene();
    assert!(queue.evaluate_pending_wait(&state, &scene, false, observed, Vec::new()).is_none());

    let observed = evaluation(&registry, &predicate, 1);
    let response =
        answer(queue.evaluate_pending_wait(&state, &scene, false, observed, Vec::new()));
    assert_eq!(response["error"]["code"], "predicate_timeout");
    assert_eq!(
        response["error"]["message"],
        "predicate did not match after exactly 2 future evaluations"
    );
    assert_eq!(
        response["error"]["context"]["observed_predicate"],
        read(
            r#"{"predicate": {"type": "marker_count", "marker": "TestMarker", "min": 2, "max": null},
                "outcome": "not_matched", "count": 1}"#
        )
    );
    assert_eq!(
        response["error"]["context"]["ecs_summary"]["entity_count"],
        256
    );
    assert_eq!(
        response["error"]["context"]["ecs_summary"]["entity_count_is_lower_bound"],
        true
    );
    assert_eq!(queue.waits_in_a_frame(), 0);
}

#[test]
fn duplicate_registrations_return_the_specific_configuration_error() {
    let failed = |result: Result<(), DiagnosticFailure>| match result {
        Ok(()) => panic!("duplicate registration should fail"),
        Err(error) => (error.code, value(&error.details)),
    };
    let key = |name: &str| short_type_name(name);
    let mut states = PredicateRegistry::new();
    assert!(states.register_state(key("tests::TestPhase"), "tests::TestPhase".to_string()).is_ok());
    let error =
        failed(states.register_state(key("tests::TestPhase"), "tests::TestPhase".to_string()));
    assert_eq!(error, ("duplicate_state_registration", read(r#"{"state": "TestPhase"}"#)));

    let mut markers = registry_with_marker();
    let error = failed(markers.register_marker(key("tests::TestMarker")));
    assert_eq!(error, ("duplicate_marker_registration", read(r#"{"marker": "TestMarker"}"#)));

    let mut fields = PredicateRegistry::new();
    let mut register = |field: &str| {
        fields.register_resource_field(
            key("tests::TestResource"),
            "tests::TestResource".to_string(),
            field.to_string(),
        )
    };
    assert!(register("value").is_ok());
    assert_eq!(
        failed(register("value")),
        (
            "duplicate_resource_field_registration",
            read(r#"{"resource": "TestResource", "field": "value"}"#)
        )
    );
    assert!(register("other").is_ok());
    assert_eq!(
        failed(fields.register_resource_field(
            key("elsewhere::TestResource"),
            "elsewhere::TestResource".to_string(),
            "third".to_string(),
        )),
        (
            "resource_short_name_collision",
            read(
                r#"{
                    "resource": "TestResource",
                    "first_type": "tests::TestResource",
                    "second_type": "elsewhere::TestResource"
                }"#
            )
        )
    );
}

#[test]
fn registrations_are_bounded() {
    assert_eq!(short_type_name("a::b::Thing"), "Thing");
    assert_eq!(short_type_name("Thing"), "Thing");
    let mut registry = PredicateRegistry::new();
    assert!(matches!(
        registry.register_marker(String::new()),
        Err(DiagnosticFailure { code: "invalid_registration_key", .. })
    ));
    assert!(matches!(
        registry.register_marker("x".repeat(129)),
        Err(DiagnosticFailure { code: "invalid_registration_key", .. })
    ));
    for n in 0..128 {
        assert!(registry.register_marker(format!("M{n}")).is_ok());
    }
    assert!(matches!(
        registry.register_marker("one more".to_string()),
        Err(DiagnosticFailure { code: "registration_limit_reached", .. })
    ));
    let mut colliding = PredicateRegistry::new();
    assert!(colliding
        .register_resource_field("Score".to_string(), "a::Score".to_string(), "x".to_string())
        .is_ok());
    assert!(colliding
        .register_resource_field("Score".to_string(), "b::Score".to_string(), "y".to_string())
        .is_err());
}

fn scanned(id: u64, matches: bool) -> Scanned {
    Scanned {
        entity: Candidate { id, label: format!("{id}v1") },
        is_ui: false,
        matches,
    }
}

#[test]
fn target_identity_errors_distinguish_miss_ambiguity_and_bounded_search() {
    let failed = |result: Result<Candidate, DiagnosticFailure>| match result {
        Ok(_) => panic!("cannot be found"),
        Err(error) => error,
    };
    let missing = failed(find_target(&Vec::new(), TargetKind::Any, false));
    assert_eq!(missing.code, "target_not_found");
    assert_eq!(value(&missing.details), read(r#"{"scanned": 0}"#));

    let walk: Vec<Scanned> = (0..17).map(|id| scanned(id, true)).collect();
    let ambiguous = failed(find_target(&walk, TargetKind::Any, false));
    assert_eq!(ambiguous.code, "ambiguous_target");
    let details = value(&ambiguous.details);
    assert_eq!(details["count"], 17);
    assert_eq!(
        details["candidates"],
        Value::from((0..16).map(|id| format!("{id}v1")).collect::<Vec<_>>())
    );
    assert_eq!(details["candidate_details_truncated"], true);

    let mut walk = vec![scanned(0, true)];
    walk.extend((1..257).map(|id| scanned(id, false)));
    let truncated = failed(find_target(&walk, TargetKind::Any, true));
    assert_eq!(truncated.code, "target_search_truncated");
    assert_eq!(
        value(&truncated.details),
        read(
            r#"{"limit": 256, "candidates": ["0v1"], "candidate_count_is_lower_bound": true}"#
        )
    );
    assert!(matches!(
        target_resolvability(Err(truncated)),
        Ok(TargetPresence::PresentUnresolved)
    ));

    let walk: Vec<Scanned> = (0..257).map(|id| scanned(id, false)).collect();
    let miss = failed(find_target(&walk, TargetKind::Any, true));
    assert!(matches!(target_resolvability(Err(miss)), Ok(TargetPresence::Indeterminate)));
}

#[test]
fn targets_are_found_by_kind() {
    let mut ui = scanned(1, true);
    ui.is_ui = true;
    let walk = vec![ui, scanned(2, true)];
    assert!(matches!(find_target(&walk, TargetKind::Ui, false), Ok(found) if found.id == 1));
    assert!(matches!(find_target(&walk, TargetKind::World, false), Ok(found) if found.id == 2));
    assert!(find_target(&walk, TargetKind::Any, false).is_err());
    assert!(matches!(target_resolvability(Ok(())), Ok(TargetPresence::Resolved)));
    let missing = find_target(&Vec::new(), TargetKind::Any, false).err().expect("missing");
    assert!(matches!(target_resolvability(Err(missing)), Ok(TargetPresence::Absent)));
    let hidden = target_unavailable("5v1", "hidden");
    assert_eq!(hidden.code, "target_unavailable");
    assert_eq!(value(&hidden.details), read(r#"{"entity": "5v1", "reason": "hidden"}"#));
    assert!(matches!(
        target_resolvability(Err(hidden)),
        Ok(TargetPresence::PresentUnresolved)
    ));
}

#[test]
fn windows_cameras_and_markers_are_found() {
    let one = |id: u64| Candidate { id, label: format!("{id}v1") };
    assert!(matches!(find_primary_window(&vec![one(4)]), Ok(found) if found.id == 4));
    assert!(find_primary_window(&Vec::new()).is_err());
    assert!(find_primary_window(&vec![one(4), one(5)]).is_err());
    let camera = |id: u64, name: Option<&str>, is_active: bool| ScannedCamera {
        entity: one(id),
        is_active,
        on_primary_window: true,
        name: name.map(str::to_string),
    };
    let walk = vec![camera(1, Some("Main"), true), camera(2, None, false)];
    assert!(matches!(find_camera(&walk, None), Ok(found) if found.id == 1));
    assert!(matches!(find_camera(&walk, Some("Main")), Ok(found) if found.id == 1));
    assert!(find_camera(&walk, Some("Other")).is_err());
    let registry = registry_with_marker();
    assert!(matches!(find_marker(&registry.markers, "TestMarker"), Ok(0)));
    assert!(find_marker(&registry.markers, "Unknown").is_err());
}

fn number(x: f64) -> DiagnosticValue {
    DiagnosticValue::Number(x.to_bits())
}

#[test]
fn values_are_compared_as_numbers_and_texts() {
    assert!(matches!(compare_values(&number(1.5), ComparisonOperator::Lt, &number(2.0)), Ok(true)));
    assert!(matches!(compare_values(&number(2.0), ComparisonOperator::Gte, &number(2.0)), Ok(true)));
    assert!(matches!(
        compare_values(&number(-0.0), ComparisonOperator::Eq, &number(0.0)),
        Ok(true)
    ));
    assert!(matches!(
        compare_values(&DiagnosticValue::Bool(true), ComparisonOperator::Ne, &number(1.0)),
        Ok(true)
    ));
    assert!(compare_values(
        &DiagnosticValue::String("a".to_string()),
        ComparisonOperator::Lt,
        &number(1.0)
    )
    .is_err());
    assert!(equal_values(&DiagnosticValue::from(()), &DiagnosticValue::Null));
    assert!(equal_values(&DiagnosticValue::from(true), &DiagnosticValue::Bool(true)));
    assert!(!equal_values(&DiagnosticValue::from("a".to_string()), &DiagnosticValue::Null));
    assert!(validate_value(&number(f64::NAN)).is_err());
    assert!(validate_value(&number(1.0)).is_ok());
    assert!(validate_value(&DiagnosticValue::String("x".repeat(1025))).is_err());
}

#[test]
fn counts_that_may_be_greater_leave_a_condition_open() {
    let at_least = |value: u32| BoundedCount { value, is_lower_bound: true };
    let exactly = |value: u32| BoundedCount { value, is_lower_bound: false };
    assert_eq!(marker_count_outcome(exactly(2), Some(2), None), PredicateOutcome::Matched);
    assert_eq!(marker_count_outcome(exactly(1), Some(2), None), PredicateOutcome::NotMatched);
    assert_eq!(marker_count_outcome(at_least(256), Some(300), None), PredicateOutcome::Indeterminate);
    assert_eq!(marker_count_outcome(at_least(256), Some(2), None), PredicateOutcome::Matched);
    assert_eq!(marker_count_outcome(at_least(256), None, Some(3)), PredicateOutcome::NotMatched);
    assert_eq!(bounded_count(3), exactly(3));
    assert_eq!(bounded_count(257), at_least(257));
}

#[test]
fn conditions_on_what_is_not_registered_fail() {
    let registry = registry_with_marker();
    let code = |predicate: Predicate| match registry.plan(&predicate) {
        Ok(_) => panic!("not registered"),
        Err(error) => error.code,
    };
    assert_eq!(
        code(Predicate::StateEquals { state: "Phase".to_string(), value: DiagnosticValue::Null }),
        "state_not_registered"
    );
    assert_eq!(
        code(Predicate::MarkerCount { marker: "Other".to_string(), min: Some(1), max: None }),
        "marker_not_registered"
    );
    assert_eq!(
        code(Predicate::ResourceField {
            resource: "Score".to_string(),
            field: "value".to_string(),
            operator: ComparisonOperator::Eq,
            value: DiagnosticValue::Null,
        }),
        "resource_not_registered"
    );
    let absent = evaluate(
        &Predicate::TargetAbsent {
            target: TargetSelector::Name("Door".to_string()),
            kind: TargetKind::Any,
            camera: None,
        },
        Reading::Target(Ok(TargetPresence::Absent)),
    );
    assert!(matches!(absent, Ok(seen) if seen.outcome == PredicateOutcome::Matched));
    let missing = evaluate(
        &Predicate::StateEquals { state: "Phase".to_string(), value: DiagnosticValue::Null },
        Reading::Value(Err(ReaderError::Missing)),
    );
    assert!(matches!(missing, Err(DiagnosticFailure { code: "state_missing", .. })));
}

fn seen(outcome: PredicateOutcome) -> Evaluation {
    Ok(ObservedPredicate {
        predicate: counting(1),
        outcome,
        value: None,
        count: None,
        count_is_lower_bound: false,
    })
}

#[test]
fn a_wait_is_aborted_by_the_first_condition_that_holds() {
    let state = AgentFeedbackState::new();
    let scene = scene();
    let mut queue = AgentDiagnosticsQueue::new();
    let wait = |ticket: u64| AgentRequest {
        id: Json::Null,
        ticket,
        command: AgentCommand::WaitFor {
            predicate: counting(1),
            abort_predicates: vec![counting(2)],
            max_frames: 3,
        },
    };
    let reply = queue.answer_request(
        &state,
        &scene,
        wait(1),
        Findings::Evaluated {
            observed: seen(PredicateOutcome::NotMatched),
            aborts: vec![seen(PredicateOutcome::Matched)],
        },
    );
    assert_eq!(answer(reply)["error"]["code"], "predicate_aborted");
    let reply = queue.answer_request(
        &state,
        &scene,
        wait(2),
        Findings::Evaluated { observed: seen(PredicateOutcome::NotMatched), aborts: Vec::new() },
    );
    assert!(reply.is_none());
    assert!(queue
        .evaluate_pending_wait(&state, &scene, true, seen(PredicateOutcome::Matched), Vec::new())
        .is_none());
    assert_eq!(queue.waits_in_a_frame(), 0);
    assert!(matches!(matching_abort(Vec::new()), Ok(None)));
}

#[test]
fn the_queue_of_requests_is_bounded() {
    let mut queue = AgentDiagnosticsQueue::new();
    assert!(queue.enqueue(request(AgentCommand::EcsSummary), 2).is_none());
    assert!(queue.enqueue(request(AgentCommand::EcsSummary), 2).is_none());
    let full = answer(queue.enqueue(request(AgentCommand::EcsSummary), 2));
    assert_eq!(full["error"]["code"], "queue_full");
    assert_eq!(full["id"], "request");
}

fn sighting() -> Sighting {
    Sighting {
        entity: "3v1".to_string(),
        kind: ResolvedTargetKind::Ui,
        camera: "1v1".to_string(),
        center: Point { x: 10.0f32.to_bits(), y: 20.0f32.to_bits() },
        shown_center: vec![json("10.0"), json("20.0")],
        bounds: Some((json("5.0"), json("15.0"), json("10.0"), json("10.0"))),
        clipped: false,
    }
}

#[test]
fn requests_are_answered_with_what_was_found() {
    let state = AgentFeedbackState::new();
    let scene = scene();
    let mut queue = AgentDiagnosticsQueue::new();
    let selector = || TargetSelector::Marker("Door".to_string());
    let found = || resolve_target(sighting(), &selector(), Some("Front".to_string()), None);

    let shown_details = Findings::Shown(ecs_summary(&scene.ecs));
    let reply =
        queue.answer_request(&state, &scene, request(AgentCommand::EcsSummary), shown_details);
    assert_eq!(
        answer(reply),
        read(
            r#"{"id": "request", "ok": true, "result": {"status": "ok", "details": {
                "entity_count": 256, "entity_count_is_lower_bound": true,
                "component_count": 12, "archetype_count": 3}}}"#
        )
    );

    let info = AgentCommand::TargetInfo { target: selector(), kind: TargetKind::Any, camera: None };
    let reply = queue.answer_request(&state, &scene, request(info), Findings::Target(Ok(found())));
    let response = answer(reply);
    assert_eq!(response["result"]["status"], "target_info");
    assert_eq!(
        response["result"]["details"],
        read(
            r#"{"entity": "3v1", "selector_source": "marker", "selector_value": "Door",
                "kind": "ui", "name": "Front", "marker": "Door", "camera": "1v1",
                "center": [10.0, 20.0],
                "bounds": {"x": 5.0, "y": 15.0, "width": 10.0, "height": 10.0},
                "visible": true, "clipped": false}"#
        )
    );

    let click = AgentCommand::ClickTarget {
        target: selector(),
        kind: TargetKind::Any,
        camera: None,
        button: MouseButton::Right,
        frames: 2,
    };
    let reply = queue.answer_request(&state, &scene, request(click), Findings::Target(Ok(found())));
    assert!(reply.is_none());
    let click = queue.pop_resolved_click().expect("a click");
    assert_eq!(click.ticket, 7);
    assert_eq!(click.position, sighting().center);
    assert_eq!((click.button, click.frames), (MouseButton::Right, 2));
    assert_eq!(value(&click.details)["target_resolved"], true);
    assert_eq!(value(&click.details)["logical_position"], read("[10.0, 20.0]"));
    assert!(queue.pop_resolved_click().is_none());

    let reply =
        queue.answer_request(&state, &scene, request(AgentCommand::Shutdown), Findings::Nothing);
    assert_eq!(answer(reply)["error"]["code"], "invalid_diagnostics_command");

    let failure = DiagnosticFailure {
        code: "resource_missing",
        message: "gone",
        details: json(r#"{"resource": "Score", "field": "value"}"#),
    };
    let ask = AgentCommand::ResourceInfo { resource: Some("Score".to_string()), field: None };
    let reply = queue.answer_request(&state, &scene, request(ask), Findings::Resource(Err(failure)));
    assert_eq!(
        answer(reply)["error"]["context"]["diagnostic"],
        read(r#"{"resource": "Score", "field": "value"}"#)
    );
}

fn at(x: f32, y: f32) -> Point {
    Point { x: x.to_bits(), y: y.to_bits() }
}

fn rectangle(left: f32, top: f32, right: f32, bottom: f32) -> Rectangle {
    Rectangle { min: at(left, top), max: at(right, bottom) }
}

#[test]
fn rectangles_are_cut_against_each_other() {
    let around = points_rect(&vec![at(3.0, -1.0), at(1.0, 4.0), at(2.0, 2.0)]);
    assert_eq!(around, rectangle(1.0, -1.0, 3.0, 4.0));
    assert_eq!(
        intersect_rect(rectangle(0.0, 0.0, 4.0, 4.0), rectangle(2.0, 1.0, 9.0, 3.0)),
        Some(rectangle(2.0, 1.0, 4.0, 3.0))
    );
    assert_eq!(intersect_rect(rectangle(0.0, 0.0, 1.0, 1.0), rectangle(1.0, 0.0, 2.0, 1.0)), None);
}

fn node() -> UiFacts {
    UiFacts {
        size: Some(at(20.0, 10.0)),
        visible: Some(true),
        has_transform: true,
        camera_matches: Some(true),
        has_camera: true,
        has_window: true,
        viewport: Some(rectangle(0.0, 0.0, 100.0, 100.0)),
        corners: vec![at(-5.0, 5.0), at(15.0, 5.0), at(15.0, 15.0), at(-5.0, 15.0)],
        clip: None,
        inverse_scale: 1.0f32.to_bits(),
    }
}

#[test]
fn nodes_are_seen_where_they_reach_into_the_viewport() {
    let seen = project_ui(&node()).expect("seen");
    assert_eq!(seen.visible, rectangle(0.0, 5.0, 15.0, 15.0));
    assert!(seen.clipped);
    let reason = |change: fn(&mut UiFacts)| {
        let mut facts = node();
        change(&mut facts);
        project_ui(&facts).expect_err("not seen")
    };
    assert_eq!(reason(|f| f.size = None), "missing_computed_node");
    assert_eq!(reason(|f| f.size = Some(at(0.0, 1.0))), "empty_computed_node");
    assert_eq!(reason(|f| f.visible = Some(false)), "hidden");
    assert_eq!(reason(|f| f.visible = None), "missing_inherited_visibility");
    assert_eq!(reason(|f| f.has_transform = false), "missing_ui_global_transform");
    assert_eq!(reason(|f| f.camera_matches = None), "missing_ui_target_camera");
    assert_eq!(reason(|f| f.camera_matches = Some(false)), "ui_camera_mismatch");
    assert_eq!(reason(|f| f.has_camera = false), "camera_component_missing");
    assert_eq!(reason(|f| f.has_window = false), "primary_window_missing");
    assert_eq!(reason(|f| f.viewport = None), "empty_camera_viewport");
    assert_eq!(reason(|f| f.corners[2] = at(f32::NAN, 0.0)), "invalid_ui_transform");
    assert_eq!(reason(|f| f.clip = Some(rectangle(50.0, 0.0, 60.0, 9.0))), "fully_clipped");
    assert_eq!(reason(|f| f.inverse_scale = 0), "invalid_ui_scale_factor");
    let mut whole = node();
    whole.corners = vec![at(1.0, 1.0), at(2.0, 1.0), at(2.0, 2.0), at(1.0, 2.0)];
    assert!(!project_ui(&whole).expect("seen").clipped);
}

fn thing(corners: Option<Vec<Option<Point>>>) -> WorldFacts {
    WorldFacts {
        visible: Some(true),
        has_transform: true,
        has_camera: true,
        has_camera_transform: true,
        has_window: true,
        viewport: Some(rectangle(0.0, 0.0, 100.0, 100.0)),
        center: Some(at(10.0, 10.0)),
        corners,
    }
}

#[test]
fn entities_are_seen_by_their_middle_or_their_box() {
    assert_eq!(
        project_world(&thing(None)),
        Ok(WorldSight::Center { at: at(10.0, 10.0), clipped: false })
    );
    let mut outside = thing(None);
    outside.center = Some(at(101.0, 0.0));
    assert_eq!(project_world(&outside), Err("fully_clipped"));
    let mut corners = vec![Some(at(5.0, 5.0)); 7];
    corners.push(Some(at(120.0, 20.0)));
    let Ok(WorldSight::Part(part)) = project_world(&thing(Some(corners.clone()))) else {
        panic!("a part is seen");
    };
    assert_eq!(part.visible, rectangle(5.0, 5.0, 100.0, 20.0));
    assert!(part.clipped);
    corners[3] = None;
    assert_eq!(
        project_world(&thing(Some(corners))),
        Ok(WorldSight::Center { at: at(10.0, 10.0), clipped: true })
    );
    let reason = |change: fn(&mut WorldFacts)| {
        let mut facts = thing(None);
        change(&mut facts);
        project_world(&facts).expect_err("not seen")
    };
    assert_eq!(reason(|f| f.visible = Some(false)), "hidden");
    assert_eq!(reason(|f| f.has_transform = false), "missing_global_transform");
    assert_eq!(reason(|f| f.has_camera = false), "camera_component_missing");
    assert_eq!(reason(|f| f.has_camera_transform = false), "camera_transform_missing");
    assert_eq!(reason(|f| f.has_window = false), "primary_window_missing");
    assert_eq!(reason(|f| f.viewport = None), "empty_camera_viewport");
    assert_eq!(reason(|f| f.center = None), "center_projection_failed");
}

#[test]
fn resources_are_described() {
    let mut registry = PredicateRegistry::new();
    for (resource, field) in [("Score", "value"), ("Score", "best"), ("Level", "number")] {
        assert!(registry
            .register_resource_field(resource.to_string(), format!("game::{resource}"), field.to_string())
            .is_ok());
    }
    let plan = |resource: Option<&str>, field: Option<&str>| {
        registry.resource_info(resource.map(str::to_string), field.map(str::to_string))
    };
    let Ok(all) = plan(None, None) else { panic!("a plan") };
    let details = resource_answer(all, ResourceReading::Present(vec![true, false])).ok();
    assert_eq!(
        value(&details.expect("details")),
        read(
            r#"{"scope": "resources", "resources": [
                {"resource": "Score", "present": true}, {"resource": "Level", "present": false}]}"#
        )
    );
    let Ok(one) = plan(Some("Score"), None) else { panic!("a plan") };
    let details = resource_answer(one, ResourceReading::One(true)).ok();
    assert_eq!(
        value(&details.expect("details")),
        read(
            r#"{"scope": "resource", "resource": "Score", "present": true, "fields": ["value", "best"]}"#
        )
    );
    let Ok(field) = plan(Some("Score"), Some("best")) else { panic!("a plan") };
    assert!(matches!(field, ResourcePlan::Field { place: 1, .. }));
    let details = resource_answer(field, ResourceReading::Value(Ok(json("12.5")))).ok();
    assert_eq!(
        value(&details.expect("details")),
        read(r#"{"scope": "field", "resource": "Score", "field": "best", "value": 12.5}"#)
    );
    let Ok(field) = plan(Some("Score"), Some("best")) else { panic!("a plan") };
    let failed = resource_answer(field, ResourceReading::Value(Err(ReaderError::Missing)));
    assert_eq!(failed.err().expect("missing").code, "resource_missing");
    assert_eq!(plan(None, Some("best")).err().expect("refused").code, "resource_required");
    assert_eq!(
        plan(Some("Other"), None).err().expect("refused").code,
        "resource_not_registered"
    );
    assert_eq!(
        plan(Some("Score"), Some("other")).err().expect("refused").code,
        "resource_field_not_registered"
    );
}

#[test]
fn what_the_world_holds_is_listed_within_bounds() {
    let entity = |n: usize| EntityEntry { entity: format!("{n}v1"), components: vec!["Name".to_string()] };
    let few = value(&list_entities(&vec![entity(1)]));
    assert_eq!(
        few,
        read(
            r#"{"total": 1, "total_is_lower_bound": false, "truncated": false,
                "entities": [{"entity": "1v1", "components": ["Name"]}]}"#
        )
    );
    let many = value(&list_entities(&(0..257).map(entity).collect()));
    assert_eq!(many["total"], 257);
    assert_eq!(many["truncated"], true);
    assert_eq!(many["entities"].as_array().map(Vec::len), Some(256));
    let camera = |order: i64| CameraEntry {
        entity: "1v1".to_string(),
        is_active: true,
        order,
        viewport: Some(PhysicalViewport { position: (1, 2), size: (3, 4) }),
        translation: Some(vec![json("0.0"), json("1.5"), json("-2.0")]),
        projection: None,
    };
    assert_eq!(
        value(&camera_info(vec![camera(-1)]))["cameras"][0],
        read(
            r#"{"entity": "1v1", "is_active": true, "order": -1,
                "viewport": {"physical_position": [1, 2], "physical_size": [3, 4]},
                "translation": [0.0, 1.5, -2.0], "projection": null}"#
        )
    );
    let many = value(&camera_info((0..33).map(camera).collect()));
    assert_eq!(many["total"], 33);
    assert_eq!(many["cameras"].as_array().map(Vec::len), Some(32));
    assert_eq!(many["cameras"][31]["order"], 31);
    assert_eq!(bounded_listing(5, 5), Listing { shown: 5, total: 5, truncated: false });

    let mut registry = registry_with_marker();
    assert!(registry.register_state("Phase".to_string(), "game::Phase".to_string()).is_ok());
    assert!(registry.register_state("Mode".to_string(), "game::Mode".to_string()).is_ok());
    let states = state_info(&registry, vec![Err(ReaderError::Missing), Ok(json("\"Easy\""))]);
    assert_eq!(value(&states), read(r#"{"states": [{"type": "game::Mode", "value": "Easy"}]}"#));
    let markers = marker_info(
        &registry,
        &vec![vec!["4v1".to_string()]],
    );
    assert_eq!(
        value(&markers),
        read(
            r#"{"markers": [{"name": "TestMarker", "count": 1, "truncated": false,
                "count_is_lower_bound": false, "entities": ["4v1"]}]}"#
        )
    );
}

#[test]
fn the_entities_of_a_marker_are_cut_off() {
    let registry = registry_with_marker();
    let walked: Vec<String> = (0..257).map(|n| format!("{n}v1")).collect();
    let marker = value(&marker_info(&registry, &vec![walked]))["markers"][0].clone();
    assert_eq!(marker["count"], 257);
    assert_eq!(marker["truncated"], true);
    assert_eq!(marker["count_is_lower_bound"], true);
    assert_eq!(marker["entities"].as_array().map(Vec::len), Some(256));
    assert_eq!(marker["entities"][255], "255v1");
}

#[test]
fn details_of_failures_are_bounded() {
    let list = |n: usize| {
        Json::Array((0..n).map(|i| Json::Text(format!("e{i}"))).collect())
    };
    let details = Json::Object(vec![
        ("reason".to_string(), Json::Text("why".to_string())),
        ("limit".to_string(), json("256")),
        ("candidates".to_string(), list(20)),
        ("registered".to_string(), list(100)),
        ("registered_fields".to_string(), list(100)),
        ("other".to_string(), Json::Bool(true)),
    ]);
    let context = bounded_diagnostic_details(&details);
    assert_eq!(context.reason.as_deref(), Some("why"));
    assert_eq!(context.limit, Some(256));
    assert_eq!(context.candidates.len(), 16);
    assert_eq!(context.registered.len(), 128);
    let response = diagnostic_error(
        Json::Null,
        DiagnosticFailure { code: "c", message: "m", details },
    );
    assert_eq!(shown(&response_document(&response))["error"]["code"], "c");
}
