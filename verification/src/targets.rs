//! Targets: the bounded search for one entity, its window and its camera, and what the search says
//! of the presence of a target.
//!
//! The application walks its entities and projects the one that is found. A walk is cut off after
//! a fixed number of entities, and a search that was cut off never claims that its finding is the
//! only one.
use crate::commands::{TargetKind, TargetSelector};
use crate::evaluate::TargetPresence;
use crate::json::{json_text, json_texts, Json, JsonNumber, JsonValue, NumberValue, ObjectBuilder};
use crate::json;
use crate::registry::{DiagnosticFailure, RegisteredMarker};
use crate::registry;
use crate::text::{is_text, same_text};
use vstd::prelude::*;

verus! {

/// The most entities that one search looks at.
pub const MAX_TARGET_ENTITIES: usize = 256;

/// The most cameras that one search looks at.
pub const MAX_CAMERAS: usize = 32;

/// The most markers that one search looks at.
pub const MAX_MARKERS: usize = 256;

/// The most candidates that an answer names.
pub const MAX_CANDIDATE_DETAILS: usize = 16;

/// An entity.
#[derive(Debug)]
pub struct Candidate {
    /// The entity.
    pub id: u64,
    /// How an answer names it.
    pub label: String,
}

impl Candidate {
    /// A copy of this entity.
    pub fn copy(&self) -> (r: Candidate)
        ensures
            r == *self,
    {
        Candidate { id: self.id, label: self.label.clone() }
    }
}

/// An entity on a walk.
pub struct Scanned {
    /// The entity.
    pub entity: Candidate,
    /// Whether it is a node of the user interface.
    pub is_ui: bool,
    /// Whether the selector names it.
    pub matches: bool,
}

/// Tells whether a kind of target is meant.
pub open spec fn kind_fits(kind: TargetKind, is_ui: bool) -> bool {
    match kind {
        TargetKind::Any => true,
        TargetKind::Ui => is_ui,
        TargetKind::World => !is_ui,
    }
}

/// Tells whether a kind of target is meant.
pub fn kind_matches(kind: TargetKind, is_ui: bool) -> (r: bool)
    ensures
        r == kind_fits(kind, is_ui),
{
    match kind {
        TargetKind::Any => true,
        TargetKind::Ui => is_ui,
        TargetKind::World => !is_ui,
    }
}

/// The entities of the right kind on a walk.
pub open spec fn eligible(walk: Seq<Scanned>, kind: TargetKind) -> Seq<Scanned>
    decreases walk.len(),
{
    if walk.len() == 0 {
        Seq::empty()
    } else if kind_fits(kind, walk.last().is_ui) {
        eligible(walk.drop_last(), kind).push(walk.last())
    } else {
        eligible(walk.drop_last(), kind)
    }
}

/// The entities on a walk that the selector names.
pub open spec fn named_entities(walk: Seq<Scanned>) -> Seq<Candidate>
    decreases walk.len(),
{
    if walk.len() == 0 {
        Seq::empty()
    } else if walk.last().matches {
        named_entities(walk.drop_last()).push(walk.last().entity)
    } else {
        named_entities(walk.drop_last())
    }
}

/// A search for a target.
pub struct TargetSearch {
    /// The entities that the selector names.
    pub candidates: Vec<Candidate>,
    /// The entities that were looked at.
    pub scanned: usize,
    /// Whether there were more.
    pub truncated: bool,
}

/// The search `r` looked at the first entities of the right kind, and at no more than allowed.
pub open spec fn search_agrees(walk: Seq<Scanned>, kind: TargetKind, r: TargetSearch) -> bool {
    let fitting = eligible(walk, kind);
    if fitting.len() > MAX_TARGET_ENTITIES {
        r.truncated && r.scanned == MAX_TARGET_ENTITIES && r.candidates@ == named_entities(
            fitting.take(MAX_TARGET_ENTITIES as int),
        )
    } else {
        !r.truncated && r.scanned == fitting.len() && r.candidates@ == named_entities(fitting)
    }
}

proof fn lemma_eligible_prefix(walk: Seq<Scanned>, kind: TargetKind, n: int)
    requires
        0 <= n <= walk.len(),
    ensures
        eligible(walk.take(n), kind).len() <= eligible(walk, kind).len(),
        eligible(walk.take(n), kind) == eligible(walk, kind).take(
            eligible(walk.take(n), kind).len() as int,
        ),
    decreases walk.len() - n,
{
    if n == walk.len() {
        assert(walk.take(n) =~= walk);
        assert(eligible(walk, kind).take(eligible(walk, kind).len() as int) =~= eligible(
            walk,
            kind,
        ));
    } else {
        lemma_eligible_prefix(walk, kind, n + 1);
        let a = eligible(walk.take(n), kind);
        let b = eligible(walk.take(n + 1), kind);
        assert(walk.take(n + 1).drop_last() =~= walk.take(n));
        assert(a =~= b.take(a.len() as int));
        assert(b.take(a.len() as int) =~= eligible(walk, kind).take(a.len() as int));
    }
}

/// Looks at the entities of the right kind on a walk, and at no more than allowed.
pub fn bounded_target_search(walk: &Vec<Scanned>, kind: TargetKind) -> (r: TargetSearch)
    ensures
        search_agrees(walk@, kind, r),
{
    let mut candidates: Vec<Candidate> = Vec::new();
    let mut scanned: usize = 0;
    let mut i: usize = 0;
    assert(walk@.take(0) =~= Seq::<Scanned>::empty());
    while i < walk.len()
        invariant
            i <= walk@.len(),
            scanned <= MAX_TARGET_ENTITIES,
            scanned == eligible(walk@.take(i as int), kind).len(),
            candidates@ == named_entities(eligible(walk@.take(i as int), kind)),
        decreases walk@.len() - i,
    {
        let ghost before = eligible(walk@.take(i as int), kind);
        let ghost after = eligible(walk@.take(i + 1), kind);
        proof {
            assert(walk@.take(i + 1).drop_last() =~= walk@.take(i as int));
            assert(walk@.take(i + 1).last() == walk@[i as int]);
            lemma_eligible_prefix(walk@, kind, i as int);
            lemma_eligible_prefix(walk@, kind, i + 1);
        }
        if kind_matches(kind, walk[i].is_ui) {
            if scanned == MAX_TARGET_ENTITIES {
                return TargetSearch { candidates, scanned, truncated: true };
            }
            scanned = scanned + 1;
            assert(after.drop_last() =~= before);
            if walk[i].matches {
                candidates.push(walk[i].entity.copy());
            }
        }
        i = i + 1;
    }
    assert(walk@.take(walk@.len() as int) =~= walk@);
    TargetSearch { candidates, scanned, truncated: false }
}

/// The names of the first candidates.
pub open spec fn candidate_labels(candidates: Seq<Candidate>) -> Seq<String> {
    Seq::new(
        if candidates.len() < MAX_CANDIDATE_DETAILS {
            candidates.len()
        } else {
            MAX_CANDIDATE_DETAILS as nat
        },
        |i: int| candidates[i].label,
    )
}

/// Names the first candidates.
pub fn candidate_details(candidates: &Vec<Candidate>) -> (r: Vec<String>)
    ensures
        r@ == candidate_labels(candidates@),
{
    let mut r: Vec<String> = Vec::new();
    let mut i: usize = 0;
    while i < candidates.len() && i < MAX_CANDIDATE_DETAILS
        invariant
            i <= candidates@.len(),
            i <= MAX_CANDIDATE_DETAILS,
            r@.len() == i,
            forall|k: int| 0 <= k < i ==> r@[k] == candidates@[k].label,
        decreases candidates@.len() - i,
    {
        r.push(candidates[i].label.clone());
        i = i + 1;
    }
    assert(r@ =~= candidate_labels(candidates@));
    r
}

/// A natural number as a JSON value.
pub open spec fn count_value(n: nat) -> JsonValue {
    JsonValue::Number(NumberValue::Unsigned(n as u64))
}

fn json_count(n: usize) -> (r: Json)
    ensures
        r@ == count_value(n as nat),
{
    Json::Number(JsonNumber::Unsigned(n as u64))
}

/// The details of a search that was cut off.
pub open spec fn truncated_details(candidates: Seq<Candidate>) -> Map<Seq<char>, JsonValue> {
    map![
        "limit"@ => count_value(MAX_TARGET_ENTITIES as nat),
        "candidates"@ => json::text_list(candidate_labels(candidates)),
        "candidate_count_is_lower_bound"@ => JsonValue::Bool(true),
    ]
}

/// The details of a search with more than one finding.
pub open spec fn ambiguous_details(candidates: Seq<Candidate>) -> Map<Seq<char>, JsonValue> {
    map![
        "count"@ => count_value(candidates.len()),
        "candidates"@ => json::text_list(candidate_labels(candidates)),
        "candidate_details_truncated"@ => JsonValue::Bool(
            candidates.len() > MAX_CANDIDATE_DETAILS,
        ),
    ]
}

/// The result `r` is the only finding of a complete search, or says why there is none.
pub open spec fn finish_agrees(
    candidates: Seq<Candidate>,
    scanned: nat,
    truncated: bool,
    r: Result<Candidate, DiagnosticFailure>,
) -> bool {
    if truncated {
        registry::fails_as(
            r,
            "target_search_truncated",
            "target search exceeded the bounded selector-bearing entity scan",
            truncated_details(candidates),
        )
    } else if candidates.len() == 0 {
        registry::fails_as(
            r,
            "target_not_found",
            "no entity exactly matched the target selector and kind",
            map!["scanned"@ => count_value(scanned)],
        )
    } else if candidates.len() == 1 {
        r == Ok::<Candidate, DiagnosticFailure>(candidates[0])
    } else {
        registry::fails_as(
            r,
            "ambiguous_target",
            "multiple entities exactly matched the target selector and kind",
            ambiguous_details(candidates),
        )
    }
}

/// Ends a search: only a complete one with one finding has a result.
pub fn finish_target_search(search: TargetSearch) -> (r: Result<Candidate, DiagnosticFailure>)
    ensures
        finish_agrees(search.candidates@, search.scanned as nat, search.truncated, r),
{
    if search.truncated {
        let details = ObjectBuilder::new().with("limit", json_count(MAX_TARGET_ENTITIES)).with(
            "candidates",
            json_texts(&candidate_details(&search.candidates)),
        ).with("candidate_count_is_lower_bound", Json::Bool(true));
        assert(details@ =~= truncated_details(search.candidates@));
        return Err(
            DiagnosticFailure {
                code: "target_search_truncated",
                message: "target search exceeded the bounded selector-bearing entity scan",
                details: details.build(),
            },
        );
    }
    if search.candidates.len() == 0 {
        let details = ObjectBuilder::new().with("scanned", json_count(search.scanned));
        assert(details@ =~= map!["scanned"@ => count_value(search.scanned as nat)]);
        return Err(
            DiagnosticFailure {
                code: "target_not_found",
                message: "no entity exactly matched the target selector and kind",
                details: details.build(),
            },
        );
    }
    if search.candidates.len() == 1 {
        return Ok(search.candidates[0].copy());
    }
    let details = ObjectBuilder::new().with("count", json_count(search.candidates.len())).with(
        "candidates",
        json_texts(&candidate_details(&search.candidates)),
    ).with(
        "candidate_details_truncated",
        Json::Bool(search.candidates.len() > MAX_CANDIDATE_DETAILS),
    );
    assert(details@ =~= ambiguous_details(search.candidates@));
    Err(
        DiagnosticFailure {
            code: "ambiguous_target",
            message: "multiple entities exactly matched the target selector and kind",
            details: details.build(),
        },
    )
}

/// The entities of the right kind that one search looks at.
pub open spec fn looked_at(walk: Seq<Scanned>, kind: TargetKind) -> Seq<Scanned> {
    let fitting = eligible(walk, kind);
    if fitting.len() > MAX_TARGET_ENTITIES {
        fitting.take(MAX_TARGET_ENTITIES as int)
    } else {
        fitting
    }
}

/// The result `r` is the one target on a walk, or says why there is none.
pub open spec fn target_agrees(
    walk: Seq<Scanned>,
    kind: TargetKind,
    walk_truncated: bool,
    r: Result<Candidate, DiagnosticFailure>,
) -> bool {
    finish_agrees(
        named_entities(looked_at(walk, kind)),
        looked_at(walk, kind).len(),
        walk_truncated || eligible(walk, kind).len() > MAX_TARGET_ENTITIES,
        r,
    )
}

/// Finds the one target on a walk. A walk that was itself cut off cannot show that it has only one.
pub fn find_target(walk: &Vec<Scanned>, kind: TargetKind, walk_truncated: bool) -> (r: Result<
    Candidate,
    DiagnosticFailure,
>)
    ensures
        target_agrees(walk@, kind, walk_truncated, r),
{
    let mut search = bounded_target_search(walk, kind);
    if walk_truncated {
        search.truncated = true;
    }
    finish_target_search(search)
}

/// Law: a target is found exactly where the whole walk was looked at and exactly one of its
/// entities has the right kind and is named by the selector; that there is none is said exactly
/// where the whole walk was looked at and no entity is.
pub proof fn law_found_target_is_unique(
    walk: Seq<Scanned>,
    kind: TargetKind,
    walk_truncated: bool,
    r: Result<Candidate, DiagnosticFailure>,
)
    requires
        target_agrees(walk, kind, walk_truncated, r),
    ensures
        ({
            let complete = !walk_truncated && eligible(walk, kind).len() <= MAX_TARGET_ENTITIES;
            let matching = named_entities(eligible(walk, kind));
            &&& r is Ok <==> complete && matching.len() == 1
            &&& r matches Ok(found) ==> matching == seq![found]
            &&& complete && matching.len() == 0 <==> (r matches Err(e) && e.code
                == "target_not_found")
        }),
{
    reveal_strlit("target_not_found");
    reveal_strlit("ambiguous_target");
    reveal_strlit("target_search_truncated");
    assert("target_not_found"@.len() == 16 && "target_not_found"@[0] == 't');
    assert("ambiguous_target"@[0] == 'a');
    assert("target_search_truncated"@.len() == 23);
    if r is Ok {
        assert(named_entities(eligible(walk, kind)) =~= seq![r->Ok_0]);
    }
}

/// How many markers have a name.
pub open spec fn markers_named(markers: Seq<RegisteredMarker>, name: Seq<char>) -> nat
    decreases markers.len(),
{
    if markers.len() == 0 {
        0
    } else {
        markers_named(markers.drop_last(), name) + if markers.last().key@ == name {
            1nat
        } else {
            0nat
        }
    }
}

/// The result `r` is the place of the one marker with a name, or says why there is none.
pub open spec fn marker_agrees(
    markers: Seq<RegisteredMarker>,
    requested: Seq<char>,
    r: Result<usize, DiagnosticFailure>,
) -> bool {
    if markers.len() > MAX_MARKERS {
        registry::fails_as(
            r,
            "marker_registry_truncated",
            "registered marker search exceeded its bound",
            map![
                "limit"@ => count_value(MAX_MARKERS as nat),
                "registered_is_lower_bound"@ => JsonValue::Bool(true),
            ],
        )
    } else if markers_named(markers, requested) == 0 {
        registry::fails_as(
            r,
            "marker_not_registered",
            "target marker name is not registered for diagnostics",
            map!["marker"@ => JsonValue::Text(requested)],
        )
    } else if markers_named(markers, requested) == 1 {
        r matches Ok(i) && i < markers.len() && markers[i as int].key@ == requested
    } else {
        registry::fails_as(
            r,
            "marker_registration_ambiguous",
            "target marker name was registered more than once",
            map!["marker"@ => JsonValue::Text(requested)],
        )
    }
}

/// Finds the one marker with a name.
pub fn find_marker(markers: &Vec<RegisteredMarker>, requested: &str) -> (r: Result<
    usize,
    DiagnosticFailure,
>)
    ensures
        marker_agrees(markers@, requested@, r),
{
    if markers.len() > MAX_MARKERS {
        let details = ObjectBuilder::new().with("limit", json_count(MAX_MARKERS)).with(
            "registered_is_lower_bound",
            Json::Bool(true),
        );
        assert(details@ =~= map![
            "limit"@ => count_value(MAX_MARKERS as nat),
            "registered_is_lower_bound"@ => JsonValue::Bool(true),
        ]);
        return Err(
            DiagnosticFailure {
                code: "marker_registry_truncated",
                message: "registered marker search exceeded its bound",
                details: details.build(),
            },
        );
    }
    let mut found: usize = 0;
    let mut place: usize = 0;
    let mut i: usize = 0;
    assert(markers@.take(0) =~= Seq::<RegisteredMarker>::empty());
    while i < markers.len()
        invariant
            i <= markers@.len(),
            markers@.len() <= MAX_MARKERS,
            found <= i,
            found == markers_named(markers@.take(i as int), requested@),
            found > 0 ==> place < markers@.len() && markers@[place as int].key@ == requested@,
        decreases markers@.len() - i,
    {
        proof {
            assert(markers@.take(i + 1).drop_last() =~= markers@.take(i as int));
            assert(markers@.take(i + 1).last() == markers@[i as int]);
        }
        if same_text(markers[i].key.as_str(), requested) {
            place = i;
            found = found + 1;
        }
        i = i + 1;
    }
    assert(markers@.take(markers@.len() as int) =~= markers@);
    if found == 1 {
        return Ok(place);
    }
    let details = ObjectBuilder::new().with("marker", json_text(requested));
    assert(details@ =~= map!["marker"@ => JsonValue::Text(requested@)]);
    if found == 0 {
        Err(
            DiagnosticFailure {
                code: "marker_not_registered",
                message: "target marker name is not registered for diagnostics",
                details: details.build(),
            },
        )
    } else {
        Err(
            DiagnosticFailure {
                code: "marker_registration_ambiguous",
                message: "target marker name was registered more than once",
                details: details.build(),
            },
        )
    }
}

/// Picks the one primary window.
pub fn find_primary_window(windows: &Vec<Candidate>) -> (r: Result<Candidate, DiagnosticFailure>)
    ensures
        if windows@.len() == 1 {
            r == Ok::<Candidate, DiagnosticFailure>(windows@[0])
        } else if windows@.len() == 0 {
            registry::fails_as(
                r,
                "primary_window_unavailable",
                "no primary window is available",
                Map::empty(),
            )
        } else {
            registry::fails_as(
                r,
                "primary_window_ambiguous",
                "multiple primary windows are present",
                map!["windows"@ => json::text_list(candidate_labels(windows@))],
            )
        },
{
    if windows.len() == 1 {
        return Ok(windows[0].copy());
    }
    if windows.len() == 0 {
        return Err(
            DiagnosticFailure {
                code: "primary_window_unavailable",
                message: "no primary window is available",
                details: ObjectBuilder::new().build(),
            },
        );
    }
    let details = ObjectBuilder::new().with("windows", json_texts(&candidate_details(windows)));
    assert(details@ =~= map!["windows"@ => json::text_list(candidate_labels(windows@))]);
    Err(
        DiagnosticFailure {
            code: "primary_window_ambiguous",
            message: "multiple primary windows are present",
            details: details.build(),
        },
    )
}

/// A camera on a walk.
pub struct ScannedCamera {
    /// The camera.
    pub entity: Candidate,
    /// Whether it is active.
    pub is_active: bool,
    /// Whether it renders to the primary window.
    pub on_primary_window: bool,
    /// Its name.
    pub name: Option<String>,
}

/// A camera is one that was asked for.
pub open spec fn camera_fits(camera: ScannedCamera, requested: Option<Seq<char>>) -> bool {
    camera.is_active && camera.on_primary_window && (requested matches Some(name) ==> camera.name
        is Some && camera.name->Some_0@ == name)
}

/// The cameras on a walk that were asked for.
pub open spec fn fitting_cameras(walk: Seq<ScannedCamera>, requested: Option<Seq<char>>) -> Seq<
    Candidate,
>
    decreases walk.len(),
{
    if walk.len() == 0 {
        Seq::empty()
    } else if camera_fits(walk.last(), requested) {
        fitting_cameras(walk.drop_last(), requested).push(walk.last().entity)
    } else {
        fitting_cameras(walk.drop_last(), requested)
    }
}

/// An optional text as a JSON value.
pub open spec fn optional_text(text: Option<Seq<char>>) -> JsonValue {
    match text {
        Some(s) => JsonValue::Text(s),
        None => JsonValue::Null,
    }
}

/// The result `r` is the one camera that was asked for, or says why there is none.
pub open spec fn camera_agrees(
    walk: Seq<ScannedCamera>,
    requested: Option<Seq<char>>,
    r: Result<Candidate, DiagnosticFailure>,
) -> bool {
    if walk.len() > MAX_CAMERAS {
        registry::fails_as(
            r,
            "camera_search_truncated",
            "camera search exceeded the bounded camera scan",
            map![
                "limit"@ => count_value(MAX_CAMERAS as nat),
                "candidates"@ => json::text_list(
                    candidate_labels(fitting_cameras(walk.take(MAX_CAMERAS as int), requested)),
                ),
            ],
        )
    } else {
        let fitting = fitting_cameras(walk, requested);
        if fitting.len() == 1 {
            r == Ok::<Candidate, DiagnosticFailure>(fitting[0])
        } else if fitting.len() == 0 {
            registry::fails_as(
                r,
                "camera_unavailable",
                "no active primary-window camera exactly matched the request",
                map![
                    "name"@ => optional_text(requested),
                    "scanned"@ => count_value(walk.len()),
                ],
            )
        } else {
            registry::fails_as(
                r,
                "camera_ambiguous",
                "multiple active primary-window cameras matched the request",
                map![
                    "name"@ => optional_text(requested),
                    "count"@ => count_value(fitting.len()),
                    "candidates"@ => json::text_list(candidate_labels(fitting)),
                    "candidate_details_truncated"@ => JsonValue::Bool(
                        fitting.len() > MAX_CANDIDATE_DETAILS,
                    ),
                ],
            )
        }
    }
}

/// Picks the one camera that was asked for among those on a walk.
pub fn find_camera(walk: &Vec<ScannedCamera>, requested: Option<&str>) -> (r: Result<
    Candidate,
    DiagnosticFailure,
>)
    ensures
        camera_agrees(
            walk@,
            match requested {
                Some(name) => Some(name@),
                None => None,
            },
            r,
        ),
{
    let ghost wanted = match requested {
        Some(name) => Some(name@),
        None => None,
    };
    let mut candidates: Vec<Candidate> = Vec::new();
    let mut i: usize = 0;
    assert(walk@.take(0) =~= Seq::<ScannedCamera>::empty());
    while i < walk.len() && i < MAX_CAMERAS
        invariant
            i <= walk@.len(),
            i <= MAX_CAMERAS,
            wanted == (match requested {
                Some(name) => Some(name@),
                None => None,
            }),
            candidates@ == fitting_cameras(walk@.take(i as int), wanted),
        decreases walk@.len() - i,
    {
        proof {
            assert(walk@.take(i + 1).drop_last() =~= walk@.take(i as int));
            assert(walk@.take(i + 1).last() == walk@[i as int]);
        }
        let name_fits = match requested {
            Some(name) => is_text(&walk[i].name, name),
            None => true,
        };
        if walk[i].is_active && walk[i].on_primary_window && name_fits {
            candidates.push(walk[i].entity.copy());
        }
        i = i + 1;
    }
    if walk.len() > MAX_CAMERAS {
        let details = ObjectBuilder::new().with("limit", json_count(MAX_CAMERAS)).with(
            "candidates",
            json_texts(&candidate_details(&candidates)),
        );
        assert(details@ =~= map![
            "limit"@ => count_value(MAX_CAMERAS as nat),
            "candidates"@ => json::text_list(candidate_labels(candidates@)),
        ]);
        return Err(
            DiagnosticFailure {
                code: "camera_search_truncated",
                message: "camera search exceeded the bounded camera scan",
                details: details.build(),
            },
        );
    }
    assert(walk@.take(walk@.len() as int) =~= walk@);
    if candidates.len() == 1 {
        return Ok(candidates[0].copy());
    }
    let name = match requested {
        Some(name) => json_text(name),
        None => Json::Null,
    };
    if candidates.len() == 0 {
        let details = ObjectBuilder::new().with("name", name).with(
            "scanned",
            json_count(walk.len()),
        );
        assert(details@ =~= map![
            "name"@ => optional_text(wanted),
            "scanned"@ => count_value(walk@.len()),
        ]);
        return Err(
            DiagnosticFailure {
                code: "camera_unavailable",
                message: "no active primary-window camera exactly matched the request",
                details: details.build(),
            },
        );
    }
    let details = ObjectBuilder::new().with("name", name).with(
        "count",
        json_count(candidates.len()),
    ).with("candidates", json_texts(&candidate_details(&candidates))).with(
        "candidate_details_truncated",
        Json::Bool(candidates.len() > MAX_CANDIDATE_DETAILS),
    );
    assert(details@ =~= map![
        "name"@ => optional_text(wanted),
        "count"@ => count_value(candidates@.len()),
        "candidates"@ => json::text_list(candidate_labels(candidates@)),
        "candidate_details_truncated"@ => JsonValue::Bool(
            candidates@.len() > MAX_CANDIDATE_DETAILS,
        ),
    ]);
    Err(
        DiagnosticFailure {
            code: "camera_ambiguous",
            message: "multiple active primary-window cameras matched the request",
            details: details.build(),
        },
    )
}

/// The failure of a target that exists and cannot be clicked.
pub fn target_unavailable(label: &str, reason: &'static str) -> (r: DiagnosticFailure)
    ensures
        registry::fails_as(
            Err::<(), DiagnosticFailure>(r),
            "target_unavailable",
            "target exists but cannot be resolved to a visible primary-window position",
            map![
                "entity"@ => JsonValue::Text(label@),
                "reason"@ => JsonValue::Text(reason@),
            ],
        ),
{
    let details = ObjectBuilder::new().with("entity", json_text(label)).with(
        "reason",
        json_text(reason),
    );
    assert(details@ =~= map![
        "entity"@ => JsonValue::Text(label@),
        "reason"@ => JsonValue::Text(reason@),
    ]);
    DiagnosticFailure {
        code: "target_unavailable",
        message: "target exists but cannot be resolved to a visible primary-window position",
        details: details.build(),
    }
}

/// The failures that do not doubt that a target exists.
pub open spec fn present_code(code: Seq<char>) -> bool {
    code == "ambiguous_target"@ || code == "target_unavailable"@ || code == "camera_unavailable"@
        || code == "camera_ambiguous"@ || code == "camera_search_truncated"@ || code
        == "primary_window_unavailable"@ || code == "primary_window_ambiguous"@
}

/// The details name a candidate.
pub open spec fn has_candidate(details: Json) -> bool {
    match details.spec_get("candidates"@) {
        Some(Json::Array(items)) => items@.len() > 0,
        _ => false,
    }
}

/// What the outcome of resolving a target says of its presence.
pub open spec fn presence_agrees(
    resolved: Result<(), DiagnosticFailure>,
    r: Result<TargetPresence, DiagnosticFailure>,
) -> bool {
    match resolved {
        Ok(()) => r == Ok::<TargetPresence, DiagnosticFailure>(TargetPresence::Resolved),
        Err(e) => if e.code@ == "target_not_found"@ {
            r == Ok::<TargetPresence, DiagnosticFailure>(TargetPresence::Absent)
        } else if e.code@ == "target_search_truncated"@ {
            r == Ok::<TargetPresence, DiagnosticFailure>(
                if has_candidate(e.details) {
                    TargetPresence::PresentUnresolved
                } else {
                    TargetPresence::Indeterminate
                },
            )
        } else if present_code(e.code@) {
            r == Ok::<TargetPresence, DiagnosticFailure>(TargetPresence::PresentUnresolved)
        } else {
            r == Err::<TargetPresence, DiagnosticFailure>(e)
        },
    }
}

/// Tells the presence of a target from the outcome of resolving it. Any candidate disproves
/// absence, while a search that was cut off without one proves nothing.
pub fn target_resolvability(resolved: Result<(), DiagnosticFailure>) -> (r: Result<
    TargetPresence,
    DiagnosticFailure,
>)
    ensures
        presence_agrees(resolved, r),
{
    let e = match resolved {
        Ok(()) => return Ok(TargetPresence::Resolved),
        Err(e) => e,
    };
    if same_text(e.code, "target_not_found") {
        return Ok(TargetPresence::Absent);
    }
    if same_text(e.code, "target_search_truncated") {
        let found = match e.details.get("candidates") {
            Some(Json::Array(items)) => items.len() > 0,
            _ => false,
        };
        return Ok(
            if found {
                TargetPresence::PresentUnresolved
            } else {
                TargetPresence::Indeterminate
            },
        );
    }
    if same_text(e.code, "ambiguous_target") || same_text(e.code, "target_unavailable")
        || same_text(e.code, "camera_unavailable") || same_text(e.code, "camera_ambiguous")
        || same_text(e.code, "camera_search_truncated") || same_text(
        e.code,
        "primary_window_unavailable",
    ) || same_text(e.code, "primary_window_ambiguous") {
        return Ok(TargetPresence::PresentUnresolved);
    }
    Err(e)
}

/// How an answer describes a selector: which kind it is, what it names, and the marker in it.
pub open spec fn selector_parts(selector: TargetSelector) -> (
    &'static str,
    String,
    Option<String>,
) {
    match selector {
        TargetSelector::Name(value) => ("name", value, None),
        TargetSelector::AccessibilityLabel(value) => ("accessibility_label", value, None),
        TargetSelector::Marker(value) => ("marker", value, Some(value)),
    }
}

/// Describes a selector for an answer.
pub fn describe_selector(selector: &TargetSelector) -> (r: (&'static str, String, Option<String>))
    ensures
        r == selector_parts(*selector),
{
    match selector {
        TargetSelector::Name(value) => ("name", value.clone(), None),
        TargetSelector::AccessibilityLabel(value) => ("accessibility_label", value.clone(), None),
        TargetSelector::Marker(value) => ("marker", value.clone(), Some(value.clone())),
    }
}

/// The places on a walk of the entities of a kind: all of them, those of the user interface, or
/// those that are not.
pub open spec fn places_of_kind(walk: Seq<Scanned>, kind: TargetKind) -> Set<int> {
    Set::new(
        |i: int|
            0 <= i < walk.len() && (kind is Any || (kind is Ui && walk[i].is_ui) || (kind is World
                && !walk[i].is_ui)),
    )
}

/// The places on a walk of the entities of a kind that the selector names.
pub open spec fn places_named(walk: Seq<Scanned>, kind: TargetKind) -> Set<int> {
    Set::new(|i: int| places_of_kind(walk, kind).contains(i) && walk[i].matches)
}

proof fn lemma_places_named(walk: Seq<Scanned>, kind: TargetKind)
    ensures
        places_of_kind(walk, kind).finite(),
        places_of_kind(walk, kind).len() == eligible(walk, kind).len(),
        places_named(walk, kind).finite(),
        places_named(walk, kind).len() == named_entities(eligible(walk, kind)).len(),
        forall|i: int| #[trigger]
            places_named(walk, kind).contains(i) ==> named_entities(
                eligible(walk, kind),
            ).contains(walk[i].entity),
    decreases walk.len(),
{
    let fit = places_of_kind(walk, kind);
    let named = places_named(walk, kind);
    let found = named_entities(eligible(walk, kind));
    if walk.len() == 0 {
        assert(fit =~= Set::empty());
        assert(named =~= Set::empty());
    } else {
        let before = walk.drop_last();
        let last = walk.len() - 1;
        lemma_places_named(before, kind);
        let before_fit = places_of_kind(before, kind);
        let before_named = places_named(before, kind);
        let before_found = named_entities(eligible(before, kind));
        if fit.contains(last) {
            assert(fit =~= before_fit.insert(last));
            assert(eligible(walk, kind).drop_last() =~= eligible(before, kind));
            if walk[last].matches {
                assert(named =~= before_named.insert(last));
                assert(found =~= before_found.push(walk[last].entity));
                assert(found[found.len() - 1] == walk[last].entity);
            } else {
                assert(named =~= before_named);
                assert(found =~= before_found);
            }
        } else {
            assert(fit =~= before_fit);
            assert(named =~= before_named);
            assert(found =~= before_found);
        }
        assert forall|i: int| #[trigger] named.contains(i) implies found.contains(
            walk[i].entity,
        ) by {
            if i < last {
                assert(before_named.contains(i));
                assert(before[i] == walk[i]);
                let k = before_found.index_of(walk[i].entity);
                assert(found[k] == before_found[k]);
            }
        }
    }
}

/// Law: a target is found exactly where all entities of its kind on a whole walk were looked at, of
/// which there are no more than allowed, and the selector names exactly one of them: that one. That
/// there is none, or more than one, is said exactly where that is so; and where not all were looked
/// at, that is what is said.
pub proof fn law_targets_are_the_only_ones_named(
    walk: Seq<Scanned>,
    kind: TargetKind,
    walk_truncated: bool,
    r: Result<Candidate, DiagnosticFailure>,
)
    requires
        target_agrees(walk, kind, walk_truncated, r),
    ensures
        ({
            let complete = !walk_truncated && places_of_kind(walk, kind).len() <= 256;
            let named = places_named(walk, kind);
            &&& r is Ok <==> complete && named.len() == 1
            &&& r matches Ok(found) ==> forall|i: int| #[trigger]
                named.contains(i) ==> walk[i].entity == found
            &&& r matches Err(e) ==> e.code == (if !complete {
                "target_search_truncated"
            } else if named.len() == 0 {
                "target_not_found"
            } else {
                "ambiguous_target"
            })
        }),
{
    lemma_places_named(walk, kind);
}

/// The places on a walk of the cameras that are active, render to the primary window and have the
/// name that was asked for, where one was.
pub open spec fn places_of_cameras(walk: Seq<ScannedCamera>, requested: Option<Seq<char>>) -> Set<
    int,
> {
    Set::new(
        |i: int|
            0 <= i < walk.len() && walk[i].is_active && walk[i].on_primary_window && (requested
                is None || (walk[i].name is Some && walk[i].name->Some_0@ == requested->Some_0)),
    )
}

proof fn lemma_places_of_cameras(walk: Seq<ScannedCamera>, requested: Option<Seq<char>>)
    ensures
        places_of_cameras(walk, requested).finite(),
        places_of_cameras(walk, requested).len() == fitting_cameras(walk, requested).len(),
        forall|i: int| #[trigger]
            places_of_cameras(walk, requested).contains(i) ==> fitting_cameras(
                walk,
                requested,
            ).contains(walk[i].entity),
    decreases walk.len(),
{
    let places = places_of_cameras(walk, requested);
    let found = fitting_cameras(walk, requested);
    if walk.len() == 0 {
        assert(places =~= Set::empty());
    } else {
        let before = walk.drop_last();
        let last = walk.len() - 1;
        lemma_places_of_cameras(before, requested);
        let before_places = places_of_cameras(before, requested);
        let before_found = fitting_cameras(before, requested);
        if places.contains(last) {
            assert(places =~= before_places.insert(last));
            assert(found[found.len() - 1] == walk[last].entity);
        } else {
            assert(places =~= before_places);
        }
        assert forall|i: int| #[trigger] places.contains(i) implies found.contains(
            walk[i].entity,
        ) by {
            if i < last {
                assert(before_places.contains(i));
                assert(before[i] == walk[i]);
                let k = before_found.index_of(walk[i].entity);
                assert(found[k] == before_found[k]);
            }
        }
    }
}

/// Law: a camera is found exactly where it is the only one of a few that is active, renders to the
/// primary window and has the name that was asked for.
pub proof fn law_cameras_are_the_only_ones_asked_for(
    walk: Seq<ScannedCamera>,
    requested: Option<Seq<char>>,
    r: Result<Candidate, DiagnosticFailure>,
)
    requires
        camera_agrees(walk, requested, r),
    ensures
        ({
            let fitting = places_of_cameras(walk, requested);
            &&& r is Ok <==> walk.len() <= 32 && fitting.len() == 1
            &&& r matches Ok(found) ==> forall|i: int| #[trigger]
                fitting.contains(i) ==> walk[i].entity == found
            &&& r matches Err(e) ==> e.code == (if walk.len() > 32 {
                "camera_search_truncated"
            } else if fitting.len() == 0 {
                "camera_unavailable"
            } else {
                "camera_ambiguous"
            })
        }),
{
    lemma_places_of_cameras(walk, requested);
}

proof fn lemma_markers_named(markers: Seq<RegisteredMarker>, name: Seq<char>)
    ensures
        Set::new(|i: int| 0 <= i < markers.len() && markers[i].key@ == name).finite(),
        Set::new(|i: int| 0 <= i < markers.len() && markers[i].key@ == name).len()
            == markers_named(markers, name),
    decreases markers.len(),
{
    let places = Set::new(|i: int| 0 <= i < markers.len() && markers[i].key@ == name);
    if markers.len() == 0 {
        assert(places =~= Set::empty());
    } else {
        let before = markers.drop_last();
        let last = markers.len() - 1;
        lemma_markers_named(before, name);
        let before_places = Set::new(|i: int| 0 <= i < before.len() && before[i].key@ == name);
        if markers[last].key@ == name {
            assert(places =~= before_places.insert(last));
        } else {
            assert(places =~= before_places);
        }
    }
}

/// Law: a marker is found exactly where it is the only one of a few that is registered under its
/// name.
pub proof fn law_markers_are_the_only_ones_registered(
    markers: Seq<RegisteredMarker>,
    requested: Seq<char>,
    r: Result<usize, DiagnosticFailure>,
)
    requires
        marker_agrees(markers, requested, r),
    ensures
        ({
            let places = Set::new(
                |i: int| 0 <= i < markers.len() && markers[i].key@ == requested,
            );
            &&& r is Ok <==> markers.len() <= 256 && places.len() == 1
            &&& r matches Ok(i) ==> places.contains(i as int)
            &&& r matches Err(e) ==> e.code == (if markers.len() > 256 {
                "marker_registry_truncated"
            } else if places.len() == 0 {
                "marker_not_registered"
            } else {
                "marker_registration_ambiguous"
            })
        }),
{
    lemma_markers_named(markers, requested);
}

/// Law: a target that was resolved is there to be clicked. It is absent only where a complete search
/// found none, and nothing is known only where a search was cut off without a candidate; every other
/// failure to resolve a target shows that there is one, or is passed on.
pub proof fn law_presence_is_told_by_the_search(
    resolved: Result<(), DiagnosticFailure>,
    r: Result<TargetPresence, DiagnosticFailure>,
)
    requires
        presence_agrees(resolved, r),
    ensures
        r == Ok::<TargetPresence, DiagnosticFailure>(TargetPresence::Resolved) <==> resolved is Ok,
        r == Ok::<TargetPresence, DiagnosticFailure>(TargetPresence::Absent) <==> (
        resolved matches Err(e) && e.code@ == "target_not_found"@),
        r == Ok::<TargetPresence, DiagnosticFailure>(TargetPresence::Indeterminate) <==> (
        resolved matches Err(e) && e.code@ == "target_search_truncated"@ && !has_candidate(
            e.details,
        )),
        r matches Err(passed) ==> resolved == Err::<(), DiagnosticFailure>(passed),
        resolved matches Err(e) && (e.code@ == "ambiguous_target"@ || e.code@
            == "target_unavailable"@ || e.code@ == "camera_unavailable"@ || e.code@
            == "camera_ambiguous"@ || e.code@ == "camera_search_truncated"@ || e.code@
            == "primary_window_unavailable"@ || e.code@ == "primary_window_ambiguous"@) ==> r
            == Ok::<TargetPresence, DiagnosticFailure>(TargetPresence::PresentUnresolved),
{
    reveal_strlit("target_not_found");
    reveal_strlit("target_search_truncated");
    reveal_strlit("ambiguous_target");
    reveal_strlit("target_unavailable");
    reveal_strlit("camera_unavailable");
    reveal_strlit("camera_ambiguous");
    reveal_strlit("camera_search_truncated");
    reveal_strlit("primary_window_unavailable");
    reveal_strlit("primary_window_ambiguous");
    assert("target_not_found"@[7] == 'n');
    assert("target_search_truncated"@[7] == 's');
    assert("target_unavailable"@[7] == 'u');
    assert("ambiguous_target"@[0] == 'a');
    assert("target_search_truncated"@[0] == 't');
    assert("target_not_found"@[0] == 't');
    assert("camera_unavailable"@[0] == 'c');
    assert("camera_ambiguous"@[0] == 'c');
    assert("camera_search_truncated"@[0] == 'c');
    assert("primary_window_unavailable"@[0] == 'p');
    assert("primary_window_ambiguous"@[0] == 'p');
}

/// Law: that a target exists or is absent is only told of a whole walk, and as it is: one target
/// that is named once and was resolved is there, one that is named more than once is there but
/// cannot be clicked, and one that is named nowhere is absent.
pub proof fn law_presence_is_that_of_the_walk(
    walk: Seq<Scanned>,
    kind: TargetKind,
    walk_truncated: bool,
    found: Result<Candidate, DiagnosticFailure>,
    resolved: Result<(), DiagnosticFailure>,
    r: Result<TargetPresence, DiagnosticFailure>,
)
    requires
        target_agrees(walk, kind, walk_truncated, found),
        found is Ok <==> resolved is Ok,
        found matches Err(e) ==> resolved == Err::<(), DiagnosticFailure>(e),
        presence_agrees(resolved, r),
        !walk_truncated,
        places_of_kind(walk, kind).len() <= 256,
    ensures
        r is Ok,
        r->Ok_0 == (if places_named(walk, kind).len() == 0 {
            TargetPresence::Absent
        } else if places_named(walk, kind).len() == 1 {
            TargetPresence::Resolved
        } else {
            TargetPresence::PresentUnresolved
        }),
{
    law_targets_are_the_only_ones_named(walk, kind, walk_truncated, found);
    law_presence_is_told_by_the_search(resolved, r);
}

} // verus!
