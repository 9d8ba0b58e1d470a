//! The answers to diagnostic requests: what they show of the world, and what they start.
use crate::captures::Reply;
use crate::client::ResolvedTargetKind;
use crate::commands::{AgentCommand, Point, TargetSelector};
use crate::control::{AgentFeedbackState, AgentRequest, ResolvedClick};
use crate::diagnostics;
use crate::diagnostics::{
    answer_evaluation, bounded_listing, diagnostic_error, AgentDiagnosticsQueue, Evaluation,
    PendingWait, QueueView, ResourcePlan, Scene, MAX_DIAGNOSTIC_CAMERAS, MAX_DIAGNOSTIC_ENTITIES,
};
use crate::actions;
use crate::control;
use crate::evaluate;
use crate::evaluate::{bounded_count, map_reader_error};
use crate::json;
use crate::json::{
    copy_json, json_text, json_texts, Json, JsonNumber, JsonValue, NumberValue, ObjectBuilder,
};
use crate::registry::{DiagnosticFailure, PredicateRegistry, ReaderError, MAX_MARKER_COUNT};
use crate::responses::{AgentResponse, AgentResult, Details, EcsSummaryContext};
use crate::targets;
use crate::targets::describe_selector;
use vstd::prelude::*;

verus! {

/// An integer from zero up as a JSON value.
pub open spec fn whole(n: int) -> JsonValue {
    JsonValue::Number(NumberValue::Unsigned(n as u64))
}

fn json_whole(n: u64) -> (r: Json)
    ensures
        r@ == whole(n as int),
{
    Json::Number(JsonNumber::Unsigned(n))
}

/// An integer as a JSON value.
pub open spec fn integer(n: i64) -> JsonValue {
    JsonValue::Number(
        if n >= 0 {
            NumberValue::Unsigned(n as u64)
        } else {
            NumberValue::Negative(n)
        },
    )
}

fn json_integer(n: i64) -> (r: Json)
    ensures
        r@ == integer(n),
{
    Json::Number(JsonNumber::signed(n))
}

/// What a list of values is.
pub open spec fn list_value(items: Seq<Json>) -> JsonValue {
    JsonValue::Array(Seq::new(items.len(), |i: int| items[i]@))
}

fn json_list(items: Vec<Json>) -> (r: Json)
    ensures
        r@ == list_value(items@),
{
    let r = Json::Array(items);
    assert(r@ matches JsonValue::Array(s) && s =~= Seq::new(items@.len(), |i: int| items@[i]@));
    r
}

fn copy_list(items: &Vec<Json>) -> (r: Json)
    ensures
        r@ == list_value(items@),
{
    let mut copies: Vec<Json> = Vec::new();
    let mut i: usize = 0;
    while i < items.len()
        invariant
            i <= items@.len(),
            copies@.len() == i,
            forall|k: int| 0 <= k < i ==> (#[trigger] copies@[k])@ == items@[k]@,
        decreases items@.len() - i,
    {
        copies.push(copy_json(&items[i]));
        i = i + 1;
    }
    assert(Seq::new(copies@.len(), |k: int| copies@[k]@) =~= Seq::new(
        items@.len(),
        |k: int| items@[k]@,
    ));
    json_list(copies)
}

/// The object with the text under the name, where there is one.
pub open spec fn with_text(
    object: Map<Seq<char>, JsonValue>,
    name: Seq<char>,
    text: Option<String>,
) -> Map<Seq<char>, JsonValue> {
    match text {
        Some(s) => object.insert(name, JsonValue::Text(s@)),
        None => object,
    }
}

fn add_text(object: ObjectBuilder, name: &str, text: &Option<String>) -> (r: ObjectBuilder)
    ensures
        r@ == with_text(object@, name@, *text),
{
    match text {
        Some(s) => object.with(name, json_text(s.as_str())),
        None => object,
    }
}

/// The size of the world as a JSON value. That there may be more entities is only said where
/// there may be.
pub open spec fn summary_value(summary: EcsSummaryContext) -> Map<Seq<char>, JsonValue> {
    let counts = map![
        "entity_count"@ => whole(summary.entity_count as int),
        "component_count"@ => whole(summary.component_count as int),
        "archetype_count"@ => whole(summary.archetype_count as int),
    ];
    if summary.entity_count_is_lower_bound {
        counts.insert("entity_count_is_lower_bound"@, JsonValue::Bool(true))
    } else {
        counts
    }
}

/// Shows the size of the world.
pub fn ecs_summary(summary: &EcsSummaryContext) -> (r: Json)
    ensures
        r@ == JsonValue::Object(summary_value(*summary)),
{
    let counts = ObjectBuilder::new().with(
        "entity_count",
        json_whole(summary.entity_count as u64),
    ).with("component_count", json_whole(summary.component_count as u64)).with(
        "archetype_count",
        json_whole(summary.archetype_count as u64),
    );
    assert(counts@ =~= map![
        "entity_count"@ => whole(summary.entity_count as int),
        "component_count"@ => whole(summary.component_count as int),
        "archetype_count"@ => whole(summary.archetype_count as int),
    ]);
    if summary.entity_count_is_lower_bound {
        counts.with("entity_count_is_lower_bound", Json::Bool(true)).build()
    } else {
        counts.build()
    }
}

/// An entity and its components.
pub struct EntityEntry {
    /// The entity.
    pub entity: String,
    /// The names of its components.
    pub components: Vec<String>,
}

/// An entity as a JSON value.
pub open spec fn entity_value(entry: EntityEntry) -> JsonValue {
    JsonValue::Object(
        Map::empty().insert("entity"@, JsonValue::Text(entry.entity@)).insert(
            "components"@,
            json::text_list(entry.components@),
        ),
    )
}

fn entity_json(entry: &EntityEntry) -> (r: Json)
    ensures
        r@ == entity_value(*entry),
{
    ObjectBuilder::new().with("entity", json_text(entry.entity.as_str())).with(
        "components",
        json_texts(&entry.components),
    ).build()
}

/// A rectangle of pixels on a target: its position and its size.
#[derive(Clone, Copy, Debug)]
pub struct PhysicalViewport {
    /// The position.
    pub position: (u32, u32),
    /// The size.
    pub size: (u32, u32),
}

/// A camera.
pub struct CameraEntry {
    /// The entity.
    pub entity: String,
    /// Whether it is active.
    pub is_active: bool,
    /// Its place in the order of cameras.
    pub order: i64,
    /// The part of its target that it fills.
    pub viewport: Option<PhysicalViewport>,
    /// Where it is, as JSON numbers.
    pub translation: Option<Vec<Json>>,
    /// How it projects.
    pub projection: Option<String>,
}

/// Two numbers as a JSON value.
pub open spec fn pair_value(pair: (u32, u32)) -> JsonValue {
    JsonValue::Array(seq![whole(pair.0 as int), whole(pair.1 as int)])
}

fn pair_json(pair: (u32, u32)) -> (r: Json)
    ensures
        r@ == pair_value(pair),
{
    let items = vec![json_whole(pair.0 as u64), json_whole(pair.1 as u64)];
    let r = json_list(items);
    assert(r@ matches JsonValue::Array(s) && s =~= seq![
        whole(pair.0 as int),
        whole(pair.1 as int),
    ]);
    r
}

/// A viewport as a JSON value.
pub open spec fn viewport_value(viewport: Option<PhysicalViewport>) -> JsonValue {
    match viewport {
        Some(v) => JsonValue::Object(
            Map::empty().insert("physical_position"@, pair_value(v.position)).insert(
                "physical_size"@,
                pair_value(v.size),
            ),
        ),
        None => JsonValue::Null,
    }
}

fn viewport_json(viewport: Option<PhysicalViewport>) -> (r: Json)
    ensures
        r@ == viewport_value(viewport),
{
    match viewport {
        Some(v) => ObjectBuilder::new().with("physical_position", pair_json(v.position)).with(
            "physical_size",
            pair_json(v.size),
        ).build(),
        None => Json::Null,
    }
}

/// A camera as a JSON value.
pub open spec fn camera_value(entry: CameraEntry) -> JsonValue {
    JsonValue::Object(
        Map::empty().insert("entity"@, JsonValue::Text(entry.entity@)).insert(
            "is_active"@,
            JsonValue::Bool(entry.is_active),
        ).insert("order"@, integer(entry.order)).insert(
            "viewport"@,
            viewport_value(entry.viewport),
        ).insert(
            "translation"@,
            match entry.translation {
                Some(items) => list_value(items@),
                None => JsonValue::Null,
            },
        ).insert(
            "projection"@,
            match entry.projection {
                Some(s) => JsonValue::Text(s@),
                None => JsonValue::Null,
            },
        ),
    )
}

fn camera_json(entry: CameraEntry) -> (r: Json)
    ensures
        r@ == camera_value(entry),
{
    let translation = match entry.translation {
        Some(items) => json_list(items),
        None => Json::Null,
    };
    let projection = match &entry.projection {
        Some(s) => json_text(s.as_str()),
        None => Json::Null,
    };
    ObjectBuilder::new().with("entity", json_text(entry.entity.as_str())).with(
        "is_active",
        Json::Bool(entry.is_active),
    ).with("order", json_integer(entry.order)).with(
        "viewport",
        viewport_json(entry.viewport),
    ).with("translation", translation).with("projection", projection).build()
}

/// A list that shows at most `limit` of what was walked, and says whether there was more.
pub open spec fn listing_value(name: Seq<char>, walked: Seq<JsonValue>, limit: int) -> JsonValue {
    let truncated = walked.len() > limit;
    let shown = if truncated {
        walked.take(limit)
    } else {
        walked
    };
    JsonValue::Object(
        Map::empty().insert(
            "total"@,
            whole(
                if truncated {
                    limit + 1
                } else {
                    walked.len() as int
                },
            ),
        ).insert("total_is_lower_bound"@, JsonValue::Bool(truncated)).insert(
            "truncated"@,
            JsonValue::Bool(truncated),
        ).insert(name, JsonValue::Array(shown)),
    )
}

fn listing_json(name: &str, walked: usize, limit: usize, shown: Vec<Json>) -> (r: Json)
    requires
        limit < 1024,
        shown@.len() == (if walked > limit {
            limit
        } else {
            walked
        }),
    ensures
        forall|values: Seq<JsonValue>|
            values.len() == walked && (forall|i: int|
                0 <= i < shown@.len() ==> #[trigger] values[i] == shown@[i]@) ==> r@
                == #[trigger] listing_value(name@, values, limit as int),
{
    let listing = bounded_listing(walked, limit);
    let r = ObjectBuilder::new().with("total", json_whole(listing.total as u64)).with(
        "total_is_lower_bound",
        Json::Bool(listing.truncated),
    ).with("truncated", Json::Bool(listing.truncated)).with(name, json_list(shown)).build();
    proof {
        assert forall|values: Seq<JsonValue>|
            values.len() == walked && (forall|i: int|
                0 <= i < shown@.len() ==> #[trigger] values[i] == shown@[i]@) implies r@
            == #[trigger] listing_value(name@, values, limit as int) by {
            let kept = if walked > limit {
                values.take(limit as int)
            } else {
                values
            };
            assert(kept =~= Seq::new(shown@.len(), |i: int| shown@[i]@));
        }
    }
    r
}

/// The entities that were walked, as JSON values.
pub open spec fn entity_values(walk: Seq<EntityEntry>) -> Seq<JsonValue> {
    Seq::new(walk.len(), |i: int| entity_value(walk[i]))
}

/// Lists the entities of the world, of which at most one more than
/// [`MAX_DIAGNOSTIC_ENTITIES`] was walked.
pub fn list_entities(walk: &Vec<EntityEntry>) -> (r: Json)
    ensures
        r@ == listing_value(
            "entities"@,
            entity_values(walk@),
            MAX_DIAGNOSTIC_ENTITIES as int,
        ),
{
    let mut shown: Vec<Json> = Vec::new();
    let mut i: usize = 0;
    while i < walk.len() && i < MAX_DIAGNOSTIC_ENTITIES
        invariant
            i <= walk@.len(),
            i <= MAX_DIAGNOSTIC_ENTITIES,
            shown@.len() == i,
            forall|k: int| 0 <= k < i ==> (#[trigger] shown@[k])@ == entity_value(walk@[k]),
        decreases walk@.len() - i,
    {
        shown.push(entity_json(&walk[i]));
        i = i + 1;
    }
    proof {
        let values = entity_values(walk@);
        assert forall|k: int| 0 <= k < shown@.len() implies #[trigger] values[k] == shown@[k]@ by {}
    }
    listing_json("entities", walk.len(), MAX_DIAGNOSTIC_ENTITIES, shown)
}

/// The cameras that were walked, as JSON values.
pub open spec fn camera_values(walk: Seq<CameraEntry>) -> Seq<JsonValue> {
    Seq::new(walk.len(), |i: int| camera_value(walk[i]))
}

/// Lists the cameras of the world, of which at most one more than [`MAX_DIAGNOSTIC_CAMERAS`] was
/// walked.
pub fn camera_info(walk: Vec<CameraEntry>) -> (r: Json)
    ensures
        r@ == listing_value("cameras"@, camera_values(walk@), MAX_DIAGNOSTIC_CAMERAS as int),
{
    let ghost all = walk@;
    let walked = walk.len();
    let mut rest = walk;
    if rest.len() > MAX_DIAGNOSTIC_CAMERAS {
        rest.truncate(MAX_DIAGNOSTIC_CAMERAS);
    }
    let ghost kept = rest@;
    assert(forall|k: int| 0 <= k < kept.len() ==> #[trigger] kept[k] == all[k]);
    let mut shown: Vec<Json> = Vec::new();
    while rest.len() > 0
        invariant
            shown@.len() + rest@.len() == kept.len(),
            rest@ == kept.skip(shown@.len() as int),
            forall|k: int| 0 <= k < shown@.len() ==> (#[trigger] shown@[k])@ == camera_value(
                kept[k],
            ),
        decreases rest@.len(),
    {
        let ghost before = shown@;
        let ghost left = rest@;
        assert(left[0] == kept[before.len() as int]);
        let first = rest.remove(0);
        assert(rest@ =~= left.skip(1));
        shown.push(camera_json(first));
        assert(left.skip(1) =~= kept.skip(before.len() as int + 1));
    }
    proof {
        let values = camera_values(all);
        assert forall|k: int| 0 <= k < shown@.len() implies #[trigger] values[k] == shown@[k]@ by {
            assert(kept[k] == all[k]);
        }
    }
    listing_json("cameras", walked, MAX_DIAGNOSTIC_CAMERAS, shown)
}

/// A state with its value, as a JSON value.
pub open spec fn state_value(rust_type: Seq<char>, value: JsonValue) -> JsonValue {
    JsonValue::Object(
        Map::empty().insert("type"@, JsonValue::Text(rust_type)).insert("value"@, value),
    )
}

/// The first `n` states of a registry that could be read, as JSON values.
pub open spec fn state_values(
    registry: PredicateRegistry,
    readings: Seq<Result<Json, ReaderError>>,
    n: int,
) -> Seq<JsonValue>
    decreases n,
{
    if n <= 0 {
        Seq::empty()
    } else {
        let earlier = state_values(registry, readings, n - 1);
        match readings[n - 1] {
            Ok(value) => earlier.push(
                state_value(registry.states@[n - 1].rust_type@, value@),
            ),
            Err(_) => earlier,
        }
    }
}

/// Shows the registered states that could be read.
pub fn state_info(registry: &PredicateRegistry, readings: Vec<Result<Json, ReaderError>>) -> (r:
    Json)
    requires
        readings@.len() == registry.states@.len(),
    ensures
        r@ == JsonValue::Object(
            Map::empty().insert(
                "states"@,
                JsonValue::Array(
                    state_values(*registry, readings@, registry.states@.len() as int),
                ),
            ),
        ),
{
    let ghost all = readings@;
    let mut rest = readings;
    let mut shown: Vec<Json> = Vec::new();
    let mut i: usize = 0;
    assert(list_value(shown@) matches JsonValue::Array(s) && s =~= state_values(*registry, all, 0));
    while i < registry.states.len()
        invariant
            i <= registry.states@.len(),
            all.len() == registry.states@.len(),
            rest@ == all.skip(i as int),
            list_value(shown@) == JsonValue::Array(state_values(*registry, all, i as int)),
        decreases registry.states@.len() - i,
    {
        let ghost before = shown@;
        let ghost left = rest@;
        let reading = rest.remove(0);
        assert(rest@ =~= all.skip(i + 1));
        if let Ok(value) = reading {
            let entry = ObjectBuilder::new().with(
                "type",
                json_text(registry.states[i].rust_type.as_str()),
            ).with("value", value).build();
            shown.push(entry);
        }
        i = i + 1;
        proof {
            let now = state_values(*registry, all, i as int);
            assert(list_value(shown@) matches JsonValue::Array(s) && s =~= now) by {
                let earlier = state_values(*registry, all, i - 1);
                assert(earlier =~= Seq::new(before.len(), |k: int| before[k]@));
            }
        }
    }
    ObjectBuilder::new().with("states", json_list(shown)).build()
}

/// The first entities of a walk, as many as are shown.
pub open spec fn shown_entities(walked: Seq<String>) -> Seq<String> {
    if walked.len() > MAX_MARKER_COUNT {
        walked.take(MAX_MARKER_COUNT as int)
    } else {
        walked
    }
}

/// A marker with the entities that were walked, as a JSON value.
pub open spec fn marker_value(key: Seq<char>, walked: Seq<String>) -> JsonValue {
    let more = walked.len() > MAX_MARKER_COUNT;
    JsonValue::Object(
        Map::empty().insert("name"@, JsonValue::Text(key)).insert(
            "count"@,
            whole(walked.len() as int),
        ).insert("truncated"@, JsonValue::Bool(more)).insert(
            "count_is_lower_bound"@,
            JsonValue::Bool(more),
        ).insert("entities"@, json::text_list(shown_entities(walked))),
    )
}

fn copy_shown(walked: &Vec<String>) -> (r: Vec<String>)
    ensures
        r@ == shown_entities(walked@),
{
    let mut shown: Vec<String> = Vec::new();
    let mut i: usize = 0;
    while i < walked.len() && i < MAX_MARKER_COUNT
        invariant
            i <= walked@.len(),
            i <= MAX_MARKER_COUNT,
            shown@ == walked@.take(i as int),
        decreases walked@.len() - i,
    {
        shown.push(walked[i].clone());
        assert(walked@.take(i + 1) =~= walked@.take(i as int).push(walked@[i as int]));
        i = i + 1;
    }
    assert(shown@ =~= shown_entities(walked@));
    shown
}

/// The markers of a registry, as JSON values.
pub open spec fn marker_values(registry: PredicateRegistry, walks: Seq<Vec<String>>) -> Seq<
    JsonValue,
> {
    Seq::new(
        registry.markers@.len(),
        |i: int| marker_value(registry.markers@[i].key@, walks[i]@),
    )
}

/// Shows the registered markers with their entities, of which at most one more than
/// [`MAX_MARKER_COUNT`] was walked for each.
pub fn marker_info(registry: &PredicateRegistry, walks: &Vec<Vec<String>>) -> (r: Json)
    requires
        walks@.len() == registry.markers@.len(),
        forall|i: int| 0 <= i < walks@.len() ==> (#[trigger] walks@[i])@.len() <= MAX_MARKER_COUNT + 1,
    ensures
        r@ == JsonValue::Object(
            Map::empty().insert("markers"@, JsonValue::Array(marker_values(*registry, walks@))),
        ),
{
    let mut shown: Vec<Json> = Vec::new();
    let mut i: usize = 0;
    while i < registry.markers.len()
        invariant
            i <= registry.markers@.len(),
            walks@.len() == registry.markers@.len(),
            forall|k: int|
                0 <= k < walks@.len() ==> (#[trigger] walks@[k])@.len() <= MAX_MARKER_COUNT + 1,
            shown@.len() == i,
            forall|k: int|
                0 <= k < i ==> (#[trigger] shown@[k])@ == marker_value(
                    registry.markers@[k].key@,
                    walks@[k]@,
                ),
        decreases registry.markers@.len() - i,
    {
        let walked = &walks[i];
        let count = bounded_count(walked.len());
        shown.push(
            ObjectBuilder::new().with("name", json_text(registry.markers[i].key.as_str())).with(
                "count",
                json_whole(count.value as u64),
            ).with("truncated", Json::Bool(count.is_lower_bound)).with(
                "count_is_lower_bound",
                Json::Bool(count.is_lower_bound),
            ).with("entities", json_texts(&copy_shown(walked))).build(),
        );
        i = i + 1;
    }
    assert(list_value(shown@) matches JsonValue::Array(s) && s =~= marker_values(
        *registry,
        walks@,
    ));
    ObjectBuilder::new().with("markers", json_list(shown)).build()
}

/// What was read for a question about resources.
pub enum ResourceReading {
    /// For each resource, whether it is there.
    Present(Vec<bool>),
    /// Whether the resource is there.
    One(bool),
    /// The value of the field, or why there is none.
    Value(Result<Json, ReaderError>),
}

/// The reading is what the plan needs.
pub open spec fn resource_fits(plan: ResourcePlan, reading: ResourceReading) -> bool {
    match (plan, reading) {
        (ResourcePlan::All(list), ResourceReading::Present(present)) => list@.len()
            == present@.len(),
        (ResourcePlan::Resource { .. }, ResourceReading::One(_)) => true,
        (ResourcePlan::Field { .. }, ResourceReading::Value(_)) => true,
        _ => false,
    }
}

/// A resource and whether it is there, as a JSON value.
pub open spec fn present_value(resource: Seq<char>, present: bool) -> JsonValue {
    JsonValue::Object(
        Map::empty().insert("resource"@, JsonValue::Text(resource)).insert(
            "present"@,
            JsonValue::Bool(present),
        ),
    )
}

/// The result `r` shows what a question about resources asks for, or why it cannot be read.
pub open spec fn resource_answer_agrees(
    plan: ResourcePlan,
    reading: ResourceReading,
    r: Result<Json, DiagnosticFailure>,
) -> bool {
    match (plan, reading) {
        (ResourcePlan::All(list), ResourceReading::Present(present)) => r matches Ok(json) && json@
            == JsonValue::Object(
            Map::empty().insert("scope"@, JsonValue::Text("resources"@)).insert(
                "resources"@,
                JsonValue::Array(
                    Seq::new(list@.len(), |i: int| present_value(list@[i].0@, present@[i])),
                ),
            ),
        ),
        (
            ResourcePlan::Resource { resource, fields, .. },
            ResourceReading::One(present),
        ) => r matches Ok(json) && json@ == JsonValue::Object(
            Map::empty().insert("scope"@, JsonValue::Text("resource"@)).insert(
                "resource"@,
                JsonValue::Text(resource@),
            ).insert("present"@, JsonValue::Bool(present)).insert(
                "fields"@,
                json::text_list(fields@),
            ),
        ),
        (
            ResourcePlan::Field { resource, field, .. },
            ResourceReading::Value(Ok(value)),
        ) => r matches Ok(json) && json@ == JsonValue::Object(
            Map::empty().insert("scope"@, JsonValue::Text("field"@)).insert(
                "resource"@,
                JsonValue::Text(resource@),
            ).insert("field"@, JsonValue::Text(field@)).insert("value"@, value@),
        ),
        (
            ResourcePlan::Field { resource, field, .. },
            ResourceReading::Value(Err(error)),
        ) => evaluate::reader_fails(r, error, resource@, Some(field@)),
        _ => true,
    }
}

/// Shows what a question about resources asks for.
pub fn resource_answer(plan: ResourcePlan, reading: ResourceReading) -> (r: Result<
    Json,
    DiagnosticFailure,
>)
    requires
        resource_fits(plan, reading),
    ensures
        resource_answer_agrees(plan, reading, r),
{
    match (plan, reading) {
        (ResourcePlan::All(list), ResourceReading::Present(present)) => {
            let mut shown: Vec<Json> = Vec::new();
            let mut i: usize = 0;
            while i < list.len()
                invariant
                    i <= list@.len(),
                    list@.len() == present@.len(),
                    shown@.len() == i,
                    forall|k: int|
                        0 <= k < i ==> (#[trigger] shown@[k])@ == present_value(
                            list@[k].0@,
                            present@[k],
                        ),
                decreases list@.len() - i,
            {
                shown.push(
                    ObjectBuilder::new().with("resource", json_text(list[i].0.as_str())).with(
                        "present",
                        Json::Bool(present[i]),
                    ).build(),
                );
                i = i + 1;
            }
            assert(list_value(shown@) matches JsonValue::Array(s) && s =~= Seq::new(
                list@.len(),
                |k: int| present_value(list@[k].0@, present@[k]),
            ));
            Ok(
                ObjectBuilder::new().with("scope", json_text("resources")).with(
                    "resources",
                    json_list(shown),
                ).build(),
            )
        },
        (ResourcePlan::Resource { resource, place: _, fields }, ResourceReading::One(present)) => Ok(
            ObjectBuilder::new().with("scope", json_text("resource")).with(
                "resource",
                json_text(resource.as_str()),
            ).with("present", Json::Bool(present)).with("fields", json_texts(&fields)).build(),
        ),
        (ResourcePlan::Field { resource, field, place: _ }, ResourceReading::Value(reading)) => match reading {
            Ok(value) => Ok(
                ObjectBuilder::new().with("scope", json_text("field")).with(
                    "resource",
                    json_text(resource.as_str()),
                ).with("field", json_text(field.as_str())).with("value", value).build(),
            ),
            Err(error) => Err(
                map_reader_error(error, resource.as_str(), Some(field.as_str())),
            ),
        },
        _ => Ok(Json::Null),
    }
}

/// Where a target is seen. Coordinates that are shown come as JSON numbers.
pub struct Sighting {
    /// The entity.
    pub entity: String,
    /// Its kind.
    pub kind: ResolvedTargetKind,
    /// The camera that sees it.
    pub camera: String,
    /// The middle of what is seen, in logical coordinates of the window.
    pub center: Point,
    /// The same, as it is shown.
    pub shown_center: Vec<Json>,
    /// What is seen of it, where that is known: the left, the top, the width and the height.
    pub bounds: Option<(Json, Json, Json, Json)>,
    /// Whether only a part is seen.
    pub clipped: bool,
}

/// A target that was found.
pub struct ResolvedTarget {
    /// Where it is seen.
    pub sighting: Sighting,
    /// Which kind of selector named it.
    pub selector_source: &'static str,
    /// What the selector holds.
    pub selector_value: String,
    /// Its name.
    pub name: Option<String>,
    /// The marker in the selector.
    pub marker: Option<String>,
    /// The name of the camera.
    pub camera_name: Option<String>,
}

/// Puts together what is known of a target that was found.
pub fn resolve_target(
    sighting: Sighting,
    selector: &TargetSelector,
    name: Option<String>,
    camera_name: Option<String>,
) -> (r: ResolvedTarget)
    ensures
        r.sighting == sighting,
        r.name == name,
        r.camera_name == camera_name,
        (r.selector_source, r.selector_value, r.marker) == targets::selector_parts(*selector),
{
    let (selector_source, selector_value, marker) = describe_selector(selector);
    ResolvedTarget { sighting, selector_source, selector_value, name, marker, camera_name }
}

/// A kind of target as a JSON value.
pub open spec fn kind_text(kind: ResolvedTargetKind) -> &'static str {
    match kind {
        ResolvedTargetKind::Ui => "ui",
        ResolvedTargetKind::World => "world",
    }
}

/// A target that was found as a JSON value.
pub open spec fn target_value(target: ResolvedTarget) -> Map<Seq<char>, JsonValue> {
    let seen = target.sighting;
    let known = Map::empty().insert("entity"@, JsonValue::Text(seen.entity@)).insert(
        "selector_source"@,
        JsonValue::Text(target.selector_source@),
    ).insert("selector_value"@, JsonValue::Text(target.selector_value@)).insert(
        "kind"@,
        JsonValue::Text(kind_text(seen.kind)@),
    ).insert("camera"@, JsonValue::Text(seen.camera@)).insert(
        "center"@,
        list_value(seen.shown_center@),
    ).insert(
        "bounds"@,
        match seen.bounds {
            Some((x, y, width, height)) => JsonValue::Object(
                Map::empty().insert("x"@, x@).insert("y"@, y@).insert("width"@, width@).insert(
                    "height"@,
                    height@,
                ),
            ),
            None => JsonValue::Null,
        },
    ).insert("visible"@, JsonValue::Bool(true)).insert(
        "clipped"@,
        JsonValue::Bool(seen.clipped),
    );
    with_text(
        with_text(with_text(known, "name"@, target.name), "marker"@, target.marker),
        "camera_name"@,
        target.camera_name,
    )
}

fn target_object(target: ResolvedTarget) -> (r: ObjectBuilder)
    ensures
        r@ == target_value(target),
{
    let seen = target.sighting;
    let kind = match seen.kind {
        ResolvedTargetKind::Ui => "ui",
        ResolvedTargetKind::World => "world",
    };
    let bounds = match seen.bounds {
        Some((x, y, width, height)) => ObjectBuilder::new().with("x", x).with("y", y).with(
            "width",
            width,
        ).with("height", height).build(),
        None => Json::Null,
    };
    let known = ObjectBuilder::new().with("entity", json_text(seen.entity.as_str())).with(
        "selector_source",
        json_text(target.selector_source),
    ).with("selector_value", json_text(target.selector_value.as_str())).with(
        "kind",
        json_text(kind),
    ).with("camera", json_text(seen.camera.as_str())).with(
        "center",
        json_list(seen.shown_center),
    ).with("bounds", bounds).with("visible", Json::Bool(true)).with(
        "clipped",
        Json::Bool(seen.clipped),
    );
    add_text(
        add_text(add_text(known, "name", &target.name), "marker", &target.marker),
        "camera_name",
        &target.camera_name,
    )
}

/// What the application found for a diagnostic request.
pub enum Findings {
    /// What is shown of the world, of its states or of its markers.
    Shown(Json),
    /// What a question about resources asks for.
    Resource(Result<Json, DiagnosticFailure>),
    /// What evaluating a predicate gave, and what evaluating the predicates gave of which none may
    /// hold.
    Evaluated {
        /// The predicate.
        observed: Evaluation,
        /// The predicates of which none may hold, in their order.
        aborts: Vec<Evaluation>,
    },
    /// A target.
    Target(Result<ResolvedTarget, DiagnosticFailure>),
    /// Nothing was looked for.
    Nothing,
}

/// The command asks for something that is shown.
pub open spec fn asks_to_show(command: AgentCommand) -> bool {
    command is EcsSummary || command is ListEntities || command is CameraInfo || command is StateInfo
        || command is MarkerInfo
}

/// The findings are of the kind that the command asks for.
pub open spec fn findings_fit(command: AgentCommand, findings: Findings) -> bool {
    match findings {
        Findings::Shown(_) => asks_to_show(command),
        Findings::Resource(_) => command is ResourceInfo,
        Findings::Evaluated { .. } => command is EvaluatePredicate || command is WaitFor,
        Findings::Target(_) => command is TargetInfo || command is ClickTarget,
        Findings::Nothing => !asks_to_show(command) && !(command is ResourceInfo)
            && !(command is EvaluatePredicate) && !(command is WaitFor)
            && !(command is TargetInfo) && !(command is ClickTarget),
    }
}

/// The reply `r` answers a request with details alone.
pub open spec fn answers_with(
    request: AgentRequest,
    status: &'static str,
    details: JsonValue,
    r: Option<Reply>,
) -> bool {
    &&& r matches Some(reply)
    &&& reply.ticket == request.ticket
    &&& reply.response.result matches Some(result)
    &&& result.details matches Some(Details::Diagnostic(shown))
    &&& shown@ == details
    &&& reply.response.is_result(
        request.id,
        (AgentResult {
            status,
            latest_capture: None,
            capture: None,
            snapshot: None,
            details: result.details,
        }),
    )
}

/// The reply `r` answers a request with the failure of a diagnostic.
pub open spec fn answers_failure(request: AgentRequest, e: DiagnosticFailure, r: Option<Reply>) -> bool {
    r matches Some(reply) && reply.ticket == request.ticket && diagnostics::diagnostic_fails(
        request.id,
        e,
        reply.response,
    )
}

/// What a click on a target shows of it.
pub open spec fn clicked_value(target: ResolvedTarget) -> Map<Seq<char>, JsonValue> {
    target_value(target).insert("target_resolved"@, JsonValue::Bool(true)).insert(
        "logical_position"@,
        list_value(target.sighting.shown_center@),
    )
}

/// The queue `after` and the reply `r` are what becomes of a request.
pub open spec fn answer_agrees(
    s: control::ControlView,
    scene: Scene,
    before: QueueView,
    request: AgentRequest,
    findings: Findings,
    after: QueueView,
    r: Option<Reply>,
) -> bool {
    match (request.command, findings) {
        (
            AgentCommand::WaitFor { predicate, abort_predicates, max_frames },
            Findings::Evaluated { observed, aborts },
        ) => {
            let verdict = diagnostics::wait_verdict(observed, aborts@, false);
            &&& diagnostics::verdict_reply(
                s,
                scene,
                request.id,
                request.ticket,
                max_frames,
                verdict,
                r,
            )
            &&& after == (if verdict is GoesOn {
                QueueView {
                    waits: before.waits.push(
                        PendingWait {
                            id: request.id,
                            ticket: request.ticket,
                            predicate,
                            abort_predicates,
                            max_frames,
                            future_evaluations: 0,
                        },
                    ),
                    ..before
                }
            } else {
                before
            })
        },
        (_, Findings::Evaluated { observed, .. }) => {
            &&& after == before
            &&& r matches Some(reply)
            &&& reply.ticket == request.ticket
            &&& match observed {
                Ok(seen) => actions::reports(
                    s,
                    request.id,
                    "predicate_evaluated",
                    scene.window,
                    Some(Details::Observation(seen)),
                    reply.response,
                ),
                Err(e) => diagnostics::diagnostic_fails(request.id, e, reply.response),
            }
        },
        (_, Findings::Shown(details)) => after == before && answers_with(
            request,
            "ok",
            details@,
            r,
        ),
        (_, Findings::Resource(Ok(details))) => after == before && answers_with(
            request,
            "resource_info",
            details@,
            r,
        ),
        (_, Findings::Resource(Err(e))) => after == before && answers_failure(request, e, r),
        (_, Findings::Target(Err(e))) => after == before && answers_failure(request, e, r),
        (
            AgentCommand::ClickTarget { button, frames, .. },
            Findings::Target(Ok(target)),
        ) => {
            &&& r is None
            &&& after.clicks.len() == before.clicks.len() + 1
            &&& after == (QueueView { clicks: before.clicks.push(after.clicks.last()), ..before })
            &&& after.clicks.last().id == request.id
            &&& after.clicks.last().ticket == request.ticket
            &&& after.clicks.last().position == target.sighting.center
            &&& after.clicks.last().button == button
            &&& after.clicks.last().frames == frames
            &&& after.clicks.last().details@ == JsonValue::Object(clicked_value(target))
        },
        (_, Findings::Target(Ok(target))) => after == before && answers_with(
            request,
            "target_info",
            JsonValue::Object(target_value(target)),
            r,
        ),
        (_, Findings::Nothing) => after == before && (r matches Some(reply) && reply.ticket
            == request.ticket && reply.response.is_error(
            request.id,
            "invalid_diagnostics_command",
            "command was routed to diagnostics incorrectly"@,
        )),
    }
}

impl AgentDiagnosticsQueue {
    /// How many requests are answered in one frame.
    pub fn requests_in_a_frame(&self) -> (r: usize)
        ensures
            r == (if self@.requests.len() <= self.capacity {
                self@.requests.len()
            } else {
                self.capacity as nat
            }),
    {
        if self.requests.len() <= self.capacity {
            self.requests.len()
        } else {
            self.capacity
        }
    }

    /// How many waits are judged in one frame.
    pub fn waits_in_a_frame(&self) -> (r: usize)
        ensures
            r == (if self@.waits.len() <= self.capacity {
                self@.waits.len()
            } else {
                self.capacity as nat
            }),
    {
        if self.waits.len() <= self.capacity {
            self.waits.len()
        } else {
            self.capacity
        }
    }

    /// Takes the first request out.
    pub fn next_request(&mut self) -> (r: Option<AgentRequest>)
        ensures
            match r {
                Some(request) => old(self)@.requests.len() > 0 && request
                    == old(self)@.requests[0] && final(self)@ == (QueueView {
                    requests: old(self)@.requests.skip(1),
                    ..old(self)@
                }),
                None => old(self)@.requests.len() == 0 && final(self)@ == old(self)@,
            },
    {
        let ghost q = self@;
        let r = self.requests.pop_front();
        if r.is_some() {
            assert(self@.requests =~= q.requests.skip(1));
        }
        r
    }

    /// Answers a request with what was found for it, or keeps the wait or the click that it asks
    /// for.
    pub fn answer_request(
        &mut self,
        state: &AgentFeedbackState,
        scene: &Scene,
        request: AgentRequest,
        findings: Findings,
    ) -> (r: Option<Reply>)
        requires
            state@.wf(),
            findings_fit(request.command, findings),
        ensures
            answer_agrees(state@, *scene, old(self)@, request, findings, final(self)@, r),
    {
        let AgentRequest { id, ticket, command } = request;
        match findings {
            Findings::Shown(details) => Some(
                Reply { ticket, response: AgentResponse::details(id, "ok", details) },
            ),
            Findings::Resource(found) => {
                let response = match found {
                    Ok(details) => AgentResponse::details(id, "resource_info", details),
                    Err(e) => diagnostic_error(id, e),
                };
                Some(Reply { ticket, response })
            },
            Findings::Evaluated { observed, aborts } => match command {
                AgentCommand::WaitFor { predicate, abort_predicates, max_frames } => {
                    let wait = PendingWait {
                        id,
                        ticket,
                        predicate,
                        abort_predicates,
                        max_frames,
                        future_evaluations: 0,
                    };
                    self.start_wait(state, scene, wait, observed, aborts)
                },
                _ => Some(answer_evaluation(state, scene, id, ticket, observed)),
            },
            Findings::Target(found) => match found {
                Err(e) => Some(Reply { ticket, response: diagnostic_error(id, e) }),
                Ok(target) => match command {
                    AgentCommand::ClickTarget { target: _, kind: _, camera: _, button, frames } => {
                        let position = target.sighting.center;
                        let shown = copy_list(&target.sighting.shown_center);
                        let details = target_object(target).with(
                            "target_resolved",
                            Json::Bool(true),
                        ).with("logical_position", shown).build();
                        self.push_resolved_click(
                            ResolvedClick { id, ticket, position, button, frames, details },
                        );
                        None
                    },
                    _ => Some(
                        Reply {
                            ticket,
                            response: AgentResponse::details(
                                id,
                                "target_info",
                                target_object(target).build(),
                            ),
                        },
                    ),
                },
            },
            Findings::Nothing => Some(
                Reply {
                    ticket,
                    response: AgentResponse::failed(
                        id,
                        "invalid_diagnostics_command",
                        "command was routed to diagnostics incorrectly".to_owned(),
                    ),
                },
            ),
        }
    }
}

/// Law: a request that is taken out of the queue is answered at once and leaves the queue as it
/// is, or is not answered yet and one wait or one click more is kept. So what was pending with the
/// request never grows.
pub proof fn law_requests_are_answered_or_kept(
    s: control::ControlView,
    scene: Scene,
    before: QueueView,
    request: AgentRequest,
    findings: Findings,
    after: QueueView,
    r: Option<Reply>,
)
    requires
        findings_fit(request.command, findings),
        answer_agrees(s, scene, before, request, findings, after, r),
    ensures
        r is Some ==> after == before,
        r is None ==> after.total() == before.total() + 1 && after.requests == before.requests
            && after.capacity == before.capacity,
        r matches Some(reply) ==> reply.ticket == request.ticket && reply.response.id
            == request.id,
{
}

/// Law: what was found is what is answered. A request for a predicate is answered with what was
/// seen, a wait whose predicate holds at once is answered at once, a click on a target that was found
/// is kept as a click where the target is, with the button and the frames that were asked for, and a
/// failure is answered as that failure.
pub proof fn law_findings_are_answered(
    s: control::ControlView,
    scene: Scene,
    before: QueueView,
    request: AgentRequest,
    findings: Findings,
    after: QueueView,
    r: Option<Reply>,
)
    requires
        findings_fit(request.command, findings),
        answer_agrees(s, scene, before, request, findings, after, r),
    ensures
        findings matches Findings::Resource(found) ==> r is Some && r->Some_0.response.ok == found
            is Ok,
        findings matches Findings::Target(Err(e)) ==> r is Some && !r->Some_0.response.ok && (
        r->Some_0.response.error matches Some(error) && error.code == e.code),
        findings matches Findings::Resource(Err(e)) ==> (r->Some_0.response.error matches Some(
            error,
        ) && error.code == e.code),
        findings matches Findings::Target(Ok(target)) ==> (r is None <==> request.command
            is ClickTarget),
        findings matches Findings::Target(Ok(target)) ==> (request.command matches
            AgentCommand::ClickTarget { button, frames, .. } ==> {
            let click = after.clicks.last();
            &&& after.clicks.drop_last() == before.clicks
            &&& click.position == target.sighting.center
            &&& click.button == button && click.frames == frames
            &&& click.id == request.id && click.ticket == request.ticket
            &&& after.waits == before.waits
        }),
        findings matches Findings::Target(Ok(target)) ==> (r matches Some(reply)
            ==> reply.response.ok && (reply.response.result matches Some(result) && result.status
            == "target_info")),
        findings matches Findings::Shown(details) ==> r is Some && r->Some_0.response.ok && (
        r->Some_0.response.result matches Some(result) && result.status == "ok" && (
        result.details matches Some(Details::Diagnostic(shown)) && shown@ == details@)),
        findings matches Findings::Evaluated { observed, aborts } ==> {
            let matched = observed is Ok && observed->Ok_0.outcome is Matched;
            if request.command is WaitFor {
                &&& (r is Some && r->Some_0.response.ok) <==> matched
                &&& r is None ==> {
                    &&& observed is Ok && !matched
                    &&& after.waits.drop_last() == before.waits
                    &&& after.waits.last().id == request.id
                    &&& after.waits.last().ticket == request.ticket
                    &&& after.waits.last().future_evaluations == 0
                    &&& request.command matches AgentCommand::WaitFor {
                        predicate,
                        abort_predicates,
                        max_frames,
                    }
                    &&& after.waits.last().predicate == predicate
                    &&& after.waits.last().abort_predicates == abort_predicates
                    &&& after.waits.last().max_frames == max_frames
                    &&& after.clicks == before.clicks
                }
            } else {
                &&& r is Some && r->Some_0.response.ok == observed is Ok
                &&& observed is Ok ==> (r->Some_0.response.result matches Some(result)
                    && result.details == Some(Details::Observation(observed->Ok_0)))
            }
        },
        findings is Nothing ==> r is Some && !r->Some_0.response.ok,
{
    if r is None {
        if findings is Target {
            assert(after.clicks.drop_last() =~= before.clicks);
        } else {
            assert(after.waits.drop_last() =~= before.waits);
        }
    }
}

/// Law: a list shows what was walked in its order, all of it where it is within the limit and as
/// much as the limit otherwise, and says by its flags whether there was more.
pub proof fn law_listings_show_what_was_walked(name: Seq<char>, walked: Seq<JsonValue>, limit: int)
    requires
        limit >= 0,
        name != "total"@,
        name != "total_is_lower_bound"@,
        name != "truncated"@,
    ensures
        ({
            let shown = json::value_at(listing_value(name, walked, limit), name);
            &&& shown matches Some(JsonValue::Array(items))
            &&& items.len() == (if walked.len() < limit {
                walked.len() as int
            } else {
                limit
            })
            &&& forall|i: int| 0 <= i < items.len() ==> #[trigger] items[i] == walked[i]
            &&& json::value_at(listing_value(name, walked, limit), "truncated"@) == Some(
                JsonValue::Bool(items.len() < walked.len()),
            )
            &&& json::value_at(listing_value(name, walked, limit), "total_is_lower_bound"@) == Some(
                JsonValue::Bool(items.len() < walked.len()),
            )
        }),
{
    reveal_strlit("total");
    reveal_strlit("total_is_lower_bound");
    reveal_strlit("truncated");
    assert("total"@.len() == 5 && "total_is_lower_bound"@.len() == 20 && "truncated"@.len() == 9);
}

} // verus!
