//! Answers as they are written on the wire.
//!
//! A [`Document`] is a JSON value whose fractions are still bits: a single, a double or a length
//! of time in seconds. What an object is does not depend on the order of its names; they are
//! written in the order in which they stand.
use crate::commands::{
    ComparisonOperator, DiagnosticValue, Point, Predicate, TargetKind, TargetSelector,
};
use crate::client;
use crate::json::{copy_json, Json, JsonValue};
use crate::responses::{
    AgentError, AgentErrorContext, AgentResponse, AgentResult, AgentSnapshot, AgentTimingContext,
    CaptureInfo, Details, DiagnosticErrorContext, EcsSummaryContext, ObservedPredicate,
    PredicateOutcome, StableWindowMode, WindowInfo,
};
use crate::span::Span;
use vstd::prelude::*;

verus! {

/// A JSON value whose fractions are bits.
pub enum Document {
    /// The null value.
    Null,
    /// A truth value.
    Bool(bool),
    /// An integer.
    Whole(u128),
    /// The bits of a single.
    Single(u32),
    /// The bits of a double.
    Double(u64),
    /// A length of time, in seconds.
    Seconds(Span),
    /// A text.
    Text(String),
    /// A list.
    Array(Vec<Document>),
    /// Named values.
    Object(Vec<(&'static str, Document)>),
    /// A JSON value as it came.
    Plain(Json),
}

/// What a document is.
pub enum DocumentValue {
    /// The null value.
    Null,
    /// A truth value.
    Bool(bool),
    /// An integer.
    Whole(u128),
    /// The bits of a single.
    Single(u32),
    /// The bits of a double.
    Double(u64),
    /// A length of time, in seconds.
    Seconds(Span),
    /// A text.
    Text(Seq<char>),
    /// A list.
    Array(Seq<DocumentValue>),
    /// Named values.
    Object(Map<Seq<char>, DocumentValue>),
    /// A JSON value as it came.
    Plain(JsonValue),
}

/// What a document is.
pub open spec fn document_value(d: Document) -> DocumentValue
    decreases d,
{
    match d {
        Document::Null => DocumentValue::Null,
        Document::Bool(b) => DocumentValue::Bool(b),
        Document::Whole(n) => DocumentValue::Whole(n),
        Document::Single(bits) => DocumentValue::Single(bits),
        Document::Double(bits) => DocumentValue::Double(bits),
        Document::Seconds(span) => DocumentValue::Seconds(span),
        Document::Text(s) => DocumentValue::Text(s@),
        Document::Array(items) => DocumentValue::Array(
            Seq::new(
                items@.len(),
                |i: int|
                    if 0 <= i < items@.len() {
                        document_value(items@[i])
                    } else {
                        DocumentValue::Null
                    },
            ),
        ),
        Document::Object(fields) => DocumentValue::Object(fields_value(fields@)),
        Document::Plain(json) => DocumentValue::Plain(json@),
    }
}

/// What the fields of an object are.
pub open spec fn fields_value(fields: Seq<(&'static str, Document)>) -> Map<
    Seq<char>,
    DocumentValue,
>
    decreases fields,
{
    if fields.len() == 0 {
        Map::empty()
    } else {
        fields_value(fields.drop_last()).insert(
            fields[fields.len() - 1].0@,
            document_value(fields[fields.len() - 1].1),
        )
    }
}

impl View for Document {
    type V = DocumentValue;

    open spec fn view(&self) -> DocumentValue {
        document_value(*self)
    }
}

/// An object that is put together field by field.
pub struct Fields {
    fields: Vec<(&'static str, Document)>,
}

impl View for Fields {
    type V = Map<Seq<char>, DocumentValue>;

    closed spec fn view(&self) -> Map<Seq<char>, DocumentValue> {
        fields_value(self.fields@)
    }
}

impl Fields {
    /// No field.
    pub fn new() -> (r: Fields)
        ensures
            r@ == Map::<Seq<char>, DocumentValue>::empty(),
    {
        Fields { fields: Vec::new() }
    }

    /// The object with one more field.
    pub fn with(self, name: &'static str, value: Document) -> (r: Fields)
        ensures
            r@ == self@.insert(name@, value@),
    {
        let mut fields = self.fields;
        let ghost before = fields@;
        fields.push((name, value));
        assert(fields@.drop_last() =~= before);
        Fields { fields }
    }

    /// The object with one more field, where there is a value.
    pub fn with_some(self, name: &'static str, value: Option<Document>) -> (r: Fields)
        ensures
            r@ == put_some(
                self@,
                name@,
                match value {
                    Some(d) => Some(d@),
                    None => None,
                },
            ),
    {
        match value {
            Some(value) => self.with(name, value),
            None => self,
        }
    }

    /// The object as a document.
    pub fn build(self) -> (r: Document)
        ensures
            r@ == DocumentValue::Object(self@),
    {
        Document::Object(self.fields)
    }
}

/// The object with one more field, where there is a value.
pub open spec fn put_some(
    object: Map<Seq<char>, DocumentValue>,
    name: Seq<char>,
    value: Option<DocumentValue>,
) -> Map<Seq<char>, DocumentValue> {
    match value {
        Some(v) => object.insert(name, v),
        None => object,
    }
}

/// A name as a document.
pub open spec fn name_value(name: Seq<char>) -> DocumentValue {
    DocumentValue::Text(name)
}

fn name_document(name: &str) -> (r: Document)
    ensures
        r@ == name_value(name@),
{
    Document::Text(name.to_owned())
}

/// An optional text as a document.
pub open spec fn text_value(text: Option<String>) -> Option<DocumentValue> {
    match text {
        Some(s) => Some(DocumentValue::Text(s@)),
        None => None,
    }
}

fn text_document(text: &Option<String>) -> (r: Option<Document>)
    ensures
        text_value(*text) == (match r {
            Some(d) => Some(d@),
            None => None,
        }),
{
    match text {
        Some(s) => Some(Document::Text(s.clone())),
        None => None,
    }
}

/// An optional truth value, which is only written where it is true.
pub open spec fn flag_value(flag: bool) -> Option<DocumentValue> {
    if flag {
        Some(DocumentValue::Bool(true))
    } else {
        None
    }
}

fn flag_document(flag: bool) -> (r: Option<Document>)
    ensures
        flag_value(flag) == (match r {
            Some(d) => Some(d@),
            None => None,
        }),
{
    if flag {
        Some(Document::Bool(true))
    } else {
        None
    }
}

/// A point as a document: a list of two coordinates.
pub open spec fn point_value(point: Point) -> DocumentValue {
    DocumentValue::Array(seq![DocumentValue::Single(point.x), DocumentValue::Single(point.y)])
}

fn point_document(point: Point) -> (r: Document)
    ensures
        r@ == point_value(point),
{
    let items = vec![Document::Single(point.x), Document::Single(point.y)];
    assert(items@[0]@ == DocumentValue::Single(point.x));
    assert(items@[1]@ == DocumentValue::Single(point.y));
    let r = Document::Array(items);
    assert(r@ matches DocumentValue::Array(s) && s =~= seq![
        DocumentValue::Single(point.x),
        DocumentValue::Single(point.y),
    ]);
    r
}

/// An optional point as a document.
pub open spec fn some_point(point: Option<Point>) -> Option<DocumentValue> {
    match point {
        Some(p) => Some(point_value(p)),
        None => None,
    }
}

fn some_point_document(point: Option<Point>) -> (r: Option<Document>)
    ensures
        some_point(point) == (match r {
            Some(d) => Some(d@),
            None => None,
        }),
{
    match point {
        Some(p) => Some(point_document(p)),
        None => None,
    }
}

/// Texts as a document.
pub open spec fn texts_value(texts: Seq<String>) -> DocumentValue {
    DocumentValue::Array(Seq::new(texts.len(), |i: int| DocumentValue::Text(texts[i]@)))
}

/// Shows some texts.
pub fn texts_document(texts: &Vec<String>) -> (r: Document)
    ensures
        r@ == texts_value(texts@),
{
    let mut items: Vec<Document> = Vec::new();
    let mut i: usize = 0;
    while i < texts.len()
        invariant
            i <= texts@.len(),
            items@.len() == i,
            forall|k: int|
                0 <= k < i ==> (#[trigger] items@[k])@ == DocumentValue::Text(texts@[k]@),
        decreases texts@.len() - i,
    {
        items.push(Document::Text(texts[i].clone()));
        i = i + 1;
    }
    let r = Document::Array(items);
    assert(r@ matches DocumentValue::Array(s) && s =~= Seq::new(
        texts@.len(),
        |k: int| DocumentValue::Text(texts@[k]@),
    ));
    r
}

/// Names as a document.
pub open spec fn names_value(names: Seq<&'static str>) -> DocumentValue {
    DocumentValue::Array(Seq::new(names.len(), |i: int| DocumentValue::Text(names[i]@)))
}

fn names_document(names: &Vec<&'static str>) -> (r: Document)
    ensures
        r@ == names_value(names@),
{
    let mut items: Vec<Document> = Vec::new();
    let mut i: usize = 0;
    while i < names.len()
        invariant
            i <= names@.len(),
            items@.len() == i,
            forall|k: int|
                0 <= k < i ==> (#[trigger] items@[k])@ == DocumentValue::Text(names@[k]@),
        decreases names@.len() - i,
    {
        items.push(Document::Text(names[i].to_owned()));
        i = i + 1;
    }
    let r = Document::Array(items);
    assert(r@ matches DocumentValue::Array(s) && s =~= Seq::new(
        names@.len(),
        |k: int| DocumentValue::Text(names@[k]@),
    ));
    r
}

/// The name of the mode of a window.
pub open spec fn mode_name(mode: StableWindowMode) -> &'static str {
    match mode {
        StableWindowMode::Windowed => "windowed",
        StableWindowMode::BorderlessFullscreen => "borderless_fullscreen",
        StableWindowMode::Fullscreen => "fullscreen",
    }
}

/// A window as a document.
pub open spec fn window_value(window: WindowInfo) -> DocumentValue {
    DocumentValue::Object(
        put_some(
            Map::empty().insert("logical_width"@, DocumentValue::Single(window.logical_width)).insert(
                "logical_height"@,
                DocumentValue::Single(window.logical_height),
            ).insert("physical_width"@, DocumentValue::Whole(window.physical_width as u128)).insert(
                "physical_height"@,
                DocumentValue::Whole(window.physical_height as u128),
            ).insert("scale_factor"@, DocumentValue::Single(window.scale_factor)),
            "cursor_position"@,
            some_point(window.cursor_position),
        ).insert("focused"@, DocumentValue::Bool(window.focused)).insert(
            "visible"@,
            DocumentValue::Bool(window.visible),
        ).insert("mode"@, name_value(mode_name(window.mode)@)),
    )
}

/// Shows a window.
pub fn window_document(window: &WindowInfo) -> (r: Document)
    ensures
        r@ == window_value(*window),
{
    let mode = match window.mode {
        StableWindowMode::Windowed => "windowed",
        StableWindowMode::BorderlessFullscreen => "borderless_fullscreen",
        StableWindowMode::Fullscreen => "fullscreen",
    };
    Fields::new().with("logical_width", Document::Single(window.logical_width)).with(
        "logical_height",
        Document::Single(window.logical_height),
    ).with("physical_width", Document::Whole(window.physical_width as u128)).with(
        "physical_height",
        Document::Whole(window.physical_height as u128),
    ).with("scale_factor", Document::Single(window.scale_factor)).with_some(
        "cursor_position",
        some_point_document(window.cursor_position),
    ).with("focused", Document::Bool(window.focused)).with(
        "visible",
        Document::Bool(window.visible),
    ).with("mode", name_document(mode)).build()
}

/// An optional window as a document.
pub open spec fn some_window(window: Option<WindowInfo>) -> Option<DocumentValue> {
    match window {
        Some(w) => Some(window_value(w)),
        None => None,
    }
}

fn some_window_document(window: &Option<WindowInfo>) -> (r: Option<Document>)
    ensures
        some_window(*window) == (match r {
            Some(d) => Some(d@),
            None => None,
        }),
{
    match window {
        Some(w) => Some(window_document(w)),
        None => None,
    }
}

/// A capture as a document.
pub open spec fn capture_value(capture: CaptureInfo) -> DocumentValue {
    DocumentValue::Object(
        put_some(
            put_some(
                Map::empty().insert("sequence"@, DocumentValue::Whole(capture.sequence as u128)).insert(
                    "path"@,
                    DocumentValue::Text(capture.path@),
                ),
                "label"@,
                text_value(capture.label),
            ).insert("requested_frame"@, DocumentValue::Whole(capture.requested_frame as u128)).insert(
                "completed_frame"@,
                DocumentValue::Whole(capture.completed_frame as u128),
            ).insert("image_width"@, DocumentValue::Whole(capture.image_width as u128)).insert(
                "image_height"@,
                DocumentValue::Whole(capture.image_height as u128),
            ).insert("window_at_request"@, window_value(capture.window_at_request)),
            "window_at_completion"@,
            some_window(capture.window_at_completion),
        ).insert("completion"@, name_value("screenshot_captured"@)),
    )
}

/// Shows a capture.
pub fn capture_document(capture: &CaptureInfo) -> (r: Document)
    ensures
        r@ == capture_value(*capture),
{
    Fields::new().with("sequence", Document::Whole(capture.sequence as u128)).with(
        "path",
        Document::Text(capture.path.clone()),
    ).with_some("label", text_document(&capture.label)).with(
        "requested_frame",
        Document::Whole(capture.requested_frame as u128),
    ).with("completed_frame", Document::Whole(capture.completed_frame as u128)).with(
        "image_width",
        Document::Whole(capture.image_width as u128),
    ).with("image_height", Document::Whole(capture.image_height as u128)).with(
        "window_at_request",
        window_document(&capture.window_at_request),
    ).with_some("window_at_completion", some_window_document(&capture.window_at_completion)).with(
        "completion",
        name_document("screenshot_captured"),
    ).build()
}

/// An optional capture as a document.
pub open spec fn some_capture(capture: Option<CaptureInfo>) -> Option<DocumentValue> {
    match capture {
        Some(c) => Some(capture_value(c)),
        None => None,
    }
}

fn some_capture_document(capture: &Option<CaptureInfo>) -> (r: Option<Document>)
    ensures
        some_capture(*capture) == (match r {
            Some(d) => Some(d@),
            None => None,
        }),
{
    match capture {
        Some(c) => Some(capture_document(c)),
        None => None,
    }
}

/// The object with what the application looks like.
pub open spec fn with_snapshot(
    object: Map<Seq<char>, DocumentValue>,
    snapshot: AgentSnapshot,
) -> Map<Seq<char>, DocumentValue> {
    put_some(
        put_some(
            object.insert("frame"@, DocumentValue::Whole(snapshot.frame as u128)).insert(
                "game_time_secs"@,
                DocumentValue::Double(snapshot.game_time_secs),
            ),
            "window"@,
            some_window(snapshot.window),
        ),
        "mouse_position"@,
        some_point(snapshot.mouse_position),
    ).insert("pressed_keys"@, names_value(snapshot.pressed_keys@)).insert(
        "pressed_buttons"@,
        names_value(snapshot.pressed_buttons@),
    )
}

fn add_snapshot(fields: Fields, snapshot: &AgentSnapshot) -> (r: Fields)
    ensures
        r@ == with_snapshot(fields@, *snapshot),
{
    fields.with("frame", Document::Whole(snapshot.frame as u128)).with(
        "game_time_secs",
        Document::Double(snapshot.game_time_secs),
    ).with_some("window", some_window_document(&snapshot.window)).with_some(
        "mouse_position",
        some_point_document(snapshot.mouse_position),
    ).with("pressed_keys", names_document(&snapshot.pressed_keys)).with(
        "pressed_buttons",
        names_document(&snapshot.pressed_buttons),
    )
}

/// A diagnostic value as a document.
pub open spec fn scalar_value(value: DiagnosticValue) -> DocumentValue {
    match value {
        DiagnosticValue::Null => DocumentValue::Null,
        DiagnosticValue::Bool(b) => DocumentValue::Bool(b),
        DiagnosticValue::Number(bits) => DocumentValue::Double(bits),
        DiagnosticValue::String(s) => DocumentValue::Text(s@),
    }
}

fn scalar_document(value: &DiagnosticValue) -> (r: Document)
    ensures
        r@ == scalar_value(*value),
{
    match value {
        DiagnosticValue::Null => Document::Null,
        DiagnosticValue::Bool(b) => Document::Bool(*b),
        DiagnosticValue::Number(bits) => Document::Double(*bits),
        DiagnosticValue::String(s) => Document::Text(s.clone()),
    }
}

/// An optional number as a document: null where there is none.
pub open spec fn bound_value(bound: Option<u32>) -> DocumentValue {
    match bound {
        Some(n) => DocumentValue::Whole(n as u128),
        None => DocumentValue::Null,
    }
}

fn bound_document(bound: Option<u32>) -> (r: Document)
    ensures
        r@ == bound_value(bound),
{
    match bound {
        Some(n) => Document::Whole(n as u128),
        None => Document::Null,
    }
}

/// A selector as a document.
pub open spec fn selector_value(target: TargetSelector) -> DocumentValue {
    DocumentValue::Object(
        match target {
            TargetSelector::Name(s) => Map::empty().insert("name"@, DocumentValue::Text(s@)),
            TargetSelector::AccessibilityLabel(s) => Map::empty().insert(
                "accessibility_label"@,
                DocumentValue::Text(s@),
            ),
            TargetSelector::Marker(s) => Map::empty().insert("marker"@, DocumentValue::Text(s@)),
        },
    )
}

fn selector_document(target: &TargetSelector) -> (r: Document)
    ensures
        r@ == selector_value(*target),
{
    match target {
        TargetSelector::Name(s) => Fields::new().with("name", Document::Text(s.clone())).build(),
        TargetSelector::AccessibilityLabel(s) => Fields::new().with(
            "accessibility_label",
            Document::Text(s.clone()),
        ).build(),
        TargetSelector::Marker(s) => Fields::new().with(
            "marker",
            Document::Text(s.clone()),
        ).build(),
    }
}

fn kind_document(kind: TargetKind) -> (r: Document)
    ensures
        r@ == name_value(client::kind_name(kind)),
{
    match kind {
        TargetKind::Any => name_document("any"),
        TargetKind::Ui => name_document("ui"),
        TargetKind::World => name_document("world"),
    }
}

fn operator_document(operator: ComparisonOperator) -> (r: Document)
    ensures
        r@ == name_value(client::operator_name(operator)),
{
    match operator {
        ComparisonOperator::Eq => name_document("eq"),
        ComparisonOperator::Ne => name_document("ne"),
        ComparisonOperator::Lt => name_document("lt"),
        ComparisonOperator::Lte => name_document("lte"),
        ComparisonOperator::Gt => name_document("gt"),
        ComparisonOperator::Gte => name_document("gte"),
    }
}

/// The name of a camera as a document: null where there is none.
pub open spec fn camera_value(camera: Option<String>) -> DocumentValue {
    match camera {
        Some(s) => DocumentValue::Text(s@),
        None => DocumentValue::Null,
    }
}

/// A condition on a target as a document.
pub open spec fn target_value(
    tag: Seq<char>,
    target: TargetSelector,
    kind: TargetKind,
    camera: Option<String>,
) -> DocumentValue {
    DocumentValue::Object(
        Map::empty().insert("type"@, name_value(tag)).insert(
            "target"@,
            selector_value(target),
        ).insert("kind"@, name_value(client::kind_name(kind))).insert(
            "camera"@,
            camera_value(camera),
        ),
    )
}

fn target_document(
    tag: &str,
    target: &TargetSelector,
    kind: TargetKind,
    camera: &Option<String>,
) -> (r: Document)
    ensures
        r@ == target_value(tag@, *target, kind, *camera),
{
    let camera = match camera {
        Some(s) => Document::Text(s.clone()),
        None => Document::Null,
    };
    Fields::new().with("type", name_document(tag)).with(
        "target",
        selector_document(target),
    ).with("kind", kind_document(kind)).with("camera", camera).build()
}

/// A condition as a document.
pub open spec fn predicate_value(predicate: Predicate) -> DocumentValue {
    match predicate {
        Predicate::StateEquals { state, value } => DocumentValue::Object(
            Map::empty().insert("type"@, name_value("state_equals"@)).insert(
                "state"@,
                DocumentValue::Text(state@),
            ).insert("value"@, scalar_value(value)),
        ),
        Predicate::ResourceField { resource, field, operator, value } => DocumentValue::Object(
            Map::empty().insert("type"@, name_value("resource_field"@)).insert(
                "resource"@,
                DocumentValue::Text(resource@),
            ).insert("field"@, DocumentValue::Text(field@)).insert(
                "operator"@,
                name_value(client::operator_name(operator)),
            ).insert("value"@, scalar_value(value)),
        ),
        Predicate::MarkerCount { marker, min, max } => DocumentValue::Object(
            Map::empty().insert("type"@, name_value("marker_count"@)).insert(
                "marker"@,
                DocumentValue::Text(marker@),
            ).insert("min"@, bound_value(min)).insert("max"@, bound_value(max)),
        ),
        Predicate::TargetExists { target, kind, camera } => target_value(
            "target_exists"@,
            target,
            kind,
            camera,
        ),
        Predicate::TargetAbsent { target, kind, camera } => target_value(
            "target_absent"@,
            target,
            kind,
            camera,
        ),
    }
}

/// Shows a condition.
pub fn predicate_document(predicate: &Predicate) -> (r: Document)
    ensures
        r@ == predicate_value(*predicate),
{
    match predicate {
        Predicate::StateEquals { state, value } => Fields::new().with(
            "type",
            name_document("state_equals"),
        ).with("state", Document::Text(state.clone())).with(
            "value",
            scalar_document(value),
        ).build(),
        Predicate::ResourceField { resource, field, operator, value } => Fields::new().with(
            "type",
            name_document("resource_field"),
        ).with("resource", Document::Text(resource.clone())).with(
            "field",
            Document::Text(field.clone()),
        ).with("operator", operator_document(*operator)).with(
            "value",
            scalar_document(value),
        ).build(),
        Predicate::MarkerCount { marker, min, max } => Fields::new().with(
            "type",
            name_document("marker_count"),
        ).with("marker", Document::Text(marker.clone())).with("min", bound_document(*min)).with(
            "max",
            bound_document(*max),
        ).build(),
        Predicate::TargetExists { target, kind, camera } => target_document(
            "target_exists",
            target,
            *kind,
            camera,
        ),
        Predicate::TargetAbsent { target, kind, camera } => target_document(
            "target_absent",
            target,
            *kind,
            camera,
        ),
    }
}

/// The name of an outcome.
pub open spec fn outcome_name(outcome: PredicateOutcome) -> &'static str {
    match outcome {
        PredicateOutcome::Matched => "matched",
        PredicateOutcome::NotMatched => "not_matched",
        PredicateOutcome::Indeterminate => "indeterminate",
    }
}

/// An observation as a document.
pub open spec fn observation_value(seen: ObservedPredicate) -> DocumentValue {
    DocumentValue::Object(
        put_some(
            put_some(
                put_some(
                    Map::empty().insert("predicate"@, predicate_value(seen.predicate)).insert(
                        "outcome"@,
                        name_value(outcome_name(seen.outcome)@),
                    ),
                    "value"@,
                    match seen.value {
                        Some(value) => Some(scalar_value(value)),
                        None => None,
                    },
                ),
                "count"@,
                match seen.count {
                    Some(n) => Some(DocumentValue::Whole(n as u128)),
                    None => None,
                },
            ),
            "count_is_lower_bound"@,
            flag_value(seen.count_is_lower_bound),
        ),
    )
}

/// Shows an observation.
pub fn observation_document(seen: &ObservedPredicate) -> (r: Document)
    ensures
        r@ == observation_value(*seen),
{
    let outcome = match seen.outcome {
        PredicateOutcome::Matched => "matched",
        PredicateOutcome::NotMatched => "not_matched",
        PredicateOutcome::Indeterminate => "indeterminate",
    };
    let value = match &seen.value {
        Some(value) => Some(scalar_document(value)),
        None => None,
    };
    let count = match seen.count {
        Some(n) => Some(Document::Whole(n as u128)),
        None => None,
    };
    Fields::new().with("predicate", predicate_document(&seen.predicate)).with(
        "outcome",
        name_document(outcome),
    ).with_some("value", value).with_some("count", count).with_some(
        "count_is_lower_bound",
        flag_document(seen.count_is_lower_bound),
    ).build()
}

/// The size of the world as a document.
pub open spec fn summary_value(summary: EcsSummaryContext) -> DocumentValue {
    DocumentValue::Object(
        put_some(
            Map::empty().insert("entity_count"@, DocumentValue::Whole(summary.entity_count as u128)),
            "entity_count_is_lower_bound"@,
            flag_value(summary.entity_count_is_lower_bound),
        ).insert("component_count"@, DocumentValue::Whole(summary.component_count as u128)).insert(
            "archetype_count"@,
            DocumentValue::Whole(summary.archetype_count as u128),
        ),
    )
}

fn summary_document(summary: &EcsSummaryContext) -> (r: Document)
    ensures
        r@ == summary_value(*summary),
{
    Fields::new().with("entity_count", Document::Whole(summary.entity_count as u128)).with_some(
        "entity_count_is_lower_bound",
        flag_document(summary.entity_count_is_lower_bound),
    ).with("component_count", Document::Whole(summary.component_count as u128)).with(
        "archetype_count",
        Document::Whole(summary.archetype_count as u128),
    ).build()
}

/// Texts as a document, where there are any.
pub open spec fn some_texts(texts: Seq<String>) -> Option<DocumentValue> {
    if texts.len() == 0 {
        None
    } else {
        Some(texts_value(texts))
    }
}

fn some_texts_document(texts: &Vec<String>) -> (r: Option<Document>)
    ensures
        some_texts(texts@) == (match r {
            Some(d) => Some(d@),
            None => None,
        }),
{
    if texts.len() == 0 {
        None
    } else {
        Some(texts_document(texts))
    }
}

/// The details of a diagnostic error as a document.
pub open spec fn diagnostic_value(context: DiagnosticErrorContext) -> DocumentValue {
    let said = put_some(
        put_some(
            put_some(
                put_some(Map::empty(), "reason"@, text_value(context.reason)),
                "entity"@,
                text_value(context.entity),
            ),
            "resource"@,
            text_value(context.resource),
        ),
        "field"@,
        text_value(context.field),
    );
    DocumentValue::Object(
        put_some(
            put_some(
                put_some(
                    said,
                    "limit"@,
                    match context.limit {
                        Some(n) => Some(DocumentValue::Whole(n as u128)),
                        None => None,
                    },
                ),
                "candidates"@,
                some_texts(context.candidates@),
            ),
            "registered"@,
            some_texts(context.registered@),
        ),
    )
}

fn diagnostic_document(context: &DiagnosticErrorContext) -> (r: Document)
    ensures
        r@ == diagnostic_value(*context),
{
    let limit = match context.limit {
        Some(n) => Some(Document::Whole(n as u128)),
        None => None,
    };
    Fields::new().with_some("reason", text_document(&context.reason)).with_some(
        "entity",
        text_document(&context.entity),
    ).with_some("resource", text_document(&context.resource)).with_some(
        "field",
        text_document(&context.field),
    ).with_some("limit", limit).with_some(
        "candidates",
        some_texts_document(&context.candidates),
    ).with_some("registered", some_texts_document(&context.registered)).build()
}

/// An optional name as a document.
pub open spec fn some_name(name: Option<&'static str>) -> Option<DocumentValue> {
    match name {
        Some(s) => Some(name_value(s@)),
        None => None,
    }
}

fn some_name_document(name: Option<&'static str>) -> (r: Option<Document>)
    ensures
        some_name(name) == (match r {
            Some(d) => Some(d@),
            None => None,
        }),
{
    match name {
        Some(s) => Some(name_document(s)),
        None => None,
    }
}

/// An optional length of time as a document.
pub open spec fn some_seconds(span: Option<Span>) -> Option<DocumentValue> {
    match span {
        Some(s) => Some(DocumentValue::Seconds(s)),
        None => None,
    }
}

fn some_seconds_document(span: Option<Span>) -> (r: Option<Document>)
    ensures
        some_seconds(span) == (match r {
            Some(d) => Some(d@),
            None => None,
        }),
{
    match span {
        Some(s) => Some(Document::Seconds(s)),
        None => None,
    }
}

/// An optional small number as a document.
pub open spec fn some_frames(frames: Option<u16>) -> Option<DocumentValue> {
    match frames {
        Some(n) => Some(DocumentValue::Whole(n as u128)),
        None => None,
    }
}

fn some_frames_document(frames: Option<u16>) -> (r: Option<Document>)
    ensures
        some_frames(frames) == (match r {
            Some(d) => Some(d@),
            None => None,
        }),
{
    match frames {
        Some(n) => Some(Document::Whole(n as u128)),
        None => None,
    }
}

/// The details of a timing error as a document.
pub open spec fn timing_value(context: AgentTimingContext) -> DocumentValue {
    let asked = put_some(
        put_some(
            put_some(
                put_some(Map::empty(), "state"@, some_name(context.state)),
                "reason"@,
                some_name(context.reason),
            ),
            "requested_seconds"@,
            some_seconds(context.requested_seconds),
        ),
        "observed_seconds"@,
        some_seconds(context.observed_seconds),
    );
    DocumentValue::Object(
        put_some(
            put_some(
                put_some(
                    put_some(asked, "frames"@, some_frames(context.frames)),
                    "expected_seconds"@,
                    some_seconds(context.expected_seconds),
                ),
                "actual_seconds"@,
                some_seconds(context.actual_seconds),
            ),
            "step_count"@,
            some_frames(context.step_count),
        ),
    )
}

fn timing_document(context: &AgentTimingContext) -> (r: Document)
    ensures
        r@ == timing_value(*context),
{
    Fields::new().with_some("state", some_name_document(context.state)).with_some(
        "reason",
        some_name_document(context.reason),
    ).with_some("requested_seconds", some_seconds_document(context.requested_seconds)).with_some(
        "observed_seconds",
        some_seconds_document(context.observed_seconds),
    ).with_some("frames", some_frames_document(context.frames)).with_some(
        "expected_seconds",
        some_seconds_document(context.expected_seconds),
    ).with_some("actual_seconds", some_seconds_document(context.actual_seconds)).with_some(
        "step_count",
        some_frames_document(context.step_count),
    ).build()
}

/// Details as a document.
pub open spec fn details_value(details: Details) -> DocumentValue {
    match details {
        Details::Timing(t) => DocumentValue::Object(
            Map::empty().insert("start_seconds"@, DocumentValue::Seconds(t.start)).insert(
                "end_seconds"@,
                DocumentValue::Seconds(t.end),
            ).insert("actual_seconds"@, DocumentValue::Seconds(t.actual)).insert(
                "step_count"@,
                DocumentValue::Whole(t.step_count as u128),
            ),
        ),
        Details::Waited(w) => DocumentValue::Object(
            Map::empty().insert("requested_seconds"@, DocumentValue::Seconds(w.requested)).insert(
                "observed_seconds"@,
                DocumentValue::Seconds(w.observed),
            ).insert("frames"@, DocumentValue::Whole(w.frames as u128)),
        ),
        Details::Diagnostic(json) => DocumentValue::Plain(json@),
        Details::Observation(seen) => observation_value(seen),
    }
}

fn details_document(details: &Details) -> (r: Document)
    ensures
        r@ == details_value(*details),
{
    match details {
        Details::Timing(t) => Fields::new().with("start_seconds", Document::Seconds(t.start)).with(
            "end_seconds",
            Document::Seconds(t.end),
        ).with("actual_seconds", Document::Seconds(t.actual)).with(
            "step_count",
            Document::Whole(t.step_count as u128),
        ).build(),
        Details::Waited(w) => Fields::new().with(
            "requested_seconds",
            Document::Seconds(w.requested),
        ).with("observed_seconds", Document::Seconds(w.observed)).with(
            "frames",
            Document::Whole(w.frames as u128),
        ).build(),
        Details::Diagnostic(json) => Document::Plain(copy_json(json)),
        Details::Observation(seen) => observation_document(seen),
    }
}

/// The application at the time of an error as a document.
pub open spec fn context_value(context: AgentErrorContext) -> DocumentValue {
    let seen = put_some(
        put_some(
            put_some(Map::empty(), "latest_capture"@, some_capture(context.latest_capture)),
            "snapshot"@,
            match context.snapshot {
                Some(snapshot) => Some(DocumentValue::Object(with_snapshot(Map::empty(), snapshot))),
                None => None,
            },
        ),
        "observed_predicate"@,
        match context.observed_predicate {
            Some(seen) => Some(observation_value(seen)),
            None => None,
        },
    );
    DocumentValue::Object(
        put_some(
            put_some(
                put_some(
                    seen,
                    "ecs_summary"@,
                    match context.ecs_summary {
                        Some(summary) => Some(summary_value(summary)),
                        None => None,
                    },
                ),
                "timing"@,
                match context.timing {
                    Some(timing) => Some(timing_value(timing)),
                    None => None,
                },
            ),
            "diagnostic"@,
            match context.diagnostic {
                Some(diagnostic) => Some(diagnostic_value(diagnostic)),
                None => None,
            },
        ),
    )
}

fn context_document(context: &AgentErrorContext) -> (r: Document)
    ensures
        r@ == context_value(*context),
{
    let snapshot = match &context.snapshot {
        Some(snapshot) => Some(add_snapshot(Fields::new(), snapshot).build()),
        None => None,
    };
    let seen = match &context.observed_predicate {
        Some(seen) => Some(observation_document(seen)),
        None => None,
    };
    let summary = match &context.ecs_summary {
        Some(summary) => Some(summary_document(summary)),
        None => None,
    };
    let timing = match &context.timing {
        Some(timing) => Some(timing_document(timing)),
        None => None,
    };
    let diagnostic = match &context.diagnostic {
        Some(diagnostic) => Some(diagnostic_document(diagnostic)),
        None => None,
    };
    Fields::new().with_some(
        "latest_capture",
        some_capture_document(&context.latest_capture),
    ).with_some("snapshot", snapshot).with_some("observed_predicate", seen).with_some(
        "ecs_summary",
        summary,
    ).with_some("timing", timing).with_some("diagnostic", diagnostic).build()
}

/// What came of a request as a document: what the application looks like stands in it directly.
pub open spec fn result_value(result: AgentResult) -> DocumentValue {
    let captured = put_some(
        put_some(
            Map::empty().insert("status"@, name_value(result.status@)),
            "latest_capture"@,
            some_capture(result.latest_capture),
        ),
        "capture"@,
        some_capture(result.capture),
    );
    DocumentValue::Object(
        put_some(
            match result.snapshot {
                Some(snapshot) => with_snapshot(captured, snapshot),
                None => captured,
            },
            "details"@,
            match result.details {
                Some(details) => Some(details_value(details)),
                None => None,
            },
        ),
    )
}

fn result_document(result: &AgentResult) -> (r: Document)
    ensures
        r@ == result_value(*result),
{
    let captured = Fields::new().with("status", name_document(result.status)).with_some(
        "latest_capture",
        some_capture_document(&result.latest_capture),
    ).with_some("capture", some_capture_document(&result.capture));
    let shown = match &result.snapshot {
        Some(snapshot) => add_snapshot(captured, snapshot),
        None => captured,
    };
    let details = match &result.details {
        Some(details) => Some(details_document(details)),
        None => None,
    };
    shown.with_some("details", details).build()
}

/// Why a request was not carried out as a document.
pub open spec fn error_value(error: AgentError) -> DocumentValue {
    DocumentValue::Object(
        put_some(
            Map::empty().insert("code"@, name_value(error.code@)).insert(
                "message"@,
                DocumentValue::Text(error.message@),
            ),
            "context"@,
            match error.context {
                Some(context) => Some(context_value(context)),
                None => None,
            },
        ),
    )
}

fn error_document(error: &AgentError) -> (r: Document)
    ensures
        r@ == error_value(*error),
{
    let context = match &error.context {
        Some(context) => Some(context_document(context)),
        None => None,
    };
    Fields::new().with("code", name_document(error.code)).with(
        "message",
        Document::Text(error.message.clone()),
    ).with_some("context", context).build()
}

/// An answer as a document.
pub open spec fn response_value(response: AgentResponse) -> Map<Seq<char>, DocumentValue> {
    put_some(
        put_some(
            Map::empty().insert("id"@, DocumentValue::Plain(response.id@)).insert(
                "ok"@,
                DocumentValue::Bool(response.ok),
            ),
            "result"@,
            match response.result {
                Some(result) => Some(result_value(result)),
                None => None,
            },
        ),
        "error"@,
        match response.error {
            Some(error) => Some(error_value(error)),
            None => None,
        },
    )
}

/// Shows an answer.
pub fn response_document(response: &AgentResponse) -> (r: Document)
    ensures
        r@ == DocumentValue::Object(response_value(*response)),
{
    let result = match &response.result {
        Some(result) => Some(result_document(result)),
        None => None,
    };
    let error = match &response.error {
        Some(error) => Some(error_document(error)),
        None => None,
    };
    Fields::new().with("id", Document::Plain(copy_json(&response.id))).with(
        "ok",
        Document::Bool(response.ok),
    ).with_some("result", result).with_some("error", error).build()
}

/// Law: an answer carries the identity of its request, and says by one flag which of a result and
/// an error it holds, never both.
pub proof fn law_answers_hold_one_outcome(response: AgentResponse)
    requires
        response.wf(),
    ensures
        ({
            let shown = response_value(response);
            &&& shown.dom().contains("id"@)
            &&& shown["id"@] == DocumentValue::Plain(response.id@)
            &&& shown["ok"@] == DocumentValue::Bool(shown.dom().contains("result"@))
            &&& shown.dom().contains("error"@) == !shown.dom().contains("result"@)
        }),
{
    reveal_strlit("id");
    reveal_strlit("ok");
    reveal_strlit("result");
    reveal_strlit("error");
    assert("id"@.len() == 2 && "ok"@.len() == 2 && "result"@.len() == 6 && "error"@.len() == 5);
    assert("id"@[0] != "ok"@[0]);
}

/// What a document shows under a name.
pub open spec fn shown_under(d: DocumentValue, name: Seq<char>) -> Option<DocumentValue> {
    match d {
        DocumentValue::Object(m) => if m.dom().contains(name) {
            Some(m[name])
        } else {
            None
        },
        _ => None,
    }
}

/// Law: a window is shown with each of its measures under its own name, so that different windows
/// are shown differently.
pub proof fn law_windows_are_shown_by_name(w: WindowInfo, v: WindowInfo)
    ensures
        ({
            let d = window_value(w);
            &&& shown_under(d, "logical_width"@) == Some(DocumentValue::Single(w.logical_width))
            &&& shown_under(d, "logical_height"@) == Some(DocumentValue::Single(w.logical_height))
            &&& shown_under(d, "physical_width"@) == Some(
                DocumentValue::Whole(w.physical_width as u128),
            )
            &&& shown_under(d, "physical_height"@) == Some(
                DocumentValue::Whole(w.physical_height as u128),
            )
            &&& shown_under(d, "scale_factor"@) == Some(DocumentValue::Single(w.scale_factor))
            &&& shown_under(d, "focused"@) == Some(DocumentValue::Bool(w.focused))
            &&& shown_under(d, "visible"@) == Some(DocumentValue::Bool(w.visible))
            &&& shown_under(d, "cursor_position"@) is Some <==> w.cursor_position is Some
        }),
        window_value(w) == window_value(v) ==> w.logical_width == v.logical_width
            && w.logical_height == v.logical_height && w.physical_width == v.physical_width
            && w.physical_height == v.physical_height && w.scale_factor == v.scale_factor
            && w.focused == v.focused && w.visible == v.visible,
{
    reveal_strlit("logical_width");
    reveal_strlit("logical_height");
    reveal_strlit("physical_width");
    reveal_strlit("physical_height");
    reveal_strlit("scale_factor");
    reveal_strlit("cursor_position");
    reveal_strlit("focused");
    reveal_strlit("visible");
    reveal_strlit("mode");
    assert("logical_width"@.len() == 13);
    assert("logical_height"@.len() == 14);
    assert("physical_width"@.len() == 14);
    assert("physical_height"@.len() == 15);
    assert("scale_factor"@.len() == 12);
    assert("cursor_position"@.len() == 15);
    assert("focused"@.len() == 7);
    assert("visible"@.len() == 7);
    assert("mode"@.len() == 4);
    assert("logical_height"@[0] != "physical_width"@[0]);
    assert("physical_height"@[0] != "cursor_position"@[0]);
    assert("focused"@[0] != "visible"@[0]);
}

/// Law: a capture is shown with each of its facts under its own name: its number, its file, the
/// frames of its request and its completion, the size of its image and the windows of both times. A
/// label is shown exactly where it has one.
pub proof fn law_captures_are_shown_by_name(c: CaptureInfo)
    ensures
        ({
            let d = capture_value(c);
            &&& shown_under(d, "sequence"@) == Some(DocumentValue::Whole(c.sequence as u128))
            &&& shown_under(d, "path"@) == Some(DocumentValue::Text(c.path@))
            &&& shown_under(d, "requested_frame"@) == Some(
                DocumentValue::Whole(c.requested_frame as u128),
            )
            &&& shown_under(d, "completed_frame"@) == Some(
                DocumentValue::Whole(c.completed_frame as u128),
            )
            &&& shown_under(d, "image_width"@) == Some(DocumentValue::Whole(c.image_width as u128))
            &&& shown_under(d, "image_height"@) == Some(
                DocumentValue::Whole(c.image_height as u128),
            )
            &&& shown_under(d, "window_at_request"@) == Some(window_value(c.window_at_request))
            &&& shown_under(d, "window_at_completion"@) == (match c.window_at_completion {
                Some(w) => Some(window_value(w)),
                None => None,
            })
            &&& shown_under(d, "label"@) == (match c.label {
                Some(l) => Some(DocumentValue::Text(l@)),
                None => None,
            })
            &&& shown_under(d, "completion"@) == Some(DocumentValue::Text("screenshot_captured"@))
        }),
{
    reveal_strlit("sequence");
    reveal_strlit("path");
    reveal_strlit("label");
    reveal_strlit("requested_frame");
    reveal_strlit("completed_frame");
    reveal_strlit("image_width");
    reveal_strlit("image_height");
    reveal_strlit("window_at_request");
    reveal_strlit("window_at_completion");
    reveal_strlit("completion");
    assert("sequence"@.len() == 8);
    assert("path"@.len() == 4);
    assert("label"@.len() == 5);
    assert("requested_frame"@.len() == 15);
    assert("completed_frame"@.len() == 15);
    assert("image_width"@.len() == 11);
    assert("image_height"@.len() == 12);
    assert("window_at_request"@.len() == 17);
    assert("window_at_completion"@.len() == 20);
    assert("completion"@.len() == 10);
    assert("requested_frame"@[0] != "completed_frame"@[0]);
}

/// Law: details are shown with each of their numbers under its own name: the start, the end and the
/// length of an advance and its steps, and what a wait asked for, saw and took.
pub proof fn law_details_are_shown_by_name(
    t: crate::responses::AgentTimingResult,
    w: crate::responses::WaitedSeconds,
)
    ensures
        ({
            let a = details_value(Details::Timing(t));
            let b = details_value(Details::Waited(w));
            &&& shown_under(a, "start_seconds"@) == Some(DocumentValue::Seconds(t.start))
            &&& shown_under(a, "end_seconds"@) == Some(DocumentValue::Seconds(t.end))
            &&& shown_under(a, "actual_seconds"@) == Some(DocumentValue::Seconds(t.actual))
            &&& shown_under(a, "step_count"@) == Some(DocumentValue::Whole(t.step_count as u128))
            &&& shown_under(b, "requested_seconds"@) == Some(DocumentValue::Seconds(w.requested))
            &&& shown_under(b, "observed_seconds"@) == Some(DocumentValue::Seconds(w.observed))
            &&& shown_under(b, "frames"@) == Some(DocumentValue::Whole(w.frames as u128))
        }),
{
    reveal_strlit("start_seconds");
    reveal_strlit("end_seconds");
    reveal_strlit("actual_seconds");
    reveal_strlit("step_count");
    reveal_strlit("requested_seconds");
    reveal_strlit("observed_seconds");
    reveal_strlit("frames");
    assert("start_seconds"@.len() == 13);
    assert("end_seconds"@.len() == 11);
    assert("actual_seconds"@.len() == 14);
    assert("step_count"@.len() == 10);
    assert("requested_seconds"@.len() == 17);
    assert("observed_seconds"@.len() == 16);
    assert("frames"@.len() == 6);
}

/// Law: an observation is shown with its outcome, what was read and what was counted, each under its
/// own name; different outcomes have different names.
pub proof fn law_observations_are_shown_by_name(seen: ObservedPredicate)
    ensures
        ({
            let d = observation_value(seen);
            &&& shown_under(d, "outcome"@) == Some(
                DocumentValue::Text(
                    if seen.outcome is Matched {
                        "matched"@
                    } else if seen.outcome is NotMatched {
                        "not_matched"@
                    } else {
                        "indeterminate"@
                    },
                ),
            )
            &&& shown_under(d, "predicate"@) == Some(predicate_value(seen.predicate))
            &&& shown_under(d, "value"@) == (match seen.value {
                Some(v) => Some(scalar_value(v)),
                None => None,
            })
            &&& shown_under(d, "count"@) == (match seen.count {
                Some(n) => Some(DocumentValue::Whole(n as u128)),
                None => None,
            })
        }),
{
    reveal_strlit("predicate");
    reveal_strlit("outcome");
    reveal_strlit("value");
    reveal_strlit("count");
    reveal_strlit("count_is_lower_bound");
    assert("predicate"@.len() == 9);
    assert("outcome"@.len() == 7);
    assert("value"@.len() == 5);
    assert("count"@.len() == 5);
    assert("count_is_lower_bound"@.len() == 20);
    assert("value"@[0] != "count"@[0]);
}

} // verus!
