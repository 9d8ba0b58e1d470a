//! Evaluation of predicates: which reader a predicate needs, and what a reading makes of it.
use crate::commands::{ComparisonOperator, DiagnosticValue, Predicate};
use crate::json::{json_text, json_texts, JsonValue, ObjectBuilder};
use crate::json;
use crate::reals::{equal_double, is_finite_double, less_double};
use crate::reals;
use crate::registry::{
    BoundedCount, DiagnosticFailure, PredicateRegistry, ReaderError, MAX_MARKER_COUNT,
    MAX_STRING_BYTES,
};
use crate::registry;
use crate::responses::{ObservedPredicate, PredicateOutcome};
use crate::text;
use crate::text::same_text;
use vstd::prelude::*;

verus! {

/// Why a value is not a diagnostic value, if it is not.
pub open spec fn value_objection(value: DiagnosticValue) -> Option<&'static str> {
    match value {
        DiagnosticValue::Number(bits) => if reals::double_finite(bits) {
            None
        } else {
            Some("diagnostic numeric values must be finite")
        },
        DiagnosticValue::String(text) => if text::byte_len(text@) > MAX_STRING_BYTES {
            Some("diagnostic strings must be at most 1024 bytes")
        } else {
            None
        },
        _ => None,
    }
}

/// Checks that a value is a diagnostic value.
pub fn validate_value(value: &DiagnosticValue) -> (r: Result<(), ReaderError>)
    ensures
        match value_objection(*value) {
            None => r is Ok,
            Some(reason) => r == Err::<(), ReaderError>(ReaderError::InvalidValue(reason)),
        },
{
    match value {
        DiagnosticValue::Number(bits) => {
            if !is_finite_double(*bits) {
                return Err(
                    ReaderError::InvalidValue("diagnostic numeric values must be finite"),
                );
            }
        },
        DiagnosticValue::String(text) => {
            if text.as_str().as_bytes().len() > MAX_STRING_BYTES {
                return Err(
                    ReaderError::InvalidValue("diagnostic strings must be at most 1024 bytes"),
                );
            }
        },
        _ => {},
    }
    Ok(())
}

/// Two diagnostic values are equal: numbers as numbers, texts as texts.
pub open spec fn values_equal(a: DiagnosticValue, b: DiagnosticValue) -> bool {
    match (a, b) {
        (DiagnosticValue::Null, DiagnosticValue::Null) => true,
        (DiagnosticValue::Bool(x), DiagnosticValue::Bool(y)) => x == y,
        (DiagnosticValue::Number(x), DiagnosticValue::Number(y)) => reals::double_equal(x, y),
        (DiagnosticValue::String(x), DiagnosticValue::String(y)) => x@ == y@,
        _ => false,
    }
}

/// Tells whether two diagnostic values are equal.
pub fn equal_values(a: &DiagnosticValue, b: &DiagnosticValue) -> (r: bool)
    ensures
        r == values_equal(*a, *b),
{
    match (a, b) {
        (DiagnosticValue::Null, DiagnosticValue::Null) => true,
        (DiagnosticValue::Bool(x), DiagnosticValue::Bool(y)) => *x == *y,
        (DiagnosticValue::Number(x), DiagnosticValue::Number(y)) => equal_double(*x, *y),
        (DiagnosticValue::String(x), DiagnosticValue::String(y)) => same_text(
            x.as_str(),
            y.as_str(),
        ),
        _ => false,
    }
}

/// What comparing two diagnostic values gives; an order is known between numbers alone.
pub open spec fn compared(
    observed: DiagnosticValue,
    operator: ComparisonOperator,
    expected: DiagnosticValue,
) -> Option<bool> {
    match operator {
        ComparisonOperator::Eq => Some(values_equal(observed, expected)),
        ComparisonOperator::Ne => Some(!values_equal(observed, expected)),
        _ => match (observed, expected) {
            (DiagnosticValue::Number(a), DiagnosticValue::Number(b)) => Some(
                match operator {
                    ComparisonOperator::Lt => reals::double_less(a, b),
                    ComparisonOperator::Lte => reals::double_less(a, b) || reals::double_equal(a, b),
                    ComparisonOperator::Gt => reals::double_less(b, a),
                    _ => reals::double_less(b, a) || reals::double_equal(a, b),
                },
            ),
            _ => None,
        },
    }
}

/// What is said where values without an order are to be ordered.
pub open spec fn order_message() -> &'static str {
    "ordering comparisons require numeric observed and expected values"
}

/// Compares two diagnostic values.
pub fn compare_values(
    observed: &DiagnosticValue,
    operator: ComparisonOperator,
    expected: &DiagnosticValue,
) -> (r: Result<bool, &'static str>)
    ensures
        match compared(*observed, operator, *expected) {
            Some(b) => r == Ok::<bool, &'static str>(b),
            None => r == Err::<bool, &'static str>(order_message()),
        },
{
    match operator {
        ComparisonOperator::Eq => Ok(equal_values(observed, expected)),
        ComparisonOperator::Ne => Ok(!equal_values(observed, expected)),
        _ => match (observed, expected) {
            (DiagnosticValue::Number(a), DiagnosticValue::Number(b)) => Ok(
                match operator {
                    ComparisonOperator::Lt => less_double(*a, *b),
                    ComparisonOperator::Lte => less_double(*a, *b) || equal_double(*a, *b),
                    ComparisonOperator::Gt => less_double(*b, *a),
                    _ => less_double(*b, *a) || equal_double(*a, *b),
                },
            ),
            _ => Err("ordering comparisons require numeric observed and expected values"),
        },
    }
}

/// Law: each comparison is the negation of another, for numbers that are diagnostic values.
pub proof fn law_comparisons_are_dual(a: u64, b: u64)
    requires
        reals::double_finite(a),
        reals::double_finite(b),
    ensures
        ({
            let x = DiagnosticValue::Number(a);
            let y = DiagnosticValue::Number(b);
            &&& compared(x, ComparisonOperator::Lt, y)->Some_0 == !(compared(
                x,
                ComparisonOperator::Gte,
                y,
            )->Some_0)
            &&& compared(x, ComparisonOperator::Gt, y)->Some_0 == !(compared(
                x,
                ComparisonOperator::Lte,
                y,
            )->Some_0)
            &&& compared(x, ComparisonOperator::Eq, y)->Some_0 == !(compared(
                x,
                ComparisonOperator::Ne,
                y,
            )->Some_0)
            &&& compared(x, ComparisonOperator::Eq, y)->Some_0 == (compared(
                x,
                ComparisonOperator::Lte,
                y,
            )->Some_0 && compared(x, ComparisonOperator::Gte, y)->Some_0)
        }),
{
}

/// A number lies between two optional bounds.
pub open spec fn in_bounds(n: int, min: Option<u32>, max: Option<u32>) -> bool {
    (min matches Some(low) ==> low <= n) && (max matches Some(high) ==> n <= high)
}

/// A number of entities is possible for what was counted.
pub open spec fn possible(count: BoundedCount, n: int) -> bool {
    if count.is_lower_bound {
        n >= count.value
    } else {
        n == count.value
    }
}

/// What a count makes of two bounds.
pub open spec fn count_outcome(count: BoundedCount, min: Option<u32>, max: Option<u32>) -> PredicateOutcome {
    if !count.is_lower_bound {
        if in_bounds(count.value as int, min, max) {
            PredicateOutcome::Matched
        } else {
            PredicateOutcome::NotMatched
        }
    } else if max is Some && count.value > max->Some_0 {
        PredicateOutcome::NotMatched
    } else if max is None && (min is None || count.value >= min->Some_0) {
        PredicateOutcome::Matched
    } else {
        PredicateOutcome::Indeterminate
    }
}

/// Judges a count by two bounds.
pub fn marker_count_outcome(count: BoundedCount, min: Option<u32>, max: Option<u32>) -> (r:
    PredicateOutcome)
    ensures
        r == count_outcome(count, min, max),
{
    if !count.is_lower_bound {
        let above = match min {
            Some(low) => count.value >= low,
            None => true,
        };
        let below = match max {
            Some(high) => count.value <= high,
            None => true,
        };
        return if above && below {
            PredicateOutcome::Matched
        } else {
            PredicateOutcome::NotMatched
        };
    }
    match max {
        Some(high) => if count.value > high {
            PredicateOutcome::NotMatched
        } else {
            PredicateOutcome::Indeterminate
        },
        None => match min {
            Some(low) => if count.value >= low {
                PredicateOutcome::Matched
            } else {
                PredicateOutcome::Indeterminate
            },
            None => PredicateOutcome::Matched,
        },
    }
}

/// Law: a count decides a predicate only as every possible number of entities would, and leaves it
/// open only where possible numbers disagree.
pub proof fn law_count_outcome_is_sound(
    count: BoundedCount,
    min: Option<u32>,
    max: Option<u32>,
)
    requires
        min is Some && max is Some ==> min->Some_0 <= max->Some_0,
    ensures
        match count_outcome(count, min, max) {
            PredicateOutcome::Matched => forall|n: int|
                #[trigger] possible(count, n) ==> in_bounds(n, min, max),
            PredicateOutcome::NotMatched => forall|n: int|
                #[trigger] possible(count, n) ==> !in_bounds(n, min, max),
            PredicateOutcome::Indeterminate => (exists|n: int|
                #[trigger] possible(count, n) && in_bounds(n, min, max)) && (exists|n: int|
                #[trigger] possible(count, n) && !in_bounds(n, min, max)),
        },
{
    if count_outcome(count, min, max) is Indeterminate {
        let low = if min is Some && min->Some_0 > count.value {
            min->Some_0 as int
        } else {
            count.value as int
        };
        assert(possible(count, low) && in_bounds(low, min, max));
        if max is Some {
            let high = max->Some_0 + 1;
            assert(possible(count, high) && !in_bounds(high, min, max));
        } else {
            assert(possible(count, count.value as int));
        }
    }
}

/// The count that a bounded walk over entities gives, where at most one more than
/// [`MAX_MARKER_COUNT`] was walked.
pub fn bounded_count(walked: usize) -> (r: BoundedCount)
    requires
        walked <= MAX_MARKER_COUNT + 1,
    ensures
        r.value == walked,
        r.is_lower_bound == (walked > MAX_MARKER_COUNT),
{
    BoundedCount { value: walked as u32, is_lower_bound: walked > MAX_MARKER_COUNT }
}

/// What is known of a target.
#[derive(Clone, Copy, Debug, PartialEq, Eq, Structural)]
pub enum TargetPresence {
    /// It was found and can be clicked.
    Resolved,
    /// There is none.
    Absent,
    /// There is one, or more than one, and none can be clicked.
    PresentUnresolved,
    /// The search was cut off before it found one.
    Indeterminate,
}

/// What the presence of a target makes of a predicate.
pub open spec fn presence_outcome(presence: TargetPresence, expect_exists: bool) -> PredicateOutcome {
    match (presence, expect_exists) {
        (TargetPresence::Resolved, true) => PredicateOutcome::Matched,
        (TargetPresence::Absent, false) => PredicateOutcome::Matched,
        (TargetPresence::Resolved, false) => PredicateOutcome::NotMatched,
        (TargetPresence::Absent, true) => PredicateOutcome::NotMatched,
        (TargetPresence::PresentUnresolved, false) => PredicateOutcome::NotMatched,
        (TargetPresence::PresentUnresolved, true) => PredicateOutcome::Indeterminate,
        (TargetPresence::Indeterminate, _) => PredicateOutcome::Indeterminate,
    }
}

/// Law: that a target exists and that it is absent are never both held, and each is held exactly
/// where the other is ruled out by what is known.
pub proof fn law_exists_and_absent_exclude(presence: TargetPresence)
    ensures
        !(presence_outcome(presence, true) is Matched && presence_outcome(presence, false)
            is Matched),
        presence_outcome(presence, true) is Matched ==> presence_outcome(presence, false)
            is NotMatched,
        presence_outcome(presence, false) is Matched ==> presence_outcome(presence, true)
            is NotMatched,
{
}

/// Which reader a predicate needs.
pub enum ReadPlan {
    /// The state at this place.
    State(usize),
    /// The field at this place.
    ResourceField(usize),
    /// The marker at this place.
    Marker(usize),
    /// The search for a target.
    Target,
}

/// What the application read.
pub enum Reading {
    /// A state or a field.
    Value(Result<DiagnosticValue, ReaderError>),
    /// The entities of a marker.
    Count(BoundedCount),
    /// A target, or why it could not be searched for.
    Target(Result<TargetPresence, DiagnosticFailure>),
}

/// The keys of the registered states.
pub open spec fn state_keys(registry: PredicateRegistry) -> Seq<String> {
    Seq::new(registry.states@.len(), |i: int| registry.states@[i].key)
}

/// The keys of the registered markers.
pub open spec fn marker_keys(registry: PredicateRegistry) -> Seq<String> {
    Seq::new(registry.markers@.len(), |i: int| registry.markers@[i].key)
}

/// The resources of the registered fields.
pub open spec fn resource_keys(registry: PredicateRegistry) -> Seq<String> {
    Seq::new(registry.resource_fields@.len(), |i: int| registry.resource_fields@[i].resource)
}

/// The first `n` registered fields, those of one resource.
pub open spec fn field_keys(registry: PredicateRegistry, resource: Seq<char>, n: int) -> Seq<String>
    decreases n,
{
    if n <= 0 {
        Seq::empty()
    } else if registry.resource_fields@[n - 1].resource@ == resource {
        field_keys(registry, resource, n - 1).push(registry.resource_fields@[n - 1].field)
    } else {
        field_keys(registry, resource, n - 1)
    }
}

fn list_states(registry: &PredicateRegistry) -> (r: Vec<String>)
    ensures
        r@ == state_keys(*registry),
{
    let mut r: Vec<String> = Vec::new();
    let mut i: usize = 0;
    while i < registry.states.len()
        invariant
            i <= registry.states@.len(),
            r@ == state_keys(*registry).take(i as int),
        decreases registry.states@.len() - i,
    {
        r.push(registry.states[i].key.clone());
        i = i + 1;
        assert(r@ =~= state_keys(*registry).take(i as int));
    }
    assert(r@ =~= state_keys(*registry));
    r
}

fn list_markers(registry: &PredicateRegistry) -> (r: Vec<String>)
    ensures
        r@ == marker_keys(*registry),
{
    let mut r: Vec<String> = Vec::new();
    let mut i: usize = 0;
    while i < registry.markers.len()
        invariant
            i <= registry.markers@.len(),
            r@ == marker_keys(*registry).take(i as int),
        decreases registry.markers@.len() - i,
    {
        r.push(registry.markers[i].key.clone());
        i = i + 1;
        assert(r@ =~= marker_keys(*registry).take(i as int));
    }
    assert(r@ =~= marker_keys(*registry));
    r
}

pub(crate) fn list_resources(registry: &PredicateRegistry) -> (r: Vec<String>)
    ensures
        r@ == resource_keys(*registry),
{
    let mut r: Vec<String> = Vec::new();
    let mut i: usize = 0;
    while i < registry.resource_fields.len()
        invariant
            i <= registry.resource_fields@.len(),
            r@ == resource_keys(*registry).take(i as int),
        decreases registry.resource_fields@.len() - i,
    {
        r.push(registry.resource_fields[i].resource.clone());
        i = i + 1;
        assert(r@ =~= resource_keys(*registry).take(i as int));
    }
    assert(r@ =~= resource_keys(*registry));
    r
}

pub(crate) fn list_fields(registry: &PredicateRegistry, resource: &str) -> (r: Vec<String>)
    ensures
        r@ == field_keys(*registry, resource@, registry.resource_fields@.len() as int),
{
    let mut r: Vec<String> = Vec::new();
    let mut i: usize = 0;
    while i < registry.resource_fields.len()
        invariant
            i <= registry.resource_fields@.len(),
            r@ == field_keys(*registry, resource@, i as int),
        decreases registry.resource_fields@.len() - i,
    {
        if same_text(registry.resource_fields[i].resource.as_str(), resource) {
            r.push(registry.resource_fields[i].field.clone());
        }
        i = i + 1;
    }
    r
}

/// The details of a value of a state or a field that is not a diagnostic value.
pub open spec fn reader_details(key: Seq<char>, field: Option<Seq<char>>) -> Map<
    Seq<char>,
    JsonValue,
> {
    match field {
        Some(field) => map![
            "resource"@ => JsonValue::Text(key),
            "field"@ => JsonValue::Text(field),
        ],
        None => map!["state"@ => JsonValue::Text(key)],
    }
}

/// The result `r` is the failure of a reader of a state, or of a field where there is one.
pub open spec fn reader_fails<T>(
    r: Result<T, DiagnosticFailure>,
    error: ReaderError,
    key: Seq<char>,
    field: Option<Seq<char>>,
) -> bool {
    match error {
        ReaderError::Missing => registry::fails_as(
            r,
            if field is None {
                "state_missing"
            } else {
                "resource_missing"
            },
            "the registered Bevy resource is not present in the world",
            reader_details(key, field),
        ),
        ReaderError::InvalidValue(reason) => registry::fails_as(
            r,
            "diagnostic_value_invalid",
            reason,
            reader_details(key, field).insert("reason"@, JsonValue::Text(reason@)),
        ),
    }
}

/// Describes the failure of a reader of a state, or of a field where there is one.
pub fn map_reader_error(error: ReaderError, key: &str, field: Option<&str>) -> (r: DiagnosticFailure)
    ensures
        reader_fails(
            Err::<(), DiagnosticFailure>(r),
            error,
            key@,
            match field {
                Some(field) => Some(field@),
                None => None,
            },
        ),
{
    let details = match field {
        Some(field) => ObjectBuilder::new().with("resource", json_text(key)).with(
            "field",
            json_text(field),
        ),
        None => ObjectBuilder::new().with("state", json_text(key)),
    };
    proof {
        let shown = match field {
            Some(field) => Some(field@),
            None => None,
        };
        assert(details@ =~= reader_details(key@, shown));
    }
    match error {
        ReaderError::Missing => DiagnosticFailure {
            code: match field {
                Some(_) => "resource_missing",
                None => "state_missing",
            },
            message: "the registered Bevy resource is not present in the world",
            details: details.build(),
        },
        ReaderError::InvalidValue(reason) => DiagnosticFailure {
            code: "diagnostic_value_invalid",
            message: reason,
            details: details.with("reason", json_text(reason)).build(),
        },
    }
}

/// The result `r` is the place of a registered field, or says what is not registered.
pub open spec fn field_agrees(
    registry: PredicateRegistry,
    resource: Seq<char>,
    field: Seq<char>,
    r: Result<usize, DiagnosticFailure>,
) -> bool {
    if !registry.has_resource(resource) {
        registry::fails_as(
            r,
            "resource_not_registered",
            "no resource is registered with this exact key",
            map![
                "resource"@ => JsonValue::Text(resource),
                "registered"@ => json::text_list(resource_keys(registry)),
            ],
        )
    } else if !registry.has_field(resource, field) {
        registry::fails_as(
            r,
            "resource_field_not_registered",
            "no field is registered with these exact resource and field keys",
            map![
                "resource"@ => JsonValue::Text(resource),
                "field"@ => JsonValue::Text(field),
                "registered_fields"@ => json::text_list(
                    field_keys(registry, resource, registry.resource_fields@.len() as int),
                ),
            ],
        )
    } else {
        r matches Ok(i) && i < registry.resource_fields@.len()
            && registry.resource_fields@[i as int].resource@ == resource
            && registry.resource_fields@[i as int].field@ == field
    }
}

/// The result `r` is the reader that a predicate needs, or says why there is none.
pub open spec fn plan_agrees(
    registry: PredicateRegistry,
    predicate: Predicate,
    r: Result<ReadPlan, DiagnosticFailure>,
) -> bool {
    match predicate {
        Predicate::StateEquals { state, value } => if value_objection(value) is Some {
            reader_fails(
                r,
                ReaderError::InvalidValue(value_objection(value)->Some_0),
                state@,
                None,
            )
        } else if !registry.has_state(state@) {
            registry::fails_as(
                r,
                "state_not_registered",
                "no state is registered with this exact key",
                map![
                    "state"@ => JsonValue::Text(state@),
                    "registered"@ => json::text_list(state_keys(registry)),
                ],
            )
        } else {
            r matches Ok(ReadPlan::State(i)) && i < registry.states@.len()
                && registry.states@[i as int].key@ == state@
        },
        Predicate::ResourceField { resource, field, value, .. } => if value_objection(value)
            is Some {
            reader_fails(
                r,
                ReaderError::InvalidValue(value_objection(value)->Some_0),
                resource@,
                Some(field@),
            )
        } else {
            match r {
                Ok(ReadPlan::ResourceField(i)) => field_agrees(registry, resource@, field@, Ok(i)),
                Ok(_) => false,
                Err(e) => field_agrees(registry, resource@, field@, Err(e)),
            }
        },
        Predicate::MarkerCount { marker, .. } => if !registry.has_marker(marker@) {
            registry::fails_as(
                r,
                "marker_not_registered",
                "no marker is registered with this exact key",
                map![
                    "marker"@ => JsonValue::Text(marker@),
                    "registered"@ => json::text_list(marker_keys(registry)),
                ],
            )
        } else {
            r matches Ok(ReadPlan::Marker(i)) && i < registry.markers@.len()
                && registry.markers@[i as int].key@ == marker@
        },
        _ => r matches Ok(ReadPlan::Target),
    }
}

/// The observation of a predicate.
pub open spec fn observation(
    predicate: Predicate,
    outcome: PredicateOutcome,
    value: Option<DiagnosticValue>,
    count: Option<u32>,
    count_is_lower_bound: bool,
) -> ObservedPredicate {
    ObservedPredicate { predicate, outcome, value, count, count_is_lower_bound }
}

/// Whether a comparison holds.
pub open spec fn held(b: bool) -> PredicateOutcome {
    if b {
        PredicateOutcome::Matched
    } else {
        PredicateOutcome::NotMatched
    }
}

fn outcome_of(b: bool) -> (r: PredicateOutcome)
    ensures
        r == held(b),
{
    if b {
        PredicateOutcome::Matched
    } else {
        PredicateOutcome::NotMatched
    }
}

/// The reading is one that the predicate asks for.
pub open spec fn reading_fits(predicate: Predicate, reading: Reading) -> bool {
    match predicate {
        Predicate::StateEquals { .. } => reading is Value,
        Predicate::ResourceField { .. } => reading is Value,
        Predicate::MarkerCount { .. } => reading is Count,
        _ => reading is Target,
    }
}

/// The result `r` is what a reading makes of a predicate.
pub open spec fn judgement_agrees(
    predicate: Predicate,
    reading: Reading,
    r: Result<ObservedPredicate, DiagnosticFailure>,
) -> bool {
    match (predicate, reading) {
        (Predicate::StateEquals { state, value }, Reading::Value(read)) => match read {
            Err(error) => reader_fails(r, error, state@, None),
            Ok(observed) => r == Ok::<ObservedPredicate, DiagnosticFailure>(
                observation(
                    predicate,
                    held(values_equal(observed, value)),
                    Some(observed),
                    None,
                    false,
                ),
            ),
        },
        (
            Predicate::ResourceField { resource, field, operator, value },
            Reading::Value(read),
        ) => match read {
            Err(error) => reader_fails(r, error, resource@, Some(field@)),
            Ok(observed) => match compared(observed, operator, value) {
                None => registry::fails_as(
                    r,
                    "comparison_type_mismatch",
                    order_message(),
                    reader_details(resource@, Some(field@)),
                ),
                Some(b) => r == Ok::<ObservedPredicate, DiagnosticFailure>(
                    observation(predicate, held(b), Some(observed), None, false),
                ),
            },
        },
        (Predicate::MarkerCount { min, max, .. }, Reading::Count(count)) => r == Ok::<
            ObservedPredicate,
            DiagnosticFailure,
        >(
            observation(
                predicate,
                count_outcome(count, min, max),
                None,
                Some(count.value),
                count.is_lower_bound,
            ),
        ),
        (Predicate::TargetExists { .. }, Reading::Target(found)) => match found {
            Err(e) => r == Err::<ObservedPredicate, DiagnosticFailure>(e),
            Ok(presence) => r == Ok::<ObservedPredicate, DiagnosticFailure>(
                observation(predicate, presence_outcome(presence, true), None, None, false),
            ),
        },
        (Predicate::TargetAbsent { .. }, Reading::Target(found)) => match found {
            Err(e) => r == Err::<ObservedPredicate, DiagnosticFailure>(e),
            Ok(presence) => r == Ok::<ObservedPredicate, DiagnosticFailure>(
                observation(predicate, presence_outcome(presence, false), None, None, false),
            ),
        },
        _ => true,
    }
}

fn outcome_of_presence(presence: TargetPresence, expect_exists: bool) -> (r: PredicateOutcome)
    ensures
        r == presence_outcome(presence, expect_exists),
{
    match (presence, expect_exists) {
        (TargetPresence::Resolved, true) => PredicateOutcome::Matched,
        (TargetPresence::Absent, false) => PredicateOutcome::Matched,
        (TargetPresence::Resolved, false) => PredicateOutcome::NotMatched,
        (TargetPresence::Absent, true) => PredicateOutcome::NotMatched,
        (TargetPresence::PresentUnresolved, false) => PredicateOutcome::NotMatched,
        (TargetPresence::PresentUnresolved, true) => PredicateOutcome::Indeterminate,
        (TargetPresence::Indeterminate, _) => PredicateOutcome::Indeterminate,
    }
}

impl PredicateRegistry {
    /// Finds a field of a resource, or says what is not registered.
    pub fn find_resource_field(&self, resource: &str, field: &str) -> (r: Result<
        usize,
        DiagnosticFailure,
    >)
        ensures
            field_agrees(*self, resource@, field@, r),
    {
        if self.first_of_resource(resource).is_none() {
            let details = ObjectBuilder::new().with("resource", json_text(resource)).with(
                "registered",
                json_texts(&list_resources(self)),
            );
            assert(details@ =~= map![
                "resource"@ => JsonValue::Text(resource@),
                "registered"@ => json::text_list(resource_keys(*self)),
            ]);
            return Err(
                DiagnosticFailure {
                    code: "resource_not_registered",
                    message: "no resource is registered with this exact key",
                    details: details.build(),
                },
            );
        }
        match self.place_of_field(resource, field) {
            Some(i) => Ok(i),
            None => {
                let details = ObjectBuilder::new().with("resource", json_text(resource)).with(
                    "field",
                    json_text(field),
                ).with("registered_fields", json_texts(&list_fields(self, resource)));
                assert(details@ =~= map![
                    "resource"@ => JsonValue::Text(resource@),
                    "field"@ => JsonValue::Text(field@),
                    "registered_fields"@ => json::text_list(
                        field_keys(*self, resource@, self.resource_fields@.len() as int),
                    ),
                ]);
                Err(
                    DiagnosticFailure {
                        code: "resource_field_not_registered",
                        message: "no field is registered with these exact resource and field keys",
                        details: details.build(),
                    },
                )
            },
        }
    }

    /// Finds the reader that a predicate needs.
    pub fn plan(&self, predicate: &Predicate) -> (r: Result<ReadPlan, DiagnosticFailure>)
        ensures
            plan_agrees(*self, *predicate, r),
    {
        match predicate {
            Predicate::StateEquals { state, value } => {
                if let Err(error) = validate_value(value) {
                    return Err(map_reader_error(error, state.as_str(), None));
                }
                match self.find_state(state.as_str()) {
                    Some(i) => Ok(ReadPlan::State(i)),
                    None => {
                        let details = ObjectBuilder::new().with(
                            "state",
                            json_text(state.as_str()),
                        ).with("registered", json_texts(&list_states(self)));
                        assert(details@ =~= map![
                            "state"@ => JsonValue::Text(state@),
                            "registered"@ => json::text_list(state_keys(*self)),
                        ]);
                        Err(
                            DiagnosticFailure {
                                code: "state_not_registered",
                                message: "no state is registered with this exact key",
                                details: details.build(),
                            },
                        )
                    },
                }
            },
            Predicate::ResourceField { resource, field, operator: _, value } => {
                if let Err(error) = validate_value(value) {
                    return Err(
                        map_reader_error(error, resource.as_str(), Some(field.as_str())),
                    );
                }
                match self.find_resource_field(resource.as_str(), field.as_str()) {
                    Ok(i) => Ok(ReadPlan::ResourceField(i)),
                    Err(e) => Err(e),
                }
            },
            Predicate::MarkerCount { marker, .. } => match self.find_marker(marker.as_str()) {
                Some(i) => Ok(ReadPlan::Marker(i)),
                None => {
                    let details = ObjectBuilder::new().with(
                        "marker",
                        json_text(marker.as_str()),
                    ).with("registered", json_texts(&list_markers(self)));
                    assert(details@ =~= map![
                        "marker"@ => JsonValue::Text(marker@),
                        "registered"@ => json::text_list(marker_keys(*self)),
                    ]);
                    Err(
                        DiagnosticFailure {
                            code: "marker_not_registered",
                            message: "no marker is registered with this exact key",
                            details: details.build(),
                        },
                    )
                },
            },
            _ => Ok(ReadPlan::Target),
        }
    }
}

/// Judges a predicate by what the application read for it.
pub fn evaluate(predicate: &Predicate, reading: Reading) -> (r: Result<
    ObservedPredicate,
    DiagnosticFailure,
>)
    requires
        reading_fits(*predicate, reading),
    ensures
        judgement_agrees(*predicate, reading, r),
{
    match (predicate, reading) {
        (Predicate::StateEquals { state, value }, Reading::Value(read)) => match read {
            Err(error) => Err(map_reader_error(error, state.as_str(), None)),
            Ok(observed) => {
                let outcome = outcome_of(equal_values(&observed, value));
                Ok(
                    ObservedPredicate {
                        predicate: predicate.copy(),
                        outcome,
                        value: Some(observed),
                        count: None,
                        count_is_lower_bound: false,
                    },
                )
            },
        },
        (
            Predicate::ResourceField { resource, field, operator, value },
            Reading::Value(read),
        ) => match read {
            Err(error) => Err(
                map_reader_error(error, resource.as_str(), Some(field.as_str())),
            ),
            Ok(observed) => match compare_values(&observed, *operator, value) {
                Ok(b) => Ok(
                    ObservedPredicate {
                        predicate: predicate.copy(),
                        outcome: outcome_of(b),
                        value: Some(observed),
                        count: None,
                        count_is_lower_bound: false,
                    },
                ),
                Err(reason) => {
                    let details = ObjectBuilder::new().with(
                        "resource",
                        json_text(resource.as_str()),
                    ).with("field", json_text(field.as_str()));
                    assert(details@ =~= reader_details(resource@, Some(field@)));
                    Err(
                        DiagnosticFailure {
                            code: "comparison_type_mismatch",
                            message: reason,
                            details: details.build(),
                        },
                    )
                },
            },
        },
        (Predicate::MarkerCount { marker: _, min, max }, Reading::Count(count)) => Ok(
            ObservedPredicate {
                predicate: predicate.copy(),
                outcome: marker_count_outcome(count, *min, *max),
                value: None,
                count: Some(count.value),
                count_is_lower_bound: count.is_lower_bound,
            },
        ),
        (Predicate::TargetExists { .. }, Reading::Target(found)) => match found {
            Err(e) => Err(e),
            Ok(presence) => Ok(
                ObservedPredicate {
                    predicate: predicate.copy(),
                    outcome: outcome_of_presence(presence, true),
                    value: None,
                    count: None,
                    count_is_lower_bound: false,
                },
            ),
        },
        (_, Reading::Target(found)) => match found {
            Err(e) => Err(e),
            Ok(presence) => Ok(
                ObservedPredicate {
                    predicate: predicate.copy(),
                    outcome: outcome_of_presence(presence, false),
                    value: None,
                    count: None,
                    count_is_lower_bound: false,
                },
            ),
        },
        _ => Ok(
            ObservedPredicate {
                predicate: predicate.copy(),
                outcome: PredicateOutcome::Indeterminate,
                value: None,
                count: None,
                count_is_lower_bound: false,
            },
        ),
    }
}

/// Two diagnostic values say the same: both are nothing, or both are the same truth, or both are
/// numbers of one value, or both are texts with the same characters in the same order.
pub open spec fn says_the_same(a: DiagnosticValue, b: DiagnosticValue) -> bool {
    ||| a is Null && b is Null
    ||| a is Bool && b is Bool && a->Bool_0 == b->Bool_0
    ||| a is Number && b is Number && reals::double_value(a->Number_0) == reals::double_value(
        b->Number_0,
    )
    ||| a is String && b is String && a->String_0@.len() == b->String_0@.len() && forall|i: int|
        0 <= i < a->String_0@.len() ==> #[trigger] a->String_0@[i] == b->String_0@[i]
}

/// A value that a predicate or a reader may have: its number, if it is one, is finite.
pub open spec fn number_is_finite(v: DiagnosticValue) -> bool {
    v is Number ==> reals::double_finite(v->Number_0)
}

/// Law: values are equal exactly where they say the same. Texts of one length that differ in a
/// single character are not, and values of different kinds never are.
pub proof fn law_equal_values_say_the_same(a: DiagnosticValue, b: DiagnosticValue)
    requires
        number_is_finite(a),
        number_is_finite(b),
    ensures
        values_equal(a, b) <==> says_the_same(a, b),
        values_equal(a, b) <==> values_equal(b, a),
        values_equal(a, a),
        a is String && b is String ==> (values_equal(a, b) <==> a->String_0@ == b->String_0@),
{
    if a is Number && b is Number {
        reals::law_doubles_are_ordered_by_value(a->Number_0, b->Number_0);
    }
    if a is String && b is String {
        if says_the_same(a, b) {
            assert(a->String_0@ =~= b->String_0@);
        }
    }
}

/// Law: values that equal a third one equal each other.
pub proof fn law_equality_is_transitive(a: DiagnosticValue, b: DiagnosticValue, c: DiagnosticValue)
    requires
        values_equal(a, b),
        values_equal(b, c),
    ensures
        values_equal(a, c),
{
}

/// Law: a state predicate is matched exactly where the state that was read says the same as the
/// predicate; otherwise it is not matched. What was read is shown.
pub proof fn law_states_are_judged_by_their_value(
    state: String,
    value: DiagnosticValue,
    observed: DiagnosticValue,
    r: Result<ObservedPredicate, DiagnosticFailure>,
)
    requires
        number_is_finite(value),
        number_is_finite(observed),
        judgement_agrees(
            Predicate::StateEquals { state, value },
            Reading::Value(Ok(observed)),
            r,
        ),
    ensures
        r matches Ok(seen) && seen.outcome == (if says_the_same(observed, value) {
            PredicateOutcome::Matched
        } else {
            PredicateOutcome::NotMatched
        }) && seen.predicate == (Predicate::StateEquals { state, value }) && seen.value == Some(
            observed,
        ) && seen.count is None && !seen.count_is_lower_bound,
{
    law_equal_values_say_the_same(observed, value);
}

/// Law: a field predicate compares what was read, on the left, with its value, on the right.
/// Equality is that both say the same, whatever they are. Numbers are ordered by their values, and
/// an order between anything else is an error.
pub proof fn law_fields_are_judged_by_their_value(
    resource: String,
    field: String,
    operator: ComparisonOperator,
    value: DiagnosticValue,
    observed: DiagnosticValue,
    r: Result<ObservedPredicate, DiagnosticFailure>,
)
    requires
        number_is_finite(value),
        number_is_finite(observed),
        judgement_agrees(
            Predicate::ResourceField { resource, field, operator, value },
            Reading::Value(Ok(observed)),
            r,
        ),
    ensures
        r is Ok <==> operator is Eq || operator is Ne || (observed is Number && value is Number),
        r is Err ==> r->Err_0.code == "comparison_type_mismatch",
        r matches Ok(seen) ==> {
            let left = reals::double_value(observed->Number_0);
            let right = reals::double_value(value->Number_0);
            let holds = match operator {
                ComparisonOperator::Eq => says_the_same(observed, value),
                ComparisonOperator::Ne => !says_the_same(observed, value),
                ComparisonOperator::Lt => left < right,
                ComparisonOperator::Lte => left <= right,
                ComparisonOperator::Gt => left > right,
                ComparisonOperator::Gte => left >= right,
            };
            &&& seen.outcome == (if holds {
                PredicateOutcome::Matched
            } else {
                PredicateOutcome::NotMatched
            })
            &&& seen.predicate == (Predicate::ResourceField { resource, field, operator, value })
            &&& seen.value == Some(observed)
            &&& seen.count is None && !seen.count_is_lower_bound
        },
{
    law_equal_values_say_the_same(observed, value);
    if observed is Number && value is Number {
        reals::law_doubles_are_ordered_by_value(observed->Number_0, value->Number_0);
        reals::law_doubles_are_ordered_by_value(value->Number_0, observed->Number_0);
    }
}

/// Law: a state or a field that could not be read makes every predicate on it an error, and never a
/// match.
pub proof fn law_unread_values_are_errors(
    predicate: Predicate,
    error: ReaderError,
    r: Result<ObservedPredicate, DiagnosticFailure>,
)
    requires
        predicate is StateEquals || predicate is ResourceField,
        judgement_agrees(predicate, Reading::Value(Err(error)), r),
    ensures
        r is Err,
        r->Err_0.code == (match error {
            ReaderError::Missing => if predicate is StateEquals {
                "state_missing"
            } else {
                "resource_missing"
            },
            ReaderError::InvalidValue(_) => "diagnostic_value_invalid",
        }),
{
}

/// Law: a count is matched exactly where every number of entities that may be there is within the
/// bounds, is not matched exactly where none is, and is open otherwise. What was counted is shown.
pub proof fn law_counts_are_judged_by_their_bounds(
    marker: String,
    min: Option<u32>,
    max: Option<u32>,
    count: BoundedCount,
    r: Result<ObservedPredicate, DiagnosticFailure>,
)
    requires
        min is Some && max is Some ==> min->Some_0 <= max->Some_0,
        judgement_agrees(
            Predicate::MarkerCount { marker, min, max },
            Reading::Count(count),
            r,
        ),
    ensures
        r matches Ok(seen) && seen.predicate == (Predicate::MarkerCount { marker, min, max })
            && seen.value is None && seen.count == Some(count.value) && seen.count_is_lower_bound
            == count.is_lower_bound && (seen.outcome is Matched <==> forall|n: int|
            #![trigger possible(count, n)]
            (if count.is_lower_bound {
                n >= count.value
            } else {
                n == count.value
            }) ==> (min is Some ==> min->Some_0 <= n) && (max is Some ==> n <= max->Some_0)) && (
        seen.outcome is NotMatched <==> forall|n: int|
            #![trigger possible(count, n)]
            (if count.is_lower_bound {
                n >= count.value
            } else {
                n == count.value
            }) ==> !((min is Some ==> min->Some_0 <= n) && (max is Some ==> n <= max->Some_0))),
{
    law_count_outcome_is_sound(count, min, max);
    assert(possible(count, count.value as int));
    if max is Some {
        assert(possible(count, max->Some_0 + 1) || !count.is_lower_bound || count.value
            > max->Some_0 + 1);
    }
    if min is Some {
        let n = if min->Some_0 >= count.value {
            min->Some_0 as int
        } else {
            count.value as int
        };
        assert(possible(count, n) || !count.is_lower_bound);
    }
}

/// Law: that a target exists is matched exactly where one was found that can be clicked, and is not
/// matched exactly where there is none. That it is absent is matched exactly where there is none,
/// and is not matched exactly where there is one. A search that was cut off decides neither, and one
/// that failed is an error.
pub proof fn law_targets_are_judged_by_their_presence(
    predicate: Predicate,
    found: Result<TargetPresence, DiagnosticFailure>,
    r: Result<ObservedPredicate, DiagnosticFailure>,
)
    requires
        predicate is TargetExists || predicate is TargetAbsent,
        judgement_agrees(predicate, Reading::Target(found), r),
    ensures
        r is Ok <==> found is Ok,
        found matches Err(failure) ==> r == Err::<ObservedPredicate, DiagnosticFailure>(failure),
        r matches Ok(seen) ==> {
            let presence = found->Ok_0;
            &&& seen.predicate == predicate && seen.value is None && seen.count is None
            &&& predicate is TargetExists ==> (seen.outcome is Matched <==> presence
                == TargetPresence::Resolved) && (seen.outcome is NotMatched <==> presence
                == TargetPresence::Absent)
            &&& predicate is TargetAbsent ==> (seen.outcome is Matched <==> presence
                == TargetPresence::Absent) && (seen.outcome is NotMatched <==> presence
                == TargetPresence::Resolved || presence == TargetPresence::PresentUnresolved)
        },
{
}

/// Law: a predicate is read where it is named. The reader of a state, a field or a marker is one
/// that is registered under exactly that name, and there is one wherever one is registered and the
/// value of the predicate is a diagnostic value: a finite number, a text of at most 1024 bytes, a truth or
/// nothing.
pub proof fn law_predicates_are_read_where_they_are_named(
    registry: PredicateRegistry,
    predicate: Predicate,
    r: Result<ReadPlan, DiagnosticFailure>,
)
    requires
        plan_agrees(registry, predicate, r),
    ensures
        predicate matches Predicate::StateEquals { state, value } ==> {
            &&& r is Ok <==> (value is Number ==> reals::double_finite(value->Number_0)) && (
            value is String ==> text::byte_len(value->String_0@) <= 1024) && exists|
                i: int,
            |
                0 <= i < registry.states@.len() && (#[trigger] registry.states@[i]).key@ == state@
            &&& r matches Ok(plan) ==> (plan matches ReadPlan::State(i) && i
                < registry.states@.len() && registry.states@[i as int].key@ == state@)
        },
        predicate matches Predicate::ResourceField { resource, field, value, .. } ==> {
            &&& r is Ok <==> (value is Number ==> reals::double_finite(value->Number_0)) && (
            value is String ==> text::byte_len(value->String_0@) <= 1024) && exists|
                i: int,
            |
                0 <= i < registry.resource_fields@.len() && (
                #[trigger] registry.resource_fields@[i]).resource@ == resource@
                    && registry.resource_fields@[i].field@ == field@
            &&& r matches Ok(plan) ==> (plan matches ReadPlan::ResourceField(i) && i
                < registry.resource_fields@.len() && registry.resource_fields@[i as int].resource@
                == resource@ && registry.resource_fields@[i as int].field@ == field@)
        },
        predicate matches Predicate::MarkerCount { marker, .. } ==> {
            &&& r is Ok <==> exists|i: int|
                0 <= i < registry.markers@.len() && (#[trigger] registry.markers@[i]).key@
                    == marker@
            &&& r matches Ok(plan) ==> (plan matches ReadPlan::Marker(i) && i
                < registry.markers@.len() && registry.markers@[i as int].key@ == marker@)
        },
        predicate is TargetExists || predicate is TargetAbsent ==> r == Ok::<
            ReadPlan,
            DiagnosticFailure,
        >(ReadPlan::Target),
{
    if predicate is ResourceField {
        if registry.has_field(predicate->resource@, predicate->field@) {
            assert(registry.has_resource(predicate->resource@));
        }
    }
}

} // verus!
