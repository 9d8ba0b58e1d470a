//! Registered diagnostics: what may be asked for by name, and the judgement of a predicate by what
//! was read.
//!
//! The application keeps the readers; this registry keeps their names, in the same order. A
//! predicate is first looked up, then the application reads, and then the reading is judged.
use crate::json::{json_text, Json, JsonNumber, JsonValue, NumberValue, ObjectBuilder};
use crate::text;
use crate::text::{chars_of, same_text, text_of};
use vstd::prelude::*;

verus! {

/// The most registrations.
pub const MAX_REGISTRATIONS: usize = 128;

/// The longest registration key, in UTF-8 bytes.
pub const MAX_KEY_BYTES: usize = 128;

/// The longest text of a diagnostic value, in UTF-8 bytes.
pub const MAX_STRING_BYTES: usize = 1024;

/// The most entities of a marker that are counted exactly.
pub const MAX_MARKER_COUNT: usize = 256;

/// A registered state.
pub struct RegisteredState {
    /// Its key.
    pub key: String,
    /// Its Rust type.
    pub rust_type: String,
}

/// A registered marker.
pub struct RegisteredMarker {
    /// Its key.
    pub key: String,
}

/// A registered field of a resource.
pub struct RegisteredResourceField {
    /// The key of the resource.
    pub resource: String,
    /// The Rust type of the resource.
    pub rust_type: String,
    /// The key of the field.
    pub field: String,
}

/// What is registered.
pub struct PredicateRegistry {
    /// States.
    pub states: Vec<RegisteredState>,
    /// Markers.
    pub markers: Vec<RegisteredMarker>,
    /// Fields of resources.
    pub resource_fields: Vec<RegisteredResourceField>,
}

/// A failure with a code, a message and details.
pub struct DiagnosticFailure {
    /// Which failure.
    pub code: &'static str,
    /// The failure in words.
    pub message: &'static str,
    /// Its details.
    pub details: Json,
}

/// The result `r` is a failure with this content.
pub open spec fn fails_as<T>(
    r: Result<T, DiagnosticFailure>,
    code: &'static str,
    message: &'static str,
    details: Map<Seq<char>, JsonValue>,
) -> bool {
    r matches Err(e) && e.code == code && e.message == message && e.details@
        == JsonValue::Object(details)
}

/// Why a reader gave no value.
pub enum ReaderError {
    /// What it reads is not there.
    Missing,
    /// What it read is not a diagnostic value.
    InvalidValue(&'static str),
}

/// A number of entities that may be a lower bound.
#[derive(Clone, Copy, Debug, PartialEq, Eq, Structural)]
pub struct BoundedCount {
    /// The number.
    pub value: u32,
    /// Whether there may be more.
    pub is_lower_bound: bool,
}

/// The last place at which two colons begin.
pub open spec fn last_colons(s: Seq<char>, i: int) -> int
    decreases i + 1,
{
    if i < 0 {
        -1
    } else if i + 1 < s.len() && s[i] == ':' && s[i + 1] == ':' {
        i
    } else {
        last_colons(s, i - 1)
    }
}

/// The part of a type name behind its last path separator.
pub open spec fn short_name(s: Seq<char>) -> Seq<char> {
    let at = last_colons(s, s.len() - 2);
    if at < 0 {
        s
    } else {
        s.skip(at + 2)
    }
}

/// The part of a type name behind its last path separator.
pub fn short_type_name(full_name: &str) -> (r: String)
    ensures
        r@ == short_name(full_name@),
{
    let v = chars_of(full_name);
    let mut at: usize = v.len();
    while at > 0
        invariant
            at <= v@.len(),
            v@ == full_name@,
            last_colons(v@, v@.len() - 2) == last_colons(v@, at - 1),
        decreases at,
    {
        let i: usize = at - 1;
        if i + 1 < v.len() && v[i] == ':' && v[i + 1] == ':' {
            let mut tail: Vec<char> = Vec::new();
            let mut k: usize = i + 2;
            while k < v.len()
                invariant
                    i + 2 <= k <= v@.len(),
                    tail@ == v@.subrange(i + 2, k as int),
                decreases v@.len() - k,
            {
                tail.push(v[k]);
                k = k + 1;
                assert(tail@ =~= v@.subrange(i + 2, k as int));
            }
            assert(tail@ =~= v@.skip(i + 2));
            return text_of(tail.as_slice());
        }
        at = at - 1;
    }
    full_name.to_owned()
}

/// A key that may be registered.
pub open spec fn key_ok(key: Seq<char>) -> bool {
    key.len() > 0 && text::byte_len(key) <= MAX_KEY_BYTES
}

impl PredicateRegistry {
    /// The number of registrations.
    pub open spec fn count(self) -> nat {
        self.states@.len() + self.markers@.len() + self.resource_fields@.len()
    }

    /// A state is registered under a key.
    pub open spec fn has_state(self, key: Seq<char>) -> bool {
        exists|i: int| 0 <= i < self.states@.len() && (#[trigger] self.states@[i]).key@ == key
    }

    /// A marker is registered under a key.
    pub open spec fn has_marker(self, key: Seq<char>) -> bool {
        exists|i: int| 0 <= i < self.markers@.len() && (#[trigger] self.markers@[i]).key@ == key
    }

    /// A field of a resource is registered.
    pub open spec fn has_resource(self, resource: Seq<char>) -> bool {
        exists|i: int|
            0 <= i < self.resource_fields@.len() && (#[trigger] self.resource_fields@[i]).resource@
                == resource
    }

    /// A field is registered for a resource.
    pub open spec fn has_field(self, resource: Seq<char>, field: Seq<char>) -> bool {
        exists|i: int|
            0 <= i < self.resource_fields@.len() && (#[trigger] self.resource_fields@[i]).resource@
                == resource && self.resource_fields@[i].field@ == field
    }

    /// Keys are well-formed and occur once, one resource key stands for one type, and there are not
    /// too many registrations.
    pub open spec fn wf(self) -> bool {
        &&& self.count() <= MAX_REGISTRATIONS
        &&& forall|i: int| 0 <= i < self.states@.len() ==> key_ok((#[trigger] self.states@[i]).key@)
        &&& forall|i: int|
            0 <= i < self.markers@.len() ==> key_ok((#[trigger] self.markers@[i]).key@)
        &&& forall|i: int|
            0 <= i < self.resource_fields@.len() ==> key_ok(
                (#[trigger] self.resource_fields@[i]).resource@,
            ) && key_ok(self.resource_fields@[i].field@)
        &&& forall|i: int, j: int|
            0 <= i < j < self.states@.len() ==> (#[trigger] self.states@[i]).key@ != (
            #[trigger] self.states@[j]).key@
        &&& forall|i: int, j: int|
            0 <= i < j < self.markers@.len() ==> (#[trigger] self.markers@[i]).key@ != (
            #[trigger] self.markers@[j]).key@
        &&& forall|i: int, j: int|
            0 <= i < j < self.resource_fields@.len() ==> {
                let a = #[trigger] self.resource_fields@[i];
                let b = #[trigger] self.resource_fields@[j];
                a.resource@ == b.resource@ ==> a.field@ != b.field@ && a.rust_type@ == b.rust_type@
            }
    }

    /// An empty registry.
    pub fn new() -> (r: PredicateRegistry)
        ensures
            r.wf(),
            r.count() == 0,
    {
        PredicateRegistry {
            states: Vec::new(),
            markers: Vec::new(),
            resource_fields: Vec::new(),
        }
    }

    fn check_capacity(&self) -> (r: Result<(), DiagnosticFailure>)
        requires
            self.wf(),
        ensures
            if self.count() >= MAX_REGISTRATIONS {
                fails_as(r, "registration_limit_reached", limit_message(), limit_details())
            } else {
                r is Ok
            },
    {
        let count: usize = self.states.len() + self.markers.len() + self.resource_fields.len();
        if count >= MAX_REGISTRATIONS {
            let details = ObjectBuilder::new().with(
                "limit",
                Json::Number(JsonNumber::Unsigned(128)),
            );
            assert(details@ =~= limit_details());
            return Err(
                DiagnosticFailure {
                    code: "registration_limit_reached",
                    message: "diagnostics registrations exceed the bounded registry capacity",
                    details: details.build(),
                },
            );
        }
        Ok(())
    }

    /// Finds a state by its key.
    pub fn find_state(&self, key: &str) -> (r: Option<usize>)
        ensures
            match r {
                Some(i) => i < self.states@.len() && self.states@[i as int].key@ == key@,
                None => !self.has_state(key@),
            },
    {
        let mut i: usize = 0;
        while i < self.states.len()
            invariant
                i <= self.states@.len(),
                forall|k: int| 0 <= k < i ==> (#[trigger] self.states@[k]).key@ != key@,
            decreases self.states@.len() - i,
        {
            if same_text(self.states[i].key.as_str(), key) {
                return Some(i);
            }
            i = i + 1;
        }
        None
    }

    /// Finds a marker by its key.
    pub fn find_marker(&self, key: &str) -> (r: Option<usize>)
        ensures
            match r {
                Some(i) => i < self.markers@.len() && self.markers@[i as int].key@ == key@,
                None => !self.has_marker(key@),
            },
    {
        let mut i: usize = 0;
        while i < self.markers.len()
            invariant
                i <= self.markers@.len(),
                forall|k: int| 0 <= k < i ==> (#[trigger] self.markers@[k]).key@ != key@,
            decreases self.markers@.len() - i,
        {
            if same_text(self.markers[i].key.as_str(), key) {
                return Some(i);
            }
            i = i + 1;
        }
        None
    }

    /// Finds the first registered field of a resource.
    pub fn first_of_resource(&self, resource: &str) -> (r: Option<usize>)
        ensures
            match r {
                Some(i) => i < self.resource_fields@.len() && self.resource_fields@[i as int].resource@
                    == resource@ && (forall|k: int|
                    0 <= k < i ==> (#[trigger] self.resource_fields@[k]).resource@ != resource@),
                None => !self.has_resource(resource@),
            },
    {
        let mut i: usize = 0;
        while i < self.resource_fields.len()
            invariant
                i <= self.resource_fields@.len(),
                forall|k: int|
                    0 <= k < i ==> (#[trigger] self.resource_fields@[k]).resource@ != resource@,
            decreases self.resource_fields@.len() - i,
        {
            if same_text(self.resource_fields[i].resource.as_str(), resource) {
                return Some(i);
            }
            i = i + 1;
        }
        None
    }

    /// Finds a field of a resource.
    pub fn place_of_field(&self, resource: &str, field: &str) -> (r: Option<usize>)
        ensures
            match r {
                Some(i) => i < self.resource_fields@.len() && self.resource_fields@[i as int].resource@
                    == resource@ && self.resource_fields@[i as int].field@ == field@,
                None => !self.has_field(resource@, field@),
            },
    {
        let mut i: usize = 0;
        while i < self.resource_fields.len()
            invariant
                i <= self.resource_fields@.len(),
                forall|k: int|
                    0 <= k < i ==> !((#[trigger] self.resource_fields@[k]).resource@ == resource@
                        && self.resource_fields@[k].field@ == field@),
            decreases self.resource_fields@.len() - i,
        {
            if same_text(self.resource_fields[i].resource.as_str(), resource) && same_text(
                self.resource_fields[i].field.as_str(),
                field,
            ) {
                return Some(i);
            }
            i = i + 1;
        }
        None
    }

    /// Registers a state under its short type name.
    pub fn register_state(&mut self, key: String, rust_type: String) -> (r: Result<
        (),
        DiagnosticFailure,
    >)
        requires
            old(self).wf(),
        ensures
            final(self).wf(),
            state_registered(*old(self), *final(self), key, rust_type, r),
    {
        if let Err(e) = check_registration_key("state", key.as_str()) {
            return Err(e);
        }
        if self.find_state(key.as_str()).is_some() {
            let details = ObjectBuilder::new().with("state", json_text(key.as_str()));
            assert(details@ =~= map!["state"@ => JsonValue::Text(key@)]);
            return Err(
                DiagnosticFailure {
                    code: "duplicate_state_registration",
                    message: "a state is already registered with this exact key",
                    details: details.build(),
                },
            );
        }
        if let Err(e) = self.check_capacity() {
            return Err(e);
        }
        let ghost before = self.states@;
        self.states.push(RegisteredState { key, rust_type });
        assert forall|i: int, j: int| 0 <= i < j < self.states@.len() implies (
        #[trigger] self.states@[i]).key@ != (#[trigger] self.states@[j]).key@ by {
            assert(self.states@[i] == before[i]);
        }
        Ok(())
    }

    /// Registers a marker under its short type name.
    pub fn register_marker(&mut self, key: String) -> (r: Result<(), DiagnosticFailure>)
        requires
            old(self).wf(),
        ensures
            final(self).wf(),
            marker_registered(*old(self), *final(self), key, r),
    {
        if let Err(e) = check_registration_key("marker", key.as_str()) {
            return Err(e);
        }
        if self.find_marker(key.as_str()).is_some() {
            let details = ObjectBuilder::new().with("marker", json_text(key.as_str()));
            assert(details@ =~= map!["marker"@ => JsonValue::Text(key@)]);
            return Err(
                DiagnosticFailure {
                    code: "duplicate_marker_registration",
                    message: "a marker is already registered with this exact key",
                    details: details.build(),
                },
            );
        }
        if let Err(e) = self.check_capacity() {
            return Err(e);
        }
        let ghost before = self.markers@;
        self.markers.push(RegisteredMarker { key });
        assert forall|i: int, j: int| 0 <= i < j < self.markers@.len() implies (
        #[trigger] self.markers@[i]).key@ != (#[trigger] self.markers@[j]).key@ by {
            assert(self.markers@[i] == before[i]);
        }
        Ok(())
    }

    /// Registers a field of a resource under the short type name of the resource.
    pub fn register_resource_field(&mut self, resource: String, rust_type: String, field: String) -> (r:
        Result<(), DiagnosticFailure>)
        requires
            old(self).wf(),
        ensures
            final(self).wf(),
            field_registered(*old(self), *final(self), resource, rust_type, field, r),
    {
        if let Some(first) = self.first_of_resource(resource.as_str()) {
            proof {
                lemma_first_type(self.resource_fields@, resource@, first as int);
            }
            if !same_text(self.resource_fields[first].rust_type.as_str(), rust_type.as_str()) {
                let details = ObjectBuilder::new().with(
                    "resource",
                    json_text(resource.as_str()),
                ).with(
                    "first_type",
                    json_text(self.resource_fields[first].rust_type.as_str()),
                ).with("second_type", json_text(rust_type.as_str()));
                proof {
                    let first_type = self.resource_fields@[first as int].rust_type@;
                    assert(details@ =~= collision_details(resource@, first_type, rust_type@));
                }
                return Err(
                    DiagnosticFailure {
                        code: "resource_short_name_collision",
                        message: "two resource types have the same short Rust type name",
                        details: details.build(),
                    },
                );
            }
            assert forall|i: int|
                0 <= i < self.resource_fields@.len() && (
                #[trigger] self.resource_fields@[i]).resource@
                    == resource@ implies self.resource_fields@[i].rust_type@ == rust_type@ by {
                let a = self.resource_fields@[first as int];
                let b = self.resource_fields@[i];
            }
        } else {
            proof {
                lemma_no_first_type(self.resource_fields@, resource@);
            }
        }
        if let Err(e) = check_registration_key("resource", resource.as_str()) {
            return Err(e);
        }
        if let Err(e) = check_registration_key("field", field.as_str()) {
            return Err(e);
        }
        if self.place_of_field(resource.as_str(), field.as_str()).is_some() {
            let details = ObjectBuilder::new().with(
                "resource",
                json_text(resource.as_str()),
            ).with("field", json_text(field.as_str()));
            proof {
                assert(details@ =~= map![
                    "resource"@ => JsonValue::Text(resource@),
                    "field"@ => JsonValue::Text(field@),
                ]);
            }
            return Err(
                DiagnosticFailure {
                    code: "duplicate_resource_field_registration",
                    message: "a resource field is already registered with these exact keys",
                    details: details.build(),
                },
            );
        }
        if let Err(e) = self.check_capacity() {
            return Err(e);
        }
        let ghost before = self.resource_fields@;
        self.resource_fields.push(RegisteredResourceField { resource, rust_type, field });
        assert forall|i: int, j: int| 0 <= i < j < self.resource_fields@.len() implies ({
            let a = #[trigger] self.resource_fields@[i];
            let b = #[trigger] self.resource_fields@[j];
            a.resource@ == b.resource@ ==> a.field@ != b.field@ && a.rust_type@ == b.rust_type@
        }) by {
            assert(self.resource_fields@[i] == before[i]);
            if j < before.len() {
                assert(self.resource_fields@[j] == before[j]);
            }
        }
        Ok(())
    }
}

/// What registering a state does.
pub open spec fn state_registered(
    a: PredicateRegistry,
    b: PredicateRegistry,
    key: String,
    rust_type: String,
    r: Result<(), DiagnosticFailure>,
) -> bool {
    &&& b.markers@ == a.markers@
    &&& b.resource_fields@ == a.resource_fields@
    &&& r is Err ==> b.states@ == a.states@
    &&& if !key_ok(key@) {
        fails_as(r, "invalid_registration_key", invalid_key_message(), invalid_key_details(
            "state"@,
            key@,
        ))
    } else if a.has_state(key@) {
        fails_as(
            r,
            "duplicate_state_registration",
            "a state is already registered with this exact key",
            map!["state"@ => JsonValue::Text(key@)],
        )
    } else if a.count() >= MAX_REGISTRATIONS {
        fails_as(r, "registration_limit_reached", limit_message(), limit_details())
    } else {
        r is Ok && b.states@ == a.states@.push(
            RegisteredState { key, rust_type },
        )
    }
}

/// What registering a marker does.
pub open spec fn marker_registered(
    a: PredicateRegistry,
    b: PredicateRegistry,
    key: String,
    r: Result<(), DiagnosticFailure>,
) -> bool {
    &&& b.states@ == a.states@
    &&& b.resource_fields@ == a.resource_fields@
    &&& r is Err ==> b.markers@ == a.markers@
    &&& if !key_ok(key@) {
        fails_as(r, "invalid_registration_key", invalid_key_message(), invalid_key_details(
            "marker"@,
            key@,
        ))
    } else if a.has_marker(key@) {
        fails_as(
            r,
            "duplicate_marker_registration",
            "a marker is already registered with this exact key",
            map!["marker"@ => JsonValue::Text(key@)],
        )
    } else if a.count() >= MAX_REGISTRATIONS {
        fails_as(r, "registration_limit_reached", limit_message(), limit_details())
    } else {
        r is Ok && b.markers@ == a.markers@.push(
            RegisteredMarker { key },
        )
    }
}

/// What registering a field of a resource does.
pub open spec fn field_registered(
    a: PredicateRegistry,
    b: PredicateRegistry,
    resource: String,
    rust_type: String,
    field: String,
    r: Result<(), DiagnosticFailure>,
) -> bool {
    &&& b.states@ == a.states@
    &&& b.markers@ == a.markers@
    &&& r is Err ==> b.resource_fields@ == a.resource_fields@
    &&& if first_type(a.resource_fields@, resource@) is Some && first_type(
        a.resource_fields@,
        resource@,
    ) != Some(rust_type@) {
        fails_as(
            r,
            "resource_short_name_collision",
            "two resource types have the same short Rust type name",
            collision_details(
                resource@,
                first_type(a.resource_fields@, resource@)->Some_0,
                rust_type@,
            ),
        )
    } else if !key_ok(resource@) {
        fails_as(r, "invalid_registration_key", invalid_key_message(), invalid_key_details(
            "resource"@,
            resource@,
        ))
    } else if !key_ok(field@) {
        fails_as(r, "invalid_registration_key", invalid_key_message(), invalid_key_details(
            "field"@,
            field@,
        ))
    } else if a.has_field(resource@, field@) {
        fails_as(
            r,
            "duplicate_resource_field_registration",
            "a resource field is already registered with these exact keys",
            map![
                "resource"@ => JsonValue::Text(resource@),
                "field"@ => JsonValue::Text(field@),
            ],
        )
    } else if a.count() >= MAX_REGISTRATIONS {
        fails_as(r, "registration_limit_reached", limit_message(), limit_details())
    } else {
        r is Ok && b.resource_fields@ == a.resource_fields@.push(
            RegisteredResourceField { resource, rust_type, field },
        )
    }
}

/// What is said where there are too many registrations.
pub open spec fn limit_message() -> &'static str {
    "diagnostics registrations exceed the bounded registry capacity"
}

/// The details of too many registrations.
pub open spec fn limit_details() -> Map<Seq<char>, JsonValue> {
    map!["limit"@ => JsonValue::Number(NumberValue::Unsigned(128))]
}

/// The type of the first registered field of a resource.
pub open spec fn first_type(fields: Seq<RegisteredResourceField>, resource: Seq<char>) -> Option<
    Seq<char>,
>
    decreases fields.len(),
{
    if fields.len() == 0 {
        None
    } else if fields[0].resource@ == resource {
        Some(fields[0].rust_type@)
    } else {
        first_type(fields.skip(1), resource)
    }
}

proof fn lemma_first_type(fields: Seq<RegisteredResourceField>, resource: Seq<char>, first: int)
    requires
        0 <= first < fields.len(),
        fields[first].resource@ == resource,
        forall|k: int| 0 <= k < first ==> (#[trigger] fields[k]).resource@ != resource,
    ensures
        first_type(fields, resource) == Some(fields[first].rust_type@),
    decreases fields.len(),
{
    if first > 0 {
        assert(fields[0].resource@ != resource);
        assert forall|k: int| 0 <= k < first - 1 implies (#[trigger] fields.skip(1)[k]).resource@
            != resource by {
            assert(fields.skip(1)[k] == fields[k + 1]);
        }
        lemma_first_type(fields.skip(1), resource, first - 1);
    }
}

proof fn lemma_no_first_type(fields: Seq<RegisteredResourceField>, resource: Seq<char>)
    requires
        forall|k: int| 0 <= k < fields.len() ==> (#[trigger] fields[k]).resource@ != resource,
    ensures
        first_type(fields, resource) is None,
    decreases fields.len(),
{
    if fields.len() > 0 {
        assert(fields[0].resource@ != resource);
        assert forall|k: int| 0 <= k < fields.len() - 1 implies (#[trigger] fields.skip(
            1,
        )[k]).resource@ != resource by {
            assert(fields.skip(1)[k] == fields[k + 1]);
        }
        lemma_no_first_type(fields.skip(1), resource);
    }
}

/// The details of a collision of two resource types.
pub open spec fn collision_details(resource: Seq<char>, first: Seq<char>, second: Seq<char>) -> Map<
    Seq<char>,
    JsonValue,
> {
    map![
        "resource"@ => JsonValue::Text(resource),
        "first_type"@ => JsonValue::Text(first),
        "second_type"@ => JsonValue::Text(second),
    ]
}

/// What is said of a key that may not be registered.
pub open spec fn invalid_key_message() -> &'static str {
    "a diagnostics registration key must be non-empty and at most 128 bytes"
}

/// The details of a key that may not be registered.
pub open spec fn invalid_key_details(kind: Seq<char>, key: Seq<char>) -> Map<Seq<char>, JsonValue> {
    map![
        "kind"@ => JsonValue::Text(kind),
        "key"@ => JsonValue::Text(key),
        "max_bytes"@ => JsonValue::Number(NumberValue::Unsigned(128)),
    ]
}

fn check_registration_key(kind: &'static str, key: &str) -> (r: Result<(), DiagnosticFailure>)
    ensures
        if key_ok(key@) {
            r is Ok
        } else {
            fails_as(
                r,
                "invalid_registration_key",
                invalid_key_message(),
                invalid_key_details(kind@, key@),
            )
        },
{
    if key.is_empty() || key.as_bytes().len() > MAX_KEY_BYTES {
        let details = ObjectBuilder::new().with("kind", json_text(kind)).with(
            "key",
            json_text(key),
        ).with("max_bytes", Json::Number(JsonNumber::Unsigned(128)));
        assert(details@ =~= invalid_key_details(kind@, key@));
        return Err(
            DiagnosticFailure {
                code: "invalid_registration_key",
                message: "a diagnostics registration key must be non-empty and at most 128 bytes",
                details: details.build(),
            },
        );
    }
    Ok(())
}

/// Law: a state is registered exactly where its key is not empty, not too long and not taken, and
/// the registry has room; it is then found under its key, with everything that was found before.
/// What is refused changes nothing.
pub proof fn law_states_are_registered_once(
    a: PredicateRegistry,
    b: PredicateRegistry,
    key: String,
    rust_type: String,
    r: Result<(), DiagnosticFailure>,
)
    requires
        a.wf(),
        state_registered(a, b, key, rust_type, r),
    ensures
        r is Ok <==> 0 < key@.len() && text::byte_len(key@) <= 128 && !(exists|i: int|
            0 <= i < a.states@.len() && (#[trigger] a.states@[i]).key@ == key@) && a.states@.len()
            + a.markers@.len() + a.resource_fields@.len() < 128,
        r is Err ==> b.states@ == a.states@,
        r is Ok ==> b.states@.len() == a.states@.len() + 1 && b.states@.last().key == key
            && b.states@.last().rust_type == rust_type && b.states@.drop_last() == a.states@,
        b.markers@ == a.markers@ && b.resource_fields@ == a.resource_fields@,
        forall|other: Seq<char>| #[trigger]
            b.has_state(other) <==> a.has_state(other) || (r is Ok && other == key@),
        forall|other: Seq<char>| #[trigger] b.has_marker(other) <==> a.has_marker(other),
{
    if r is Ok {
        assert(b.states@.drop_last() =~= a.states@);
        assert forall|other: Seq<char>| #[trigger]
            b.has_state(other) <==> a.has_state(other) || other == key@ by {
            if a.has_state(other) {
                let i = choose|i: int|
                    0 <= i < a.states@.len() && (#[trigger] a.states@[i]).key@ == other;
                assert(b.states@[i].key@ == other);
            }
            if other == key@ {
                assert(b.states@[b.states@.len() - 1].key@ == other);
            }
            if b.has_state(other) {
                let i = choose|i: int|
                    0 <= i < b.states@.len() && (#[trigger] b.states@[i]).key@ == other;
                if i < a.states@.len() {
                    assert(a.states@[i].key@ == other);
                }
            }
        }
    }
}

/// Law: a marker is registered exactly where its key is not empty, not too long and not taken, and
/// the registry has room; what is refused changes nothing.
pub proof fn law_markers_are_registered_once(
    a: PredicateRegistry,
    b: PredicateRegistry,
    key: String,
    r: Result<(), DiagnosticFailure>,
)
    requires
        a.wf(),
        marker_registered(a, b, key, r),
    ensures
        r is Ok <==> 0 < key@.len() && text::byte_len(key@) <= 128 && !(exists|i: int|
            0 <= i < a.markers@.len() && (#[trigger] a.markers@[i]).key@ == key@)
            && a.states@.len() + a.markers@.len() + a.resource_fields@.len() < 128,
        r is Err ==> b.markers@ == a.markers@,
        r is Ok ==> b.markers@.len() == a.markers@.len() + 1 && b.markers@.last().key == key
            && b.markers@.drop_last() == a.markers@,
        b.states@ == a.states@ && b.resource_fields@ == a.resource_fields@,
{
    if r is Ok {
        assert(b.markers@.drop_last() =~= a.markers@);
    }
}

/// Law: a field is registered exactly where its keys are not empty and not too long, the pair is not
/// taken, every registered field of the resource has the same type, and the registry has room; what
/// is refused changes nothing.
pub proof fn law_fields_are_registered_once(
    a: PredicateRegistry,
    b: PredicateRegistry,
    resource: String,
    rust_type: String,
    field: String,
    r: Result<(), DiagnosticFailure>,
)
    requires
        a.wf(),
        field_registered(a, b, resource, rust_type, field, r),
    ensures
        r is Ok <==> {
            &&& 0 < resource@.len() && text::byte_len(resource@) <= 128
            &&& 0 < field@.len() && text::byte_len(field@) <= 128
            &&& forall|i: int|
                0 <= i < a.resource_fields@.len() && (#[trigger] a.resource_fields@[i]).resource@
                    == resource@ ==> a.resource_fields@[i].rust_type@ == rust_type@
                    && a.resource_fields@[i].field@ != field@
            &&& a.states@.len() + a.markers@.len() + a.resource_fields@.len() < 128
        },
        r is Err ==> b.resource_fields@ == a.resource_fields@,
        r is Ok ==> b.resource_fields@.len() == a.resource_fields@.len() + 1
            && b.resource_fields@.last() == (RegisteredResourceField { resource, rust_type, field })
            && b.resource_fields@.drop_last() == a.resource_fields@,
        b.states@ == a.states@ && b.markers@ == a.markers@,
{
    if r is Ok {
        assert(b.resource_fields@.drop_last() =~= a.resource_fields@);
    }
    let fields = a.resource_fields@;
    if exists|k: int| 0 <= k < fields.len() && (#[trigger] fields[k]).resource@ == resource@ {
        let first = lemma_first_place(fields, resource@);
        lemma_first_type(fields, resource@, first);
        assert forall|i: int|
            0 <= i < fields.len() && (#[trigger] fields[i]).resource@
                == resource@ implies fields[i].rust_type@ == fields[first].rust_type@ by {
            if first < i {
                assert(a.resource_fields@[first].resource@ == a.resource_fields@[i].resource@);
            }
        }
    } else {
        lemma_no_first_type(fields, resource@);
    }
}

proof fn lemma_first_place(fields: Seq<RegisteredResourceField>, resource: Seq<char>) -> (first: int)
    requires
        exists|k: int| 0 <= k < fields.len() && (#[trigger] fields[k]).resource@ == resource,
    ensures
        0 <= first < fields.len(),
        fields[first].resource@ == resource,
        forall|k: int| 0 <= k < first ==> (#[trigger] fields[k]).resource@ != resource,
    decreases fields.len(),
{
    let before = fields.drop_last();
    let last = fields.len() - 1;
    if exists|k: int| 0 <= k < before.len() && (#[trigger] before[k]).resource@ == resource {
        let first = lemma_first_place(before, resource);
        assert forall|k: int| 0 <= k < first implies (#[trigger] fields[k]).resource@
            != resource by {
            assert(before[k] == fields[k]);
        }
        first
    } else {
        let j = choose|k: int|
            0 <= k < fields.len() && (#[trigger] fields[k]).resource@ == resource;
        if j < last {
            assert(before[j] == fields[j]);
        }
        assert forall|k: int| 0 <= k < last implies (#[trigger] fields[k]).resource@
            != resource by {
            assert(before[k] == fields[k]);
        }
        last
    }
}

/// Law: a short type name is the end of the type name behind the last two colons: it holds no two
/// colons in a row, and it is the whole name where that has none.
pub proof fn law_short_names_have_no_path(s: Seq<char>)
    ensures
        short_name(s).is_suffix_of(s),
        forall|i: int|
            0 <= i < short_name(s).len() - 1 ==> !(#[trigger] short_name(s)[i] == ':' && short_name(
                s,
            )[i + 1] == ':'),
        short_name(s).len() < s.len() ==> {
            let at = s.len() - short_name(s).len();
            at >= 2 && s[at - 2] == ':' && s[at - 1] == ':'
        },
{
    let at = last_colons(s, s.len() - 2);
    lemma_last_colons(s, s.len() - 2);
    if at >= 0 {
        assert(short_name(s) =~= s.subrange(at + 2, s.len() as int));
        assert forall|i: int| 0 <= i < short_name(s).len() - 1 implies !(#[trigger] short_name(s)[i]
            == ':' && short_name(s)[i + 1] == ':') by {
            assert(short_name(s)[i] == s[at + 2 + i]);
            assert(short_name(s)[i + 1] == s[at + 3 + i]);
        }
    } else {
        assert(s =~= s.subrange(0, s.len() as int));
    }
}

proof fn lemma_last_colons(s: Seq<char>, i: int)
    requires
        i < s.len(),
    ensures
        ({
            let at = last_colons(s, i);
            &&& -1 <= at && (i >= 0 ==> at <= i)
            &&& at >= 0 ==> at + 1 < s.len() && s[at] == ':' && s[at + 1] == ':'
            &&& forall|k: int|
                (at < k <= i && 0 <= k) ==> !(k + 1 < s.len() && #[trigger] s[k] == ':' && s[k + 1]
                    == ':')
        }),
    decreases i + 1,
{
    if i >= 0 && !(i + 1 < s.len() && s[i] == ':' && s[i + 1] == ':') {
        lemma_last_colons(s, i - 1);
    }
}

} // verus!
