//! Commands: what a request asks for on the wire, the checks on it, and the command that the
//! application carries out.
use crate::text;
use crate::reals;
use crate::names;
use crate::names::{parse_named, KEY_CODE_NAMES, MOUSE_BUTTON_NAMES, MOUSE_SCROLL_UNIT_NAMES};
use crate::reals::{is_finite_double, is_finite_single, is_positive_double};
use crate::span::Span;
use crate::text::{cat2, cat4, cat5, decimal};
use vstd::prelude::*;

verus! {

/// The longest selector, in UTF-8 bytes.
pub const MAX_SELECTOR_BYTES: usize = 128;

/// The longest text of a diagnostic scalar, in UTF-8 bytes.
pub const MAX_SCALAR_STRING_BYTES: usize = 1024;

/// The result `r` is `s`, with its message read as text.
pub open spec fn agrees<T>(r: Result<T, String>, s: Result<T, Seq<char>>) -> bool {
    match (r, s) {
        (Ok(a), Ok(b)) => a == b,
        (Err(m), Err(n)) => m@ == n,
        _ => false,
    }
}

/// A key, by its place in [`KEY_CODE_NAMES`].
#[derive(Clone, Copy, Debug, PartialEq, Eq, Structural)]
pub struct KeyCode {
    /// The place of the name of the key.
    pub place: usize,
}

/// A mouse button.
#[derive(Clone, Copy, Debug, PartialEq, Eq, Structural)]
pub enum MouseButton {
    /// The left button.
    Left,
    /// The right button.
    Right,
    /// The middle button.
    Middle,
    /// The back button.
    Back,
    /// The forward button.
    Forward,
}

/// What one unit of scrolling is.
#[derive(Clone, Copy, Debug, PartialEq, Eq, Structural)]
pub enum MouseScrollUnit {
    /// A line.
    Line,
    /// A pixel.
    Pixel,
}

/// A point or a displacement, as the bits of two singles.
#[derive(Clone, Copy, Debug, PartialEq, Eq, Structural)]
pub struct Point {
    /// The bits of the horizontal coordinate.
    pub x: u32,
    /// The bits of the vertical coordinate.
    pub y: u32,
}

/// Which kind of target is meant.
#[derive(Clone, Copy, Debug, PartialEq, Eq, Structural)]
pub enum TargetKind {
    /// Either kind.
    Any,
    /// A node of the user interface.
    Ui,
    /// An entity of the world.
    World,
}

/// How a target is found.
#[derive(Debug)]
pub enum TargetSelector {
    /// By its name.
    Name(String),
    /// By its accessibility label.
    AccessibilityLabel(String),
    /// By a registered marker.
    Marker(String),
}

/// How two diagnostic values are compared.
#[derive(Clone, Copy, Debug, PartialEq, Eq, Structural)]
pub enum ComparisonOperator {
    /// Equal.
    Eq,
    /// Not equal.
    Ne,
    /// Less.
    Lt,
    /// Less or equal.
    Lte,
    /// Greater.
    Gt,
    /// Greater or equal.
    Gte,
}

impl ComparisonOperator {
    /// Tells whether the operator needs an order.
    pub open spec fn spec_is_ordering(self) -> bool {
        self is Lt || self is Lte || self is Gt || self is Gte
    }

    /// Tells whether the operator needs an order.
    pub fn is_ordering(self) -> (r: bool)
        ensures
            r == self.spec_is_ordering(),
    {
        matches!(
            self,
            ComparisonOperator::Lt | ComparisonOperator::Lte | ComparisonOperator::Gt
                | ComparisonOperator::Gte
        )
    }
}

/// Bounded scalar value of a diagnostic.
///
/// A number is held as the bits of a double.
#[derive(Debug)]
pub enum DiagnosticValue {
    /// A null diagnostic value.
    Null,
    /// A boolean diagnostic value.
    Bool(bool),
    /// A finite numeric diagnostic value.
    Number(u64),
    /// A bounded UTF-8 diagnostic string.
    String(String),
}

impl From<()> for DiagnosticValue {
    fn from(_value: ()) -> (r: DiagnosticValue) {
        DiagnosticValue::Null
    }
}

impl vstd::std_specs::convert::FromSpecImpl<()> for DiagnosticValue {
    open spec fn obeys_from_spec() -> bool {
        true
    }

    open spec fn from_spec(_value: ()) -> DiagnosticValue {
        DiagnosticValue::Null
    }
}

impl From<bool> for DiagnosticValue {
    fn from(value: bool) -> (r: DiagnosticValue) {
        DiagnosticValue::Bool(value)
    }
}

impl vstd::std_specs::convert::FromSpecImpl<bool> for DiagnosticValue {
    open spec fn obeys_from_spec() -> bool {
        true
    }

    open spec fn from_spec(value: bool) -> DiagnosticValue {
        DiagnosticValue::Bool(value)
    }
}

impl From<String> for DiagnosticValue {
    fn from(value: String) -> (r: DiagnosticValue) {
        DiagnosticValue::String(value)
    }
}

impl vstd::std_specs::convert::FromSpecImpl<String> for DiagnosticValue {
    open spec fn obeys_from_spec() -> bool {
        true
    }

    open spec fn from_spec(value: String) -> DiagnosticValue {
        DiagnosticValue::String(value)
    }
}

/// A condition on the application.
#[derive(Debug)]
pub enum Predicate {
    /// A registered state has a value.
    StateEquals {
        /// The state.
        state: String,
        /// Its value.
        value: DiagnosticValue,
    },
    /// A registered resource field compares with a value.
    ResourceField {
        /// The resource.
        resource: String,
        /// Its field.
        field: String,
        /// The comparison.
        operator: ComparisonOperator,
        /// The value on the right.
        value: DiagnosticValue,
    },
    /// The number of entities with a registered marker lies between two bounds.
    MarkerCount {
        /// The marker.
        marker: String,
        /// The least number.
        min: Option<u32>,
        /// The greatest number.
        max: Option<u32>,
    },
    /// A target exists.
    TargetExists {
        /// How the target is found.
        target: TargetSelector,
        /// Its kind.
        kind: TargetKind,
        /// The camera that sees it.
        camera: Option<String>,
    },
    /// A target does not exist.
    TargetAbsent {
        /// How the target is found.
        target: TargetSelector,
        /// Its kind.
        kind: TargetKind,
        /// The camera that would see it.
        camera: Option<String>,
    },
}

impl TargetSelector {
    /// A copy of this selector.
    pub fn copy(&self) -> (r: TargetSelector)
        ensures
            r == *self,
    {
        match self {
            TargetSelector::Name(s) => TargetSelector::Name(s.clone()),
            TargetSelector::AccessibilityLabel(s) => TargetSelector::AccessibilityLabel(s.clone()),
            TargetSelector::Marker(s) => TargetSelector::Marker(s.clone()),
        }
    }
}

impl DiagnosticValue {
    /// A copy of this value.
    pub fn copy(&self) -> (r: DiagnosticValue)
        ensures
            r == *self,
    {
        match self {
            DiagnosticValue::Null => DiagnosticValue::Null,
            DiagnosticValue::Bool(b) => DiagnosticValue::Bool(*b),
            DiagnosticValue::Number(bits) => DiagnosticValue::Number(*bits),
            DiagnosticValue::String(s) => DiagnosticValue::String(s.clone()),
        }
    }
}

fn copy_optional(text: &Option<String>) -> (r: Option<String>)
    ensures
        r == *text,
{
    match text {
        Some(s) => Some(s.clone()),
        None => None,
    }
}

impl Predicate {
    /// A copy of this predicate.
    pub fn copy(&self) -> (r: Predicate)
        ensures
            r == *self,
    {
        match self {
            Predicate::StateEquals { state, value } => Predicate::StateEquals {
                state: state.clone(),
                value: value.copy(),
            },
            Predicate::ResourceField { resource, field, operator, value } => {
                Predicate::ResourceField {
                    resource: resource.clone(),
                    field: field.clone(),
                    operator: *operator,
                    value: value.copy(),
                }
            },
            Predicate::MarkerCount { marker, min, max } => Predicate::MarkerCount {
                marker: marker.clone(),
                min: *min,
                max: *max,
            },
            Predicate::TargetExists { target, kind, camera } => Predicate::TargetExists {
                target: target.copy(),
                kind: *kind,
                camera: copy_optional(camera),
            },
            Predicate::TargetAbsent { target, kind, camera } => Predicate::TargetAbsent {
                target: target.copy(),
                kind: *kind,
                camera: copy_optional(camera),
            },
        }
    }
}

/// A command that the application carries out.
#[derive(Debug)]
pub enum AgentCommand {
    /// Press a key.
    KeyDown(KeyCode),
    /// Release a key.
    KeyUp(KeyCode),
    /// Press a mouse button.
    MouseDown(MouseButton),
    /// Release a mouse button.
    MouseUp(MouseButton),
    /// Move the cursor.
    CursorMove {
        /// The new position.
        position: Point,
    },
    /// Move the mouse.
    MouseMotion {
        /// The displacement.
        delta: Point,
    },
    /// Scroll.
    MouseScroll {
        /// The displacement.
        delta: Point,
        /// Its unit.
        unit: MouseScrollUnit,
    },
    /// Commit a text.
    Text {
        /// The text.
        value: String,
    },
    /// Hover a file over the window.
    FileHover {
        /// The file.
        path: String,
    },
    /// Drop a file on the window.
    FileDrop {
        /// The file.
        path: String,
    },
    /// Take a hovering file away.
    FileCancel,
    /// Report the window.
    WindowInfo,
    /// Wait for some frames.
    Wait {
        /// The frames.
        frames: u16,
    },
    /// Wait for virtual time.
    WaitSeconds {
        /// The time.
        duration: Span,
        /// The frames after which the wait fails.
        max_frames: u16,
    },
    /// Advance frozen virtual time.
    AdvanceTime {
        /// The time.
        duration: Span,
        /// The time of one step.
        step: Option<Span>,
    },
    /// Take a screenshot.
    Capture {
        /// A label in its file name.
        label: Option<String>,
    },
    /// Take a screenshot after some frames.
    CaptureAfterFrames {
        /// The frames.
        frames: u16,
        /// A label in its file name.
        label: Option<String>,
    },
    /// Release every held key and button.
    ReleaseAllInputs,
    /// Leave the application.
    Shutdown,
    /// Press a mouse button somewhere and release it after some frames.
    Click {
        /// The position.
        position: Point,
        /// The button.
        button: MouseButton,
        /// The frames.
        frames: u16,
    },
    /// Move with a held button from one position to another.
    Drag {
        /// The first position.
        from: Point,
        /// The last position.
        to: Point,
        /// The button.
        button: MouseButton,
        /// The number of moves.
        steps: u16,
        /// The frames that the moves take.
        frames: u16,
    },
    /// Hold a key for some frames.
    KeyHold {
        /// The key.
        key: KeyCode,
        /// The frames.
        frames: u16,
    },
    /// Report a target.
    TargetInfo {
        /// How the target is found.
        target: TargetSelector,
        /// Its kind.
        kind: TargetKind,
        /// The camera that sees it.
        camera: Option<String>,
    },
    /// Click a target.
    ClickTarget {
        /// How the target is found.
        target: TargetSelector,
        /// Its kind.
        kind: TargetKind,
        /// The camera that sees it.
        camera: Option<String>,
        /// The button.
        button: MouseButton,
        /// The frames that the button is held.
        frames: u16,
    },
    /// Report registered resource fields.
    ResourceInfo {
        /// The resource.
        resource: Option<String>,
        /// Its field.
        field: Option<String>,
    },
    /// Evaluate a predicate once.
    EvaluatePredicate {
        /// The predicate.
        predicate: Predicate,
    },
    /// Evaluate a predicate each frame until it holds.
    WaitFor {
        /// The predicate.
        predicate: Predicate,
        /// The predicates of which none may hold meanwhile.
        abort_predicates: Vec<Predicate>,
        /// The frames after which the wait fails.
        max_frames: u16,
    },
    /// Report the number of entities, components and archetypes.
    EcsSummary,
    /// Report entities.
    ListEntities,
    /// Report cameras.
    CameraInfo,
    /// Report registered states.
    StateInfo,
    /// Report registered markers.
    MarkerInfo,
}

/// A number of seconds, as a request writes it.
#[derive(Clone, Copy, Debug, PartialEq, Eq, Structural)]
pub struct WireSeconds {
    /// The bits of the number as a double.
    pub bits: u64,
    /// The whole nanoseconds that the system makes of it, where it can hold them.
    pub nanos: Option<u128>,
}

/// A diagnostic value, as a request writes it.
pub enum WireScalar {
    /// The null value.
    Null,
    /// A truth value.
    Bool(bool),
    /// The bits of a number as a double.
    Number(u64),
    /// A text.
    Text(String),
    /// A list or an object, which is no scalar.
    Compound,
}

/// How a target is found, as a request writes it.
pub struct WireTargetSelector {
    /// By its name.
    pub name: Option<String>,
    /// By its accessibility label.
    pub accessibility_label: Option<String>,
    /// By a registered marker.
    pub marker: Option<String>,
}

/// A condition, as a request writes it.
pub enum WirePredicate {
    /// A registered state has a value.
    StateEquals {
        /// The state.
        state: String,
        /// Its value.
        value: WireScalar,
    },
    /// A registered resource field compares with a value.
    ResourceField {
        /// The resource.
        resource: String,
        /// Its field.
        field: String,
        /// The comparison.
        operator: ComparisonOperator,
        /// The value on the right.
        value: WireScalar,
    },
    /// The number of entities with a registered marker lies between two bounds.
    MarkerCount {
        /// The marker.
        marker: String,
        /// The least number.
        min: Option<u32>,
        /// The greatest number.
        max: Option<u32>,
    },
    /// A target exists.
    TargetExists {
        /// How the target is found.
        target: WireTargetSelector,
        /// Its kind.
        kind: TargetKind,
        /// The camera that sees it.
        camera: Option<String>,
    },
    /// A target does not exist.
    TargetAbsent {
        /// How the target is found.
        target: WireTargetSelector,
        /// Its kind.
        kind: TargetKind,
        /// The camera that would see it.
        camera: Option<String>,
    },
}

/// A command, as a request writes it.
#[allow(inconsistent_fields)]
pub enum WireCommand {
    /// Press a key.
    KeyDown {
        /// The name of the key.
        key: String,
    },
    /// Release a key.
    KeyUp {
        /// The name of the key.
        key: String,
    },
    /// Press a mouse button.
    MouseDown {
        /// The name of the button.
        button: String,
    },
    /// Release a mouse button.
    MouseUp {
        /// The name of the button.
        button: String,
    },
    /// Move the cursor.
    CursorMove {
        /// The bits of the horizontal coordinate.
        x: u32,
        /// The bits of the vertical coordinate.
        y: u32,
    },
    /// Move the mouse.
    MouseMotion {
        /// The bits of the horizontal displacement.
        dx: u32,
        /// The bits of the vertical displacement.
        dy: u32,
    },
    /// Scroll.
    MouseScroll {
        /// The bits of the horizontal displacement.
        x: u32,
        /// The bits of the vertical displacement.
        y: u32,
        /// The name of the unit.
        unit: Option<String>,
    },
    /// Commit a text.
    Text {
        /// The text.
        value: String,
    },
    /// Hover a file over the window.
    FileHover {
        /// The file.
        path: String,
    },
    /// Drop a file on the window.
    FileDrop {
        /// The file.
        path: String,
    },
    /// Take a hovering file away.
    FileCancel,
    /// Report the window.
    WindowInfo,
    /// Wait for some frames.
    Wait {
        /// The frames.
        frames: Option<u16>,
    },
    /// Wait for virtual time.
    WaitSeconds {
        /// The time in seconds.
        seconds: WireSeconds,
        /// The frames after which the wait fails.
        max_frames: Option<u16>,
    },
    /// Advance frozen virtual time.
    AdvanceTime {
        /// The time in seconds.
        seconds: WireSeconds,
        /// The time of one step in seconds.
        step_seconds: Option<WireSeconds>,
    },
    /// Take a screenshot.
    Capture {
        /// A label in its file name.
        label: Option<String>,
    },
    /// Take a screenshot after some frames.
    CaptureAfterFrames {
        /// The frames.
        frames: u16,
        /// A label in its file name.
        label: Option<String>,
    },
    /// Release every held key and button.
    ReleaseAllInputs,
    /// Leave the application.
    Shutdown,
    /// Press a mouse button somewhere and release it after some frames.
    Click {
        /// The bits of the horizontal coordinate.
        x: u32,
        /// The bits of the vertical coordinate.
        y: u32,
        /// The name of the button.
        button: Option<String>,
        /// The frames.
        frames: Option<u16>,
    },
    /// Move with a held button from one position to another.
    Drag {
        /// The first position.
        from: Point,
        /// The last position.
        to: Point,
        /// The name of the button.
        button: Option<String>,
        /// The number of moves.
        steps: Option<u16>,
        /// The frames that the moves take.
        frames: Option<u16>,
    },
    /// Scroll by lines.
    Scroll {
        /// The bits of the vertical displacement.
        lines: u32,
        /// The bits of the horizontal displacement.
        x: u32,
        /// The name of the unit.
        unit: Option<String>,
    },
    /// Press a key and release it after some frames.
    KeyTap {
        /// The name of the key.
        key: String,
        /// The frames.
        frames: Option<u16>,
    },
    /// Hold a key for some frames.
    KeyHold {
        /// The name of the key.
        key: String,
        /// The frames.
        frames: Option<u16>,
    },
    /// Report a target.
    TargetInfo {
        /// How the target is found.
        target: WireTargetSelector,
        /// Its kind.
        kind: TargetKind,
        /// The camera that sees it.
        camera: Option<String>,
    },
    /// Click a target.
    ClickTarget {
        /// How the target is found.
        target: WireTargetSelector,
        /// Its kind.
        kind: TargetKind,
        /// The camera that sees it.
        camera: Option<String>,
        /// The name of the button.
        button: Option<String>,
        /// The frames that the button is held.
        frames: Option<u16>,
    },
    /// Report registered resource fields.
    ResourceInfo {
        /// The resource.
        resource: Option<String>,
        /// Its field.
        field: Option<String>,
    },
    /// Evaluate a predicate once.
    EvaluatePredicate {
        /// The predicate.
        predicate: WirePredicate,
    },
    /// Evaluate a predicate each frame until it holds.
    WaitFor {
        /// The predicate.
        predicate: WirePredicate,
        /// The predicates of which none may hold meanwhile.
        abort_predicates: Vec<WirePredicate>,
        /// The frames after which the wait fails.
        max_frames: Option<u16>,
    },
    /// Report the number of entities, components and archetypes.
    EcsSummary,
    /// Report entities.
    ListEntities,
    /// Report cameras.
    CameraInfo,
    /// Report registered states.
    StateInfo,
    /// Report registered markers.
    MarkerInfo,
}

/// The bounds that commands are held to.
#[derive(Clone, Copy)]
pub struct ParseLimits {
    /// The most frames of one wait.
    pub max_wait_frames: u16,
    /// The most moves of one drag.
    pub max_action_steps: u16,
    /// The most steps of one advance of time.
    pub max_time_advance_steps: u16,
    /// The longest advance of time.
    pub max_time_advance: Span,
}

impl ParseLimits {
    /// Tells whether the bounds are lengths of time that the system can hold.
    pub open spec fn wf(self) -> bool {
        self.max_time_advance.wf()
    }
}

/// What a written diagnostic value is.
pub open spec fn scalar_of(label: Seq<char>, value: WireScalar) -> Result<
    DiagnosticValue,
    Seq<char>,
> {
    match value {
        WireScalar::Null => Ok(DiagnosticValue::Null),
        WireScalar::Bool(b) => Ok(DiagnosticValue::Bool(b)),
        WireScalar::Number(bits) => if reals::double_finite(bits) {
            Ok(DiagnosticValue::Number(bits))
        } else {
            Err(label + " must be a finite scalar number"@)
        },
        WireScalar::Text(s) => match bounded(label, s, MAX_SCALAR_STRING_BYTES) {
            Ok(s) => Ok(DiagnosticValue::String(s)),
            Err(m) => Err(m),
        },
        WireScalar::Compound => Err(
            label + " must be a null, boolean, finite number, or string scalar"@,
        ),
    }
}

/// Reads a written diagnostic value.
pub fn scalar(label: &str, value: WireScalar) -> (r: Result<DiagnosticValue, String>)
    ensures
        agrees(r, scalar_of(label@, value)),
{
    match value {
        WireScalar::Null => Ok(DiagnosticValue::Null),
        WireScalar::Bool(b) => Ok(DiagnosticValue::Bool(b)),
        WireScalar::Number(bits) => if is_finite_double(bits) {
            Ok(DiagnosticValue::Number(bits))
        } else {
            Err(cat2(label, " must be a finite scalar number"))
        },
        WireScalar::Text(s) => match bounded_string(label, s, MAX_SCALAR_STRING_BYTES) {
            Ok(s) => Ok(DiagnosticValue::String(s)),
            Err(m) => Err(m),
        },
        WireScalar::Compound => Err(
            cat2(label, " must be a null, boolean, finite number, or string scalar"),
        ),
    }
}

/// What a number of seconds is as a positive length of time.
pub open spec fn positive_span(label: Seq<char>, seconds: WireSeconds) -> Result<Span, Seq<char>> {
    if !reals::double_finite(seconds.bits) || !reals::double_less(0, seconds.bits) {
        Err(label + " must be finite and positive"@)
    } else {
        match seconds.nanos {
            None => Err(label + " is outside the supported duration range"@),
            Some(n) => if n == 0 {
                Err(label + " must not round to zero duration"@)
            } else {
                Ok(Span { nanos: n })
            },
        }
    }
}

/// Reads a number of seconds as a positive length of time.
pub fn positive_duration(label: &str, seconds: WireSeconds) -> (r: Result<Span, String>)
    ensures
        agrees(r, positive_span(label@, seconds)),
{
    if !is_finite_double(seconds.bits) || !is_positive_double(seconds.bits) {
        return Err(cat2(label, " must be finite and positive"));
    }
    match seconds.nanos {
        None => Err(cat2(label, " is outside the supported duration range")),
        Some(n) => if n == 0 {
            Err(cat2(label, " must not round to zero duration"))
        } else {
            Ok(Span { nanos: n })
        },
    }
}

/// The number of steps of length `step` that cover `duration`, the last one perhaps shorter.
pub open spec fn steps_needed(duration: Span, step: Span) -> int
    recommends
        step.nanos > 0,
{
    (duration.nanos + step.nanos - 1) / (step.nanos as int)
}

/// At least one.
pub open spec fn at_least_one(n: u16) -> u16 {
    if n == 0 {
        1
    } else {
        n
    }
}

/// The objection against an advance with too many steps.
pub open spec fn step_objection(duration: Span, step: Span, max_steps: u16) -> Option<Seq<char>> {
    if duration.nanos + step.nanos - 1 > u128::MAX {
        Some("duration step count overflowed"@)
    } else if steps_needed(duration, step) > at_least_one(max_steps) {
        Some(
            "advance requires "@ + text::digits(steps_needed(duration, step) as nat)
                + " steps, exceeding max_time_advance_steps "@ + text::digits(
                at_least_one(max_steps) as nat,
            ),
        )
    } else {
        None
    }
}

/// Checks that an advance takes no more steps than allowed.
pub fn validate_step_count(duration: Span, step: Span, max_steps: u16) -> (r: Result<(), String>)
    requires
        step.nanos > 0,
    ensures
        match r {
            Ok(()) => step_objection(duration, step, max_steps) is None,
            Err(m) => step_objection(duration, step, max_steps) == Some(m@),
        },
{
    let most: u16 = if max_steps == 0 {
        1
    } else {
        max_steps
    };
    let rounded = match duration.nanos.checked_add(step.nanos - 1) {
        Some(rounded) => rounded,
        None => return Err("duration step count overflowed".to_owned()),
    };
    let steps: u128 = rounded / step.nanos;
    assert(steps == steps_needed(duration, step));
    if steps > most as u128 {
        return Err(
            cat4(
                "advance requires ",
                decimal(steps).as_str(),
                " steps, exceeding max_time_advance_steps ",
                decimal(most as u128).as_str(),
            ),
        );
    }
    Ok(())
}

/// What two coordinates are as a point.
pub open spec fn point_of(label: Seq<char>, x: u32, y: u32) -> Result<Point, Seq<char>> {
    if reals::single_finite(x) && reals::single_finite(y) {
        Ok(Point { x, y })
    } else {
        Err(label + " must contain finite coordinates"@)
    }
}

/// Reads two coordinates as a point.
pub fn vec2(label: &str, x: u32, y: u32) -> (r: Result<Point, String>)
    ensures
        agrees(r, point_of(label@, x, y)),
{
    if is_finite_single(x) && is_finite_single(y) {
        Ok(Point { x, y })
    } else {
        Err(cat2(label, " must contain finite coordinates"))
    }
}

/// Tells whether a byte may occur in a capture label.
pub open spec fn label_byte(b: u8) -> bool {
    (65 <= b <= 90) || (97 <= b <= 122) || (48 <= b <= 57) || b == 95 || b == 45
}

/// Tells whether a text is a capture label: one to forty ASCII letters, digits, `_` or `-`.
pub open spec fn capture_label_ok(label: Seq<char>) -> bool {
    let bytes = vstd::utf8::encode_utf8(label);
    1 <= bytes.len() <= 40 && forall|i: int| 0 <= i < bytes.len() ==> label_byte(#[trigger] bytes[i])
}

/// What an optional capture label is.
pub open spec fn capture_label(label: Option<String>) -> Result<Option<String>, Seq<char>> {
    match label {
        None => Ok(None),
        Some(text) => if capture_label_ok(text@) {
            Ok(Some(text))
        } else {
            Err("capture label must match [A-Za-z0-9_-]{1,40}"@)
        },
    }
}

/// Checks an optional capture label.
pub fn validate_capture_label(label: Option<String>) -> (r: Result<Option<String>, String>)
    ensures
        agrees(r, capture_label(label)),
{
    let text = match label {
        None => return Ok(None),
        Some(text) => text,
    };
    let bytes = text.as_str().as_bytes();
    let len: usize = bytes.len();
    let mut valid = len >= 1 && len <= 40;
    let mut i: usize = 0;
    while i < len
        invariant
            i <= len,
            len == bytes@.len(),
            valid == (1 <= len <= 40 && forall|k: int| 0 <= k < i ==> label_byte(#[trigger] bytes@[k])),
        decreases len - i,
    {
        let b: u8 = bytes[i];
        if !((b >= 65 && b <= 90) || (b >= 97 && b <= 122) || (b >= 48 && b <= 57) || b == 95 || b
            == 45) {
            assert(!label_byte(bytes@[i as int]));
            valid = false;
        }
        i = i + 1;
    }
    if valid {
        Ok(Some(text))
    } else {
        Err("capture label must match [A-Za-z0-9_-]{1,40}".to_owned())
    }
}

/// What a number of frames is within its bounds.
pub open spec fn frames_within(label: Seq<char>, value: u16, max: u16) -> Result<u16, Seq<char>> {
    if value == 0 || value > max {
        Err(
            label + " must be between 1 and "@ + text::digits(max as nat) + ", got "@ + text::digits(
                value as nat,
            ),
        )
    } else {
        Ok(value)
    }
}

/// Checks a number of frames.
pub fn bounded_frames(label: &str, value: u16, max: u16) -> (r: Result<u16, String>)
    ensures
        agrees(r, frames_within(label@, value, max)),
{
    if value == 0 || value > max {
        return Err(
            cat5(
                label,
                " must be between 1 and ",
                decimal(max as u128).as_str(),
                ", got ",
                decimal(value as u128).as_str(),
            ),
        );
    }
    Ok(value)
}

/// What a text is within its bounds.
pub open spec fn bounded(label: Seq<char>, value: String, max: usize) -> Result<String, Seq<char>> {
    if value@.len() == 0 || text::byte_len(value@) > max {
        Err(label + " must contain 1..="@ + text::digits(max as nat) + " UTF-8 bytes"@)
    } else {
        Ok(value)
    }
}

/// Checks the length of a text.
pub fn bounded_string(label: &str, value: String, max: usize) -> (r: Result<String, String>)
    ensures
        agrees(r, bounded(label@, value, max)),
{
    if value.as_str().is_empty() || value.as_str().as_bytes().len() > max {
        return Err(
            cat4(label, " must contain 1..=", decimal(max as u128).as_str(), " UTF-8 bytes"),
        );
    }
    Ok(value)
}

/// What an optional text is within its bounds.
pub open spec fn bounded_option(label: Seq<char>, value: Option<String>, max: usize) -> Result<
    Option<String>,
    Seq<char>,
> {
    match value {
        None => Ok(None),
        Some(text) => match bounded(label, text, max) {
            Ok(text) => Ok(Some(text)),
            Err(m) => Err(m),
        },
    }
}

/// Checks the length of an optional text.
pub fn bounded_optional(label: &str, value: Option<String>, max: usize) -> (r: Result<
    Option<String>,
    String,
>)
    ensures
        agrees(r, bounded_option(label@, value, max)),
{
    match value {
        None => Ok(None),
        Some(text) => match bounded_string(label, text, max) {
            Ok(text) => Ok(Some(text)),
            Err(m) => Err(m),
        },
    }
}

/// The key that a name stands for.
pub open spec fn key_code(value: Seq<char>) -> Result<KeyCode, Seq<char>> {
    match names::named("key"@, value, KEY_CODE_NAMES@) {
        Ok(place) => Ok(KeyCode { place: place as usize }),
        Err(m) => Err(m),
    }
}

/// Reads the name of a key.
pub fn parse_key_code(value: &str) -> (r: Result<KeyCode, String>)
    ensures
        agrees(r, key_code(value@)),
        r matches Ok(key) ==> key.place < KEY_CODE_NAMES@.len(),
{
    let names = KEY_CODE_NAMES;
    match parse_named("key", value, names.as_slice()) {
        Ok(place) => Ok(KeyCode { place }),
        Err(m) => Err(m),
    }
}

/// The mouse button at a place in [`MOUSE_BUTTON_NAMES`].
pub open spec fn button_at(place: int) -> MouseButton {
    if place == 0 {
        MouseButton::Left
    } else if place == 1 {
        MouseButton::Right
    } else if place == 2 {
        MouseButton::Middle
    } else if place == 3 {
        MouseButton::Back
    } else {
        MouseButton::Forward
    }
}

/// The mouse button that a name stands for.
pub open spec fn mouse_button(value: Seq<char>) -> Result<MouseButton, Seq<char>> {
    match names::named("button"@, value, MOUSE_BUTTON_NAMES@) {
        Ok(place) => Ok(button_at(place)),
        Err(m) => Err(m),
    }
}

/// Reads the name of a mouse button.
pub fn parse_mouse_button(value: &str) -> (r: Result<MouseButton, String>)
    ensures
        agrees(r, mouse_button(value@)),
{
    let names = MOUSE_BUTTON_NAMES;
    match parse_named("button", value, names.as_slice()) {
        Ok(place) => Ok(
            if place == 0 {
                MouseButton::Left
            } else if place == 1 {
                MouseButton::Right
            } else if place == 2 {
                MouseButton::Middle
            } else if place == 3 {
                MouseButton::Back
            } else {
                MouseButton::Forward
            },
        ),
        Err(m) => Err(m),
    }
}

/// The name of an optional button, `Left` where there is none.
pub open spec fn button_name(value: Option<String>) -> Seq<char> {
    match value {
        Some(name) => name@,
        None => "Left"@,
    }
}

/// Reads the optional name of a mouse button.
pub fn parse_button_or_left(value: Option<String>) -> (r: Result<MouseButton, String>)
    ensures
        agrees(r, mouse_button(button_name(value))),
{
    match value {
        Some(name) => parse_mouse_button(name.as_str()),
        None => parse_mouse_button("Left"),
    }
}

/// The scroll unit that an optional name stands for.
pub open spec fn scroll_unit(value: Option<String>) -> Result<MouseScrollUnit, Seq<char>> {
    match value {
        None => Ok(MouseScrollUnit::Line),
        Some(name) => match names::named("scroll unit"@, name@, MOUSE_SCROLL_UNIT_NAMES@) {
            Ok(place) => Ok(
                if place == 0 {
                    MouseScrollUnit::Line
                } else {
                    MouseScrollUnit::Pixel
                },
            ),
            Err(m) => Err(m),
        },
    }
}

/// Reads the optional name of a scroll unit.
pub fn parse_scroll_unit(value: Option<String>) -> (r: Result<MouseScrollUnit, String>)
    ensures
        agrees(r, scroll_unit(value)),
{
    let names = MOUSE_SCROLL_UNIT_NAMES;
    match value {
        None => Ok(MouseScrollUnit::Line),
        Some(name) => match parse_named("scroll unit", name.as_str(), names.as_slice()) {
            Ok(place) => Ok(
                if place == 0 {
                    MouseScrollUnit::Line
                } else {
                    MouseScrollUnit::Pixel
                },
            ),
            Err(m) => Err(m),
        },
    }
}

/// What a written target selector is.
pub open spec fn target_of(target: WireTargetSelector) -> Result<TargetSelector, Seq<char>> {
    match (target.name, target.accessibility_label, target.marker) {
        (Some(value), None, None) => match bounded("target.name"@, value, MAX_SELECTOR_BYTES) {
            Ok(value) => Ok(TargetSelector::Name(value)),
            Err(m) => Err(m),
        },
        (None, Some(value), None) => match bounded(
            "target.accessibility_label"@,
            value,
            MAX_SELECTOR_BYTES,
        ) {
            Ok(value) => Ok(TargetSelector::AccessibilityLabel(value)),
            Err(m) => Err(m),
        },
        (None, None, Some(value)) => match bounded("target.marker"@, value, MAX_SELECTOR_BYTES) {
            Ok(value) => Ok(TargetSelector::Marker(value)),
            Err(m) => Err(m),
        },
        _ => Err("target must contain exactly one of name, accessibility_label, or marker"@),
    }
}

/// Reads a written target selector.
pub fn parse_target(target: WireTargetSelector) -> (r: Result<TargetSelector, String>)
    ensures
        agrees(r, target_of(target)),
{
    match (target.name, target.accessibility_label, target.marker) {
        (Some(value), None, None) => match bounded_string(
            "target.name",
            value,
            MAX_SELECTOR_BYTES,
        ) {
            Ok(value) => Ok(TargetSelector::Name(value)),
            Err(m) => Err(m),
        },
        (None, Some(value), None) => match bounded_string(
            "target.accessibility_label",
            value,
            MAX_SELECTOR_BYTES,
        ) {
            Ok(value) => Ok(TargetSelector::AccessibilityLabel(value)),
            Err(m) => Err(m),
        },
        (None, None, Some(value)) => match bounded_string(
            "target.marker",
            value,
            MAX_SELECTOR_BYTES,
        ) {
            Ok(value) => Ok(TargetSelector::Marker(value)),
            Err(m) => Err(m),
        },
        _ => Err(
            "target must contain exactly one of name, accessibility_label, or marker".to_owned(),
        ),
    }
}

/// What a written predicate is.
pub open spec fn predicate_of(predicate: WirePredicate) -> Result<Predicate, Seq<char>> {
    match predicate {
        WirePredicate::StateEquals { state, value } => match bounded(
            "state"@,
            state,
            MAX_SELECTOR_BYTES,
        ) {
            Err(m) => Err(m),
            Ok(state) => match scalar_of("value"@, value) {
                Err(m) => Err(m),
                Ok(value) => Ok(Predicate::StateEquals { state, value }),
            },
        },
        WirePredicate::ResourceField { resource, field, operator, value } => match scalar_of(
            "value"@,
            value,
        ) {
            Err(m) => Err(m),
            Ok(value) => if operator.spec_is_ordering() && !(value is Number) {
                Err("ordering comparisons require a numeric value"@)
            } else {
                match bounded("resource"@, resource, MAX_SELECTOR_BYTES) {
                    Err(m) => Err(m),
                    Ok(resource) => match bounded("field"@, field, MAX_SELECTOR_BYTES) {
                        Err(m) => Err(m),
                        Ok(field) => Ok(
                            Predicate::ResourceField { resource, field, operator, value },
                        ),
                    },
                }
            },
        },
        WirePredicate::MarkerCount { marker, min, max } => if min is None && max is None {
            Err("marker_count requires min, max, or both"@)
        } else if min is Some && max is Some && min->Some_0 > max->Some_0 {
            Err(
                "marker_count min must be <= max, got "@ + text::digits(min->Some_0 as nat) + " > "@
                    + text::digits(max->Some_0 as nat),
            )
        } else {
            match bounded("marker"@, marker, MAX_SELECTOR_BYTES) {
                Err(m) => Err(m),
                Ok(marker) => Ok(Predicate::MarkerCount { marker, min, max }),
            }
        },
        WirePredicate::TargetExists { target, kind, camera } => match target_of(target) {
            Err(m) => Err(m),
            Ok(target) => match bounded_option("camera"@, camera, MAX_SELECTOR_BYTES) {
                Err(m) => Err(m),
                Ok(camera) => Ok(Predicate::TargetExists { target, kind, camera }),
            },
        },
        WirePredicate::TargetAbsent { target, kind, camera } => match target_of(target) {
            Err(m) => Err(m),
            Ok(target) => match bounded_option("camera"@, camera, MAX_SELECTOR_BYTES) {
                Err(m) => Err(m),
                Ok(camera) => Ok(Predicate::TargetAbsent { target, kind, camera }),
            },
        },
    }
}

/// Reads a written predicate.
pub fn parse_predicate(predicate: WirePredicate) -> (r: Result<Predicate, String>)
    ensures
        agrees(r, predicate_of(predicate)),
{
    match predicate {
        WirePredicate::StateEquals { state, value } => {
            let state = match bounded_string("state", state, MAX_SELECTOR_BYTES) {
                Ok(state) => state,
                Err(m) => return Err(m),
            };
            match scalar("value", value) {
                Ok(value) => Ok(Predicate::StateEquals { state, value }),
                Err(m) => Err(m),
            }
        },
        WirePredicate::ResourceField { resource, field, operator, value } => {
            let value = match scalar("value", value) {
                Ok(value) => value,
                Err(m) => return Err(m),
            };
            if operator.is_ordering() && !matches!(value, DiagnosticValue::Number(_)) {
                return Err("ordering comparisons require a numeric value".to_owned());
            }
            let resource = match bounded_string("resource", resource, MAX_SELECTOR_BYTES) {
                Ok(resource) => resource,
                Err(m) => return Err(m),
            };
            match bounded_string("field", field, MAX_SELECTOR_BYTES) {
                Ok(field) => Ok(Predicate::ResourceField { resource, field, operator, value }),
                Err(m) => Err(m),
            }
        },
        WirePredicate::MarkerCount { marker, min, max } => {
            if min.is_none() && max.is_none() {
                return Err("marker_count requires min, max, or both".to_owned());
            }
            if let (Some(low), Some(high)) = (min, max) {
                if low > high {
                    return Err(
                        cat4(
                            "marker_count min must be <= max, got ",
                            decimal(low as u128).as_str(),
                            " > ",
                            decimal(high as u128).as_str(),
                        ),
                    );
                }
            }
            match bounded_string("marker", marker, MAX_SELECTOR_BYTES) {
                Ok(marker) => Ok(Predicate::MarkerCount { marker, min, max }),
                Err(m) => Err(m),
            }
        },
        WirePredicate::TargetExists { target, kind, camera } => {
            let target = match parse_target(target) {
                Ok(target) => target,
                Err(m) => return Err(m),
            };
            match bounded_optional("camera", camera, MAX_SELECTOR_BYTES) {
                Ok(camera) => Ok(Predicate::TargetExists { target, kind, camera }),
                Err(m) => Err(m),
            }
        },
        WirePredicate::TargetAbsent { target, kind, camera } => {
            let target = match parse_target(target) {
                Ok(target) => target,
                Err(m) => return Err(m),
            };
            match bounded_optional("camera", camera, MAX_SELECTOR_BYTES) {
                Ok(camera) => Ok(Predicate::TargetAbsent { target, kind, camera }),
                Err(m) => Err(m),
            }
        },
    }
}

/// What a list of written predicates is.
pub open spec fn predicates_of(list: Seq<WirePredicate>) -> Result<Seq<Predicate>, Seq<char>>
    decreases list.len(),
{
    if list.len() == 0 {
        Ok(Seq::empty())
    } else {
        match predicate_of(list[0]) {
            Err(m) => Err(m),
            Ok(first) => match predicates_of(list.skip(1)) {
                Err(m) => Err(m),
                Ok(rest) => Ok(seq![first] + rest),
            },
        }
    }
}

/// Reads a list of written predicates.
pub fn parse_predicates(list: Vec<WirePredicate>) -> (r: Result<Vec<Predicate>, String>)
    ensures
        match r {
            Ok(v) => predicates_of(list@) == Ok::<Seq<Predicate>, Seq<char>>(v@),
            Err(m) => predicates_of(list@) == Err::<Seq<Predicate>, Seq<char>>(m@),
        },
{
    let ghost whole = list@;
    let mut rest = list;
    let mut done: Vec<Predicate> = Vec::new();
    assert(forall|s: Seq<Predicate>| #[trigger] (done@ + s) =~= s);
    while rest.len() > 0
        invariant
            whole == list@,
            predicates_of(whole) == match predicates_of(rest@) {
                Err(m) => Err::<Seq<Predicate>, Seq<char>>(m),
                Ok(s) => Ok::<Seq<Predicate>, Seq<char>>(done@ + s),
            },
        decreases rest@.len(),
    {
        let ghost before = rest@;
        let ghost old_done = done@;
        let first = rest.remove(0);
        assert(rest@ =~= before.skip(1));
        match parse_predicate(first) {
            Ok(p) => {
                done.push(p);
                assert(forall|s: Seq<Predicate>| #[trigger]
                    (old_done + (seq![p] + s)) =~= done@ + s);
            },
            Err(m) => return Err(m),
        }
    }
    assert(done@ + Seq::<Predicate>::empty() =~= done@);
    Ok(done)
}

} // verus!
