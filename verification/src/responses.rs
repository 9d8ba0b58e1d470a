//! Responses: what the application answers, and the context that comes with an answer.
use crate::commands::{DiagnosticValue, Point, Predicate};
use crate::json::Json;
use crate::span::Span;
use vstd::prelude::*;

verus! {

/// The mode of a window.
#[derive(Clone, Copy, Debug, PartialEq, Eq, Structural)]
pub enum StableWindowMode {
    /// In a frame of its own.
    Windowed,
    /// Over the whole screen, without a border.
    BorderlessFullscreen,
    /// Over the whole screen, exclusively.
    Fullscreen,
}

/// What the completion of a capture proves.
#[derive(Clone, Copy, Debug, PartialEq, Eq, Structural)]
pub enum CaptureCompletion {
    /// That the screenshot was read back and saved.
    ScreenshotCaptured,
}

/// A window. Sizes and the scale are the bits of singles.
#[derive(Clone, Copy, Debug, PartialEq, Eq, Structural)]
pub struct WindowInfo {
    /// Its logical width.
    pub logical_width: u32,
    /// Its logical height.
    pub logical_height: u32,
    /// Its width in pixels.
    pub physical_width: u32,
    /// Its height in pixels.
    pub physical_height: u32,
    /// How many pixels a logical unit has.
    pub scale_factor: u32,
    /// Where the cursor is.
    pub cursor_position: Option<Point>,
    /// Whether it has the focus.
    pub focused: bool,
    /// Whether it can be seen.
    pub visible: bool,
    /// Its mode.
    pub mode: StableWindowMode,
}

/// A capture that was completed.
#[derive(Debug)]
pub struct CaptureInfo {
    /// Its number, counted from zero.
    pub sequence: u64,
    /// Its file.
    pub path: String,
    /// Its label.
    pub label: Option<String>,
    /// The frame in which it was asked for.
    pub requested_frame: u64,
    /// The frame in which it was completed.
    pub completed_frame: u64,
    /// The width of the image.
    pub image_width: u32,
    /// The height of the image.
    pub image_height: u32,
    /// The window when it was asked for.
    pub window_at_request: WindowInfo,
    /// The window when it was completed.
    pub window_at_completion: Option<WindowInfo>,
    /// What its completion proves.
    pub completion: CaptureCompletion,
}

/// A copy of an optional text.
pub fn copy_text(text: &Option<String>) -> (r: Option<String>)
    ensures
        r == *text,
{
    match text {
        Some(s) => Some(s.clone()),
        None => None,
    }
}

impl CaptureInfo {
    /// A copy of this capture.
    pub fn copy(&self) -> (r: CaptureInfo)
        ensures
            r == *self,
    {
        CaptureInfo {
            sequence: self.sequence,
            path: self.path.clone(),
            label: copy_text(&self.label),
            requested_frame: self.requested_frame,
            completed_frame: self.completed_frame,
            image_width: self.image_width,
            image_height: self.image_height,
            window_at_request: self.window_at_request,
            window_at_completion: self.window_at_completion,
            completion: self.completion,
        }
    }
}

/// A copy of an optional capture.
pub fn copy_capture(capture: &Option<CaptureInfo>) -> (r: Option<CaptureInfo>)
    ensures
        r == *capture,
{
    match capture {
        Some(info) => Some(info.copy()),
        None => None,
    }
}

/// The application at the time of an answer.
#[derive(Debug)]
pub struct AgentSnapshot {
    /// The frame.
    pub frame: u64,
    /// The bits of the game time in seconds.
    pub game_time_secs: u64,
    /// The window.
    pub window: Option<WindowInfo>,
    /// Where the mouse was put.
    pub mouse_position: Option<Point>,
    /// The names of the held keys.
    pub pressed_keys: Vec<&'static str>,
    /// The names of the held buttons.
    pub pressed_buttons: Vec<&'static str>,
}

/// Whether a predicate holds.
#[derive(Clone, Copy, Debug, PartialEq, Eq, Structural)]
pub enum PredicateOutcome {
    /// It holds.
    Matched,
    /// It does not hold.
    NotMatched,
    /// What was seen does not decide it.
    Indeterminate,
}

/// A predicate as it was seen.
#[derive(Debug)]
pub struct ObservedPredicate {
    /// The predicate.
    pub predicate: Predicate,
    /// Whether it holds.
    pub outcome: PredicateOutcome,
    /// The value that was read.
    pub value: Option<DiagnosticValue>,
    /// The entities that were counted.
    pub count: Option<u32>,
    /// Whether there may be more entities.
    pub count_is_lower_bound: bool,
}

/// The size of the world.
#[derive(Clone, Copy, Debug, PartialEq, Eq, Structural)]
pub struct EcsSummaryContext {
    /// The number of entities.
    pub entity_count: usize,
    /// Whether there may be more.
    pub entity_count_is_lower_bound: bool,
    /// The number of components.
    pub component_count: usize,
    /// The number of archetypes.
    pub archetype_count: usize,
}

/// Details of a diagnostic error.
#[derive(Debug)]
pub struct DiagnosticErrorContext {
    /// Why.
    pub reason: Option<String>,
    /// The entity.
    pub entity: Option<String>,
    /// The resource.
    pub resource: Option<String>,
    /// The field.
    pub field: Option<String>,
    /// The bound that was exceeded.
    pub limit: Option<usize>,
    /// The entities that were candidates.
    pub candidates: Vec<String>,
    /// The names that are registered.
    pub registered: Vec<String>,
}

/// Details of a timing error. Lengths of time are written in seconds.
#[derive(Clone, Copy, Debug)]
pub struct AgentTimingContext {
    /// The state of time control.
    pub state: Option<&'static str>,
    /// Why.
    pub reason: Option<&'static str>,
    /// The time that was asked for.
    pub requested_seconds: Option<Span>,
    /// The time that was seen.
    pub observed_seconds: Option<Span>,
    /// The frames that passed.
    pub frames: Option<u16>,
    /// The time that should have passed.
    pub expected_seconds: Option<Span>,
    /// The time that did pass.
    pub actual_seconds: Option<Span>,
    /// The steps that were taken.
    pub step_count: Option<u16>,
}

/// A timing context that says nothing.
pub open spec fn no_timing() -> AgentTimingContext {
    AgentTimingContext {
        state: None,
        reason: None,
        requested_seconds: None,
        observed_seconds: None,
        frames: None,
        expected_seconds: None,
        actual_seconds: None,
        step_count: None,
    }
}

impl AgentTimingContext {
    /// A context that says nothing.
    pub fn empty() -> (r: AgentTimingContext)
        ensures
            r == no_timing(),
    {
        AgentTimingContext {
            state: None,
            reason: None,
            requested_seconds: None,
            observed_seconds: None,
            frames: None,
            expected_seconds: None,
            actual_seconds: None,
            step_count: None,
        }
    }
}

/// An advance of time that was carried out.
#[derive(Clone, Copy, Debug, PartialEq, Eq, Structural)]
pub struct AgentTimingResult {
    /// The virtual time before.
    pub start: Span,
    /// The virtual time after.
    pub end: Span,
    /// The time in between.
    pub actual: Span,
    /// The steps that were taken.
    pub step_count: u16,
}

/// A wait for virtual time that came to its end.
#[derive(Clone, Copy, Debug, PartialEq, Eq, Structural)]
pub struct WaitedSeconds {
    /// The time that was asked for.
    pub requested: Span,
    /// The time that was seen.
    pub observed: Span,
    /// The frames that passed.
    pub frames: u16,
}

/// Details of an answer.
pub enum Details {
    /// An advance of time.
    Timing(AgentTimingResult),
    /// A wait for virtual time.
    Waited(WaitedSeconds),
    /// What a diagnostic found.
    Diagnostic(Json),
    /// A predicate that was evaluated.
    Observation(ObservedPredicate),
}

/// The application at the time of an error.
pub struct AgentErrorContext {
    /// The latest capture.
    pub latest_capture: Option<CaptureInfo>,
    /// The application.
    pub snapshot: Option<AgentSnapshot>,
    /// The predicate that was seen.
    pub observed_predicate: Option<ObservedPredicate>,
    /// The size of the world.
    pub ecs_summary: Option<EcsSummaryContext>,
    /// Timing.
    pub timing: Option<AgentTimingContext>,
    /// Details of a diagnostic error.
    pub diagnostic: Option<DiagnosticErrorContext>,
}

impl AgentErrorContext {
    /// Tells whether the context says nothing.
    pub open spec fn spec_is_empty(self) -> bool {
        self.latest_capture is None && self.snapshot is None && self.observed_predicate is None
            && self.ecs_summary is None && self.timing is None && self.diagnostic is None
    }

    /// A context that says nothing.
    pub fn empty() -> (r: AgentErrorContext)
        ensures
            r.spec_is_empty(),
    {
        AgentErrorContext {
            latest_capture: None,
            snapshot: None,
            observed_predicate: None,
            ecs_summary: None,
            timing: None,
            diagnostic: None,
        }
    }

    /// Tells whether the context says nothing.
    pub fn is_empty(&self) -> (r: bool)
        ensures
            r == self.spec_is_empty(),
    {
        self.latest_capture.is_none() && self.snapshot.is_none()
            && self.observed_predicate.is_none() && self.ecs_summary.is_none()
            && self.timing.is_none() && self.diagnostic.is_none()
    }
}

/// What a successful answer holds.
pub struct AgentResult {
    /// What was done.
    pub status: &'static str,
    /// The latest capture.
    pub latest_capture: Option<CaptureInfo>,
    /// The capture that was asked for.
    pub capture: Option<CaptureInfo>,
    /// The application.
    pub snapshot: Option<AgentSnapshot>,
    /// Details.
    pub details: Option<Details>,
}

/// What an answer says of a failure.
pub struct AgentError {
    /// Which failure.
    pub code: &'static str,
    /// The failure in words.
    pub message: String,
    /// The application at that time.
    pub context: Option<AgentErrorContext>,
}

/// An answer to a request.
pub struct AgentResponse {
    /// What the request was known by.
    pub id: Json,
    /// Whether the request was carried out.
    pub ok: bool,
    /// What came of it.
    pub result: Option<AgentResult>,
    /// Why it was not carried out.
    pub error: Option<AgentError>,
}

impl AgentResponse {
    /// An answer has either a result or an error, as its flag says.
    pub open spec fn wf(self) -> bool {
        self.ok == self.result is Some && self.ok == self.error is None
    }

    /// An answer with this result.
    pub open spec fn is_result(self, id: Json, result: AgentResult) -> bool {
        self.wf() && self.id == id && self.result == Some(result)
    }

    /// An answer with this error.
    pub open spec fn is_error(self, id: Json, code: &'static str, message: Seq<char>) -> bool {
        self.wf() && self.id == id && self.error is Some && self.error->Some_0.code == code
            && self.error->Some_0.message@ == message
    }

    fn from_result(
        id: Json,
        status: &'static str,
        latest_capture: Option<CaptureInfo>,
        capture: Option<CaptureInfo>,
        snapshot: Option<AgentSnapshot>,
        details: Option<Details>,
    ) -> (r: AgentResponse)
        ensures
            r.is_result(id, AgentResult { status, latest_capture, capture, snapshot, details }),
    {
        AgentResponse {
            id,
            ok: true,
            result: Some(AgentResult { status, latest_capture, capture, snapshot, details }),
            error: None,
        }
    }

    /// An answer that something was done.
    pub fn done(
        id: Json,
        status: &'static str,
        latest_capture: Option<CaptureInfo>,
        snapshot: Option<AgentSnapshot>,
    ) -> (r: AgentResponse)
        ensures
            r.is_result(
                id,
                (AgentResult { status, latest_capture, capture: None, snapshot, details: None }),
            ),
    {
        Self::from_result(id, status, latest_capture, None, snapshot, None)
    }

    /// An answer that a capture was completed.
    pub fn captured(id: Json, capture: CaptureInfo, snapshot: Option<AgentSnapshot>) -> (r:
        AgentResponse)
        ensures
            r.is_result(
                id,
                (AgentResult {
                    status: "captured",
                    latest_capture: Some(capture),
                    capture: Some(capture),
                    snapshot,
                    details: None,
                }),
            ),
    {
        Self::from_result(id, "captured", Some(capture.copy()), Some(capture), snapshot, None)
    }

    /// An answer with details alone.
    pub fn details(id: Json, status: &'static str, details: Json) -> (r: AgentResponse)
        ensures
            r.is_result(
                id,
                (AgentResult {
                    status,
                    latest_capture: None,
                    capture: None,
                    snapshot: None,
                    details: Some(Details::Diagnostic(details)),
                }),
            ),
    {
        Self::from_result(id, status, None, None, None, Some(Details::Diagnostic(details)))
    }

    /// An answer with details and the application.
    pub fn details_with_context(
        id: Json,
        status: &'static str,
        latest_capture: Option<CaptureInfo>,
        snapshot: AgentSnapshot,
        details: Details,
    ) -> (r: AgentResponse)
        ensures
            r.is_result(
                id,
                (AgentResult {
                    status,
                    latest_capture,
                    capture: None,
                    snapshot: Some(snapshot),
                    details: Some(details),
                }),
            ),
    {
        Self::from_result(id, status, latest_capture, None, Some(snapshot), Some(details))
    }

    /// An answer that time was advanced.
    pub fn timing(
        id: Json,
        latest_capture: Option<CaptureInfo>,
        snapshot: AgentSnapshot,
        timing: AgentTimingResult,
    ) -> (r: AgentResponse)
        ensures
            r.is_result(
                id,
                (AgentResult {
                    status: "advanced_time",
                    latest_capture,
                    capture: None,
                    snapshot: Some(snapshot),
                    details: Some(Details::Timing(timing)),
                }),
            ),
    {
        Self::from_result(
            id,
            "advanced_time",
            latest_capture,
            None,
            Some(snapshot),
            Some(Details::Timing(timing)),
        )
    }

    /// An answer that says only what failed.
    pub fn failed(id: Json, code: &'static str, message: String) -> (r: AgentResponse)
        ensures
            r.is_error(id, code, message@),
            r.error->Some_0.context is None,
    {
        Self::contextual_error(id, code, message, AgentErrorContext::empty())
    }

    /// An answer that says what failed, with the application at that time. A context that says
    /// nothing is left out.
    pub fn contextual_error(
        id: Json,
        code: &'static str,
        message: String,
        context: AgentErrorContext,
    ) -> (r: AgentResponse)
        ensures
            r.is_error(id, code, message@),
            r.error->Some_0.context == (if context.spec_is_empty() {
                None
            } else {
                Some(context)
            }),
    {
        let context = if context.is_empty() {
            None
        } else {
            Some(context)
        };
        AgentResponse {
            id,
            ok: false,
            result: None,
            error: Some(AgentError { code, message, context }),
        }
    }
}

} // verus!
