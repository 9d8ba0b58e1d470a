//! Captures: admission, waiting for some frames, the numbered screenshot and its retention.
//!
//! The application looks after the directory, takes the screenshot and saves it. Everything that
//! is decided in between is decided here.
use crate::control::{AgentFeedbackState, CaptureRequest, ControlView};
use crate::control;
use crate::json::Json;
use crate::responses::{
    AgentErrorContext, AgentResponse, CaptureCompletion, CaptureInfo, WindowInfo,
};
use crate::text::{cat2, cat3, cat5, decimal_six};
use crate::text;
use std::collections::VecDeque;
use vstd::prelude::*;

verus! {

/// An answer on its way to a caller.
pub struct Reply {
    /// Which caller waits for it.
    pub ticket: u64,
    /// The answer.
    pub response: AgentResponse,
}

/// A capture that waits for its frame.
pub struct PendingCapture {
    /// What the request is known by.
    pub id: Json,
    /// Which caller waits for the answer.
    pub ticket: u64,
    /// The frames that are left.
    pub frames_left: u16,
    /// A label in the file name.
    pub label: Option<String>,
    /// The frame in which it was asked for.
    pub requested_frame: u64,
    /// The window when it was asked for.
    pub window_at_request: WindowInfo,
}

/// A screenshot that was asked of the renderer.
pub struct CaptureJob {
    /// The capture.
    pub capture: PendingCapture,
    /// Its number.
    pub sequence: u64,
    /// The name of its file.
    pub file_name: String,
}

/// What became of a screenshot.
pub enum ScreenshotOutcome {
    /// Nobody waits for it any more.
    Canceled,
    /// It was saved.
    Saved,
    /// It was not saved, for this reason.
    Failed(String),
}

/// The state of captures.
pub struct CaptureControl {
    /// Captures that wait for their frame.
    pub pending: VecDeque<PendingCapture>,
    /// Files of completed captures, the oldest first.
    pub captures: VecDeque<String>,
    /// Screenshots that were asked of the renderer.
    pub in_flight: usize,
    /// The number of the next screenshot.
    pub next_sequence: u64,
}

/// What the state of captures is.
pub struct CaptureView {
    /// Captures that wait for their frame.
    pub pending: Seq<PendingCapture>,
    /// Files of completed captures, the oldest first.
    pub captures: Seq<String>,
    /// Screenshots that were asked of the renderer.
    pub in_flight: usize,
    /// The number of the next screenshot.
    pub next_sequence: u64,
}

impl View for CaptureControl {
    type V = CaptureView;

    open spec fn view(&self) -> CaptureView {
        CaptureView {
            pending: self.pending@,
            captures: self.captures@,
            in_flight: self.in_flight,
            next_sequence: self.next_sequence,
        }
    }
}

/// The name of the file of a capture.
pub open spec fn capture_file_name(sequence: u64, label: Option<String>) -> Seq<char> {
    match label {
        Some(label) => "capture-"@ + text::padded(sequence as nat, 6) + "-"@ + label@ + ".png"@,
        None => "capture-"@ + text::padded(sequence as nat, 6) + ".png"@,
    }
}

fn file_name_of(sequence: u64, label: &Option<String>) -> (r: String)
    ensures
        r@ == capture_file_name(sequence, *label),
{
    let number = decimal_six(sequence);
    match label {
        Some(label) => cat5("capture-", number.as_str(), "-", label.as_str(), ".png"),
        None => cat3("capture-", number.as_str(), ".png"),
    }
}

/// Padding does not change the number that digits stand for.
proof fn lemma_padded(n: nat, width: nat)
    ensures
        text::all_digits(text::padded(n, width)),
        text::numeral_value(text::padded(n, width)) == n,
{
    text::lemma_numeral_of_digits(n);
    let d = text::digits(n);
    if d.len() < width {
        lemma_zeros_before((width - d.len()) as nat, d);
    }
}

proof fn lemma_zeros_before(zeros: nat, d: Seq<char>)
    requires
        text::all_digits(d),
    ensures
        text::all_digits(Seq::new(zeros, |i: int| '0') + d),
        text::numeral_value(Seq::new(zeros, |i: int| '0') + d) == text::numeral_value(d),
    decreases d.len(), zeros,
{
    let whole = Seq::new(zeros, |i: int| '0') + d;
    assert forall|i: int| 0 <= i < whole.len() implies #[trigger] text::is_digit(whole[i]) by {
        if i >= zeros {
            assert(text::is_digit(d[i - zeros]));
        }
    }
    if d.len() > 0 {
        let short = d.drop_last();
        assert(text::all_digits(short)) by {
            assert forall|i: int| 0 <= i < short.len() implies #[trigger] text::is_digit(short[i]) by {
                assert(text::is_digit(d[i]));
            }
        }
        lemma_zeros_before(zeros, short);
        assert(whole.drop_last() =~= Seq::new(zeros, |i: int| '0') + short);
        assert(whole.last() == d.last());
    } else if zeros > 0 {
        lemma_zeros_before((zeros - 1) as nat, d);
        assert(whole.drop_last() =~= Seq::new((zeros - 1) as nat, |i: int| '0') + d);
    } else {
        assert(whole =~= d);
    }
}

/// Two texts that begin with a run of digits and go on with something else can be equal only where
/// the runs are.
proof fn lemma_same_digit_run(a: Seq<char>, x: Seq<char>, b: Seq<char>, y: Seq<char>)
    requires
        text::all_digits(a),
        text::all_digits(b),
        x.len() > 0,
        y.len() > 0,
        !text::is_digit(x[0]),
        !text::is_digit(y[0]),
        a + x == b + y,
    ensures
        a == b,
{
    let whole = a + x;
    if a.len() < b.len() {
        assert(whole[a.len() as int] == x[0]);
        assert((b + y)[a.len() as int] == b[a.len() as int]);
        assert(text::is_digit(b[a.len() as int]));
    }
    if b.len() < a.len() {
        assert((b + y)[b.len() as int] == y[0]);
        assert(whole[b.len() as int] == a[b.len() as int]);
        assert(text::is_digit(a[b.len() as int]));
    }
    assert forall|i: int| 0 <= i < a.len() implies a[i] == b[i] by {
        assert(whole[i] == a[i]);
        assert((b + y)[i] == b[i]);
    }
    assert(a =~= b);
}

/// Law: captures with different numbers have different file names, whatever their labels.
pub proof fn law_capture_names_differ(
    first: u64,
    first_label: Option<String>,
    second: u64,
    second_label: Option<String>,
)
    requires
        first != second,
    ensures
        capture_file_name(first, first_label) != capture_file_name(second, second_label),
{
    reveal_strlit("capture-");
    reveal_strlit("-");
    reveal_strlit(".png");
    let head = "capture-"@;
    let a = text::padded(first as nat, 6);
    let b = text::padded(second as nat, 6);
    let x = match first_label {
        Some(label) => "-"@ + label@ + ".png"@,
        None => ".png"@,
    };
    let y = match second_label {
        Some(label) => "-"@ + label@ + ".png"@,
        None => ".png"@,
    };
    lemma_padded(first as nat, 6);
    lemma_padded(second as nat, 6);
    let p = capture_file_name(first, first_label);
    let q = capture_file_name(second, second_label);
    assert(p =~= head + (a + x));
    assert(q =~= head + (b + y));
    if p == q {
        assert(p.skip(head.len() as int) =~= a + x);
        assert(q.skip(head.len() as int) =~= b + y);
        lemma_same_digit_run(a, x, b, y);
    }
}

/// The response `r` is an error with the latest capture and a snapshot.
pub open spec fn fails_with_snapshot(
    s: ControlView,
    id: Json,
    code: &'static str,
    message: Seq<char>,
    window: Option<WindowInfo>,
    r: AgentResponse,
) -> bool {
    &&& r.is_error(id, code, message)
    &&& r.error->Some_0.context matches Some(context)
    &&& context.latest_capture == s.latest_capture
    &&& context.observed_predicate is None
    &&& context.ecs_summary is None
    &&& context.timing is None
    &&& context.diagnostic is None
    &&& context.snapshot matches Some(snapshot)
    &&& control::shows(s, window, snapshot)
}

/// Writes an error with the latest capture and a snapshot.
pub(crate) fn error_with_snapshot(
    state: &AgentFeedbackState,
    id: Json,
    code: &'static str,
    message: String,
    window: Option<WindowInfo>,
) -> (r: AgentResponse)
    requires
        state@.wf(),
    ensures
        fails_with_snapshot(state@, id, code, message@, window, r),
{
    let mut context = AgentErrorContext::empty();
    context.latest_capture = crate::responses::copy_capture(&state.latest_capture);
    context.snapshot = Some(state.snapshot(window));
    AgentResponse::contextual_error(id, code, message, context)
}

/// Which capture requests wait or are with the renderer.
pub open spec fn outstanding(c: CaptureView) -> int {
    if c.pending.len() + c.in_flight > usize::MAX {
        usize::MAX as int
    } else {
        c.pending.len() + c.in_flight
    }
}

/// The outcome of asking for a capture.
pub enum Admission {
    /// It was refused.
    Refused(Reply),
    /// It may go on once the directory is there.
    NeedsDirectory(PendingCapture),
}

/// What a capture step leads to.
pub enum CaptureStep {
    /// It waits.
    Waiting,
    /// A screenshot is asked of the renderer.
    Spawn(CaptureJob),
    /// It has failed.
    Failed(Reply),
}

/// The step `r` is a failure with this answer.
pub open spec fn step_failed(
    s: ControlView,
    capture: PendingCapture,
    code: &'static str,
    message: Seq<char>,
    r: CaptureStep,
) -> bool {
    r matches CaptureStep::Failed(reply) && reply.ticket == capture.ticket && fails_with_snapshot(
        s,
        capture.id,
        code,
        message,
        Some(capture.window_at_request),
        reply.response,
    )
}

/// What asking the renderer for a screenshot does.
pub open spec fn spawn_agrees(
    c: CaptureView,
    d: CaptureView,
    s: ControlView,
    capture: PendingCapture,
    canceled: bool,
    r: CaptureStep,
) -> bool {
    if canceled {
        d == c && step_failed(
            s,
            capture,
            "command_canceled",
            "capture request was canceled before screenshot spawn"@,
            r,
        )
    } else if c.next_sequence == u64::MAX {
        d == c && step_failed(
            s,
            capture,
            "capture_failed",
            "capture sequence is exhausted"@,
            r,
        )
    } else {
        &&& d == (CaptureView {
            in_flight: (c.in_flight + 1) as usize,
            next_sequence: (c.next_sequence + 1) as u64,
            ..c
        })
        &&& r matches CaptureStep::Spawn(job)
        &&& job.capture == capture
        &&& job.sequence == c.next_sequence
        &&& job.file_name@ == capture_file_name(c.next_sequence, capture.label)
    }
}

/// The oldest files that are too many.
pub open spec fn too_old(captures: Seq<String>, max: usize) -> Seq<String> {
    if captures.len() > max {
        captures.take(captures.len() - max)
    } else {
        Seq::empty()
    }
}

/// The latest files, as many as are kept.
pub open spec fn recent(captures: Seq<String>, max: usize) -> Seq<String> {
    if captures.len() > max {
        captures.skip(captures.len() - max)
    } else {
        captures
    }
}

/// Keeps the latest files and gives the others, the oldest first.
pub fn retain_recent_captures(captures: &mut VecDeque<String>, max_captures: usize) -> (removed: Vec<
    String,
>)
    ensures
        removed@ == too_old(old(captures)@, max_captures),
        final(captures)@ == recent(old(captures)@, max_captures),
{
    let ghost all = captures@;
    let mut removed: Vec<String> = Vec::new();
    assert(all.skip(0) =~= all);
    assert(all.take(0) =~= Seq::<String>::empty());
    while captures.len() > max_captures
        invariant
            removed@.len() <= all.len(),
            removed@.len() == 0 || all.len() >= removed@.len() + max_captures,
            captures@ == all.skip(removed@.len() as int),
            removed@ == all.take(removed@.len() as int),
        decreases captures@.len(),
    {
        if let Some(path) = captures.pop_front() {
            let ghost n = removed@.len() as int;
            removed.push(path);
            assert(captures@ =~= all.skip(n + 1));
            assert(removed@ =~= all.take(n + 1));
        }
    }
    removed
}

/// Law: retention keeps at most `max` files, drops none that is newer than one it keeps, and loses
/// none.
pub proof fn law_retention(captures: Seq<String>, max: usize)
    ensures
        recent(captures, max).len() <= max,
        captures.len() <= max ==> recent(captures, max) == captures,
        too_old(captures, max) + recent(captures, max) == captures,
{
    assert(too_old(captures, max) + recent(captures, max) =~= captures);
}

/// What a completed screenshot leads to.
pub struct Completed {
    /// The answer.
    pub reply: Reply,
    /// Files of captures that are no longer kept.
    pub removed: Vec<String>,
}

/// The capture that a saved screenshot makes.
pub open spec fn completed_info(
    job: CaptureJob,
    frame: u64,
    path: String,
    width: u32,
    height: u32,
    window: Option<WindowInfo>,
) -> CaptureInfo {
    CaptureInfo {
        sequence: job.sequence,
        path,
        label: job.capture.label,
        requested_frame: job.capture.requested_frame,
        completed_frame: frame,
        image_width: width,
        image_height: height,
        window_at_request: job.capture.window_at_request,
        window_at_completion: window,
        completion: CaptureCompletion::ScreenshotCaptured,
    }
}

/// The decision `r` on whether a capture may go on.
pub open spec fn admission_agrees(
    c: CaptureView,
    s: ControlView,
    request: CaptureRequest,
    canceled: bool,
    window: Option<WindowInfo>,
    limit: usize,
    r: Admission,
) -> bool {
    if outstanding(c) >= limit {
        r matches Admission::Refused(reply) && reply.ticket == request.ticket
            && fails_with_snapshot(
            s,
            request.id,
            "queue_full",
            "too many pending captures"@,
            None,
            reply.response,
        )
    } else if canceled {
        r matches Admission::Refused(reply) && reply.ticket == request.ticket
            && fails_with_snapshot(
            s,
            request.id,
            "command_canceled",
            "capture request was canceled before admission"@,
            None,
            reply.response,
        )
    } else {
        match window {
            None => r matches Admission::Refused(reply) && reply.ticket == request.ticket
                && fails_with_snapshot(
                s,
                request.id,
                "missing_window",
                "primary Window resource is missing"@,
                None,
                reply.response,
            ),
            Some(window) => r == Admission::NeedsDirectory(
                PendingCapture {
                    id: request.id,
                    ticket: request.ticket,
                    frames_left: request.frames,
                    label: request.label,
                    requested_frame: s.frame,
                    window_at_request: window,
                },
            ),
        }
    }
}

/// What becomes of an admitted capture once the directory was looked after.
pub open spec fn directory_agrees(
    c: CaptureView,
    d: CaptureView,
    s: ControlView,
    capture: PendingCapture,
    directory: Result<(), String>,
    canceled: bool,
    r: CaptureStep,
) -> bool {
    match directory {
        Err(error) => d == c && step_failed(
            s,
            capture,
            "capture_dir",
            "capture directory is unavailable: "@ + error@,
            r,
        ),
        Ok(()) => if capture.frames_left == 0 {
            spawn_agrees(c, d, s, capture, canceled, r)
        } else {
            d == (CaptureView {
                pending: c.pending.push(capture),
                ..c
            }) && r is Waiting
        },
    }
}

/// What a frame makes of the first waiting capture.
pub open spec fn tick_agrees(
    c: CaptureView,
    d: CaptureView,
    s: ControlView,
    canceled: bool,
    r: CaptureStep,
) -> bool {
    let front = c.pending[0];
    let rest = CaptureView { pending: c.pending.skip(1), ..c };
    let left = if front.frames_left == 0 {
        0
    } else {
        (front.frames_left - 1) as u16
    };
    let now = PendingCapture { frames_left: left, ..front };
    if canceled {
        d == rest && step_failed(
            s,
            front,
            "command_canceled",
            "pending capture request was canceled"@,
            r,
        )
    } else if left == 0 {
        spawn_agrees(rest, d, s, now, false, r)
    } else {
        d == (CaptureView { pending: rest.pending.push(now), ..rest })
            && r is Waiting
    }
}

/// What closing a screenshot does.
pub open spec fn complete_agrees(
    c: CaptureView,
    d: CaptureView,
    s: ControlView,
    t: ControlView,
    job: CaptureJob,
    outcome: ScreenshotOutcome,
    path: String,
    width: u32,
    height: u32,
    window: Option<WindowInfo>,
    max_captures: usize,
    r: Completed,
) -> bool {
    &&& d.in_flight == (if c.in_flight == 0 {
        0
    } else {
        (c.in_flight - 1) as usize
    })
    &&& d.pending == c.pending
    &&& d.next_sequence == c.next_sequence
    &&& r.reply.ticket == job.capture.ticket
    &&& match outcome {
        ScreenshotOutcome::Canceled => {
            &&& t == s
            &&& d.captures == c.captures
            &&& r.removed@.len() == 0
            &&& fails_with_snapshot(
                s,
                job.capture.id,
                "command_canceled",
                "capture request was canceled before screenshot completion"@,
                window,
                r.reply.response,
            )
        },
        ScreenshotOutcome::Failed(error) => {
            &&& t == s
            &&& d.captures == c.captures
            &&& r.removed@.len() == 0
            &&& fails_with_snapshot(
                s,
                job.capture.id,
                "capture_failed",
                "failed to encode or save capture: "@ + error@,
                window,
                r.reply.response,
            )
        },
        ScreenshotOutcome::Saved => {
            let info = completed_info(
                job,
                s.frame,
                path,
                width,
                height,
                window,
            );
            &&& t == (ControlView {
                latest_capture: Some(info),
                ..s
            })
            &&& d.captures == recent(c.captures.push(path), max_captures)
            &&& r.removed@ == too_old(c.captures.push(path), max_captures)
            &&& r.reply.response.wf()
            &&& r.reply.response.id == job.capture.id
            &&& r.reply.response.result matches Some(result)
            &&& result.status == "captured"
            &&& result.latest_capture == Some(info)
            &&& result.capture == Some(info)
            &&& result.details is None
            &&& result.snapshot matches Some(snapshot)
            &&& control::shows(s, window, snapshot)
        },
    }
}

impl CaptureControl {
    /// A state without any capture.
    pub fn new() -> (r: CaptureControl)
        ensures
            r@ == (CaptureView {
                pending: Seq::empty(),
                captures: Seq::empty(),
                in_flight: 0,
                next_sequence: 0,
            }),
    {
        CaptureControl {
            pending: VecDeque::new(),
            captures: VecDeque::new(),
            in_flight: 0,
            next_sequence: 0,
        }
    }

    /// Decides whether a capture may go on: there is room for it, somebody waits for it, and there
    /// is a window.
    pub fn admit_request(
        &self,
        state: &AgentFeedbackState,
        request: CaptureRequest,
        canceled: bool,
        window: Option<WindowInfo>,
        limit: usize,
    ) -> (r: Admission)
        requires
            state@.wf(),
        ensures
            admission_agrees(self@, state@, request, canceled, window, limit, r),
    {
        let CaptureRequest { id, ticket, frames, label } = request;
        if self.pending.len().saturating_add(self.in_flight) >= limit {
            return Admission::Refused(
                Reply {
                    ticket,
                    response: error_with_snapshot(
                        state,
                        id,
                        "queue_full",
                        "too many pending captures".to_owned(),
                        None,
                    ),
                },
            );
        }
        if canceled {
            return Admission::Refused(
                Reply {
                    ticket,
                    response: error_with_snapshot(
                        state,
                        id,
                        "command_canceled",
                        "capture request was canceled before admission".to_owned(),
                        None,
                    ),
                },
            );
        }
        match window {
            None => Admission::Refused(
                Reply {
                    ticket,
                    response: error_with_snapshot(
                        state,
                        id,
                        "missing_window",
                        "primary Window resource is missing".to_owned(),
                        None,
                    ),
                },
            ),
            Some(window) => Admission::NeedsDirectory(
                PendingCapture {
                    id,
                    ticket,
                    frames_left: frames,
                    label,
                    requested_frame: state.frame,
                    window_at_request: window,
                },
            ),
        }
    }

    /// Goes on with an admitted capture once the directory was looked after: a capture without
    /// frames to wait is taken at once, another waits.
    pub fn admit_with_directory(
        &mut self,
        state: &AgentFeedbackState,
        capture: PendingCapture,
        directory: Result<(), String>,
        canceled: bool,
    ) -> (r: CaptureStep)
        requires
            state@.wf(),
            old(self).in_flight < usize::MAX,
        ensures
            directory_agrees(
                old(self)@,
                final(self)@,
                state@,
                capture,
                directory,
                canceled,
                r,
            ),
    {
        match directory {
            Err(error) => {
                let window = Some(capture.window_at_request);
                CaptureStep::Failed(
                    Reply {
                        ticket: capture.ticket,
                        response: error_with_snapshot(
                            state,
                            capture.id,
                            "capture_dir",
                            cat2("capture directory is unavailable: ", error.as_str()),
                            window,
                        ),
                    },
                )
            },
            Ok(()) => {
                if capture.frames_left == 0 {
                    self.spawn(state, capture, canceled)
                } else {
                    self.pending.push_back(capture);
                    CaptureStep::Waiting
                }
            },
        }
    }

    /// Asks the renderer for a screenshot and numbers it.
    pub fn spawn(&mut self, state: &AgentFeedbackState, capture: PendingCapture, canceled: bool) -> (r:
        CaptureStep)
        requires
            state@.wf(),
            old(self).in_flight < usize::MAX,
        ensures
            spawn_agrees(old(self)@, final(self)@, state@, capture, canceled, r),
    {
        let window = Some(capture.window_at_request);
        if canceled {
            return CaptureStep::Failed(
                Reply {
                    ticket: capture.ticket,
                    response: error_with_snapshot(
                        state,
                        capture.id,
                        "command_canceled",
                        "capture request was canceled before screenshot spawn".to_owned(),
                        window,
                    ),
                },
            );
        }
        let sequence: u64 = self.next_sequence;
        match sequence.checked_add(1) {
            None => CaptureStep::Failed(
                Reply {
                    ticket: capture.ticket,
                    response: error_with_snapshot(
                        state,
                        capture.id,
                        "capture_failed",
                        "capture sequence is exhausted".to_owned(),
                        window,
                    ),
                },
            ),
            Some(next) => {
                self.next_sequence = next;
                self.in_flight = self.in_flight + 1;
                let file_name = file_name_of(sequence, &capture.label);
                CaptureStep::Spawn(CaptureJob { capture, sequence, file_name })
            },
        }
    }

    /// Runs the first waiting capture for one frame.
    pub fn tick_pending(&mut self, state: &AgentFeedbackState, canceled: bool) -> (r: CaptureStep)
        requires
            state@.wf(),
            old(self)@.pending.len() > 0,
            old(self).in_flight < usize::MAX,
        ensures
            tick_agrees(old(self)@, final(self)@, state@, canceled, r),
    {
        let ghost c = self@;
        let mut capture = match self.pending.pop_front() {
            Some(capture) => capture,
            None => return CaptureStep::Waiting,
        };
        assert(self@.pending =~= c.pending.skip(1));
        let window = Some(capture.window_at_request);
        if canceled {
            return CaptureStep::Failed(
                Reply {
                    ticket: capture.ticket,
                    response: error_with_snapshot(
                        state,
                        capture.id,
                        "command_canceled",
                        "pending capture request was canceled".to_owned(),
                        window,
                    ),
                },
            );
        }
        capture.frames_left = if capture.frames_left == 0 {
            0
        } else {
            capture.frames_left - 1
        };
        if capture.frames_left == 0 {
            self.spawn(state, capture, false)
        } else {
            self.pending.push_back(capture);
            CaptureStep::Waiting
        }
    }

    /// Closes a screenshot: a saved one becomes the latest capture, and the oldest ones beyond
    /// `max_captures` are given up.
    pub fn complete(
        &mut self,
        state: &mut AgentFeedbackState,
        job: CaptureJob,
        outcome: ScreenshotOutcome,
        path: String,
        width: u32,
        height: u32,
        window: Option<WindowInfo>,
        max_captures: usize,
    ) -> (r: Completed)
        requires
            old(state)@.wf(),
        ensures
            final(state)@.wf(),
            complete_agrees(
                old(self)@,
                final(self)@,
                old(state)@,
                final(state)@,
                job,
                outcome,
                path,
                width,
                height,
                window,
                max_captures,
                r,
            ),
    {
        self.in_flight = self.in_flight.saturating_sub(1);
        let CaptureJob { capture, sequence, file_name: _ } = job;
        let PendingCapture {
            id,
            ticket,
            frames_left: _,
            label,
            requested_frame,
            window_at_request,
        } = capture;
        match outcome {
            ScreenshotOutcome::Canceled => Completed {
                reply: Reply {
                    ticket,
                    response: error_with_snapshot(
                        &*state,
                        id,
                        "command_canceled",
                        "capture request was canceled before screenshot completion".to_owned(),
                        window,
                    ),
                },
                removed: Vec::new(),
            },
            ScreenshotOutcome::Failed(error) => Completed {
                reply: Reply {
                    ticket,
                    response: error_with_snapshot(
                        &*state,
                        id,
                        "capture_failed",
                        cat2("failed to encode or save capture: ", error.as_str()),
                        window,
                    ),
                },
                removed: Vec::new(),
            },
            ScreenshotOutcome::Saved => {
                let info = CaptureInfo {
                    sequence,
                    path: path.clone(),
                    label,
                    requested_frame,
                    completed_frame: state.frame,
                    image_width: width,
                    image_height: height,
                    window_at_request,
                    window_at_completion: window,
                    completion: CaptureCompletion::ScreenshotCaptured,
                };
                let snapshot = state.snapshot(window);
                state.latest_capture = Some(info.copy());
                self.captures.push_back(path);
                let removed = retain_recent_captures(&mut self.captures, max_captures);
                Completed {
                    reply: Reply {
                        ticket,
                        response: AgentResponse::captured(id, info, Some(snapshot)),
                    },
                    removed,
                }
            },
        }
    }
}

/// Law: of the files, as many are kept as may be, and they are the latest ones, in their order.
pub proof fn law_the_latest_captures_are_kept(captures: Seq<String>, max: usize)
    ensures
        recent(captures, max).len() == (if captures.len() < max {
            captures.len() as int
        } else {
            max as int
        }),
        forall|i: int|
            1 <= i <= recent(captures, max).len() ==> #[trigger] recent(captures, max)[recent(
                captures,
                max,
            ).len() - i] == captures[captures.len() - i],
        forall|i: int|
            0 <= i < too_old(captures, max).len() ==> #[trigger] too_old(captures, max)[i]
                == captures[i],
        too_old(captures, max).len() + recent(captures, max).len() == captures.len(),
{
}

/// Law: a capture may go on exactly where fewer captures are under way than are allowed, somebody
/// waits for it, and there is a window. It then has the frames and the label that were asked for,
/// and remembers the frame and the window of the request.
pub proof fn law_captures_are_admitted_as_asked(
    c: CaptureView,
    s: ControlView,
    request: CaptureRequest,
    canceled: bool,
    window: Option<WindowInfo>,
    limit: usize,
    r: Admission,
)
    requires
        admission_agrees(c, s, request, canceled, window, limit, r),
    ensures
        r is NeedsDirectory <==> c.pending.len() + c.in_flight < limit && !canceled && window
            is Some,
        r matches Admission::NeedsDirectory(capture) ==> {
            &&& capture.id == request.id && capture.ticket == request.ticket
            &&& capture.frames_left == request.frames
            &&& capture.label == request.label
            &&& capture.requested_frame == s.frame
            &&& Some(capture.window_at_request) == window
        },
        r matches Admission::Refused(reply) ==> {
            &&& reply.ticket == request.ticket && reply.response.id == request.id
            &&& !reply.response.ok
            &&& reply.response.error matches Some(error)
            &&& error.code == (if c.pending.len() + c.in_flight >= limit {
                "queue_full"
            } else if canceled {
                "command_canceled"
            } else {
                "missing_window"
            })
        },
{
}

/// Law: a screenshot is asked for under the next number, which is then used up. Its capture is the
/// one that was admitted, and its file is named after its number and its label.
pub proof fn law_screenshots_are_numbered(
    c: CaptureView,
    d: CaptureView,
    s: ControlView,
    capture: PendingCapture,
    canceled: bool,
    r: CaptureStep,
)
    requires
        c.in_flight < usize::MAX,
        spawn_agrees(c, d, s, capture, canceled, r),
    ensures
        r is Spawn <==> !canceled && c.next_sequence < u64::MAX,
        r matches CaptureStep::Spawn(job) ==> {
            &&& job.sequence == c.next_sequence
            &&& job.capture == capture
            &&& job.file_name@ == capture_file_name(job.sequence, capture.label)
            &&& d.next_sequence == c.next_sequence + 1
            &&& d.in_flight == c.in_flight + 1
            &&& d.pending == c.pending && d.captures == c.captures
        },
        !(r is Spawn) ==> d == c && (r matches CaptureStep::Failed(reply) && !reply.response.ok
            && reply.ticket == capture.ticket && reply.response.id == capture.id),
{
}

/// Law: a capture without frames to wait is taken at once, another joins the line as it is, and
/// without its directory neither happens.
pub proof fn law_captures_wait_for_their_frames(
    c: CaptureView,
    d: CaptureView,
    s: ControlView,
    capture: PendingCapture,
    directory: Result<(), String>,
    canceled: bool,
    r: CaptureStep,
)
    requires
        c.in_flight < usize::MAX,
        directory_agrees(c, d, s, capture, directory, canceled, r),
    ensures
        r is Waiting <==> directory is Ok && capture.frames_left > 0,
        r is Waiting ==> d.pending.len() == c.pending.len() + 1 && d.pending.last() == capture
            && d.pending.drop_last() == c.pending && d.in_flight == c.in_flight && d.next_sequence
            == c.next_sequence && d.captures == c.captures,
        r is Spawn <==> directory is Ok && capture.frames_left == 0 && !canceled
            && c.next_sequence < u64::MAX,
        r matches CaptureStep::Spawn(job) ==> job.capture == capture && d.in_flight == c.in_flight
            + 1,
        r matches CaptureStep::Failed(reply) ==> d == c && !reply.response.ok && reply.ticket
            == capture.ticket && reply.response.id == capture.id,
{
    if r is Waiting {
        assert(d.pending.drop_last() =~= c.pending);
    }
}

/// Law: frames count for the waiting captures in turn. The first of them is taken in the frame that
/// is its last and until then goes to the end of the line with one frame less, otherwise unchanged;
/// one that was given up is answered so.
pub proof fn law_waiting_captures_take_turns(
    c: CaptureView,
    d: CaptureView,
    s: ControlView,
    canceled: bool,
    r: CaptureStep,
)
    requires
        c.pending.len() > 0,
        c.in_flight < usize::MAX,
        tick_agrees(c, d, s, canceled, r),
    ensures
        ({
            let n = c.pending.len();
            let first = c.pending[0];
            &&& r is Waiting <==> !canceled && first.frames_left > 1
            &&& r is Spawn <==> !canceled && first.frames_left <= 1 && c.next_sequence < u64::MAX
            &&& d.pending.len() == (if r is Waiting {
                n as int
            } else {
                n - 1
            })
            &&& forall|i: int| 0 <= i < n - 1 ==> #[trigger] d.pending[i] == c.pending[i + 1]
            &&& r is Waiting ==> ({
                let kept = d.pending[n - 1];
                &&& kept.frames_left == first.frames_left - 1
                &&& kept.id == first.id && kept.ticket == first.ticket && kept.label == first.label
                &&& kept.requested_frame == first.requested_frame
                &&& kept.window_at_request == first.window_at_request
                &&& d.in_flight == c.in_flight && d.next_sequence == c.next_sequence
            })
            &&& r matches CaptureStep::Spawn(job) ==> {
                &&& job.sequence == c.next_sequence && d.next_sequence == c.next_sequence + 1
                &&& d.in_flight == c.in_flight + 1
                &&& job.capture.id == first.id && job.capture.ticket == first.ticket
                &&& job.capture.label == first.label
                &&& job.capture.requested_frame == first.requested_frame
                &&& job.capture.window_at_request == first.window_at_request
            }
            &&& r matches CaptureStep::Failed(reply) ==> !reply.response.ok && reply.ticket
                == first.ticket && reply.response.id == first.id && d.in_flight == c.in_flight
                && d.next_sequence == c.next_sequence
            &&& d.captures == c.captures
        }),
{
}

/// Law: closing a screenshot takes one from those with the renderer and answers its caller. Exactly
/// a saved one is answered as captured, becomes the latest capture and is kept; it is described by
/// its own number and label, the frame in which it was asked for and the frame in which it was
/// closed, the size of its image and the windows of both times.
pub proof fn law_saved_screenshots_become_captures(
    c: CaptureView,
    d: CaptureView,
    s: ControlView,
    t: ControlView,
    job: CaptureJob,
    outcome: ScreenshotOutcome,
    path: String,
    width: u32,
    height: u32,
    window: Option<WindowInfo>,
    max_captures: usize,
    r: Completed,
)
    requires
        complete_agrees(
            c,
            d,
            s,
            t,
            job,
            outcome,
            path,
            width,
            height,
            window,
            max_captures,
            r,
        ),
    ensures
        d.in_flight == c.in_flight - 1 || d.in_flight == c.in_flight == 0,
        d.pending == c.pending && d.next_sequence == c.next_sequence,
        r.reply.ticket == job.capture.ticket && r.reply.response.id == job.capture.id,
        r.reply.response.ok <==> outcome is Saved,
        !(outcome is Saved) ==> t == s && d.captures == c.captures && r.removed@.len() == 0 && (
        r.reply.response.error matches Some(error) && error.code == (if outcome is Canceled {
            "command_canceled"
        } else {
            "capture_failed"
        })),
        outcome is Saved ==> {
            &&& t.latest_capture matches Some(info)
            &&& info.sequence == job.sequence
            &&& info.path == path
            &&& info.label == job.capture.label
            &&& info.requested_frame == job.capture.requested_frame
            &&& info.completed_frame == s.frame
            &&& info.image_width == width && info.image_height == height
            &&& info.window_at_request == job.capture.window_at_request
            &&& info.window_at_completion == window
            &&& r.reply.response.result matches Some(result)
            &&& result.status == "captured"
            &&& result.capture == t.latest_capture && result.latest_capture == t.latest_capture
            &&& max_captures > 0 ==> d.captures.len() > 0 && d.captures.last() == path
            &&& d.captures.len() <= max_captures
            &&& r.removed@ + d.captures == c.captures.push(path)
            &&& r.removed@.len() > 0 ==> d.captures.len() == max_captures
            &&& t.keys == s.keys && t.buttons == s.buttons && t.pending == s.pending && t.frame
                == s.frame && t.cursor == s.cursor
        },
{
    law_retention(c.captures.push(path), max_captures);
}

} // verus!
