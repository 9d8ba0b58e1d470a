//! Time control: waits for frames and for virtual time, and the exact advance of frozen time.
//!
//! In deterministic mode virtual time stands still unless an advance is under way. An advance is a
//! number of steps of one nominal length, the last one perhaps shorter, and in each frame exactly
//! one step is armed, consumed and accounted for.
use crate::captures::Reply;
use crate::commands::AgentCommand;
use crate::commands;
use crate::control::{AgentFeedbackState, AgentRequest, ControlView};
use crate::control;
use crate::json::Json;
use crate::responses::{
    copy_capture, AgentErrorContext, AgentResponse, AgentTimingContext, AgentTimingResult, Details,
    WaitedSeconds,
};
use crate::responses;
use crate::span::Span;
use crate::span;
use std::collections::VecDeque;
use vstd::prelude::*;

verus! {

/// Whether time can be advanced.
#[derive(Clone, Copy, Debug)]
pub enum Availability {
    /// Time runs by itself.
    Disabled,
    /// Time stands still and can be advanced.
    Available,
    /// Time should stand still, and something is in the way.
    Unavailable(&'static str),
}

/// How the application updates its time.
#[derive(Clone, Copy, Debug, PartialEq, Eq, Structural)]
pub enum Strategy {
    /// By the system clock.
    Automatic,
    /// By this much in each frame.
    Manual(Span),
    /// To a given instant.
    ManualInstant,
    /// By whole fixed steps.
    FixedTimesteps,
}

/// The strategy under which time stands still.
pub open spec fn frozen() -> Strategy {
    Strategy::Manual(Span { nanos: 0 })
}

/// Virtual time as the application has it.
#[derive(Clone, Copy, Debug)]
pub struct VirtualClock {
    /// The time since the start.
    pub elapsed: Span,
    /// Whether it is paused.
    pub paused: bool,
    /// Whether its speed is exactly one.
    pub unit_speed: bool,
    /// The most time that may pass in one frame.
    pub max_delta: Span,
}

/// A caller that waits for an answer.
pub struct Waiting {
    /// What the request is known by.
    pub id: Json,
    /// Which caller.
    pub ticket: u64,
}

/// A wait for some frames.
pub struct FrameWait {
    /// Who waits.
    pub waiting: Waiting,
    /// The frames that are left.
    pub frames_left: u16,
}

/// A wait for virtual time.
pub struct SecondsWait {
    /// Who waits.
    pub waiting: Waiting,
    /// The time that was asked for.
    pub requested: Span,
    /// The virtual time at the start.
    pub start: Span,
    /// The frames after which the wait fails.
    pub max_frames: u16,
    /// The frames that passed.
    pub frames: u16,
}

/// An advance that is under way.
pub struct PendingAdvance {
    /// Who waits.
    pub waiting: Waiting,
    /// The time that was asked for.
    pub requested: Span,
    /// The time that is left.
    pub remaining: Span,
    /// The length of a step.
    pub nominal_step: Span,
    /// The step that is armed.
    pub current_step: Span,
    /// The virtual time at the start.
    pub start: Span,
    /// The virtual time after the last step.
    pub previous: Span,
    /// The steps that were taken.
    pub step_count: u16,
    /// The frame in which it was admitted.
    pub admitted_frame: u64,
}

/// The state of time control.
pub struct TimingControl {
    /// Whether time can be advanced.
    pub availability: Availability,
    /// Requests that were not looked at yet.
    pub incoming: VecDeque<AgentRequest>,
    /// Waits for frames.
    pub frame_waits: VecDeque<FrameWait>,
    /// Waits for virtual time.
    pub seconds_waits: VecDeque<SecondsWait>,
    /// The advance that is under way.
    pub advance: Option<PendingAdvance>,
}

/// What the state of time control is.
pub struct TimingView {
    /// Whether time can be advanced.
    pub availability: Availability,
    /// Requests that were not looked at yet.
    pub incoming: Seq<AgentRequest>,
    /// Waits for frames.
    pub frame_waits: Seq<FrameWait>,
    /// Waits for virtual time.
    pub seconds_waits: Seq<SecondsWait>,
    /// The advance that is under way.
    pub advance: Option<PendingAdvance>,
}

impl View for TimingControl {
    type V = TimingView;

    open spec fn view(&self) -> TimingView {
        TimingView {
            availability: self.availability,
            incoming: self.incoming@,
            frame_waits: self.frame_waits@,
            seconds_waits: self.seconds_waits@,
            advance: self.advance,
        }
    }
}

/// The steps of an advance and the time they took: so many nominal steps are done, the rest is
/// left, and the armed step is the nominal one or the rest.
pub open spec fn advance_ok(a: PendingAdvance) -> bool {
    &&& 0 < a.nominal_step.nanos
    &&& 0 < a.remaining.nanos
    &&& a.remaining.nanos + a.step_count * a.nominal_step.nanos == a.requested.nanos
    &&& a.previous.nanos == a.start.nanos + a.step_count * a.nominal_step.nanos
    &&& a.current_step == span::span_min(a.nominal_step, a.remaining)
    &&& commands::steps_needed(a.requested, a.nominal_step) <= 65535
}

impl TimingView {
    /// An advance that is under way is accounted for, and only timing commands wait.
    pub open spec fn wf(self) -> bool {
        &&& self.advance matches Some(a) ==> advance_ok(a)
        &&& forall|i: int| 0 <= i < self.incoming.len() ==> timing_command(
            (#[trigger] self.incoming[i]).command,
        )
    }
}

/// A command for time control, with a positive length of time.
pub open spec fn timing_command(command: AgentCommand) -> bool {
    match command {
        AgentCommand::Wait { .. } => true,
        AgentCommand::WaitSeconds { .. } => true,
        AgentCommand::AdvanceTime { duration, .. } => 0 < duration.nanos,
        _ => false,
    }
}

/// The response `r` is a timing error with the latest capture and a snapshot.
pub open spec fn timing_fails(
    s: ControlView,
    id: Json,
    code: &'static str,
    message: Seq<char>,
    timing: AgentTimingContext,
    r: AgentResponse,
) -> bool {
    &&& r.is_error(id, code, message)
    &&& r.error->Some_0.context matches Some(context)
    &&& context.latest_capture == s.latest_capture
    &&& context.observed_predicate is None
    &&& context.ecs_summary is None
    &&& context.diagnostic is None
    &&& context.timing == Some(timing)
    &&& context.snapshot matches Some(snapshot)
    &&& control::shows(s, None, snapshot)
}

fn timing_error(
    state: &AgentFeedbackState,
    waiting: Waiting,
    code: &'static str,
    message: &'static str,
    timing: AgentTimingContext,
) -> (r: Reply)
    requires
        state@.wf(),
    ensures
        r.ticket == waiting.ticket,
        timing_fails(state@, waiting.id, code, message@, timing, r.response),
{
    let mut context = AgentErrorContext::empty();
    context.latest_capture = copy_capture(&state.latest_capture);
    context.snapshot = Some(state.snapshot(None));
    context.timing = Some(timing);
    Reply {
        ticket: waiting.ticket,
        response: AgentResponse::contextual_error(waiting.id, code, message.to_owned(), context),
    }
}

/// What is said where time control cannot work.
pub open spec fn unavailable_message() -> Seq<char> {
    "add AgentFeedbackPlugin after TimePlugin and preserve Automatic time configuration"@
}

/// The reply `r` says why time control cannot work.
pub open spec fn says_unavailable(
    s: ControlView,
    waiting: Waiting,
    reason: &'static str,
    r: Reply,
) -> bool {
    r.ticket == waiting.ticket && timing_fails(
        s,
        waiting.id,
        "time_control_unavailable",
        unavailable_message(),
        (AgentTimingContext { state: Some("unavailable"), reason: Some(reason), ..responses::no_timing() }),
        r.response,
    )
}

fn unavailable(state: &AgentFeedbackState, waiting: Waiting, reason: &'static str) -> (r: Reply)
    requires
        state@.wf(),
    ensures
        says_unavailable(state@, waiting, reason, r),
{
    let mut timing = AgentTimingContext::empty();
    timing.state = Some("unavailable");
    timing.reason = Some(reason);
    timing_error(
        state,
        waiting,
        "time_control_unavailable",
        "add AgentFeedbackPlugin after TimePlugin and preserve Automatic time configuration",
        timing,
    )
}

/// What is said of an advance that cannot run.
pub open spec fn invalid_advance_message() -> Seq<char> {
    "advance_time cannot run with the current virtual-time configuration"@
}

/// The reply `r` says why an advance cannot run.
pub open spec fn says_invalid(
    s: ControlView,
    waiting: Waiting,
    reason: &'static str,
    requested: Span,
    r: Reply,
) -> bool {
    r.ticket == waiting.ticket && timing_fails(
        s,
        waiting.id,
        "invalid_time_advance",
        invalid_advance_message(),
        (AgentTimingContext {
            reason: Some(reason),
            requested_seconds: Some(requested),
            ..responses::no_timing()
        }),
        r.response,
    )
}

fn invalid_advance(
    state: &AgentFeedbackState,
    waiting: Waiting,
    reason: &'static str,
    requested: Span,
) -> (r: Reply)
    requires
        state@.wf(),
    ensures
        says_invalid(state@, waiting, reason, requested, r),
{
    let mut timing = AgentTimingContext::empty();
    timing.reason = Some(reason);
    timing.requested_seconds = Some(requested);
    timing_error(
        state,
        waiting,
        "invalid_time_advance",
        "advance_time cannot run with the current virtual-time configuration",
        timing,
    )
}

/// The number of steps of an advance, where it fits in sixteen bits.
pub fn checked_step_count(duration: Span, step: Span) -> (r: Option<u16>)
    ensures
        match r {
            Some(n) => step.nanos > 0 && n == commands::steps_needed(duration, step),
            None => step.nanos == 0 || commands::steps_needed(duration, step) > 65535,
        },
{
    if step.nanos == 0 {
        return None;
    }
    let whole: u128 = duration.nanos / step.nanos;
    let exact = duration.nanos % step.nanos == 0;
    proof {
        lemma_steps(duration.nanos as int, step.nanos as int);
    }
    if whole > 65535 {
        return None;
    }
    let count: u128 = if exact {
        whole
    } else {
        whole + 1
    };
    if count > 65535 {
        None
    } else {
        Some(count as u16)
    }
}

/// A quotient rounded up.
proof fn lemma_steps(d: int, s: int)
    requires
        d >= 0,
        s > 0,
    ensures
        (d + s - 1) / s == (if d % s == 0 {
            d / s
        } else {
            d / s + 1
        }),
        d / s >= 0,
{
    let q = d / s;
    let m = d % s;
    vstd::arithmetic::div_mod::lemma_fundamental_div_mod(d, s);
    assert(q >= 0) by (nonlinear_arith)
        requires
            d == s * q + m,
            0 <= m < s,
            d >= 0,
            s > 0,
    ;
    if m == 0 {
        vstd::arithmetic::div_mod::lemma_fundamental_div_mod_converse(d + s - 1, s, q, s - 1);
    } else {
        assert(s * (q + 1) == s * q + s) by (nonlinear_arith);
        vstd::arithmetic::div_mod::lemma_fundamental_div_mod_converse(d + s - 1, s, q + 1, m - 1);
    }
}

/// An advance with `done` whole steps behind it and something left needs more than `done` steps,
/// and exactly one more where the rest is no longer than a step.
proof fn lemma_steps_left(requested: int, step: int, done: int, remaining: int)
    requires
        step > 0,
        remaining > 0,
        done >= 0,
        remaining + done * step == requested,
    ensures
        (requested + step - 1) / step > done,
        remaining <= step ==> (requested + step - 1) / step == done + 1,
{
    let q = (requested + step - 1) / step;
    vstd::arithmetic::div_mod::lemma_fundamental_div_mod(requested + step - 1, step);
    let m = (requested + step - 1) % step;
    assert(q > done) by (nonlinear_arith)
        requires
            requested + step - 1 == step * q + m,
            0 <= m < step,
            remaining + done * step == requested,
            remaining > 0,
            step > 0,
    ;
    if remaining <= step {
        assert(q < done + 2) by (nonlinear_arith)
            requires
                requested + step - 1 == step * q + m,
                0 <= m < step,
                remaining + done * step == requested,
                remaining <= step,
                step > 0,
        ;
    }
}

/// What a frame makes of a wait for frames.
pub enum FrameTick {
    /// Nobody waits any more.
    Dropped,
    /// It is over.
    Over,
    /// It goes on.
    Kept(FrameWait),
}

/// What a frame makes of a wait for frames.
pub open spec fn frame_tick(wait: FrameWait, canceled: bool) -> FrameTick {
    if canceled {
        FrameTick::Dropped
    } else if wait.frames_left <= 1 {
        FrameTick::Over
    } else {
        FrameTick::Kept(FrameWait { frames_left: (wait.frames_left - 1) as u16, ..wait })
    }
}

/// What a frame makes of a wait for virtual time.
pub enum SecondsTick {
    /// Nobody waits any more.
    Dropped,
    /// Virtual time is gone.
    ClockGone,
    /// The time has passed.
    Over(Span),
    /// The frames are used up.
    TimedOut(Span),
    /// It goes on.
    Kept,
}

/// The wait with one more frame counted.
pub open spec fn one_frame_more(wait: SecondsWait) -> SecondsWait {
    SecondsWait {
        frames: if wait.frames == u16::MAX {
            u16::MAX
        } else {
            (wait.frames + 1) as u16
        },
        ..wait
    }
}

/// What a frame makes of a wait for virtual time, where the virtual time is `elapsed`.
pub open spec fn seconds_tick(
    wait: SecondsWait,
    elapsed: Option<Span>,
    canceled: bool,
) -> SecondsTick {
    let counted = one_frame_more(wait);
    if canceled {
        SecondsTick::Dropped
    } else {
        match elapsed {
            None => SecondsTick::ClockGone,
            Some(now) => {
                let observed = span::span_beyond(now, wait.start);
                if observed.nanos >= wait.requested.nanos {
                    SecondsTick::Over(observed)
                } else if counted.frames == counted.max_frames {
                    SecondsTick::TimedOut(observed)
                } else {
                    SecondsTick::Kept
                }
            },
        }
    }
}

/// What became of the first wait for virtual time.
pub open spec fn seconds_reply(
    s: ControlView,
    wait: SecondsWait,
    tick: SecondsTick,
    r: Option<Reply>,
) -> bool {
    let frames = one_frame_more(wait).frames;
    match tick {
        SecondsTick::Dropped => r is None,
        SecondsTick::Kept => r is None,
        SecondsTick::ClockGone => r matches Some(reply) && reply.ticket == wait.waiting.ticket
            && timing_fails(
            s,
            wait.waiting.id,
            "time_control_unavailable",
            "Time<Virtual> disappeared while wait_seconds was pending"@,
            (AgentTimingContext {
                state: Some("unavailable"),
                reason: Some("virtual_time_resource_missing"),
                requested_seconds: Some(wait.requested),
                frames: Some(frames),
                ..responses::no_timing()
            }),
            reply.response,
        ),
        SecondsTick::Over(observed) => r matches Some(reply) && reply.ticket == wait.waiting.ticket
            && waited(
            s,
            wait.waiting.id,
            Some(
                Details::Waited(
                    WaitedSeconds { requested: wait.requested, observed, frames },
                ),
            ),
            reply.response,
        ),
        SecondsTick::TimedOut(observed) => r matches Some(reply) && reply.ticket
            == wait.waiting.ticket && timing_fails(
            s,
            wait.waiting.id,
            "wait_seconds_timeout",
            "virtual time did not advance by the requested duration within max_frames"@,
            (AgentTimingContext {
                requested_seconds: Some(wait.requested),
                observed_seconds: Some(observed),
                frames: Some(frames),
                ..responses::no_timing()
            }),
            reply.response,
        ),
    }
}

/// The response `r` says that a wait is over.
pub open spec fn waited(s: ControlView, id: Json, details: Option<Details>, r: AgentResponse) -> bool {
    crate::actions::reports(s, id, "waited", None, details, r)
}

/// Why an advance does not start.
pub enum AdvanceRefusal {
    /// Time runs by itself.
    Disabled,
    /// Something is in the way.
    Unavailable(&'static str),
    /// Another advance is under way.
    Busy,
    /// It cannot run as time is configured.
    Invalid(&'static str),
    /// The update strategy was changed by somebody else.
    Conflict,
}

/// The length of a step: the one that was asked for, or the fixed one.
pub open spec fn nominal_step(supplied: Option<Span>, fixed: Span) -> Span {
    match supplied {
        Some(step) => step,
        None => fixed,
    }
}

/// Why an advance does not start, if it does not.
pub open spec fn advance_refusal(
    t: TimingView,
    requested: Span,
    supplied: Option<Span>,
    clock: Option<VirtualClock>,
    fixed: Option<Span>,
    strategy: Option<Strategy>,
    max_steps: u16,
    max_advance: Span,
) -> Option<AdvanceRefusal> {
    match t.availability {
        Availability::Disabled => Some(AdvanceRefusal::Disabled),
        Availability::Unavailable(reason) => Some(AdvanceRefusal::Unavailable(reason)),
        Availability::Available => if t.advance is Some {
            Some(AdvanceRefusal::Busy)
        } else if clock is None || fixed is None || strategy is None {
            Some(AdvanceRefusal::Unavailable("time_resource_disappeared"))
        } else {
            let time = clock->Some_0;
            let nominal = nominal_step(supplied, fixed->Some_0);
            if time.paused {
                Some(AdvanceRefusal::Invalid("virtual_time_paused"))
            } else if !time.unit_speed {
                Some(AdvanceRefusal::Invalid("virtual_time_speed_not_one"))
            } else if nominal.nanos == 0 {
                Some(AdvanceRefusal::Invalid("zero_nominal_step"))
            } else if nominal.nanos > time.max_delta.nanos {
                Some(AdvanceRefusal::Invalid("nominal_step_exceeds_max_delta"))
            } else if commands::steps_needed(requested, nominal) > 65535 {
                Some(AdvanceRefusal::Invalid("step_count_overflow"))
            } else if commands::steps_needed(requested, nominal) > crate::commands::at_least_one(max_steps) {
                Some(AdvanceRefusal::Invalid("step_count_exceeds_limit"))
            } else if requested.nanos > max_advance.nanos {
                Some(AdvanceRefusal::Invalid("duration_exceeds_limit"))
            } else if strategy->Some_0 != frozen() {
                Some(AdvanceRefusal::Conflict)
            } else {
                None
            }
        },
    }
}

/// The reply `r` says why an advance does not start.
pub open spec fn refusal_reply(
    s: ControlView,
    waiting: Waiting,
    requested: Span,
    refusal: AdvanceRefusal,
    r: Reply,
) -> bool {
    match refusal {
        AdvanceRefusal::Disabled => r.ticket == waiting.ticket && timing_fails(
            s,
            waiting.id,
            "time_control_disabled",
            "advance_time requires AgentFeedbackConfig::deterministic_time = true"@,
            (AgentTimingContext {
                state: Some("disabled"),
                requested_seconds: Some(requested),
                ..responses::no_timing()
            }),
            r.response,
        ),
        AdvanceRefusal::Unavailable(reason) => says_unavailable(s, waiting, reason, r),
        AdvanceRefusal::Busy => r.ticket == waiting.ticket && r.response.is_error(
            waiting.id,
            "time_advance_busy",
            "another advance_time command is pending"@,
        ),
        AdvanceRefusal::Invalid(reason) => says_invalid(s, waiting, reason, requested, r),
        AdvanceRefusal::Conflict => says_unavailable(s, waiting, "runtime_strategy_conflict", r),
    }
}

/// What a step of time control asks of the application.
pub struct TimingStep {
    /// The answer that is owed.
    pub reply: Option<Reply>,
    /// The update strategy to set.
    pub strategy: Option<Strategy>,
}

/// The advance that starts.
pub open spec fn started_advance(
    waiting: Waiting,
    requested: Span,
    nominal: Span,
    elapsed: Span,
    frame: u64,
) -> PendingAdvance {
    PendingAdvance {
        waiting,
        requested,
        remaining: requested,
        nominal_step: nominal,
        current_step: span::span_min(nominal, requested),
        start: elapsed,
        previous: elapsed,
        step_count: 0,
        admitted_frame: frame,
    }
}

/// What asking for an advance does.
pub open spec fn advance_agrees(
    t: TimingView,
    u: TimingView,
    s: ControlView,
    waiting: Waiting,
    requested: Span,
    supplied: Option<Span>,
    clock: Option<VirtualClock>,
    fixed: Option<Span>,
    strategy: Option<Strategy>,
    max_steps: u16,
    max_advance: Span,
    r: TimingStep,
) -> bool {
    match advance_refusal(
        t,
        requested,
        supplied,
        clock,
        fixed,
        strategy,
        max_steps,
        max_advance,
    ) {
        Some(refusal) => {
            &&& u == (if refusal is Conflict {
                TimingView {
                    availability: Availability::Unavailable("runtime_strategy_conflict"),
                    ..t
                }
            } else {
                t
            })
            &&& r.strategy is None
            &&& r.reply matches Some(reply)
            &&& refusal_reply(s, waiting, requested, refusal, reply)
        },
        None => {
            let advance = started_advance(
                waiting,
                requested,
                nominal_step(supplied, fixed->Some_0),
                clock->Some_0.elapsed,
                s.frame,
            );
            &&& u == (TimingView { advance: Some(advance), ..t })
            &&& r.strategy == Some(Strategy::Manual(advance.current_step))
            &&& r.reply is None
        },
    }
}

/// What asking for a wait for virtual time does.
pub open spec fn seconds_agrees(
    t: TimingView,
    u: TimingView,
    s: ControlView,
    waiting: Waiting,
    requested: Span,
    max_frames: u16,
    elapsed: Option<Span>,
    r: TimingStep,
) -> bool {
    &&& r.strategy is None
    &&& match (elapsed, t.availability) {
        (None, _) => u == t && r.reply is Some && says_unavailable(
            s,
            waiting,
            "virtual_time_resource_missing",
            r.reply->Some_0,
        ),
        (Some(_), Availability::Available) => u == t && r.reply is Some
            && r.reply->Some_0.ticket == waiting.ticket && timing_fails(
            s,
            waiting.id,
            "time_control_frozen",
            "deterministic time is frozen; use advance_time instead"@,
            (AgentTimingContext {
                state: Some("frozen"),
                requested_seconds: Some(requested),
                ..responses::no_timing()
            }),
            r.reply->Some_0.response,
        ),
        (Some(_), Availability::Unavailable(reason)) => u == t && r.reply is Some
            && says_unavailable(s, waiting, reason, r.reply->Some_0),
        (Some(now), Availability::Disabled) => r.reply is None && u == (TimingView {
            seconds_waits: t.seconds_waits.push(
                SecondsWait { waiting, requested, start: now, max_frames, frames: 0 },
            ),
            ..t
        }),
    }
}

/// What became of a step of an advance.
pub enum AdvanceStep {
    /// The advance was admitted in this frame and has not begun.
    NotYet,
    /// The update strategy is gone.
    StrategyGone,
    /// Nobody waits any more.
    Canceled,
    /// Virtual time is gone.
    ClockGone,
    /// The armed step was not consumed exactly.
    Mismatch(Span),
    /// The step was consumed, and there are more.
    More(PendingAdvance),
    /// The last step was consumed.
    Finished(AgentTimingResult),
}

/// What became of a step of an advance, judged at the end of a frame.
pub open spec fn advance_step(
    a: PendingAdvance,
    frame: u64,
    strategy: Option<Strategy>,
    elapsed: Option<Span>,
    canceled: bool,
) -> AdvanceStep {
    if a.admitted_frame == frame {
        AdvanceStep::NotYet
    } else if strategy is None {
        AdvanceStep::StrategyGone
    } else if canceled {
        AdvanceStep::Canceled
    } else {
        match elapsed {
            None => AdvanceStep::ClockGone,
            Some(now) => {
                let actual = span::span_beyond(now, a.previous);
                if actual != a.current_step || strategy->Some_0 != Strategy::Manual(
                    a.current_step,
                ) {
                    AdvanceStep::Mismatch(actual)
                } else {
                    let remaining = span::span_beyond(a.remaining, actual);
                    let count = if a.step_count == u16::MAX {
                        u16::MAX
                    } else {
                        (a.step_count + 1) as u16
                    };
                    if remaining.nanos > 0 {
                        AdvanceStep::More(
                            PendingAdvance {
                                remaining,
                                previous: now,
                                step_count: count,
                                current_step: span::span_min(a.nominal_step, remaining),
                                ..a
                            },
                        )
                    } else {
                        AdvanceStep::Finished(
                            AgentTimingResult {
                                start: a.start,
                                end: now,
                                actual: span::span_beyond(now, a.start),
                                step_count: count,
                            },
                        )
                    }
                }
            },
        }
    }
}

/// Law: a step of an advance that was accounted for leaves an advance that is accounted for.
pub proof fn law_advance_stays_accounted(
    a: PendingAdvance,
    frame: u64,
    strategy: Option<Strategy>,
    elapsed: Option<Span>,
    canceled: bool,
)
    requires
        advance_ok(a),
    ensures
        advance_step(a, frame, strategy, elapsed, canceled) matches AdvanceStep::More(b) ==> {
            advance_ok(b) && b.step_count == a.step_count + 1 && b.remaining.nanos
                == a.remaining.nanos - a.nominal_step.nanos
        },
{
    lemma_steps_left(
        a.requested.nanos as int,
        a.nominal_step.nanos as int,
        a.step_count as int,
        a.remaining.nanos as int,
    );
    assert((a.step_count + 1) * a.nominal_step.nanos == a.step_count * a.nominal_step.nanos
        + a.nominal_step.nanos) by (nonlinear_arith);
}

/// Law: a finished advance moved virtual time by exactly what was asked for, in exactly as many
/// steps as are needed.
pub proof fn law_advance_is_exact(
    a: PendingAdvance,
    frame: u64,
    strategy: Option<Strategy>,
    elapsed: Option<Span>,
    canceled: bool,
)
    requires
        advance_ok(a),
    ensures
        advance_step(a, frame, strategy, elapsed, canceled) matches AdvanceStep::Finished(result)
            ==> {
            &&& result.actual == a.requested
            &&& result.end.nanos == result.start.nanos + a.requested.nanos
            &&& result.step_count == commands::steps_needed(a.requested, a.nominal_step)
        },
{
    lemma_steps_left(
        a.requested.nanos as int,
        a.nominal_step.nanos as int,
        a.step_count as int,
        a.remaining.nanos as int,
    );
}

/// What the end of a frame makes of an advance.
pub open spec fn account_agrees(
    t: TimingView,
    u: TimingView,
    s: ControlView,
    strategy: Option<Strategy>,
    elapsed: Option<Span>,
    canceled: bool,
    r: TimingStep,
) -> bool {
    match t.advance {
        None => u == t && r.reply is None && r.strategy is None,
        Some(a) => match advance_step(a, s.frame, strategy, elapsed, canceled) {
            AdvanceStep::NotYet => u == t && r.reply is None && r.strategy is None,
            AdvanceStep::StrategyGone => {
                &&& u == (TimingView {
                    advance: None,
                    availability: Availability::Unavailable("time_strategy_resource_missing"),
                    ..t
                })
                &&& r.strategy is None
                &&& if canceled {
                    r.reply is None
                } else {
                    r.reply matches Some(reply) && says_unavailable(
                        s,
                        a.waiting,
                        "time_strategy_resource_missing",
                        reply,
                    )
                }
            },
            AdvanceStep::Canceled => {
                &&& u == (TimingView { advance: None, ..t })
                &&& r.strategy == Some(frozen())
                &&& r.reply is None
            },
            AdvanceStep::ClockGone => {
                &&& u == (TimingView {
                    advance: None,
                    availability: Availability::Unavailable("virtual_time_resource_missing"),
                    ..t
                })
                &&& r.strategy == Some(frozen())
                &&& r.reply matches Some(reply)
                &&& says_unavailable(s, a.waiting, "virtual_time_resource_missing", reply)
            },
            AdvanceStep::Mismatch(actual) => {
                &&& u == (TimingView {
                    advance: None,
                    availability: Availability::Unavailable("advance_delta_mismatch"),
                    ..t
                })
                &&& r.strategy == Some(frozen())
                &&& r.reply matches Some(reply)
                &&& reply.ticket == a.waiting.ticket
                &&& timing_fails(
                    s,
                    a.waiting.id,
                    "time_advance_mismatch",
                    "virtual time did not consume the exact armed delta"@,
                    (AgentTimingContext {
                        state: Some("unavailable"),
                        reason: Some(
                            if strategy == Some(Strategy::Manual(a.current_step)) {
                                "virtual_delta_mismatch"
                            } else {
                                "runtime_strategy_conflict"
                            },
                        ),
                        requested_seconds: Some(a.requested),
                        expected_seconds: Some(a.current_step),
                        actual_seconds: Some(actual),
                        step_count: Some(a.step_count),
                        ..responses::no_timing()
                    }),
                    reply.response,
                )
            },
            AdvanceStep::More(b) => {
                &&& u == (TimingView { advance: Some(b), ..t })
                &&& r.strategy == Some(Strategy::Manual(b.current_step))
                &&& r.reply is None
            },
            AdvanceStep::Finished(result) => {
                &&& u == (TimingView { advance: None, ..t })
                &&& r.strategy == Some(frozen())
                &&& r.reply matches Some(reply)
                &&& reply.ticket == a.waiting.ticket
                &&& crate::actions::reports(
                    s,
                    a.waiting.id,
                    "advanced_time",
                    None,
                    Some(Details::Timing(result)),
                    reply.response,
                )
            },
        },
    }
}

/// What the start of a frame makes of an advance, or of frozen time.
pub open spec fn guard_agrees(
    t: TimingView,
    u: TimingView,
    s: ControlView,
    strategy: Option<Strategy>,
    canceled: bool,
    r: TimingStep,
) -> bool {
    match t.advance {
        None => {
            &&& r.reply is None
            &&& if t.availability is Available && strategy is None {
                u == (TimingView {
                    availability: Availability::Unavailable("time_strategy_resource_missing"),
                    ..t
                }) && r.strategy is None
            } else if t.availability is Available && strategy->Some_0 != frozen() {
                u == (TimingView {
                    availability: Availability::Unavailable("runtime_strategy_conflict"),
                    ..t
                }) && r.strategy == Some(frozen())
            } else {
                u == t && r.strategy is None
            }
        },
        Some(a) => if !canceled && strategy == Some(Strategy::Manual(a.current_step)) {
            u == t && r.strategy is None && r.reply is None
        } else {
            &&& r.strategy == (if strategy is Some {
                Some(frozen())
            } else {
                None
            })
            &&& if canceled {
                u == (TimingView { advance: None, ..t }) && r.reply is None
            } else {
                &&& u == (TimingView {
                    advance: None,
                    availability: Availability::Unavailable("runtime_strategy_conflict"),
                    ..t
                })
                &&& r.reply matches Some(reply)
                &&& reply.ticket == a.waiting.ticket
                &&& timing_fails(
                    s,
                    a.waiting.id,
                    "time_control_unavailable",
                    "time update strategy changed before the armed delta could be consumed"@,
                    (AgentTimingContext {
                        state: Some("unavailable"),
                        reason: Some("runtime_strategy_conflict"),
                        expected_seconds: Some(a.current_step),
                        ..responses::no_timing()
                    }),
                    reply.response,
                )
            }
        },
    }
}

/// Whether time control can work: deterministic time asks for the time plugin, its resources and
/// an update strategy that nobody else has set.
pub open spec fn configured(
    deterministic: bool,
    time_plugin: bool,
    resources: bool,
    strategy: Strategy,
) -> Availability {
    if !deterministic {
        Availability::Disabled
    } else if !time_plugin {
        Availability::Unavailable("time_plugin_missing")
    } else if !resources {
        Availability::Unavailable("time_resources_missing")
    } else {
        match strategy {
            Strategy::Automatic => Availability::Available,
            Strategy::Manual(span) => if span.nanos == 0 {
                Availability::Available
            } else {
                Availability::Unavailable("manual_duration_already_configured")
            },
            Strategy::ManualInstant => Availability::Unavailable(
                "manual_instant_already_configured",
            ),
            Strategy::FixedTimesteps => Availability::Unavailable(
                "fixed_timesteps_already_configured",
            ),
        }
    }
}

/// The timing requests that wait in any way.
pub open spec fn timing_load(t: TimingView) -> nat {
    t.incoming.len() + t.frame_waits.len() + t.seconds_waits.len() + if t.advance is Some {
        1nat
    } else {
        0nat
    }
}

/// What taking a timing request in does: it joins the line, or is refused where too much waits.
pub open spec fn enqueue_agrees(
    t: TimingView,
    u: TimingView,
    request: AgentRequest,
    limit: usize,
    r: Option<Reply>,
) -> bool {
    if timing_load(t) >= (if limit == 0 {
        1
    } else {
        limit
    }) {
        &&& u == t
        &&& r matches Some(reply)
        &&& reply.ticket == request.ticket
        &&& reply.response.is_error(
            request.id,
            "queue_full",
            "too many pending timing commands"@,
        )
    } else {
        &&& u == (TimingView { incoming: t.incoming.push(request), ..t })
        &&& r is None
    }
}

/// What a frame does to the first wait for frames.
pub open spec fn frame_wait_agrees(
    t: TimingView,
    u: TimingView,
    s: ControlView,
    canceled: bool,
    r: Option<Reply>,
) -> bool {
    let front = t.frame_waits[0];
    let rest = t.frame_waits.skip(1);
    match frame_tick(front, canceled) {
        FrameTick::Dropped => r is None && u == (TimingView { frame_waits: rest, ..t }),
        FrameTick::Kept(wait) => r is None && u == (TimingView {
            frame_waits: rest.push(wait),
            ..t
        }),
        FrameTick::Over => {
            &&& u == (TimingView { frame_waits: rest, ..t })
            &&& r matches Some(reply)
            &&& reply.ticket == front.waiting.ticket
            &&& waited(s, front.waiting.id, None, reply.response)
        },
    }
}

/// What a frame does to the first wait for virtual time.
pub open spec fn seconds_wait_agrees(
    t: TimingView,
    u: TimingView,
    s: ControlView,
    elapsed: Option<Span>,
    canceled: bool,
    r: Option<Reply>,
) -> bool {
    let front = t.seconds_waits[0];
    let rest = t.seconds_waits.skip(1);
    let tick = seconds_tick(front, elapsed, canceled);
    &&& seconds_reply(s, front, tick, r)
    &&& u == (TimingView {
        seconds_waits: if tick is Kept {
            rest.push(one_frame_more(front))
        } else {
            rest
        },
        ..t
    })
}

/// What looking at the first timing request does.
pub open spec fn admit_agrees(
    t: TimingView,
    u: TimingView,
    s: ControlView,
    canceled: bool,
    clock: Option<VirtualClock>,
    fixed: Option<Span>,
    strategy: Option<Strategy>,
    max_steps: u16,
    max_advance: Span,
    r: TimingStep,
) -> bool {
    let request = t.incoming[0];
    let rest = TimingView { incoming: t.incoming.skip(1), ..t };
    let waiting = Waiting { id: request.id, ticket: request.ticket };
    if canceled {
        u == rest && r.reply is None && r.strategy is None
    } else {
        match request.command {
            AgentCommand::Wait { frames } => u == (TimingView {
                frame_waits: rest.frame_waits.push(
                    FrameWait { waiting, frames_left: frames },
                ),
                ..rest
            }) && r.reply is None && r.strategy is None,
            AgentCommand::WaitSeconds { duration, max_frames } => seconds_agrees(
                rest,
                u,
                s,
                waiting,
                duration,
                max_frames,
                match clock {
                    Some(time) => Some(time.elapsed),
                    None => None,
                },
                r,
            ),
            AgentCommand::AdvanceTime { duration, step } => advance_agrees(
                rest,
                u,
                s,
                waiting,
                duration,
                step,
                clock,
                fixed,
                strategy,
                max_steps,
                max_advance,
                r,
            ),
            _ => true,
        }
    }
}

impl TimingControl {
    /// Sets time control up. Where it can work, the application freezes its time.
    pub fn configure(
        deterministic: bool,
        time_plugin: bool,
        resources: bool,
        strategy: Strategy,
    ) -> (r: TimingControl)
        ensures
            r@ == (TimingView {
                availability: configured(deterministic, time_plugin, resources, strategy),
                incoming: Seq::empty(),
                frame_waits: Seq::empty(),
                seconds_waits: Seq::empty(),
                advance: None,
            }),
            r@.wf(),
    {
        let availability = if !deterministic {
            Availability::Disabled
        } else if !time_plugin {
            Availability::Unavailable("time_plugin_missing")
        } else if !resources {
            Availability::Unavailable("time_resources_missing")
        } else {
            match strategy {
                Strategy::Automatic => Availability::Available,
                Strategy::Manual(span) => if span.is_zero() {
                    Availability::Available
                } else {
                    Availability::Unavailable("manual_duration_already_configured")
                },
                Strategy::ManualInstant => Availability::Unavailable(
                    "manual_instant_already_configured",
                ),
                Strategy::FixedTimesteps => Availability::Unavailable(
                    "fixed_timesteps_already_configured",
                ),
            }
        };
        TimingControl {
            availability,
            incoming: VecDeque::new(),
            frame_waits: VecDeque::new(),
            seconds_waits: VecDeque::new(),
            advance: None,
        }
    }

    /// Takes a request in, or refuses it where too many wait.
    pub fn enqueue(&mut self, request: AgentRequest, limit: usize) -> (r: Option<Reply>)
        requires
            old(self)@.wf(),
            timing_command(request.command),
        ensures
            final(self)@.wf(),
            enqueue_agrees(old(self)@, final(self)@, request, limit, r),
    {
        let busy: usize = if self.advance.is_some() {
            1
        } else {
            0
        };
        let pending: usize = self.incoming.len().saturating_add(
            self.frame_waits.len(),
        ).saturating_add(self.seconds_waits.len()).saturating_add(busy);
        let most: usize = if limit == 0 {
            1
        } else {
            limit
        };
        if pending >= most {
            return Some(
                Reply {
                    ticket: request.ticket,
                    response: AgentResponse::failed(
                        request.id,
                        "queue_full",
                        "too many pending timing commands".to_owned(),
                    ),
                },
            );
        }
        self.incoming.push_back(request);
        None
    }

    /// Runs the first wait for frames for one frame.
    pub fn tick_frame_wait(&mut self, state: &AgentFeedbackState, canceled: bool) -> (r: Option<
        Reply,
    >)
        requires
            old(self)@.wf(),
            state@.wf(),
            old(self)@.frame_waits.len() > 0,
        ensures
            final(self)@.wf(),
            frame_wait_agrees(old(self)@, final(self)@, state@, canceled, r),
    {
        let ghost t = self@;
        let mut wait = match self.frame_waits.pop_front() {
            Some(wait) => wait,
            None => return None,
        };
        assert(self@.frame_waits =~= t.frame_waits.skip(1));
        if canceled {
            return None;
        }
        wait.frames_left = wait.frames_left.saturating_sub(1);
        if wait.frames_left == 0 {
            return Some(
                Reply {
                    ticket: wait.waiting.ticket,
                    response: AgentResponse::done(
                        wait.waiting.id,
                        "waited",
                        copy_capture(&state.latest_capture),
                        Some(state.snapshot(None)),
                    ),
                },
            );
        }
        self.frame_waits.push_back(wait);
        None
    }

    /// Runs the first wait for virtual time for one frame.
    pub fn tick_seconds_wait(
        &mut self,
        state: &AgentFeedbackState,
        elapsed: Option<Span>,
        canceled: bool,
    ) -> (r: Option<Reply>)
        requires
            old(self)@.wf(),
            state@.wf(),
            old(self)@.seconds_waits.len() > 0,
        ensures
            final(self)@.wf(),
            seconds_wait_agrees(old(self)@, final(self)@, state@, elapsed, canceled, r),
    {
        let ghost t = self@;
        let mut wait = match self.seconds_waits.pop_front() {
            Some(wait) => wait,
            None => return None,
        };
        assert(self@.seconds_waits =~= t.seconds_waits.skip(1));
        if canceled {
            return None;
        }
        wait.frames = wait.frames.saturating_add(1);
        let now = match elapsed {
            Some(now) => now,
            None => {
                let mut timing = AgentTimingContext::empty();
                timing.state = Some("unavailable");
                timing.reason = Some("virtual_time_resource_missing");
                timing.requested_seconds = Some(wait.requested);
                timing.frames = Some(wait.frames);
                return Some(
                    timing_error(
                        state,
                        wait.waiting,
                        "time_control_unavailable",
                        "Time<Virtual> disappeared while wait_seconds was pending",
                        timing,
                    ),
                );
            },
        };
        let observed = now.beyond(wait.start);
        if observed.nanos >= wait.requested.nanos {
            let details = Details::Waited(
                WaitedSeconds { requested: wait.requested, observed, frames: wait.frames },
            );
            return Some(
                Reply {
                    ticket: wait.waiting.ticket,
                    response: AgentResponse::details_with_context(
                        wait.waiting.id,
                        "waited",
                        copy_capture(&state.latest_capture),
                        state.snapshot(None),
                        details,
                    ),
                },
            );
        }
        if wait.frames == wait.max_frames {
            let mut timing = AgentTimingContext::empty();
            timing.requested_seconds = Some(wait.requested);
            timing.observed_seconds = Some(observed);
            timing.frames = Some(wait.frames);
            return Some(
                timing_error(
                    state,
                    wait.waiting,
                    "wait_seconds_timeout",
                    "virtual time did not advance by the requested duration within max_frames",
                    timing,
                ),
            );
        }
        self.seconds_waits.push_back(wait);
        None
    }

    /// Looks at the first request that was taken in; one that was given up is dropped.
    pub fn admit_timing_request(
        &mut self,
        state: &AgentFeedbackState,
        canceled: bool,
        clock: Option<VirtualClock>,
        fixed: Option<Span>,
        strategy: Option<Strategy>,
        max_steps: u16,
        max_advance: Span,
    ) -> (r: TimingStep)
        requires
            old(self)@.wf(),
            state@.wf(),
            old(self)@.incoming.len() > 0,
        ensures
            final(self)@.wf(),
            admit_agrees(
                old(self)@,
                final(self)@,
                state@,
                canceled,
                clock,
                fixed,
                strategy,
                max_steps,
                max_advance,
                r,
            ),
    {
        let ghost t = self@;
        let request = match self.incoming.pop_front() {
            Some(request) => request,
            None => return TimingStep { reply: None, strategy: None },
        };
        assert(request == t.incoming[0]);
        assert(timing_command(t.incoming[0].command));
        assert(self@.incoming =~= t.incoming.skip(1));
        assert(self@.wf()) by {
            assert forall|i: int| 0 <= i < self@.incoming.len() implies timing_command(
                (#[trigger] self@.incoming[i]).command,
            ) by {
                assert(timing_command(t.incoming[i + 1].command));
            }
        }
        if canceled {
            return TimingStep { reply: None, strategy: None };
        }
        let AgentRequest { id, ticket, command } = request;
        let waiting = Waiting { id, ticket };
        match command {
            AgentCommand::Wait { frames } => {
                self.frame_waits.push_back(FrameWait { waiting, frames_left: frames });
                TimingStep { reply: None, strategy: None }
            },
            AgentCommand::WaitSeconds { duration, max_frames } => {
                let elapsed = match clock {
                    Some(time) => Some(time.elapsed),
                    None => None,
                };
                self.admit_seconds_wait(state, waiting, duration, max_frames, elapsed)
            },
            AgentCommand::AdvanceTime { duration, step } => self.admit_advance(
                state,
                waiting,
                duration,
                step,
                clock,
                fixed,
                strategy,
                max_steps,
                max_advance,
            ),
            _ => TimingStep { reply: None, strategy: None },
        }
    }

    /// Starts a wait for virtual time, where it runs by itself.
    pub fn admit_seconds_wait(
        &mut self,
        state: &AgentFeedbackState,
        waiting: Waiting,
        requested: Span,
        max_frames: u16,
        elapsed: Option<Span>,
    ) -> (r: TimingStep)
        requires
            old(self)@.wf(),
            state@.wf(),
        ensures
            final(self)@.wf(),
            seconds_agrees(
                old(self)@,
                final(self)@,
                state@,
                waiting,
                requested,
                max_frames,
                elapsed,
                r,
            ),
    {
        let now = match elapsed {
            Some(now) => now,
            None => return TimingStep {
                reply: Some(unavailable(state, waiting, "virtual_time_resource_missing")),
                strategy: None,
            },
        };
        match self.availability {
            Availability::Available => {
                let mut timing = AgentTimingContext::empty();
                timing.state = Some("frozen");
                timing.requested_seconds = Some(requested);
                TimingStep {
                    reply: Some(
                        timing_error(
                            state,
                            waiting,
                            "time_control_frozen",
                            "deterministic time is frozen; use advance_time instead",
                            timing,
                        ),
                    ),
                    strategy: None,
                }
            },
            Availability::Unavailable(reason) => TimingStep {
                reply: Some(unavailable(state, waiting, reason)),
                strategy: None,
            },
            Availability::Disabled => {
                self.seconds_waits.push_back(
                    SecondsWait { waiting, requested, start: now, max_frames, frames: 0 },
                );
                TimingStep { reply: None, strategy: None }
            },
        }
    }

    /// Starts an advance of frozen time, or says why it does not start.
    pub fn admit_advance(
        &mut self,
        state: &AgentFeedbackState,
        waiting: Waiting,
        requested: Span,
        supplied: Option<Span>,
        clock: Option<VirtualClock>,
        fixed: Option<Span>,
        strategy: Option<Strategy>,
        max_steps: u16,
        max_advance: Span,
    ) -> (r: TimingStep)
        requires
            old(self)@.wf(),
            state@.wf(),
            0 < requested.nanos,
        ensures
            final(self)@.wf(),
            advance_agrees(
                old(self)@,
                final(self)@,
                state@,
                waiting,
                requested,
                supplied,
                clock,
                fixed,
                strategy,
                max_steps,
                max_advance,
                r,
            ),
    {
        match self.availability {
            Availability::Disabled => {
                let mut timing = AgentTimingContext::empty();
                timing.state = Some("disabled");
                timing.requested_seconds = Some(requested);
                return TimingStep {
                    reply: Some(
                        timing_error(
                            state,
                            waiting,
                            "time_control_disabled",
                            "advance_time requires AgentFeedbackConfig::deterministic_time = true",
                            timing,
                        ),
                    ),
                    strategy: None,
                };
            },
            Availability::Unavailable(reason) => return TimingStep {
                reply: Some(unavailable(state, waiting, reason)),
                strategy: None,
            },
            Availability::Available => {},
        }
        if self.advance.is_some() {
            return TimingStep {
                reply: Some(
                    Reply {
                        ticket: waiting.ticket,
                        response: AgentResponse::failed(
                            waiting.id,
                            "time_advance_busy",
                            "another advance_time command is pending".to_owned(),
                        ),
                    },
                ),
                strategy: None,
            };
        }
        let (time, fixed_step, current) = match (clock, fixed, strategy) {
            (Some(time), Some(fixed_step), Some(current)) => (time, fixed_step, current),
            _ => return TimingStep {
                reply: Some(unavailable(state, waiting, "time_resource_disappeared")),
                strategy: None,
            },
        };
        if time.paused {
            return TimingStep {
                reply: Some(invalid_advance(state, waiting, "virtual_time_paused", requested)),
                strategy: None,
            };
        }
        if !time.unit_speed {
            return TimingStep {
                reply: Some(
                    invalid_advance(state, waiting, "virtual_time_speed_not_one", requested),
                ),
                strategy: None,
            };
        }
        let nominal = match supplied {
            Some(step) => step,
            None => fixed_step,
        };
        if nominal.is_zero() {
            return TimingStep {
                reply: Some(invalid_advance(state, waiting, "zero_nominal_step", requested)),
                strategy: None,
            };
        }
        if nominal.nanos > time.max_delta.nanos {
            return TimingStep {
                reply: Some(
                    invalid_advance(state, waiting, "nominal_step_exceeds_max_delta", requested),
                ),
                strategy: None,
            };
        }
        let step_count: u16 = match checked_step_count(requested, nominal) {
            Some(step_count) => step_count,
            None => return TimingStep {
                reply: Some(invalid_advance(state, waiting, "step_count_overflow", requested)),
                strategy: None,
            },
        };
        let most: u16 = if max_steps == 0 {
            1
        } else {
            max_steps
        };
        if step_count > most {
            return TimingStep {
                reply: Some(
                    invalid_advance(state, waiting, "step_count_exceeds_limit", requested),
                ),
                strategy: None,
            };
        }
        if requested.nanos > max_advance.nanos {
            return TimingStep {
                reply: Some(invalid_advance(state, waiting, "duration_exceeds_limit", requested)),
                strategy: None,
            };
        }
        if current != Strategy::Manual(Span::zero()) {
            self.availability = Availability::Unavailable("runtime_strategy_conflict");
            return TimingStep {
                reply: Some(unavailable(state, waiting, "runtime_strategy_conflict")),
                strategy: None,
            };
        }
        let current_step = nominal.shorter(requested);
        assert(0 * nominal.nanos == 0) by (nonlinear_arith);
        self.advance = Some(
            PendingAdvance {
                waiting,
                requested,
                remaining: requested,
                nominal_step: nominal,
                current_step,
                start: time.elapsed,
                previous: time.elapsed,
                step_count: 0,
                admitted_frame: state.frame,
            },
        );
        TimingStep { reply: None, strategy: Some(Strategy::Manual(current_step)) }
    }

    /// Judges at the start of a frame whether the armed step can be consumed. Whatever else was
    /// set as the update strategy is taken back, so that time stays frozen.
    pub fn guard_time_advance(
        &mut self,
        state: &AgentFeedbackState,
        strategy: Option<Strategy>,
        canceled: bool,
    ) -> (r: TimingStep)
        requires
            old(self)@.wf(),
            state@.wf(),
        ensures
            final(self)@.wf(),
            guard_agrees(old(self)@, final(self)@, state@, strategy, canceled, r),
    {
        let advance = match self.advance.take() {
            Some(advance) => advance,
            None => {
                if matches!(self.availability, Availability::Available) {
                    match strategy {
                        None => {
                            self.availability = Availability::Unavailable(
                                "time_strategy_resource_missing",
                            );
                        },
                        Some(current) => {
                            if current != Strategy::Manual(Span::zero()) {
                                self.availability = Availability::Unavailable(
                                    "runtime_strategy_conflict",
                                );
                                return TimingStep {
                                    reply: None,
                                    strategy: Some(Strategy::Manual(Span::zero())),
                                };
                            }
                        },
                    }
                }
                return TimingStep { reply: None, strategy: None };
            },
        };
        let expected = advance.current_step;
        let armed = match strategy {
            Some(current) => current == Strategy::Manual(expected),
            None => false,
        };
        if !canceled && armed {
            self.advance = Some(advance);
            return TimingStep { reply: None, strategy: None };
        }
        let restored = if strategy.is_some() {
            Some(Strategy::Manual(Span::zero()))
        } else {
            None
        };
        if canceled {
            return TimingStep { reply: None, strategy: restored };
        }
        self.availability = Availability::Unavailable("runtime_strategy_conflict");
        let mut timing = AgentTimingContext::empty();
        timing.state = Some("unavailable");
        timing.reason = Some("runtime_strategy_conflict");
        timing.expected_seconds = Some(expected);
        TimingStep {
            reply: Some(
                timing_error(
                    state,
                    advance.waiting,
                    "time_control_unavailable",
                    "time update strategy changed before the armed delta could be consumed",
                    timing,
                ),
            ),
            strategy: restored,
        }
    }

    /// Accounts at the end of a frame for the step that was armed, and arms the next one.
    pub fn account_time_advance(
        &mut self,
        state: &AgentFeedbackState,
        strategy: Option<Strategy>,
        elapsed: Option<Span>,
        canceled: bool,
    ) -> (r: TimingStep)
        requires
            old(self)@.wf(),
            state@.wf(),
        ensures
            final(self)@.wf(),
            account_agrees(old(self)@, final(self)@, state@, strategy, elapsed, canceled, r),
    {
        let ghost t = self@;
        let mut advance = match self.advance.take() {
            Some(advance) => advance,
            None => return TimingStep { reply: None, strategy: None },
        };
        proof {
            law_advance_stays_accounted(advance, state.frame, strategy, elapsed, canceled);
            lemma_steps_left(
                advance.requested.nanos as int,
                advance.nominal_step.nanos as int,
                advance.step_count as int,
                advance.remaining.nanos as int,
            );
        }
        if advance.admitted_frame == state.frame {
            self.advance = Some(advance);
            return TimingStep { reply: None, strategy: None };
        }
        let current = match strategy {
            Some(current) => current,
            None => {
                self.availability = Availability::Unavailable("time_strategy_resource_missing");
                let reply = if canceled {
                    None
                } else {
                    Some(unavailable(state, advance.waiting, "time_strategy_resource_missing"))
                };
                return TimingStep { reply, strategy: None };
            },
        };
        if canceled {
            return TimingStep { reply: None, strategy: Some(Strategy::Manual(Span::zero())) };
        }
        let now = match elapsed {
            Some(now) => now,
            None => {
                self.availability = Availability::Unavailable("virtual_time_resource_missing");
                return TimingStep {
                    reply: Some(
                        unavailable(state, advance.waiting, "virtual_time_resource_missing"),
                    ),
                    strategy: Some(Strategy::Manual(Span::zero())),
                };
            },
        };
        let actual = now.beyond(advance.previous);
        let armed = current == Strategy::Manual(advance.current_step);
        if actual != advance.current_step || !armed {
            self.availability = Availability::Unavailable("advance_delta_mismatch");
            let mut timing = AgentTimingContext::empty();
            timing.state = Some("unavailable");
            timing.reason = Some(
                if armed {
                    "virtual_delta_mismatch"
                } else {
                    "runtime_strategy_conflict"
                },
            );
            timing.requested_seconds = Some(advance.requested);
            timing.expected_seconds = Some(advance.current_step);
            timing.actual_seconds = Some(actual);
            timing.step_count = Some(advance.step_count);
            return TimingStep {
                reply: Some(
                    timing_error(
                        state,
                        advance.waiting,
                        "time_advance_mismatch",
                        "virtual time did not consume the exact armed delta",
                        timing,
                    ),
                ),
                strategy: Some(Strategy::Manual(Span::zero())),
            };
        }
        advance.remaining = advance.remaining.beyond(actual);
        advance.previous = now;
        advance.step_count = advance.step_count.saturating_add(1);
        if !advance.remaining.is_zero() {
            let next = advance.nominal_step.shorter(advance.remaining);
            advance.current_step = next;
            self.advance = Some(advance);
            return TimingStep { reply: None, strategy: Some(Strategy::Manual(next)) };
        }
        let result = AgentTimingResult {
            start: advance.start,
            end: now,
            actual: now.beyond(advance.start),
            step_count: advance.step_count,
        };
        TimingStep {
            reply: Some(
                Reply {
                    ticket: advance.waiting.ticket,
                    response: AgentResponse::timing(
                        advance.waiting.id,
                        copy_capture(&state.latest_capture),
                        state.snapshot(None),
                        result,
                    ),
                },
            ),
            strategy: Some(Strategy::Manual(Span::zero())),
        }
    }
}

/// Law: while time can be advanced, a wait for virtual time is refused and keeps nothing.
pub proof fn law_frozen_time_refuses_waits(
    t: TimingView,
    u: TimingView,
    s: ControlView,
    waiting: Waiting,
    requested: Span,
    max_frames: u16,
    elapsed: Span,
    r: TimingStep,
)
    requires
        t.availability is Available,
        seconds_agrees(t, u, s, waiting, requested, max_frames, Some(elapsed), r),
    ensures
        u == t,
        r.reply matches Some(reply) && reply.ticket == waiting.ticket && reply.response.is_error(
            waiting.id,
            "time_control_frozen",
            "deterministic time is frozen; use advance_time instead"@,
        ),
{
}

/// What is asked of the update of time fits the advance: with one under way it moves by the step
/// that is armed, and without one it stands still.
pub open spec fn fits_advance(u: TimingView, strategy: Option<Strategy>) -> bool {
    match strategy {
        None => true,
        Some(set) => match u.advance {
            Some(a) => set == Strategy::Manual(a.current_step),
            None => set == frozen(),
        },
    }
}

/// Law: time only moves by the step of an advance that is under way. Whatever starts, guards or
/// accounts for an advance asks for nothing else, and an advance that ends leaves time frozen.
pub proof fn law_time_stands_still_between_advances(
    t: TimingView,
    u: TimingView,
    s: ControlView,
    strategy: Option<Strategy>,
    elapsed: Option<Span>,
    canceled: bool,
    r: TimingStep,
)
    requires
        account_agrees(t, u, s, strategy, elapsed, canceled, r) || guard_agrees(
            t,
            u,
            s,
            strategy,
            canceled,
            r,
        ),
    ensures
        fits_advance(u, r.strategy),
        t.advance is Some && u.advance is None && strategy is Some ==> r.strategy == Some(frozen()),
{
}

/// Law: an advance that starts arms its first step, which is no longer than what is asked for and
/// no longer than a step; the advance has no more steps than are allowed.
pub proof fn law_started_advances_are_bounded(
    t: TimingView,
    u: TimingView,
    s: ControlView,
    waiting: Waiting,
    requested: Span,
    supplied: Option<Span>,
    clock: Option<VirtualClock>,
    fixed: Option<Span>,
    strategy: Option<Strategy>,
    max_steps: u16,
    max_advance: Span,
    r: TimingStep,
)
    requires
        advance_agrees(
            t,
            u,
            s,
            waiting,
            requested,
            supplied,
            clock,
            fixed,
            strategy,
            max_steps,
            max_advance,
            r,
        ),
        t.advance is None,
    ensures
        fits_advance(u, r.strategy),
        u.advance matches Some(a) ==> {
            &&& t.availability is Available
            &&& a.current_step.nanos <= a.nominal_step.nanos
            &&& a.current_step.nanos <= requested.nanos <= max_advance.nanos
            &&& commands::steps_needed(requested, a.nominal_step) <= commands::at_least_one(
                max_steps,
            )
        },
{
}

/// Law: a wait for virtual time is over exactly where somebody still waits, the clock is there, and
/// the clock has moved on from where the wait began by no less than what was asked for. What is
/// reported is how far the clock has moved, and it is never less than what was asked for. Short of
/// that, the wait fails in the frame that is its last, and in every earlier one it goes on.
pub proof fn law_virtual_time_has_passed(
    s: ControlView,
    wait: SecondsWait,
    elapsed: Option<Span>,
    canceled: bool,
    r: Option<Reply>,
)
    requires
        seconds_reply(s, wait, seconds_tick(wait, elapsed, canceled), r),
    ensures
        r matches Some(reply) ==> reply.ticket == wait.waiting.ticket && reply.response.id
            == wait.waiting.id,
        (r is Some && r->Some_0.response.ok) <==> !canceled && elapsed is Some
            && (elapsed->Some_0.nanos - wait.start.nanos >= wait.requested.nanos
            || wait.requested.nanos == 0),
        r is Some && r->Some_0.response.ok ==> {
            &&& r->Some_0.response.result matches Some(result)
            &&& result.status == "waited"
            &&& result.details matches Some(Details::Waited(told))
            &&& told.requested == wait.requested
            &&& told.observed.nanos >= wait.requested.nanos
            &&& elapsed->Some_0.nanos >= wait.start.nanos ==> wait.start.nanos
                + told.observed.nanos == elapsed->Some_0.nanos
            &&& elapsed->Some_0.nanos < wait.start.nanos ==> told.observed.nanos == 0
            &&& told.frames == wait.frames + 1 || told.frames == wait.frames == u16::MAX
        },
        r is Some && !r->Some_0.response.ok ==> {
            &&& !canceled
            &&& r->Some_0.response.error matches Some(error)
            &&& error.code == (if elapsed is Some {
                "wait_seconds_timeout"
            } else {
                "time_control_unavailable"
            })
            &&& error.context matches Some(context)
            &&& context.timing matches Some(timing)
            &&& timing.requested_seconds == Some(wait.requested)
            &&& timing.frames matches Some(frames)
            &&& frames == wait.frames + 1 || frames == wait.frames == u16::MAX
            &&& elapsed matches Some(now) ==> (timing.observed_seconds matches Some(observed)
                && observed.nanos < wait.requested.nanos && observed.nanos == (if now.nanos
                >= wait.start.nanos {
                now.nanos - wait.start.nanos
            } else {
                0
            }))
        },
        r is None <==> canceled || (elapsed is Some && wait.requested.nanos > 0
            && elapsed->Some_0.nanos - wait.start.nanos < wait.requested.nanos && wait.max_frames
            != (if wait.frames == u16::MAX {
            u16::MAX as int
        } else {
            wait.frames + 1
        })),
        seconds_tick(wait, elapsed, canceled) is Kept <==> r is None && !canceled,
{
}

/// Law: only the distance matters between where the clock is and where it was. Two waits for the
/// same time that began at different times, and are looked at equally long after, fare alike.
pub proof fn law_only_the_passed_time_matters(
    a: SecondsWait,
    b: SecondsWait,
    now: Span,
    other_now: Span,
    canceled: bool,
)
    requires
        a.requested == b.requested,
        a.max_frames == b.max_frames,
        a.frames == b.frames,
        now.nanos - a.start.nanos == other_now.nanos - b.start.nanos,
    ensures
        seconds_tick(a, Some(now), canceled) == seconds_tick(b, Some(other_now), canceled),
{
}

/// Law: a wait that is over stays over had the clock moved further, and one for less time would be
/// over too.
pub proof fn law_passed_time_only_grows(wait: SecondsWait, less: SecondsWait, now: Span, later: Span)
    requires
        seconds_tick(wait, Some(now), false) is Over,
        now.nanos <= later.nanos,
        less.start == wait.start,
        less.requested.nanos <= wait.requested.nanos,
    ensures
        seconds_tick(wait, Some(later), false) is Over,
        seconds_tick(less, Some(now), false) is Over,
{
}

/// What is left of a wait for virtual time after some frames, where the clock was at these times:
/// the wait as it is then, or none where it has ended.
pub open spec fn seconds_wait_after(wait: SecondsWait, nows: Seq<Span>) -> Option<SecondsWait>
    decreases nows.len(),
{
    if nows.len() == 0 {
        Some(wait)
    } else {
        match seconds_wait_after(wait, nows.drop_last()) {
            None => None,
            Some(left) => if seconds_tick(left, Some(nows.last()), false) is Kept {
                Some(one_frame_more(left))
            } else {
                None
            },
        }
    }
}

/// Law: a wait for virtual time goes on through every frame in which the time has not passed, as
/// long as these are fewer than its most frames, and fails in exactly the last of them.
pub proof fn law_virtual_waits_last_their_frames(wait: SecondsWait, nows: Seq<Span>)
    requires
        wait.frames == 0,
        0 < nows.len() <= wait.max_frames,
        forall|i: int|
            0 <= i < nows.len() ==> (#[trigger] nows[i]).nanos - wait.start.nanos
                < wait.requested.nanos,
        wait.requested.nanos > 0,
    ensures
        nows.len() < wait.max_frames ==> seconds_wait_after(wait, nows) == Some(
            SecondsWait { frames: nows.len() as u16, ..wait },
        ),
        nows.len() == wait.max_frames ==> {
            &&& seconds_wait_after(wait, nows) is None
            &&& seconds_wait_after(wait, nows.drop_last()) matches Some(left)
            &&& seconds_tick(left, Some(nows.last()), false) is TimedOut
        },
    decreases nows.len(),
{
    let earlier = nows.drop_last();
    if earlier.len() > 0 {
        law_virtual_waits_last_their_frames(wait, earlier);
    } else {
        assert(seconds_wait_after(wait, earlier) == Some(wait));
    }
    assert(nows.last() == nows[nows.len() - 1]);
}

/// What becomes of a wait for frames in the last of some frames.
pub open spec fn frame_wait_after(wait: FrameWait, frames: nat) -> FrameTick
    decreases frames,
{
    if frames <= 1 {
        frame_tick(wait, false)
    } else {
        match frame_wait_after(wait, (frames - 1) as nat) {
            FrameTick::Kept(left) => frame_tick(left, false),
            ended => ended,
        }
    }
}

/// Law: a wait for some frames goes on through every frame but the last of them, in which it is
/// over. Where nobody waits any more it is dropped.
pub proof fn law_frame_waits_last_their_frames(wait: FrameWait, frames: nat)
    requires
        0 < frames <= wait.frames_left,
    ensures
        frames < wait.frames_left ==> frame_wait_after(wait, frames) == FrameTick::Kept(
            FrameWait { waiting: wait.waiting, frames_left: (wait.frames_left - frames) as u16 },
        ),
        frames == wait.frames_left ==> frame_wait_after(wait, frames) is Over,
        frame_tick(wait, true) is Dropped,
    decreases frames,
{
    if frames > 1 {
        law_frame_waits_last_their_frames(wait, (frames - 1) as nat);
    }
}

/// Law: a wait for virtual time that starts is measured from where the clock is then, for the time
/// and the frames that were asked for, and joins the end of the line.
pub proof fn law_virtual_waits_start_as_asked(
    t: TimingView,
    u: TimingView,
    s: ControlView,
    waiting: Waiting,
    requested: Span,
    max_frames: u16,
    elapsed: Option<Span>,
    r: TimingStep,
)
    requires
        seconds_agrees(t, u, s, waiting, requested, max_frames, elapsed, r),
    ensures
        r.strategy is None,
        r.reply is None <==> elapsed is Some && t.availability is Disabled,
        r.reply matches Some(reply) ==> u == t && !reply.response.ok && reply.ticket
            == waiting.ticket && reply.response.id == waiting.id,
        r.reply is None ==> {
            let wait = u.seconds_waits[t.seconds_waits.len() as int];
            &&& u.seconds_waits.len() == t.seconds_waits.len() + 1
            &&& u.seconds_waits.take(t.seconds_waits.len() as int) == t.seconds_waits
            &&& wait.waiting == waiting
            &&& wait.requested == requested
            &&& Some(wait.start) == elapsed
            &&& wait.max_frames == max_frames
            &&& wait.frames == 0
            &&& u.frame_waits == t.frame_waits
            &&& u.incoming == t.incoming
            &&& u.advance == t.advance
            &&& u.availability == t.availability
        },
{
    if r.reply is None {
        assert(u.seconds_waits.take(t.seconds_waits.len() as int) =~= t.seconds_waits);
    }
}

/// Law: the steps of an advance are the fewest that hold it: one step less would be too short.
pub proof fn law_steps_are_the_fewest(duration: Span, step: Span)
    requires
        step.nanos > 0,
    ensures
        commands::steps_needed(duration, step) * step.nanos >= duration.nanos,
        duration.nanos > 0 ==> (commands::steps_needed(duration, step) - 1) * step.nanos
            < duration.nanos,
        duration.nanos == 0 ==> commands::steps_needed(duration, step) == 0,
{
    let d = duration.nanos as int;
    let k = step.nanos as int;
    let q = (d + k - 1) / k;
    vstd::arithmetic::div_mod::lemma_fundamental_div_mod(d + k - 1, k);
    let m = (d + k - 1) % k;
    assert(q * k == k * q) by (nonlinear_arith);
    assert((q - 1) * k == k * q - k) by (nonlinear_arith);
    if d == 0 {
        vstd::arithmetic::div_mod::lemma_fundamental_div_mod_converse(k - 1, k, 0, k - 1);
    }
}

/// Law: an advance starts exactly where time stands still and can be advanced, no other advance is
/// under way, the clock runs at its own speed, a step is neither nothing nor longer than one frame
/// allows, and what is asked for fits in the steps and in the time that are allowed. It begins
/// where the clock is, with everything left to do.
pub proof fn law_advances_start_where_they_can(
    t: TimingView,
    u: TimingView,
    s: ControlView,
    waiting: Waiting,
    requested: Span,
    supplied: Option<Span>,
    clock: Option<VirtualClock>,
    fixed: Option<Span>,
    strategy: Option<Strategy>,
    max_steps: u16,
    max_advance: Span,
    r: TimingStep,
)
    requires
        advance_agrees(
            t,
            u,
            s,
            waiting,
            requested,
            supplied,
            clock,
            fixed,
            strategy,
            max_steps,
            max_advance,
            r,
        ),
        requested.nanos > 0,
    ensures
        r.reply is None <==> {
            &&& t.availability is Available
            &&& t.advance is None
            &&& clock is Some && fixed is Some
            &&& strategy == Some(Strategy::Manual(Span { nanos: 0 }))
            &&& !clock->Some_0.paused
            &&& clock->Some_0.unit_speed
            &&& requested.nanos <= max_advance.nanos
            &&& ({
                let step = if supplied is Some {
                    supplied->Some_0.nanos
                } else {
                    fixed->Some_0.nanos
                };
                let most = if max_steps == 0 {
                    1
                } else {
                    max_steps as int
                };
                0 < step && step <= clock->Some_0.max_delta.nanos && requested.nanos <= most * step
            })
        },
        r.reply is None ==> {
            &&& u.advance matches Some(a)
            &&& a.waiting == waiting
            &&& a.requested == requested
            &&& a.remaining == requested
            &&& a.start == clock->Some_0.elapsed
            &&& a.previous == clock->Some_0.elapsed
            &&& a.step_count == 0
            &&& a.admitted_frame == s.frame
            &&& Some(a.nominal_step) == (if supplied is Some {
                supplied
            } else {
                fixed
            })
            &&& a.current_step.nanos <= a.nominal_step.nanos
            &&& a.current_step.nanos <= requested.nanos
            &&& a.current_step == a.nominal_step || a.current_step == requested
            &&& r.strategy == Some(Strategy::Manual(a.current_step))
        },
        r.reply matches Some(reply) ==> u.advance == t.advance && r.strategy is None
            && !reply.response.ok && reply.ticket == waiting.ticket && reply.response.id
            == waiting.id,
        u.incoming == t.incoming && u.frame_waits == t.frame_waits && u.seconds_waits
            == t.seconds_waits,
{
    if clock is Some && fixed is Some {
        let step = if supplied is Some {
            supplied->Some_0
        } else {
            fixed->Some_0
        };
        let most = if max_steps == 0 {
            1
        } else {
            max_steps as int
        };
        if step.nanos > 0 {
            law_steps_are_the_fewest(requested, step);
            let n = commands::steps_needed(requested, step);
            let d = requested.nanos as int;
            let k = step.nanos as int;
            if n <= most {
                assert(d <= most * k) by (nonlinear_arith)
                    requires
                        n <= most,
                        k > 0,
                        n * k >= d,
                ;
            } else {
                assert(d > most * k) by (nonlinear_arith)
                    requires
                        n > most,
                        k > 0,
                        (n - 1) * k < d,
                ;
            }
        }
    }
}

/// Law: a frame counts for an advance only where its armed step was in force and the clock moved by
/// exactly that step. The time that was done and the time that is left together stay what was asked
/// for, and the advance is answered as done exactly where nothing is left. Anything else ends it.
pub proof fn law_armed_steps_are_consumed(
    t: TimingView,
    u: TimingView,
    s: ControlView,
    strategy: Option<Strategy>,
    elapsed: Option<Span>,
    canceled: bool,
    r: TimingStep,
)
    requires
        account_agrees(t, u, s, strategy, elapsed, canceled, r),
        t.advance is Some,
        advance_ok(t.advance->Some_0),
        t.advance->Some_0.admitted_frame != s.frame,
    ensures
        ({
            let a = t.advance->Some_0;
            let consumed = !canceled && strategy == Some(Strategy::Manual(a.current_step)) && (
            elapsed matches Some(now) && now.nanos == a.previous.nanos + a.current_step.nanos);
            &&& u.advance is Some <==> consumed && a.current_step.nanos < a.remaining.nanos
            &&& u.advance matches Some(b) ==> {
                &&& b.remaining.nanos + a.current_step.nanos == a.remaining.nanos
                &&& Some(b.previous) == elapsed
                &&& b.step_count == a.step_count + 1
                &&& b.requested == a.requested && b.start == a.start && b.waiting == a.waiting
                &&& b.nominal_step == a.nominal_step
                &&& r.reply is None && r.strategy == Some(Strategy::Manual(b.current_step))
                &&& u.availability == t.availability
            }
            &&& (r.reply is Some && r.reply->Some_0.response.ok) <==> consumed
                && a.current_step.nanos == a.remaining.nanos
            &&& r.reply is Some && r.reply->Some_0.response.ok ==> {
                &&& r.reply->Some_0.response.result matches Some(result)
                &&& result.status == "advanced_time"
                &&& result.details matches Some(Details::Timing(told))
                &&& told.start == a.start
                &&& Some(told.end) == elapsed
                &&& told.end.nanos - told.start.nanos == a.requested.nanos
                &&& told.actual == a.requested
                &&& told.step_count == a.step_count + 1
                &&& u.availability == t.availability
            }
            &&& r.reply matches Some(reply) ==> reply.ticket == a.waiting.ticket
                && reply.response.id == a.waiting.id
            &&& !consumed && !canceled ==> r.reply is Some && !r.reply->Some_0.response.ok
                && u.availability is Unavailable
            &&& canceled ==> r.reply is None
        }),
{
    let a = t.advance->Some_0;
    law_advance_stays_accounted(a, s.frame, strategy, elapsed, canceled);
    law_advance_is_exact(a, s.frame, strategy, elapsed, canceled);
    lemma_steps_left(
        a.requested.nanos as int,
        a.nominal_step.nanos as int,
        a.step_count as int,
        a.remaining.nanos as int,
    );
}

/// Law: a timing request joins the end of the line, or is refused with the line as it was; it is
/// refused exactly where as many timing requests are under way as are allowed, and one always is.
pub proof fn law_timing_requests_join_the_line(
    t: TimingView,
    u: TimingView,
    request: AgentRequest,
    limit: usize,
    r: Option<Reply>,
)
    requires
        enqueue_agrees(t, u, request, limit, r),
    ensures
        ({
            let pending = t.incoming.len() + t.frame_waits.len() + t.seconds_waits.len() + (
            if t.advance is Some {
                1int
            } else {
                0int
            });
            &&& r is Some <==> pending >= limit && pending >= 1
            &&& r matches Some(reply) ==> u == t && !reply.response.ok && reply.ticket
                == request.ticket && reply.response.id == request.id && (
            reply.response.error matches Some(error) && error.code == "queue_full")
            &&& r is None ==> u.incoming.len() == t.incoming.len() + 1 && u.incoming.last()
                == request && u.incoming.drop_last() == t.incoming && u.frame_waits
                == t.frame_waits && u.seconds_waits == t.seconds_waits && u.advance == t.advance
                && u.availability == t.availability
        }),
{
    if r is None {
        assert(u.incoming.drop_last() =~= t.incoming);
    }
}

/// Law: requests are looked at in the order in which they came. A wait for frames starts with the
/// frames that were asked for, a wait for virtual time starts at the clock, and an advance is
/// started with the length and the step that were asked for; one that was given up leaves no trace.
pub proof fn law_timing_requests_start_as_asked(
    t: TimingView,
    u: TimingView,
    s: ControlView,
    canceled: bool,
    clock: Option<VirtualClock>,
    fixed: Option<Span>,
    strategy: Option<Strategy>,
    max_steps: u16,
    max_advance: Span,
    r: TimingStep,
)
    requires
        t.wf(),
        t.incoming.len() > 0,
        admit_agrees(
            t,
            u,
            s,
            canceled,
            clock,
            fixed,
            strategy,
            max_steps,
            max_advance,
            r,
        ),
    ensures
        u.incoming.len() == t.incoming.len() - 1,
        forall|i: int| 0 <= i < u.incoming.len() ==> #[trigger] u.incoming[i] == t.incoming[i + 1],
        canceled ==> u.frame_waits == t.frame_waits && u.seconds_waits == t.seconds_waits
            && u.advance == t.advance && r.reply is None && r.strategy is None,
        !canceled ==> match t.incoming[0].command {
            AgentCommand::Wait { frames } => {
                &&& r.reply is None && r.strategy is None
                &&& u.frame_waits.len() == t.frame_waits.len() + 1
                &&& u.frame_waits.drop_last() == t.frame_waits
                &&& u.frame_waits.last().frames_left == frames
                &&& u.frame_waits.last().waiting.id == t.incoming[0].id
                &&& u.frame_waits.last().waiting.ticket == t.incoming[0].ticket
                &&& u.seconds_waits == t.seconds_waits && u.advance == t.advance
            },
            AgentCommand::WaitSeconds { duration, max_frames } => {
                &&& u.frame_waits == t.frame_waits && u.advance == t.advance
                &&& r.reply is None <==> clock is Some && t.availability is Disabled
                &&& r.reply is None ==> u.seconds_waits == t.seconds_waits.push(
                    SecondsWait {
                        waiting: Waiting { id: t.incoming[0].id, ticket: t.incoming[0].ticket },
                        requested: duration,
                        start: clock->Some_0.elapsed,
                        max_frames,
                        frames: 0,
                    },
                )
                &&& r.reply is Some ==> u.seconds_waits == t.seconds_waits
            },
            AgentCommand::AdvanceTime { duration, step } => {
                &&& u.frame_waits == t.frame_waits && u.seconds_waits == t.seconds_waits
                &&& u.advance matches Some(a) ==> t.advance == Some(a) || (a.requested == duration
                    && a.waiting.id == t.incoming[0].id && a.waiting.ticket
                    == t.incoming[0].ticket && Some(a.start) == (match clock {
                    Some(time) => Some(time.elapsed),
                    None => None,
                }) && (step matches Some(given) ==> a.nominal_step == given))
                &&& r.reply is None ==> t.advance is None && u.advance is Some
            },
            _ => false,
        },
{
    assert(timing_command(t.incoming[0].command));
    if !canceled && t.incoming[0].command is Wait {
        assert(u.frame_waits.drop_last() =~= t.frame_waits);
    }
}

/// Law: frames count for the waits in turn. The first wait for frames is answered in the frame that
/// is its last, goes to the end of the line with one frame less before that, and the others are as
/// they were.
pub proof fn law_frame_waits_take_turns(
    t: TimingView,
    u: TimingView,
    s: ControlView,
    canceled: bool,
    r: Option<Reply>,
)
    requires
        t.frame_waits.len() > 0,
        frame_wait_agrees(t, u, s, canceled, r),
    ensures
        ({
            let n = t.frame_waits.len();
            let first = t.frame_waits[0];
            &&& r is Some <==> !canceled && first.frames_left <= 1
            &&& r matches Some(reply) ==> reply.response.ok && reply.ticket
                == first.waiting.ticket && reply.response.id == first.waiting.id && (
            reply.response.result matches Some(result) && result.status == "waited"
                && result.details is None)
            &&& u.frame_waits.len() == (if r is Some || canceled {
                n - 1
            } else {
                n as int
            })
            &&& forall|i: int| 0 <= i < n - 1 ==> #[trigger] u.frame_waits[i] == t.frame_waits[i + 1]
            &&& r is None && !canceled ==> u.frame_waits[n - 1].waiting == first.waiting
                && u.frame_waits[n - 1].frames_left + 1 == first.frames_left
            &&& u.seconds_waits == t.seconds_waits && u.incoming == t.incoming && u.advance
                == t.advance && u.availability == t.availability
        }),
{
}

/// Law: frames count for the waits for virtual time in turn. The first of them is answered where the
/// clock has moved far enough since it began, or where its frames are used up; until then it goes to
/// the end of the line with one frame more counted, and the others are as they were.
pub proof fn law_virtual_waits_take_turns(
    t: TimingView,
    u: TimingView,
    s: ControlView,
    elapsed: Option<Span>,
    canceled: bool,
    r: Option<Reply>,
)
    requires
        t.seconds_waits.len() > 0,
        seconds_wait_agrees(t, u, s, elapsed, canceled, r),
    ensures
        ({
            let n = t.seconds_waits.len();
            let first = t.seconds_waits[0];
            &&& (r is Some && r->Some_0.response.ok) <==> !canceled && elapsed is Some && (
            elapsed->Some_0.nanos - first.start.nanos >= first.requested.nanos
                || first.requested.nanos == 0)
            &&& r matches Some(reply) ==> reply.ticket == first.waiting.ticket
                && reply.response.id == first.waiting.id
            &&& u.seconds_waits.len() == (if r is Some || canceled {
                n - 1
            } else {
                n as int
            })
            &&& forall|i: int|
                0 <= i < n - 1 ==> #[trigger] u.seconds_waits[i] == t.seconds_waits[i + 1]
            &&& r is None && !canceled ==> ({
                let kept = u.seconds_waits[n - 1];
                &&& kept.waiting == first.waiting && kept.requested == first.requested
                &&& kept.start == first.start && kept.max_frames == first.max_frames
                &&& kept.frames == first.frames + 1 || kept.frames == first.frames == u16::MAX
            })
            &&& u.frame_waits == t.frame_waits && u.incoming == t.incoming && u.advance
                == t.advance && u.availability == t.availability
        }),
{
}

/// Law: an advance goes on at the start of a frame exactly where somebody waits for it and its armed
/// step is in force. Otherwise it ends, unanswered where nobody waits, and time is frozen again.
/// Without an advance, frozen time that somebody else has set going is frozen again and given up.
pub proof fn law_only_the_armed_step_goes_on(
    t: TimingView,
    u: TimingView,
    s: ControlView,
    strategy: Option<Strategy>,
    canceled: bool,
    r: TimingStep,
)
    requires
        guard_agrees(t, u, s, strategy, canceled, r),
    ensures
        t.advance matches Some(a) ==> {
            &&& u.advance == (if !canceled && strategy == Some(Strategy::Manual(a.current_step)) {
                Some(a)
            } else {
                None
            })
            &&& u.advance is Some ==> r.reply is None && r.strategy is None && u == t
            &&& u.advance is None && strategy is Some ==> r.strategy == Some(
                Strategy::Manual(Span { nanos: 0 }),
            )
            &&& r.reply is Some <==> u.advance is None && !canceled
            &&& r.reply matches Some(reply) ==> !reply.response.ok && reply.ticket
                == a.waiting.ticket && reply.response.id == a.waiting.id
            &&& u.availability is Unavailable || u.availability == t.availability
            &&& r.reply is Some ==> u.availability is Unavailable
        },
        t.advance is None ==> {
            &&& u.advance is None && r.reply is None
            &&& t.availability is Available ==> (u.availability is Available <==> strategy == Some(
                Strategy::Manual(Span { nanos: 0 }),
            ))
            &&& !(t.availability is Available) ==> u == t && r.strategy is None
            &&& t.availability is Available && strategy is Some && !(u.availability is Available)
                ==> r.strategy == Some(Strategy::Manual(Span { nanos: 0 }))
        },
        u.incoming == t.incoming && u.frame_waits == t.frame_waits && u.seconds_waits
            == t.seconds_waits,
{
}

/// Law: time can be advanced exactly where that was asked for, the time plugin and its resources are
/// there, and nobody else has set time going by hand.
pub proof fn law_time_control_needs_its_time(
    deterministic: bool,
    time_plugin: bool,
    resources: bool,
    strategy: Strategy,
)
    ensures
        configured(deterministic, time_plugin, resources, strategy) is Disabled <==> !deterministic,
        configured(deterministic, time_plugin, resources, strategy) is Available <==> deterministic
            && time_plugin && resources && (strategy == Strategy::Automatic || strategy
            == Strategy::Manual(Span { nanos: 0 })),
{
}

} // verus!
