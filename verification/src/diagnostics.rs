//! Diagnostics: the queue of diagnostic requests, waits for predicates, and the bounded answers.
use crate::actions;
use crate::captures::Reply;
use crate::commands::Predicate;
use crate::control::{AgentFeedbackState, AgentRequest, ControlView, ResolvedClick};
use crate::control;
use crate::evaluate;
use crate::json::{json_text, json_texts, Json, JsonNumber, JsonValue, ObjectBuilder};
use crate::json;
use crate::registry::{DiagnosticFailure, PredicateRegistry};
use crate::registry;
use crate::responses::{
    copy_capture, AgentErrorContext, AgentResponse, Details, DiagnosticErrorContext,
    EcsSummaryContext, ObservedPredicate, PredicateOutcome, WindowInfo,
};
use crate::text::{cat3, decimal};
use crate::text;
use std::collections::VecDeque;
use vstd::prelude::*;

verus! {

/// The most entities that an answer counts.
pub const MAX_DIAGNOSTIC_ENTITIES: usize = 256;

/// The most cameras that an answer names.
pub const MAX_DIAGNOSTIC_CAMERAS: usize = 32;

/// A wait for a predicate.
pub struct PendingWait {
    /// What the request is known by.
    pub id: Json,
    /// Which caller waits for the answer.
    pub ticket: u64,
    /// The predicate.
    pub predicate: Predicate,
    /// The predicates of which none may hold meanwhile.
    pub abort_predicates: Vec<Predicate>,
    /// The evaluations after which the wait fails.
    pub max_frames: u16,
    /// The evaluations since the first one.
    pub future_evaluations: u16,
}

/// The queue of diagnostic requests.
pub struct AgentDiagnosticsQueue {
    /// Requests that were not looked at yet.
    pub requests: VecDeque<AgentRequest>,
    /// Waits for predicates.
    pub waits: VecDeque<PendingWait>,
    /// Clicks on targets that were found.
    pub resolved_clicks: VecDeque<ResolvedClick>,
    /// The most of all of them.
    pub capacity: usize,
}

/// What the queue of diagnostic requests is.
pub struct QueueView {
    /// Requests that were not looked at yet.
    pub requests: Seq<AgentRequest>,
    /// Waits for predicates.
    pub waits: Seq<PendingWait>,
    /// Clicks on targets that were found.
    pub clicks: Seq<ResolvedClick>,
    /// The most of all of them.
    pub capacity: usize,
}

impl View for AgentDiagnosticsQueue {
    type V = QueueView;

    open spec fn view(&self) -> QueueView {
        QueueView {
            requests: self.requests@,
            waits: self.waits@,
            clicks: self.resolved_clicks@,
            capacity: self.capacity,
        }
    }
}

impl QueueView {
    /// Everything that is pending.
    pub open spec fn total(self) -> nat {
        self.requests.len() + self.waits.len() + self.clicks.len()
    }
}

/// The texts in a list of values.
pub open spec fn texts_in(items: Seq<Json>) -> Seq<String>
    decreases items.len(),
{
    if items.len() == 0 {
        Seq::empty()
    } else {
        match items.last() {
            Json::Text(s) => texts_in(items.drop_last()).push(s),
            _ => texts_in(items.drop_last()),
        }
    }
}

/// The first texts of a list under a name.
pub open spec fn texts_under(details: Json, name: Seq<char>, limit: int) -> Seq<String> {
    match details.spec_get(name) {
        Some(Json::Array(items)) => {
            let texts = texts_in(items@);
            if texts.len() > limit {
                texts.take(limit)
            } else {
                texts
            }
        },
        _ => Seq::empty(),
    }
}

proof fn lemma_texts_prefix(items: Seq<Json>, n: int)
    requires
        0 <= n <= items.len(),
    ensures
        texts_in(items.take(n)).len() <= texts_in(items).len(),
        texts_in(items.take(n)) == texts_in(items).take(texts_in(items.take(n)).len() as int),
    decreases items.len() - n,
{
    if n == items.len() {
        assert(items.take(n) =~= items);
        assert(texts_in(items).take(texts_in(items).len() as int) =~= texts_in(items));
    } else {
        lemma_texts_prefix(items, n + 1);
        assert(items.take(n + 1).drop_last() =~= items.take(n));
        let a = texts_in(items.take(n));
        let b = texts_in(items.take(n + 1));
        assert(a =~= b.take(a.len() as int));
        assert(b.take(a.len() as int) =~= texts_in(items).take(a.len() as int));
    }
}

fn read_texts(details: &Json, name: &str, limit: usize) -> (r: Vec<String>)
    ensures
        r@ == texts_under(*details, name@, limit as int),
{
    let mut r: Vec<String> = Vec::new();
    match details.get(name) {
        Some(Json::Array(items)) => {
            let mut i: usize = 0;
            assert(items@.take(0) =~= Seq::<Json>::empty());
            while i < items.len() && r.len() < limit
                invariant
                    i <= items@.len(),
                    r@.len() <= limit,
                    r@ == texts_in(items@.take(i as int)),
                decreases items@.len() - i,
            {
                proof {
                    assert(items@.take(i + 1).drop_last() =~= items@.take(i as int));
                    assert(items@.take(i + 1).last() == items@[i as int]);
                }
                if let Json::Text(s) = &items[i] {
                    r.push(s.clone());
                }
                i = i + 1;
            }
            proof {
                lemma_texts_prefix(items@, i as int);
                assert(items@.take(items@.len() as int) =~= items@);
                if r@.len() == limit && texts_in(items@).len() == limit {
                    assert(texts_in(items@).take(limit as int) =~= texts_in(items@));
                }
            }
            r
        },
        _ => r,
    }
}

/// The text under a name.
pub open spec fn text_under(details: Json, name: Seq<char>) -> Option<String> {
    match details.spec_get(name) {
        Some(Json::Text(s)) => Some(s),
        _ => None,
    }
}

fn read_text(details: &Json, name: &str) -> (r: Option<String>)
    ensures
        r == text_under(*details, name@),
{
    match details.get(name) {
        Some(Json::Text(s)) => Some(s.clone()),
        _ => None,
    }
}

/// The number under a name, where it fits.
pub open spec fn size_under(details: Json, name: Seq<char>) -> Option<usize> {
    match details.spec_get(name) {
        Some(Json::Number(JsonNumber::Unsigned(n))) => if n <= usize::MAX {
            Some(n as usize)
        } else {
            None
        },
        _ => None,
    }
}

/// The context `r` is the bounded part of the details of a failure.
pub open spec fn bounded_agrees(details: Json, r: DiagnosticErrorContext) -> bool {
    let registered = texts_under(details, "registered"@, 128);
    &&& r.reason == text_under(details, "reason"@)
    &&& r.entity == text_under(details, "entity"@)
    &&& r.resource == text_under(details, "resource"@)
    &&& r.field == text_under(details, "field"@)
    &&& r.limit == size_under(details, "limit"@)
    &&& r.candidates@ == texts_under(details, "candidates"@, 16)
    &&& r.registered@ == registered + texts_under(
        details,
        "registered_fields"@,
        128 - registered.len(),
    )
}

/// Takes the bounded part out of the details of a failure.
pub fn bounded_diagnostic_details(details: &Json) -> (r: DiagnosticErrorContext)
    ensures
        bounded_agrees(*details, r),
{
    let mut registered = read_texts(details, "registered", 128);
    let ghost first = registered@;
    assert(first.len() <= 128);
    let mut fields = read_texts(details, "registered_fields", 128 - registered.len());
    registered.append(&mut fields);
    let limit = match details.get("limit") {
        Some(Json::Number(JsonNumber::Unsigned(n))) => if *n <= usize::MAX as u64 {
            Some(*n as usize)
        } else {
            None
        },
        _ => None,
    };
    DiagnosticErrorContext {
        reason: read_text(details, "reason"),
        entity: read_text(details, "entity"),
        resource: read_text(details, "resource"),
        field: read_text(details, "field"),
        limit,
        candidates: read_texts(details, "candidates", 16),
        registered,
    }
}

/// Law: an answer names at most sixteen candidates and at most 128 registrations.
pub proof fn law_diagnostic_details_are_bounded(details: Json, r: DiagnosticErrorContext)
    requires
        bounded_agrees(details, r),
    ensures
        r.candidates@.len() <= 16,
        r.registered@.len() <= 128,
{
}

/// The response `r` is the failure of a diagnostic.
pub open spec fn diagnostic_fails(id: Json, e: DiagnosticFailure, r: AgentResponse) -> bool {
    &&& r.is_error(id, e.code, e.message@)
    &&& r.error->Some_0.context matches Some(context)
    &&& context.latest_capture is None
    &&& context.snapshot is None
    &&& context.observed_predicate is None
    &&& context.ecs_summary is None
    &&& context.timing is None
    &&& context.diagnostic matches Some(d)
    &&& bounded_agrees(e.details, d)
}

/// Answers with the failure of a diagnostic.
pub fn diagnostic_error(id: Json, e: DiagnosticFailure) -> (r: AgentResponse)
    ensures
        diagnostic_fails(id, e, r),
{
    let mut context = AgentErrorContext::empty();
    context.diagnostic = Some(bounded_diagnostic_details(&e.details));
    AgentResponse::contextual_error(id, e.code, e.message.to_owned(), context)
}

/// What the application looks like when a wait is judged.
pub struct Scene {
    /// The window.
    pub window: Option<WindowInfo>,
    /// The size of the world.
    pub ecs: EcsSummaryContext,
}

/// The response `r` is a failure with an observation and the scene.
pub open spec fn observation_fails(
    s: ControlView,
    scene: Scene,
    id: Json,
    code: &'static str,
    message: Seq<char>,
    observed: ObservedPredicate,
    r: AgentResponse,
) -> bool {
    &&& r.is_error(id, code, message)
    &&& r.error->Some_0.context matches Some(context)
    &&& context.latest_capture == s.latest_capture
    &&& context.observed_predicate == Some(observed)
    &&& context.ecs_summary == Some(scene.ecs)
    &&& context.timing is None
    &&& context.diagnostic is None
    &&& context.snapshot matches Some(snapshot)
    &&& control::shows(s, scene.window, snapshot)
}

fn observation_error(
    state: &AgentFeedbackState,
    scene: &Scene,
    id: Json,
    code: &'static str,
    message: String,
    observed: ObservedPredicate,
) -> (r: AgentResponse)
    requires
        state@.wf(),
    ensures
        observation_fails(state@, *scene, id, code, message@, observed, r),
{
    let mut context = AgentErrorContext::empty();
    context.latest_capture = copy_capture(&state.latest_capture);
    context.snapshot = Some(state.snapshot(scene.window));
    context.observed_predicate = Some(observed);
    context.ecs_summary = Some(scene.ecs);
    AgentResponse::contextual_error(id, code, message, context)
}

fn observation_answer(
    state: &AgentFeedbackState,
    scene: &Scene,
    id: Json,
    status: &'static str,
    observed: ObservedPredicate,
) -> (r: AgentResponse)
    requires
        state@.wf(),
    ensures
        actions::reports(state@, id, status, scene.window, Some(Details::Observation(observed)), r),
{
    AgentResponse::details_with_context(
        id,
        status,
        copy_capture(&state.latest_capture),
        state.snapshot(scene.window),
        Details::Observation(observed),
    )
}

/// What evaluating a predicate gave.
pub type Evaluation = Result<ObservedPredicate, DiagnosticFailure>;

/// The first abort predicate that holds, or the first failure, whichever comes first.
pub open spec fn abort_verdict(list: Seq<Evaluation>) -> Result<
    Option<ObservedPredicate>,
    DiagnosticFailure,
>
    decreases list.len(),
{
    if list.len() == 0 {
        Ok(None)
    } else {
        match list[0] {
            Err(e) => Err(e),
            Ok(observed) => if observed.outcome is Matched {
                Ok(Some(observed))
            } else {
                abort_verdict(list.skip(1))
            },
        }
    }
}

/// Finds the first abort predicate that holds, or the first failure.
pub fn matching_abort(list: Vec<Evaluation>) -> (r: Result<
    Option<ObservedPredicate>,
    DiagnosticFailure,
>)
    ensures
        r == abort_verdict(list@),
{
    let mut rest = list;
    while rest.len() > 0
        invariant
            abort_verdict(list@) == abort_verdict(rest@),
        decreases rest@.len(),
    {
        let ghost before = rest@;
        let first = rest.remove(0);
        assert(rest@ =~= before.skip(1));
        match first {
            Err(e) => return Err(e),
            Ok(observed) => {
                if matches!(observed.outcome, PredicateOutcome::Matched) {
                    return Ok(Some(observed));
                }
            },
        }
    }
    Ok(None)
}

/// What an evaluation makes of a wait.
pub enum WaitVerdict {
    /// The predicate holds.
    Matched(ObservedPredicate),
    /// An abort predicate holds.
    Aborted(ObservedPredicate),
    /// The evaluations are used up.
    TimedOut(ObservedPredicate),
    /// The wait goes on.
    GoesOn,
    /// Something could not be evaluated.
    Failed(DiagnosticFailure),
}

/// What an evaluation makes of a wait; `last` says that no more evaluations are allowed.
pub open spec fn wait_verdict(
    observed: Evaluation,
    aborts: Seq<Evaluation>,
    last: bool,
) -> WaitVerdict {
    match observed {
        Err(e) => WaitVerdict::Failed(e),
        Ok(seen) => if seen.outcome is Matched {
            WaitVerdict::Matched(seen)
        } else {
            match abort_verdict(aborts) {
                Err(e) => WaitVerdict::Failed(e),
                Ok(Some(abort)) => WaitVerdict::Aborted(abort),
                Ok(None) => if last {
                    WaitVerdict::TimedOut(seen)
                } else {
                    WaitVerdict::GoesOn
                },
            }
        },
    }
}

fn judge_wait(observed: Evaluation, aborts: Vec<Evaluation>, last: bool) -> (r: WaitVerdict)
    ensures
        r == wait_verdict(observed, aborts@, last),
{
    match observed {
        Err(e) => WaitVerdict::Failed(e),
        Ok(seen) => {
            if matches!(seen.outcome, PredicateOutcome::Matched) {
                return WaitVerdict::Matched(seen);
            }
            match matching_abort(aborts) {
                Err(e) => WaitVerdict::Failed(e),
                Ok(Some(abort)) => WaitVerdict::Aborted(abort),
                Ok(None) => if last {
                    WaitVerdict::TimedOut(seen)
                } else {
                    WaitVerdict::GoesOn
                },
            }
        },
    }
}

/// What is said where a predicate never held.
pub open spec fn timeout_message(max_frames: u16) -> Seq<char> {
    "predicate did not match after exactly "@ + text::digits(max_frames as nat)
        + " future evaluations"@
}

/// The reply `r` is what a verdict on a wait comes to.
pub open spec fn verdict_reply(
    s: ControlView,
    scene: Scene,
    id: Json,
    ticket: u64,
    max_frames: u16,
    verdict: WaitVerdict,
    r: Option<Reply>,
) -> bool {
    match verdict {
        WaitVerdict::GoesOn => r is None,
        WaitVerdict::Matched(observed) => r matches Some(reply) && reply.ticket == ticket && actions::reports(
            s,
            id,
            "predicate_matched",
            scene.window,
            Some(Details::Observation(observed)),
            reply.response,
        ),
        WaitVerdict::Aborted(observed) => r matches Some(reply) && reply.ticket == ticket
            && observation_fails(
            s,
            scene,
            id,
            "predicate_aborted",
            "abort predicate matched"@,
            observed,
            reply.response,
        ),
        WaitVerdict::TimedOut(observed) => r matches Some(reply) && reply.ticket == ticket
            && observation_fails(
            s,
            scene,
            id,
            "predicate_timeout",
            timeout_message(max_frames),
            observed,
            reply.response,
        ),
        WaitVerdict::Failed(e) => r matches Some(reply) && reply.ticket == ticket
            && diagnostic_fails(id, e, reply.response),
    }
}

/// The wait with one more evaluation counted.
pub open spec fn one_evaluation_more(wait: PendingWait) -> PendingWait {
    PendingWait {
        future_evaluations: if wait.future_evaluations == u16::MAX {
            u16::MAX
        } else {
            (wait.future_evaluations + 1) as u16
        },
        ..wait
    }
}

/// A call that judges the first wait of a queue: the queue before and after it, what it was given,
/// and its reply.
pub struct WaitCall {
    /// The queue before the call.
    pub before: QueueView,
    /// The queue after the call.
    pub after: QueueView,
    /// The state of the application.
    pub state: ControlView,
    /// What the application looks like.
    pub scene: Scene,
    /// Whether nobody waits for the answer any more.
    pub canceled: bool,
    /// What evaluating the predicate gave.
    pub observed: Evaluation,
    /// What evaluating the abort predicates gave.
    pub aborts: Seq<Evaluation>,
    /// The reply.
    pub reply: Option<Reply>,
}

/// The call judges the first wait of the queue after one more evaluation. A wait that nobody waits
/// for is dropped; one without a verdict goes to the back.
pub open spec fn wait_judged(call: WaitCall) -> bool {
    let wait = one_evaluation_more(call.before.waits[0]);
    let rest = QueueView { waits: call.before.waits.skip(1), ..call.before };
    let verdict = wait_verdict(
        call.observed,
        call.aborts,
        wait.future_evaluations == wait.max_frames,
    );
    if call.canceled {
        call.after == rest && call.reply is None
    } else {
        &&& verdict_reply(
            call.state,
            call.scene,
            wait.id,
            wait.ticket,
            wait.max_frames,
            verdict,
            call.reply,
        )
        &&& call.after == (if verdict is GoesOn {
            QueueView { waits: rest.waits.push(wait), ..rest }
        } else {
            rest
        })
    }
}

fn answer_verdict(
    state: &AgentFeedbackState,
    scene: &Scene,
    id: Json,
    ticket: u64,
    max_frames: u16,
    verdict: WaitVerdict,
) -> (r: Option<Reply>)
    requires
        state@.wf(),
    ensures
        verdict_reply(state@, *scene, id, ticket, max_frames, verdict, r),
{
    let response = match verdict {
        WaitVerdict::GoesOn => return None,
        WaitVerdict::Matched(observed) => observation_answer(
            state,
            scene,
            id,
            "predicate_matched",
            observed,
        ),
        WaitVerdict::Aborted(observed) => observation_error(
            state,
            scene,
            id,
            "predicate_aborted",
            "abort predicate matched".to_owned(),
            observed,
        ),
        WaitVerdict::TimedOut(observed) => {
            let message = cat3(
                "predicate did not match after exactly ",
                decimal(max_frames as u128).as_str(),
                " future evaluations",
            );
            observation_error(state, scene, id, "predicate_timeout", message, observed)
        },
        WaitVerdict::Failed(e) => diagnostic_error(id, e),
    };
    Some(Reply { ticket, response })
}

/// What taking a request in does: it joins the line, or is refused where too much is pending.
pub open spec fn enqueue_agrees(
    p: QueueView,
    q: QueueView,
    request: AgentRequest,
    max_requests: usize,
    r: Option<Reply>,
) -> bool {
    &&& q.capacity == (if max_requests == 0 {
        1
    } else {
        max_requests
    })
    &&& if p.total() >= q.capacity {
        &&& q == (QueueView { capacity: q.capacity, ..p })
        &&& r matches Some(reply)
        &&& reply.ticket == request.ticket
        &&& reply.response.is_error(
            request.id,
            "queue_full",
            "diagnostics requests, waits, and resolved clicks reached max_pending_commands"@,
        )
    } else {
        &&& q == (QueueView {
            requests: p.requests.push(request),
            capacity: q.capacity,
            ..p
        })
        &&& r is None
        &&& q.total() <= q.capacity
    }
}

/// What starting a wait for a predicate does: it is answered at once, or joins the line.
pub open spec fn start_agrees(
    p: QueueView,
    q: QueueView,
    s: ControlView,
    scene: Scene,
    wait: PendingWait,
    observed: Evaluation,
    aborts: Seq<Evaluation>,
    r: Option<Reply>,
) -> bool {
    let verdict = wait_verdict(observed, aborts, false);
    &&& verdict_reply(s, scene, wait.id, wait.ticket, wait.max_frames, verdict, r)
    &&& q == (if verdict is GoesOn {
        QueueView { waits: p.waits.push(wait), ..p }
    } else {
        p
    })
}

impl AgentDiagnosticsQueue {
    /// An empty queue for one request.
    pub fn new() -> (r: AgentDiagnosticsQueue)
        ensures
            r@ == (QueueView {
                requests: Seq::empty(),
                waits: Seq::empty(),
                clicks: Seq::empty(),
                capacity: 1,
            }),
    {
        AgentDiagnosticsQueue {
            requests: VecDeque::new(),
            waits: VecDeque::new(),
            resolved_clicks: VecDeque::new(),
            capacity: 1,
        }
    }

    /// Takes a request in, or refuses it where too much is pending.
    pub fn enqueue(&mut self, request: AgentRequest, max_requests: usize) -> (r: Option<Reply>)
        ensures
            enqueue_agrees(old(self)@, final(self)@, request, max_requests, r),
    {
        self.capacity = if max_requests == 0 {
            1
        } else {
            max_requests
        };
        let total: usize = self.requests.len().saturating_add(self.waits.len()).saturating_add(
            self.resolved_clicks.len(),
        );
        if total >= self.capacity {
            return Some(
                Reply {
                    ticket: request.ticket,
                    response: AgentResponse::failed(
                        request.id,
                        "queue_full",
                        "diagnostics requests, waits, and resolved clicks reached max_pending_commands".to_owned(),
                    ),
                },
            );
        }
        self.requests.push_back(request);
        None
    }

    /// Takes out the first click on a target that was found.
    pub fn pop_resolved_click(&mut self) -> (r: Option<ResolvedClick>)
        ensures
            match r {
                Some(click) => old(self)@.clicks.len() > 0 && click == old(self)@.clicks[0]
                    && final(self)@ == (QueueView {
                    clicks: old(self)@.clicks.skip(1),
                    ..old(self)@
                }),
                None => old(self)@.clicks.len() == 0 && final(self)@ == old(self)@,
            },
    {
        let ghost q = self@;
        let r = self.resolved_clicks.pop_front();
        if r.is_some() {
            assert(self@.clicks =~= q.clicks.skip(1));
        }
        r
    }

    /// Judges the first wait after one more evaluation. A wait that nobody waits for is dropped;
    /// one without a verdict goes to the back.
    pub fn evaluate_pending_wait(
        &mut self,
        state: &AgentFeedbackState,
        scene: &Scene,
        canceled: bool,
        observed: Evaluation,
        aborts: Vec<Evaluation>,
    ) -> (r: Option<Reply>)
        requires
            state@.wf(),
            old(self)@.waits.len() > 0,
        ensures
            wait_judged(
                WaitCall {
                    before: old(self)@,
                    after: final(self)@,
                    state: state@,
                    scene: *scene,
                    canceled,
                    observed,
                    aborts: aborts@,
                    reply: r,
                },
            ),
    {
        let ghost q = self@;
        let mut wait = match self.waits.pop_front() {
            Some(wait) => wait,
            None => return None,
        };
        assert(self@.waits =~= q.waits.skip(1));
        if canceled {
            return None;
        }
        wait.future_evaluations = wait.future_evaluations.saturating_add(1);
        let verdict = judge_wait(observed, aborts, wait.future_evaluations == wait.max_frames);
        if matches!(verdict, WaitVerdict::GoesOn) {
            self.waits.push_back(wait);
            return None;
        }
        answer_verdict(state, scene, wait.id, wait.ticket, wait.max_frames, verdict)
    }

    /// Starts a wait for a predicate: the first evaluation counts as none of the waited ones.
    pub fn start_wait(
        &mut self,
        state: &AgentFeedbackState,
        scene: &Scene,
        wait: PendingWait,
        observed: Evaluation,
        aborts: Vec<Evaluation>,
    ) -> (r: Option<Reply>)
        requires
            state@.wf(),
            wait.future_evaluations == 0,
        ensures
            start_agrees(
                old(self)@,
                final(self)@,
                state@,
                *scene,
                wait,
                observed,
                aborts@,
                r,
            ),
    {
        let verdict = judge_wait(observed, aborts, false);
        if matches!(verdict, WaitVerdict::GoesOn) {
            self.waits.push_back(wait);
            return None;
        }
        answer_verdict(state, scene, wait.id, wait.ticket, wait.max_frames, verdict)
    }

    /// Keeps a click on a target that was found until input control takes it.
    pub fn push_resolved_click(&mut self, click: ResolvedClick)
        ensures
            final(self)@ == (QueueView { clicks: old(self)@.clicks.push(click), ..old(self)@ }),
    {
        self.resolved_clicks.push_back(click);
    }
}

/// The response `r` shows what an evaluation gave.
pub open spec fn evaluation_answered(
    s: ControlView,
    scene: Scene,
    id: Json,
    observed: Evaluation,
    r: AgentResponse,
) -> bool {
    match observed {
        Ok(seen) => actions::reports(
            s,
            id,
            "predicate_evaluated",
            scene.window,
            Some(Details::Observation(seen)),
            r,
        ),
        Err(e) => diagnostic_fails(id, e, r),
    }
}

/// Answers an evaluation that was asked for once.
pub fn answer_evaluation(
    state: &AgentFeedbackState,
    scene: &Scene,
    id: Json,
    ticket: u64,
    observed: Evaluation,
) -> (r: Reply)
    requires
        state@.wf(),
    ensures
        r.ticket == ticket,
        evaluation_answered(state@, *scene, id, observed, r.response),
{
    let response = match observed {
        Ok(seen) => observation_answer(state, scene, id, "predicate_evaluated", seen),
        Err(e) => diagnostic_error(id, e),
    };
    Reply { ticket, response }
}

/// The abort predicates were evaluated, and none holds.
pub open spec fn none_holds(aborts: Seq<Evaluation>) -> bool {
    forall|i: int|
        0 <= i < aborts.len() ==> (#[trigger] aborts[i] matches Ok(seen) && !(
        seen.outcome is Matched))
}

proof fn lemma_none_holds(aborts: Seq<Evaluation>)
    requires
        none_holds(aborts),
    ensures
        abort_verdict(aborts) == Ok::<Option<ObservedPredicate>, DiagnosticFailure>(None),
    decreases aborts.len(),
{
    if aborts.len() > 0 {
        assert(aborts[0] is Ok);
        assert forall|i: int| 0 <= i < aborts.len() - 1 implies (#[trigger] aborts.skip(
            1,
        )[i] matches Ok(seen) && !(seen.outcome is Matched)) by {
            assert(aborts.skip(1)[i] == aborts[i + 1]);
        }
        lemma_none_holds(aborts.skip(1));
    }
}

/// The calls judge one wait again and again: it is the first of the queue at each of them, as the
/// call before left it, whatever else became of the queue between them. It is never canceled, its
/// predicate never holds, and neither does an abort predicate.
pub open spec fn waits_on(wait: PendingWait, calls: Seq<WaitCall>) -> bool {
    &&& calls.len() > 0 ==> calls[0].before.waits.len() > 0 && calls[0].before.waits[0] == wait
    &&& forall|k: int|
        0 <= k < calls.len() ==> {
            let call = #[trigger] calls[k];
            &&& wait_judged(call)
            &&& !call.canceled
            &&& (call.observed matches Ok(seen) && !(seen.outcome is Matched))
            &&& none_holds(call.aborts)
        }
    &&& forall|j: int, k: int|
        0 <= j && k == j + 1 && k < calls.len() ==> (#[trigger] calls[k]).before.waits.len() > 0
            && calls[k].before.waits[0] == (#[trigger] calls[j]).after.waits.last()
}

/// The wait after `count` evaluations.
pub open spec fn evaluated(wait: PendingWait, count: int) -> PendingWait {
    PendingWait { future_evaluations: count as u16, ..wait }
}

/// The call sends nothing and puts the wait, after `count` evaluations, at the end of the queue.
pub open spec fn keeps(call: WaitCall, wait: PendingWait, count: int) -> bool {
    &&& call.reply is None
    &&& call.after == (QueueView {
        waits: call.before.waits.skip(1).push(evaluated(wait, count)),
        ..call.before
    })
}

proof fn lemma_kept_until(wait: PendingWait, calls: Seq<WaitCall>, k: int)
    requires
        wait.future_evaluations == 0,
        calls.len() <= wait.max_frames,
        waits_on(wait, calls),
        0 <= k < calls.len(),
    ensures
        calls[k].before.waits[0] == evaluated(wait, k),
        k + 1 < wait.max_frames ==> keeps(calls[k], wait, k + 1),
    decreases k,
{
    if k > 0 {
        lemma_kept_until(wait, calls, k - 1);
        assert(calls[k].before.waits[0] == calls[k - 1].after.waits.last());
    } else {
        assert(evaluated(wait, 0) == wait);
    }
    let call = calls[k];
    assert(wait_judged(call));
    lemma_none_holds(call.aborts);
    assert(one_evaluation_more(evaluated(wait, k)) == evaluated(wait, k + 1));
}

/// Law: a wait for a predicate that never holds, and is never aborted or canceled, is kept without
/// an answer by each evaluation but its last, and its last one, after exactly `max_frames`
/// evaluations, takes it out of the queue with one answer: that it timed out, with what was
/// observed last.
pub proof fn law_wait_times_out_exactly(wait: PendingWait, calls: Seq<WaitCall>)
    requires
        wait.future_evaluations == 0,
        1 <= wait.max_frames,
        calls.len() == wait.max_frames,
        waits_on(wait, calls),
    ensures
        forall|k: int| 0 <= k < calls.len() - 1 ==> keeps(#[trigger] calls[k], wait, k + 1),
        ({
            let call = calls.last();
            &&& call.after == (QueueView { waits: call.before.waits.skip(1), ..call.before })
            &&& call.reply matches Some(reply)
            &&& reply.ticket == wait.ticket
            &&& observation_fails(
                call.state,
                call.scene,
                wait.id,
                "predicate_timeout",
                timeout_message(wait.max_frames),
                call.observed->Ok_0,
                reply.response,
            )
        }),
{
    assert forall|k: int| 0 <= k < calls.len() - 1 implies keeps(
        #[trigger] calls[k],
        wait,
        k + 1,
    ) by {
        lemma_kept_until(wait, calls, k);
    }
    let last = calls.len() - 1;
    lemma_kept_until(wait, calls, last);
    assert(wait_judged(calls[last]));
    lemma_none_holds(calls[last].aborts);
    assert(one_evaluation_more(evaluated(wait, last)) == evaluated(wait, last + 1));
}

/// Law: a wait with `max_frames` evaluations ends no later than with its last one.
pub proof fn law_wait_ends_in_time(wait: PendingWait, observed: Evaluation, aborts: Seq<Evaluation>)
    requires
        wait.future_evaluations < wait.max_frames,
    ensures
        one_evaluation_more(wait).future_evaluations <= wait.max_frames,
        one_evaluation_more(wait).future_evaluations == wait.max_frames ==> !(wait_verdict(
            observed,
            aborts,
            true,
        ) is GoesOn),
{
}

/// What a question about resources needs.
pub enum ResourcePlan {
    /// Each registered resource once, with the place of a field that tells whether it is there.
    All(Vec<(String, usize)>),
    /// One resource, the place of its first field, and its fields.
    Resource {
        /// The resource.
        resource: String,
        /// The place of its first field.
        place: usize,
        /// Its fields.
        fields: Vec<String>,
    },
    /// One field.
    Field {
        /// The resource.
        resource: String,
        /// The field.
        field: String,
        /// Its place.
        place: usize,
    },
}

/// The places of the first field of each resource, among the first `n` fields.
pub open spec fn first_places(registry: PredicateRegistry, n: int) -> Seq<int>
    decreases n,
{
    if n <= 0 {
        Seq::empty()
    } else if is_first_place(registry, n - 1) {
        first_places(registry, n - 1).push(n - 1)
    } else {
        first_places(registry, n - 1)
    }
}

/// No earlier field belongs to the same resource.
pub open spec fn is_first_place(registry: PredicateRegistry, i: int) -> bool {
    forall|k: int|
        0 <= k < i ==> (#[trigger] registry.resource_fields@[k]).resource@
            != registry.resource_fields@[i].resource@
}

/// The result `r` is what a question about resources needs, or says what is not registered.
pub open spec fn resource_plan_agrees(
    registry: PredicateRegistry,
    resource: Option<String>,
    field: Option<String>,
    r: Result<ResourcePlan, DiagnosticFailure>,
) -> bool {
    match (resource, field) {
        (None, None) => {
            let places = first_places(registry, registry.resource_fields@.len() as int);
            &&& r matches Ok(ResourcePlan::All(list))
            &&& list@ == Seq::new(
                places.len(),
                |i: int| (registry.resource_fields@[places[i]].resource, places[i] as usize),
            )
        },
        (Some(name), None) => if registry.has_resource(name@) {
            &&& r matches Ok(ResourcePlan::Resource { resource, place, fields })
            &&& resource == name
            &&& place < registry.resource_fields@.len()
            &&& registry.resource_fields@[place as int].resource@ == name@
            &&& is_first_place(registry, place as int)
            &&& fields@ == evaluate::field_keys(registry, name@, registry.resource_fields@.len() as int)
        } else {
            registry::fails_as(
                r,
                "resource_not_registered",
                "no resource is registered with this exact key",
                map![
                    "resource"@ => JsonValue::Text(name@),
                    "registered"@ => json::text_list(crate::evaluate::resource_keys(registry)),
                ],
            )
        },
        (Some(name), Some(wanted)) => match r {
            Ok(ResourcePlan::Field { resource, field, place }) => resource == name && field
                == wanted && crate::evaluate::field_agrees(registry, name@, wanted@, Ok(place)),
            Ok(_) => false,
            Err(e) => crate::evaluate::field_agrees(registry, name@, wanted@, Err(e)),
        },
        (None, Some(wanted)) => registry::fails_as(
            r,
            "resource_required",
            "a field can only be requested together with a resource",
            map!["field"@ => JsonValue::Text(wanted@)],
        ),
    }
}

impl PredicateRegistry {
    /// Finds what a question about resources needs.
    pub fn resource_info(&self, resource: Option<String>, field: Option<String>) -> (r: Result<
        ResourcePlan,
        DiagnosticFailure,
    >)
        ensures
            resource_plan_agrees(*self, resource, field, r),
    {
        match (resource, field) {
            (None, None) => Ok(ResourcePlan::All(self.resource_summaries())),
            (Some(name), None) => match self.first_of_resource(name.as_str()) {
                Some(place) => {
                    let fields = crate::evaluate::list_fields(self, name.as_str());
                    Ok(ResourcePlan::Resource { resource: name, place, fields })
                },
                None => {
                    let details = ObjectBuilder::new().with(
                        "resource",
                        json_text(name.as_str()),
                    ).with("registered", json_texts(&crate::evaluate::list_resources(self)));
                    assert(details@ =~= map![
                        "resource"@ => JsonValue::Text(name@),
                        "registered"@ => json::text_list(crate::evaluate::resource_keys(*self)),
                    ]);
                    Err(
                        DiagnosticFailure {
                            code: "resource_not_registered",
                            message: "no resource is registered with this exact key",
                            details: details.build(),
                        },
                    )
                },
            },
            (Some(name), Some(wanted)) => match self.find_resource_field(
                name.as_str(),
                wanted.as_str(),
            ) {
                Ok(place) => Ok(ResourcePlan::Field { resource: name, field: wanted, place }),
                Err(e) => Err(e),
            },
            (None, Some(wanted)) => {
                let details = ObjectBuilder::new().with("field", json_text(wanted.as_str()));
                assert(details@ =~= map!["field"@ => JsonValue::Text(wanted@)]);
                Err(
                    DiagnosticFailure {
                        code: "resource_required",
                        message: "a field can only be requested together with a resource",
                        details: details.build(),
                    },
                )
            },
        }
    }

    fn resource_summaries(&self) -> (r: Vec<(String, usize)>)
        ensures
            ({
                let places = first_places(*self, self.resource_fields@.len() as int);
                r@ == Seq::new(
                    places.len(),
                    |i: int| (self.resource_fields@[places[i]].resource, places[i] as usize),
                )
            }),
    {
        let mut r: Vec<(String, usize)> = Vec::new();
        let mut i: usize = 0;
        while i < self.resource_fields.len()
            invariant
                i <= self.resource_fields@.len(),
                r@ == Seq::new(
                    first_places(*self, i as int).len(),
                    |k: int|
                        (
                            self.resource_fields@[first_places(*self, i as int)[k]].resource,
                            first_places(*self, i as int)[k] as usize,
                        ),
                ),
            decreases self.resource_fields@.len() - i,
        {
            let first = self.first_of_resource(self.resource_fields[i].resource.as_str());
            let ghost before = first_places(*self, i as int);
            match first {
                Some(place) => {
                    if place == i {
                        assert(is_first_place(*self, i as int));
                        r.push((self.resource_fields[i].resource.clone(), i));
                    } else {
                        assert(place < i) by {
                            if place > i {
                                assert(self.resource_fields@[i as int].resource@
                                    != self.resource_fields@[i as int].resource@);
                            }
                        }
                        assert(!is_first_place(*self, i as int)) by {
                            assert(self.resource_fields@[place as int].resource@
                                == self.resource_fields@[i as int].resource@);
                        }
                    }
                },
                None => {
                    assert(self.resource_fields@[i as int].resource@
                        == self.resource_fields@[i as int].resource@);
                },
            }
            i = i + 1;
            proof {
                let after = first_places(*self, i as int);
                assert(r@ =~= Seq::new(
                    after.len(),
                    |k: int| (self.resource_fields@[after[k]].resource, after[k] as usize),
                ));
            }
        }
        r
    }
}

/// The size of the world, where at most one more than [`MAX_DIAGNOSTIC_ENTITIES`] entities were
/// walked.
pub fn ecs_summary_context(walked: usize, component_count: usize, archetype_count: usize) -> (r:
    EcsSummaryContext)
    ensures
        r == (EcsSummaryContext {
            entity_count: if walked <= MAX_DIAGNOSTIC_ENTITIES {
                walked
            } else {
                MAX_DIAGNOSTIC_ENTITIES
            },
            entity_count_is_lower_bound: walked > MAX_DIAGNOSTIC_ENTITIES,
            component_count,
            archetype_count,
        }),
{
    EcsSummaryContext {
        entity_count: if walked <= MAX_DIAGNOSTIC_ENTITIES {
            walked
        } else {
            MAX_DIAGNOSTIC_ENTITIES
        },
        entity_count_is_lower_bound: walked > MAX_DIAGNOSTIC_ENTITIES,
        component_count,
        archetype_count,
    }
}

/// How a list in an answer is cut off.
#[derive(Clone, Copy, Debug, PartialEq, Eq, Structural)]
pub struct Listing {
    /// The entries that are shown.
    pub shown: usize,
    /// The entries that are known of.
    pub total: usize,
    /// Whether there are more than are shown.
    pub truncated: bool,
}

/// Cuts off a list of which at most one entry more than `limit` was walked.
pub fn bounded_listing(walked: usize, limit: usize) -> (r: Listing)
    requires
        limit < usize::MAX,
    ensures
        walked <= limit ==> r == (Listing { shown: walked, total: walked, truncated: false }),
        walked > limit ==> r == (Listing {
            shown: limit,
            total: (limit + 1) as usize,
            truncated: true,
        }),
{
    if walked > limit {
        Listing { shown: limit, total: limit + 1, truncated: true }
    } else {
        Listing { shown: walked, total: walked, truncated: false }
    }
}

/// An evaluation that settles whether to abort: it failed, or its predicate holds.
pub open spec fn settles(e: Evaluation) -> bool {
    e is Err || e->Ok_0.outcome is Matched
}

/// Law: of the abort predicates, the first that holds or fails decides; where none does, none
/// aborts.
pub proof fn law_the_first_abort_decides(list: Seq<Evaluation>)
    ensures
        abort_verdict(list) == Ok::<Option<ObservedPredicate>, DiagnosticFailure>(None)
            <==> forall|i: int| 0 <= i < list.len() ==> !settles(#[trigger] list[i]),
        forall|i: int|
            0 <= i < list.len() && settles(#[trigger] list[i]) && (forall|k: int|
                0 <= k < i ==> !settles(#[trigger] list[k])) ==> abort_verdict(list) == (
            match list[i] {
                Ok(seen) => Ok::<Option<ObservedPredicate>, DiagnosticFailure>(Some(seen)),
                Err(e) => Err::<Option<ObservedPredicate>, DiagnosticFailure>(e),
            }),
{
    assert forall|i: int|
        0 <= i < list.len() && settles(#[trigger] list[i]) && (forall|k: int|
            0 <= k < i ==> !settles(#[trigger] list[k])) implies abort_verdict(list) == (
    match list[i] {
        Ok(seen) => Ok::<Option<ObservedPredicate>, DiagnosticFailure>(Some(seen)),
        Err(e) => Err::<Option<ObservedPredicate>, DiagnosticFailure>(e),
    }) by {
        lemma_abort_at(list, i);
    }
    if forall|i: int| 0 <= i < list.len() ==> !settles(#[trigger] list[i]) {
        lemma_no_abort(list);
    } else {
        lemma_first_settles(list);
        let i = choose|i: int|
            0 <= i < list.len() && settles(#[trigger] list[i]) && (forall|k: int|
                0 <= k < i ==> !settles(#[trigger] list[k]));
        lemma_abort_at(list, i);
    }
}

proof fn lemma_no_abort(list: Seq<Evaluation>)
    requires
        forall|i: int| 0 <= i < list.len() ==> !settles(#[trigger] list[i]),
    ensures
        abort_verdict(list) == Ok::<Option<ObservedPredicate>, DiagnosticFailure>(None),
    decreases list.len(),
{
    if list.len() > 0 {
        assert(!settles(list[0]));
        lemma_no_abort(list.skip(1));
    }
}

proof fn lemma_abort_at(list: Seq<Evaluation>, i: int)
    requires
        0 <= i < list.len(),
        settles(list[i]),
        forall|k: int| 0 <= k < i ==> !settles(#[trigger] list[k]),
    ensures
        abort_verdict(list) == (match list[i] {
            Ok(seen) => Ok::<Option<ObservedPredicate>, DiagnosticFailure>(Some(seen)),
            Err(e) => Err::<Option<ObservedPredicate>, DiagnosticFailure>(e),
        }),
    decreases list.len(),
{
    if i > 0 {
        assert(!settles(list[0]));
        lemma_abort_at(list.skip(1), i - 1);
    }
}

/// The reply is the success of a wait: it shows the predicate as it was seen.
pub open spec fn told_as_matched(r: Option<Reply>, id: Json, ticket: u64, seen: ObservedPredicate) -> bool {
    &&& r matches Some(reply)
    &&& reply.ticket == ticket
    &&& reply.response.id == id
    &&& reply.response.ok
    &&& reply.response.result matches Some(result)
    &&& result.status == "predicate_matched"
    &&& result.details == Some(Details::Observation(seen))
}

/// The reply is the failure of a wait with this code: it shows a predicate as it was seen.
pub open spec fn told_as_failed(
    r: Option<Reply>,
    id: Json,
    ticket: u64,
    code: &'static str,
    seen: ObservedPredicate,
) -> bool {
    &&& r matches Some(reply)
    &&& reply.ticket == ticket
    &&& reply.response.id == id
    &&& !reply.response.ok
    &&& reply.response.error matches Some(error)
    &&& error.code == code
    &&& error.context matches Some(context)
    &&& context.observed_predicate == Some(seen)
}

/// Law: a wait for a predicate succeeds exactly where somebody waits and the predicate is seen to
/// hold, whatever the abort predicates say. Where it does not hold, the first abort predicate that
/// holds ends the wait, and a failure to evaluate is passed on. Only where nothing else ended it
/// does the last of its evaluations end it, and until then it goes to the end of the line with one
/// evaluation more counted.
pub proof fn law_waits_end_as_they_see(call: WaitCall)
    requires
        wait_judged(call),
        call.before.waits.len() > 0,
    ensures
        ({
            let first = call.before.waits[0];
            let n = call.before.waits.len();
            let count = if first.future_evaluations == u16::MAX {
                u16::MAX as int
            } else {
                first.future_evaluations + 1
            };
            let matched = call.observed is Ok && call.observed->Ok_0.outcome is Matched;
            let quiet = forall|i: int|
                0 <= i < call.aborts.len() ==> !settles(#[trigger] call.aborts[i]);
            &&& call.canceled ==> call.reply is None
            &&& !call.canceled && matched ==> told_as_matched(
                call.reply,
                first.id,
                first.ticket,
                call.observed->Ok_0,
            )
            &&& (call.reply is Some && call.reply->Some_0.response.ok) ==> !call.canceled && matched
            &&& !call.canceled ==> (call.observed matches Err(e) ==> call.reply is Some
                && call.reply->Some_0.ticket == first.ticket && diagnostic_fails(
                first.id,
                e,
                call.reply->Some_0.response,
            ))
            &&& !call.canceled && call.observed is Ok && !matched ==> forall|i: int|
                0 <= i < call.aborts.len() && settles(#[trigger] call.aborts[i]) && (forall|k: int|
                    0 <= k < i ==> !settles(#[trigger] call.aborts[k])) ==> (
                match call.aborts[i] {
                    Ok(abort) => told_as_failed(
                        call.reply,
                        first.id,
                        first.ticket,
                        "predicate_aborted",
                        abort,
                    ),
                    Err(e) => call.reply is Some && diagnostic_fails(
                        first.id,
                        e,
                        call.reply->Some_0.response,
                    ),
                })
            &&& !call.canceled && call.observed is Ok && !matched && quiet && count
                == first.max_frames ==> told_as_failed(
                call.reply,
                first.id,
                first.ticket,
                "predicate_timeout",
                call.observed->Ok_0,
            )
            &&& (!call.canceled && call.reply is None) <==> (!call.canceled && call.observed is Ok
                && !matched && quiet && count != first.max_frames)
            &&& call.after.waits.len() == (if !call.canceled && call.reply is None {
                n as int
            } else {
                n - 1
            })
            &&& forall|i: int|
                0 <= i < n - 1 ==> #[trigger] call.after.waits[i] == call.before.waits[i + 1]
            &&& !call.canceled && call.reply is None ==> ({
                let kept = call.after.waits[n - 1];
                &&& kept.future_evaluations == count
                &&& kept.id == first.id && kept.ticket == first.ticket && kept.max_frames
                    == first.max_frames
                &&& kept == (PendingWait { future_evaluations: kept.future_evaluations, ..first })
            })
            &&& call.after.requests == call.before.requests && call.after.clicks
                == call.before.clicks && call.after.capacity == call.before.capacity
        }),
{
    law_the_first_abort_decides(call.aborts);
    let quiet = forall|i: int|
        0 <= i < call.aborts.len() ==> !settles(#[trigger] call.aborts[i]);
    if !quiet {
        lemma_first_settles(call.aborts);
        let i = choose|i: int|
            0 <= i < call.aborts.len() && settles(#[trigger] call.aborts[i]) && (forall|k: int|
                0 <= k < i ==> !settles(#[trigger] call.aborts[k]));
        assert(settles(call.aborts[i]));
    }
}

proof fn lemma_first_settles(list: Seq<Evaluation>)
    requires
        exists|i: int| 0 <= i < list.len() && settles(#[trigger] list[i]),
    ensures
        exists|i: int|
            0 <= i < list.len() && settles(#[trigger] list[i]) && (forall|k: int|
                0 <= k < i ==> !settles(#[trigger] list[k])),
    decreases list.len(),
{
    let last = list.len() - 1;
    let before = list.drop_last();
    if exists|i: int| 0 <= i < before.len() && settles(#[trigger] before[i]) {
        lemma_first_settles(before);
        let i = choose|i: int|
            0 <= i < before.len() && settles(#[trigger] before[i]) && (forall|k: int|
                0 <= k < i ==> !settles(#[trigger] before[k]));
        assert(settles(list[i]));
        assert forall|k: int| 0 <= k < i implies !settles(#[trigger] list[k]) by {
            assert(before[k] == list[k]);
        }
    } else {
        let j = choose|i: int| 0 <= i < list.len() && settles(#[trigger] list[i]);
        if j < last {
            assert(before[j] == list[j]);
        }
        assert(settles(list[last]));
        assert forall|k: int| 0 <= k < last implies !settles(#[trigger] list[k]) by {
            assert(before[k] == list[k]);
        }
    }
}

/// Law: a wait for a predicate that holds when it starts is answered at once; it never runs out
/// when it starts. One that is neither answered nor aborted joins the end of the line as it is.
pub proof fn law_waits_start_by_looking(
    p: QueueView,
    q: QueueView,
    s: ControlView,
    scene: Scene,
    wait: PendingWait,
    observed: Evaluation,
    aborts: Seq<Evaluation>,
    r: Option<Reply>,
)
    requires
        start_agrees(p, q, s, scene, wait, observed, aborts, r),
    ensures
        observed is Ok && observed->Ok_0.outcome is Matched ==> told_as_matched(
            r,
            wait.id,
            wait.ticket,
            observed->Ok_0,
        ),
        r is Some && r->Some_0.response.ok ==> observed is Ok && observed->Ok_0.outcome is Matched,
        r is None <==> observed is Ok && !(observed->Ok_0.outcome is Matched) && forall|i: int|
            0 <= i < aborts.len() ==> !settles(#[trigger] aborts[i]),
        r is None ==> q.waits.len() == p.waits.len() + 1 && q.waits.last() == wait
            && q.waits.drop_last() == p.waits && q.requests == p.requests && q.clicks == p.clicks
            && q.capacity == p.capacity,
        r matches Some(reply) ==> q == p && reply.ticket == wait.ticket && reply.response.id
            == wait.id,
{
    law_the_first_abort_decides(aborts);
    if r is None {
        assert(q.waits.drop_last() =~= p.waits);
    }
}

/// Law: diagnostic requests, waits and clicks together are never more than allowed, and one always
/// is; a request beyond that is refused, and any other joins the end of the line.
pub proof fn law_diagnostic_requests_join_the_line(
    p: QueueView,
    q: QueueView,
    request: AgentRequest,
    max_requests: usize,
    r: Option<Reply>,
)
    requires
        enqueue_agrees(p, q, request, max_requests, r),
    ensures
        ({
            let pending = p.requests.len() + p.waits.len() + p.clicks.len();
            &&& r is Some <==> pending >= max_requests && pending >= 1
            &&& r matches Some(reply) ==> !reply.response.ok && reply.ticket == request.ticket
                && reply.response.id == request.id && (reply.response.error matches Some(error)
                && error.code == "queue_full") && q.requests == p.requests
            &&& r is None ==> q.requests.len() == p.requests.len() + 1 && q.requests.last()
                == request && q.requests.drop_last() == p.requests
            &&& q.waits == p.waits && q.clicks == p.clicks
        }),
{
    if r is None {
        assert(q.requests.drop_last() =~= p.requests);
    }
}

/// Law: an evaluation that was asked for once is answered with what was seen, whether or not the
/// predicate holds; only one that failed is an error.
pub proof fn law_evaluations_show_what_they_see(
    s: ControlView,
    scene: Scene,
    id: Json,
    observed: Evaluation,
    r: AgentResponse,
)
    requires
        evaluation_answered(s, scene, id, observed, r),
    ensures
        r.id == id,
        r.ok <==> observed is Ok,
        r.ok ==> (r.result matches Some(result) && result.status == "predicate_evaluated"
            && result.details == Some(Details::Observation(observed->Ok_0))
            && result.latest_capture == s.latest_capture),
        !r.ok ==> (r.error matches Some(error) && error.code == observed->Err_0.code
            && error.message@ == observed->Err_0.message@),
{
}

/// The field of this resource is among the first `n` registered ones.
pub open spec fn field_among(
    registry: PredicateRegistry,
    resource: Seq<char>,
    field: String,
    n: int,
) -> bool {
    exists|i: int|
        0 <= i < n && (#[trigger] registry.resource_fields@[i]).resource@ == resource
            && registry.resource_fields@[i].field == field
}

proof fn lemma_fields_listed(
    registry: PredicateRegistry,
    resource: Seq<char>,
    field: String,
    n: int,
)
    requires
        0 <= n <= registry.resource_fields@.len(),
    ensures
        evaluate::field_keys(registry, resource, n).contains(field) <==> field_among(
            registry,
            resource,
            field,
            n,
        ),
    decreases n,
{
    let all = evaluate::field_keys(registry, resource, n);
    if n > 0 {
        lemma_fields_listed(registry, resource, field, n - 1);
        let before = evaluate::field_keys(registry, resource, n - 1);
        let last = registry.resource_fields@[n - 1];
        if before.contains(field) {
            let k = before.index_of(field);
            assert(all[k] == before[k]);
            let i = choose|i: int|
                0 <= i < n - 1 && (#[trigger] registry.resource_fields@[i]).resource@ == resource
                    && registry.resource_fields@[i].field == field;
            assert(registry.resource_fields@[i].resource@ == resource);
        }
        if last.resource@ == resource {
            assert(all[all.len() - 1] == last.field);
        }
        if all.contains(field) && !before.contains(field) {
            let k = all.index_of(field);
            if k < before.len() {
                assert(before[k] == all[k]);
            }
            assert(registry.resource_fields@[n - 1].field == field);
        }
        if field_among(registry, resource, field, n) && !before.contains(field) {
            let i = choose|i: int|
                0 <= i < n && (#[trigger] registry.resource_fields@[i]).resource@ == resource
                    && registry.resource_fields@[i].field == field;
            if i < n - 1 {
                assert(field_among(registry, resource, field, n - 1));
            }
        }
    }
}

/// Law: a question about a resource is answered with exactly the fields that are registered for it,
/// and one about a field with a place where that field of that resource is registered. A resource or
/// a field that is not registered, and a field without its resource, cannot be asked for.
pub proof fn law_resources_list_their_fields(
    registry: PredicateRegistry,
    resource: Option<String>,
    field: Option<String>,
    r: Result<ResourcePlan, DiagnosticFailure>,
    other: String,
)
    requires
        resource_plan_agrees(registry, resource, field, r),
    ensures
        ({
            let n = registry.resource_fields@.len() as int;
            &&& resource is None ==> (r is Ok <==> field is None)
            &&& resource is Some && field is None ==> (r is Ok <==> exists|i: int|
                0 <= i < n && (#[trigger] registry.resource_fields@[i]).resource@
                    == resource->Some_0@)
            &&& resource is Some && field is Some ==> (r is Ok <==> exists|i: int|
                0 <= i < n && (#[trigger] registry.resource_fields@[i]).resource@
                    == resource->Some_0@ && registry.resource_fields@[i].field@ == field->Some_0@)
            &&& r matches Ok(ResourcePlan::Resource { resource: told, fields, .. })
                ==> Some(told) == resource && (fields@.contains(other) <==> field_among(
                registry,
                told@,
                other,
                n,
            ))
            &&& r matches Ok(ResourcePlan::Field { resource: told, field: named, place })
                ==> Some(told) == resource && Some(named) == field && place < n
                && registry.resource_fields@[place as int].resource@ == told@
                && registry.resource_fields@[place as int].field@ == named@
        }),
{
    if resource is Some {
        lemma_fields_listed(
            registry,
            resource->Some_0@,
            other,
            registry.resource_fields@.len() as int,
        );
        if field is Some && registry.has_field(resource->Some_0@, field->Some_0@) {
            assert(registry.has_resource(resource->Some_0@));
        }
    }
}

} // verus!
