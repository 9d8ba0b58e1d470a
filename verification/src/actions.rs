//! Actions of several frames: holding a key, a click and a drag, frame by frame, and the answers
//! that input control owes.
use crate::commands::{MouseButton, Point};
use crate::control::{
    origin_of, text_of_button, track_button, track_key, validate_cursor_position, AgentFeedbackState,
    CommandError, ControlView, Effect, Owed, OwedKind, PendingAction, PendingActionKind,
    ResolvedClick,
};
use crate::control;
use crate::names::KEY_CODE_NAMES;
use crate::responses::{
    copy_capture, AgentResponse, AgentResult, AgentSnapshot, Details, WindowInfo,
};
use crate::text::cat5;
use vstd::prelude::*;

verus! {

/// The frames of a drag that have passed, the first one counted at once.
pub open spec fn drag_elapsed(total_frames: u16, frames_left: u16) -> int {
    let passed = if total_frames >= frames_left {
        total_frames - frames_left
    } else {
        0
    };
    if passed < 1 {
        1
    } else {
        passed
    }
}

/// The moves of a drag that are due when so many frames are left: the passed share of all moves,
/// rounded up, and never more than all.
pub open spec fn drag_step(total_frames: u16, frames_left: u16, steps: u16) -> int {
    let due = (drag_elapsed(total_frames, frames_left) * steps + total_frames - 1) / (
    total_frames as int);
    if due > steps {
        steps as int
    } else {
        due
    }
}

/// A quotient and the dividend that it belongs to.
proof fn lemma_quotient_bounds(a: int, d: int)
    requires
        d >= 1,
    ensures
        (a / d) * d <= a < (a / d) * d + d,
{
    vstd::arithmetic::div_mod::lemma_fundamental_div_mod(a, d);
    assert(d * (a / d) == (a / d) * d) by (nonlinear_arith);
}

/// A share of `steps`, rounded up: it is at least one and at most `steps`, and all of them for the
/// whole.
proof fn lemma_rounded_up(elapsed: int, total: int, steps: int)
    requires
        1 <= elapsed <= total,
        1 <= steps,
    ensures
        1 <= (elapsed * steps + total - 1) / total <= steps,
        elapsed == total ==> (elapsed * steps + total - 1) / total == steps,
        1 <= elapsed * steps <= total * steps,
{
    let q = (elapsed * steps + total - 1) / total;
    lemma_quotient_bounds(elapsed * steps + total - 1, total);
    assert(1 <= elapsed * steps <= total * steps) by (nonlinear_arith)
        requires
            1 <= elapsed <= total,
            1 <= steps,
    ;
    assert(q >= 1) by (nonlinear_arith)
        requires
            q * total + total > elapsed * steps + total - 1,
            elapsed * steps >= 1,
            total >= 1,
    ;
    assert(q <= steps) by (nonlinear_arith)
        requires
            q * total <= elapsed * steps + total - 1,
            elapsed * steps <= total * steps,
            total >= 1,
    ;
    if elapsed == total {
        assert(q >= steps) by (nonlinear_arith)
            requires
                q * total + total > elapsed * steps + total - 1,
                elapsed == total,
                total >= 1,
        ;
    }
}

/// A share of `steps`, rounded up, does not fall when one more unit has passed, and grows by at
/// most one where there are no more steps than units.
proof fn lemma_rounded_up_grows(elapsed: int, total: int, steps: int)
    requires
        1 <= elapsed,
        1 <= total,
        1 <= steps,
    ensures
        (elapsed * steps + total - 1) / total <= ((elapsed + 1) * steps + total - 1) / total,
        steps <= total ==> ((elapsed + 1) * steps + total - 1) / total <= (elapsed * steps + total
            - 1) / total + 1,
{
    let a = elapsed * steps + total - 1;
    let b = (elapsed + 1) * steps + total - 1;
    assert(b == a + steps) by (nonlinear_arith)
        requires
            a == elapsed * steps + total - 1,
            b == (elapsed + 1) * steps + total - 1,
    ;
    let p = a / total;
    let q = b / total;
    lemma_quotient_bounds(a, total);
    lemma_quotient_bounds(b, total);
    assert(p <= q) by (nonlinear_arith)
        requires
            p * total <= a,
            a <= b,
            b < q * total + total,
            total >= 1,
    ;
    if steps <= total {
        assert(q <= p + 1) by (nonlinear_arith)
            requires
                q * total <= b,
                b == a + steps,
                steps <= total,
                a < p * total + total,
                total >= 1,
        ;
    }
}

/// Law: while a drag has frames left, the number of due moves lies between one and all of them; in
/// its last frame all moves are due.
pub proof fn law_drag_reaches_its_end(total_frames: u16, frames_left: u16, steps: u16)
    requires
        0 < total_frames,
        0 < steps,
        frames_left <= total_frames,
    ensures
        1 <= drag_step(total_frames, frames_left, steps) <= steps,
        drag_step(total_frames, 0, steps) == steps,
{
    lemma_rounded_up(
        drag_elapsed(total_frames, frames_left),
        total_frames as int,
        steps as int,
    );
    lemma_rounded_up(total_frames as int, total_frames as int, steps as int);
}

/// Law: from one frame of a drag to the next the number of due moves never falls, and where there
/// are no more moves than frames it grows by at most one, so that no move is left out.
pub proof fn law_drag_makes_every_move(total_frames: u16, frames_left: u16, steps: u16)
    requires
        0 < total_frames,
        0 < steps,
        0 < frames_left <= total_frames,
    ensures
        drag_step(total_frames, frames_left, steps) <= drag_step(
            total_frames,
            (frames_left - 1) as u16,
            steps,
        ),
        steps <= total_frames ==> drag_step(total_frames, (frames_left - 1) as u16, steps)
            <= drag_step(total_frames, frames_left, steps) + 1,
{
    let e = drag_elapsed(total_frames, frames_left);
    let f = drag_elapsed(total_frames, (frames_left - 1) as u16);
    lemma_rounded_up(e, total_frames as int, steps as int);
    lemma_rounded_up(f, total_frames as int, steps as int);
    lemma_rounded_up_grows(e, total_frames as int, steps as int);
}

fn due_step(total_frames: u16, frames_left: u16, steps: u16) -> (r: u16)
    requires
        0 < total_frames,
        0 < steps,
    ensures
        r == drag_step(total_frames, frames_left, steps),
        r <= steps,
{
    let passed: u16 = if total_frames >= frames_left {
        total_frames - frames_left
    } else {
        0
    };
    let elapsed: u64 = if passed < 1 {
        1
    } else {
        passed as u64
    };
    proof {
        lemma_rounded_up(elapsed as int, total_frames as int, steps as int);
        assert(total_frames * steps <= 65535 * 65535) by (nonlinear_arith)
            requires
                total_frames <= 65535,
                steps <= 65535,
        ;
    }
    let due: u64 = (elapsed * (steps as u64) + (total_frames as u64) - 1) / (total_frames as u64);
    due as u16
}

/// How far a drag goes in the coming frame.
#[derive(Clone, Copy, Debug)]
pub struct DragProgress {
    /// The first position.
    pub from: Point,
    /// The last position.
    pub to: Point,
    /// The move that is due.
    pub step: u16,
    /// The number of moves.
    pub steps: u16,
}

/// One frame less.
pub open spec fn one_less(frames: u16) -> u16 {
    if frames == 0 {
        0
    } else {
        (frames - 1) as u16
    }
}

/// How far the first pending action goes in the coming frame, where it is a drag that moves.
pub open spec fn front_progress(s: ControlView) -> Option<DragProgress> {
    if s.pending.len() == 0 {
        None
    } else {
        match s.pending[0].kind {
            PendingActionKind::Drag { from, to, total_frames, steps, last_step, .. } => {
                let step = drag_step(total_frames, one_less(s.pending[0].frames_left), steps);
                if step > last_step {
                    Some(DragProgress { from, to, step: step as u16, steps })
                } else {
                    None
                }
            },
            _ => None,
        }
    }
}

/// What a frame makes of the first pending action: the state after it, the effects, and the
/// answer that is owed.
pub struct TickView {
    /// The state after the frame.
    pub state: ControlView,
    /// The effects.
    pub effects: Seq<Effect>,
    /// The answer.
    pub owed: Option<Owed>,
}

/// The state without its first pending action.
pub open spec fn without_front(s: ControlView) -> ControlView {
    ControlView { pending: s.pending.skip(1), ..s }
}

/// The first pending action goes to the back with fewer frames left.
pub open spec fn kept(s: ControlView, kind: PendingActionKind) -> ControlView {
    let action = s.pending[0];
    control::with_pending(
        without_front(s),
        PendingAction { frames_left: one_less(action.frames_left), kind, ..action },
    )
}

/// The answer `kind` to the first pending action.
pub open spec fn owed_to_front(s: ControlView, kind: OwedKind) -> Option<Owed> {
    Some(Owed { id: s.pending[0].id, ticket: s.pending[0].ticket, kind })
}

/// The end of an action that releases a button, after `moves`.
pub open spec fn button_released(
    s: ControlView,
    button: MouseButton,
    moves: Seq<Effect>,
    window: Option<WindowInfo>,
    kind: OwedKind,
) -> TickView {
    match window {
        None => TickView {
            state: without_front(s),
            effects: moves,
            owed: owed_to_front(s, OwedKind::Refused(CommandError::MissingWindow)),
        },
        Some(_) => TickView {
            state: ControlView {
                buttons: control::without_held(s.buttons, button),
                ..without_front(s)
            },
            effects: moves.push(Effect::Button { button, pressed: false }),
            owed: owed_to_front(s, kind),
        },
    }
}

/// What a frame makes of the first pending action, where a due move of a drag goes to `position`.
pub open spec fn ticked(s: ControlView, position: Point, window: Option<WindowInfo>) -> TickView
    recommends
        s.pending.len() > 0,
{
    let action = s.pending[0];
    let left = one_less(action.frames_left);
    match action.kind {
        PendingActionKind::ReleaseKey(key) => if left > 0 {
            TickView { state: kept(s, action.kind), effects: Seq::empty(), owed: None }
        } else {
            match window {
                None => TickView {
                    state: without_front(s),
                    effects: Seq::empty(),
                    owed: owed_to_front(s, OwedKind::Refused(CommandError::MissingWindow)),
                },
                Some(_) => TickView {
                    state: ControlView { keys: control::without_held(s.keys, key), ..without_front(s) },
                    effects: seq![Effect::Key { key, pressed: false }],
                    owed: owed_to_front(s, OwedKind::DoneWithWindow),
                },
            }
        },
        PendingActionKind::ReleaseButton(button) => if left > 0 {
            TickView { state: kept(s, action.kind), effects: Seq::empty(), owed: None }
        } else {
            button_released(
                s,
                button,
                Seq::empty(),
                window,
                match action.details {
                    Some(details) => OwedKind::ClickedTarget(details),
                    None => OwedKind::DoneWithWindow,
                },
            )
        },
        PendingActionKind::Drag { from, to, button, total_frames, steps, last_step } => {
            let step = drag_step(total_frames, left, steps);
            let moves = step > last_step;
            let objection = control::cursor_objection(window, position);
            if moves && objection is Some {
                TickView {
                    state: ControlView {
                        buttons: control::without_held(s.buttons, button),
                        ..without_front(s)
                    },
                    effects: if window is Some {
                        seq![Effect::Button { button, pressed: false }]
                    } else {
                        Seq::empty()
                    },
                    owed: owed_to_front(s, OwedKind::Refused(objection->Some_0)),
                }
            } else {
                let after = if moves {
                    control::cursor_put(s, position)
                } else {
                    s
                };
                let effects = if moves {
                    seq![Effect::MoveCursor { position, previous: control::origin(s.cursor) }]
                } else {
                    Seq::empty()
                };
                if left > 0 {
                    TickView {
                        state: kept(
                            after,
                            PendingActionKind::Drag {
                                from,
                                to,
                                button,
                                total_frames,
                                steps,
                                last_step: if moves {
                                    step as u16
                                } else {
                                    last_step
                                },
                            },
                        ),
                        effects,
                        owed: None,
                    }
                } else {
                    button_released(after, button, effects, window, OwedKind::DoneWithWindow)
                }
            }
        },
    }
}

/// What came of a frame of an action.
pub struct Ticked {
    /// What the application does, in order.
    pub effects: Vec<Effect>,
    /// The answer that is owed.
    pub owed: Option<Owed>,
}

/// The texts of the numbers in an answer that refuses a position.
pub struct PositionTexts {
    /// The horizontal coordinate.
    pub x: String,
    /// The vertical coordinate.
    pub y: String,
    /// The logical width of the window.
    pub width: String,
    /// The logical height of the window.
    pub height: String,
}

/// The response `r` is what an owed answer comes to.
pub open spec fn settled(
    s: ControlView,
    owed: Owed,
    window: Option<WindowInfo>,
    texts: PositionTexts,
    r: AgentResponse,
) -> bool {
    match owed.kind {
        OwedKind::Done => r.is_result(
            owed.id,
            (AgentResult {
                status: "ok",
                latest_capture: s.latest_capture,
                capture: None,
                snapshot: None,
                details: None,
            }),
        ),
        OwedKind::DoneWithWindow => reports(s, owed.id, "ok", window, None, r),
        OwedKind::Released => reports(s, owed.id, "released", window, None, r),
        OwedKind::ClickedTarget(details) => reports(
            s,
            owed.id,
            "clicked_target",
            window,
            Some(Details::Diagnostic(details)),
            r,
        ),
        OwedKind::QueueFull(message) => r.is_error(owed.id, "queue_full", message@),
        OwedKind::DiagnosticsUnavailable => r.is_error(
            owed.id,
            "diagnostics_unavailable",
            control::diagnostics_message(),
        ),
        OwedKind::Refused(CommandError::MissingWindow) => r.is_error(
            owed.id,
            "missing_window",
            control::missing_window_message(),
        ),
        OwedKind::Refused(CommandError::PositionOutOfBounds { .. }) => r.is_error(
            owed.id,
            "position_out_of_bounds",
            control::position_message(texts.x@, texts.y@, texts.width@, texts.height@),
        ),
    }
}

/// The response `r` says that something was done, with the latest capture and a snapshot.
pub open spec fn reports(
    s: ControlView,
    id: crate::json::Json,
    status: &'static str,
    window: Option<WindowInfo>,
    details: Option<Details>,
    r: AgentResponse,
) -> bool {
    &&& r.wf()
    &&& r.id == id
    &&& r.result matches Some(result)
    &&& result.status == status
    &&& result.latest_capture == s.latest_capture
    &&& result.capture is None
    &&& result.details == details
    &&& result.snapshot matches Some(snapshot)
    &&& control::shows(s, window, snapshot)
}

/// What starting a click on a target that was found does.
pub open spec fn click_agrees(
    s: ControlView,
    t: ControlView,
    click: ResolvedClick,
    window: Option<WindowInfo>,
    limit: usize,
    effects: Seq<Effect>,
    owed: Option<Owed>,
) -> bool {
    if s.pending.len() >= limit {
        &&& t == s
        &&& effects == Seq::<Effect>::empty()
        &&& owed == Some(
            Owed {
                id: click.id,
                ticket: click.ticket,
                kind: OwedKind::QueueFull("too many pending actions"),
            },
        )
    } else {
        match control::cursor_objection(window, click.position) {
            Some(e) => {
                &&& t == s
                &&& effects == Seq::<Effect>::empty()
                &&& owed == Some(
                    Owed {
                        id: click.id,
                        ticket: click.ticket,
                        kind: OwedKind::Refused(e),
                    },
                )
            },
            None => {
                &&& t == control::press_at(
                    s,
                    click.position,
                    (PendingAction {
                        id: click.id,
                        ticket: click.ticket,
                        frames_left: click.frames,
                        details: Some(click.details),
                        kind: PendingActionKind::ReleaseButton(click.button),
                    }),
                    click.button,
                )
                &&& effects == control::press_effects(
                    s,
                    click.position,
                    click.button,
                )
                &&& owed is None
            },
        }
    }
}

impl AgentFeedbackState {
    /// The application as an answer shows it.
    pub fn snapshot(&self, window: Option<WindowInfo>) -> (r: AgentSnapshot)
        requires
            self@.wf(),
        ensures
            control::shows(self@, window, r),
    {
        let names = KEY_CODE_NAMES;
        let mut pressed_keys: Vec<&'static str> = Vec::new();
        let mut i: usize = 0;
        while i < self.held_keys.len()
            invariant
                self@.wf(),
                names == KEY_CODE_NAMES,
                i <= self.held_keys@.len(),
                pressed_keys@ == Seq::new(
                    i as nat,
                    |k: int| KEY_CODE_NAMES@[self@.keys[k].place as int],
                ),
            decreases self.held_keys@.len() - i,
        {
            assert(self@.keys[i as int].place < KEY_CODE_NAMES@.len());
            pressed_keys.push(names[self.held_keys[i].place]);
            i = i + 1;
            assert(pressed_keys@ =~= Seq::new(
                i as nat,
                |k: int| KEY_CODE_NAMES@[self@.keys[k].place as int],
            ));
        }
        let mut pressed_buttons: Vec<&'static str> = Vec::new();
        let mut j: usize = 0;
        while j < self.held_buttons.len()
            invariant
                j <= self.held_buttons@.len(),
                pressed_buttons@ == Seq::new(j as nat, |k: int| control::button_text(self@.buttons[k])),
            decreases self.held_buttons@.len() - j,
        {
            pressed_buttons.push(text_of_button(self.held_buttons[j]));
            j = j + 1;
            assert(pressed_buttons@ =~= Seq::new(j as nat, |k: int| control::button_text(self@.buttons[k])));
        }
        AgentSnapshot {
            frame: self.frame,
            game_time_secs: self.game_time_secs,
            window,
            mouse_position: self.cursor_position,
            pressed_keys,
            pressed_buttons,
        }
    }

    /// Writes an answer that is owed.
    pub fn settle(&self, owed: Owed, window: Option<WindowInfo>, texts: PositionTexts) -> (r:
        AgentResponse)
        requires
            self@.wf(),
        ensures
            settled(self@, owed, window, texts, r),
    {
        let Owed { id, ticket: _, kind } = owed;
        match kind {
            OwedKind::Done => AgentResponse::done(
                id,
                "ok",
                copy_capture(&self.latest_capture),
                None,
            ),
            OwedKind::DoneWithWindow => AgentResponse::done(
                id,
                "ok",
                copy_capture(&self.latest_capture),
                Some(self.snapshot(window)),
            ),
            OwedKind::Released => AgentResponse::done(
                id,
                "released",
                copy_capture(&self.latest_capture),
                Some(self.snapshot(window)),
            ),
            OwedKind::ClickedTarget(details) => AgentResponse::details_with_context(
                id,
                "clicked_target",
                copy_capture(&self.latest_capture),
                self.snapshot(window),
                Details::Diagnostic(details),
            ),
            OwedKind::QueueFull(message) => AgentResponse::failed(
                id,
                "queue_full",
                message.to_owned(),
            ),
            OwedKind::DiagnosticsUnavailable => AgentResponse::failed(
                id,
                "diagnostics_unavailable",
                "diagnostics require the diagnostics feature and AgentFeedbackDiagnosticsPlugin".to_owned(),
            ),
            OwedKind::Refused(CommandError::MissingWindow) => AgentResponse::failed(
                id,
                "missing_window",
                "primary Window resource is missing".to_owned(),
            ),
            OwedKind::Refused(CommandError::PositionOutOfBounds { .. }) => {
                let head = cat5(
                    "point [",
                    texts.x.as_str(),
                    ",",
                    texts.y.as_str(),
                    "] outside logical window ",
                );
                let message = crate::text::cat4(
                    head.as_str(),
                    texts.width.as_str(),
                    "x",
                    texts.height.as_str(),
                );
                AgentResponse::failed(id, "position_out_of_bounds", message)
            },
        }
    }

    /// How far the first pending action goes in the coming frame, where it is a drag that moves.
    pub fn drag_progress(&self) -> (r: Option<DragProgress>)
        requires
            self@.wf(),
        ensures
            r == front_progress(self@),
    {
        if self.pending_actions.len() == 0 {
            return None;
        }
        assert(control::action_ok(self@.pending[0]));
        let action = &self.pending_actions[0];
        match &action.kind {
            PendingActionKind::Drag { from, to, total_frames, steps, last_step, .. } => {
                let left: u16 = if action.frames_left == 0 {
                    0
                } else {
                    action.frames_left - 1
                };
                let step: u16 = due_step(*total_frames, left, *steps);
                if step > *last_step {
                    Some(DragProgress { from: *from, to: *to, step, steps: *steps })
                } else {
                    None
                }
            },
            _ => None,
        }
    }

    /// The number of pending actions that a frame runs.
    pub fn actions_to_run(&self, limit: usize) -> (r: usize)
        ensures
            r == if self@.pending.len() <= limit {
                self@.pending.len()
            } else {
                limit as nat
            },
    {
        if self.pending_actions.len() <= limit {
            self.pending_actions.len()
        } else {
            limit
        }
    }

    /// Ends an action by releasing its button.
    fn finish_with_button(
        &mut self,
        button: MouseButton,
        effects: Vec<Effect>,
        window: &Option<WindowInfo>,
        id: crate::json::Json,
        ticket: u64,
        kind: OwedKind,
    ) -> (r: Ticked)
        requires
            old(self)@.wf(),
        ensures
            final(self)@.wf(),
            match *window {
                None => {
                    &&& final(self)@ == old(self)@
                    &&& r.effects@ == effects@
                    &&& r.owed == Some(
                        Owed { id, ticket, kind: OwedKind::Refused(CommandError::MissingWindow) },
                    )
                },
                Some(_) => {
                    &&& final(self)@ == (ControlView {
                        buttons: control::without_held(old(self)@.buttons, button),
                        ..old(self)@
                    })
                    &&& r.effects@ == effects@.push(Effect::Button { button, pressed: false })
                    &&& r.owed == Some(Owed { id, ticket, kind })
                },
            },
    {
        if window.is_none() {
            return Ticked {
                effects,
                owed: Some(
                    Owed { id, ticket, kind: OwedKind::Refused(CommandError::MissingWindow) },
                ),
            };
        }
        proof {
            control::lemma_without_held(self@.buttons, button);
        }
        track_button(&mut self.held_buttons, button, false);
        let mut effects = effects;
        effects.push(Effect::Button { button, pressed: false });
        Ticked { effects, owed: Some(Owed { id, ticket, kind }) }
    }

    /// Runs the first pending action for one frame; a due move of a drag goes to `position`.
    pub fn run_pending_action(&mut self, position: Point, window: Option<WindowInfo>) -> (r: Ticked)
        requires
            old(self)@.wf(),
            old(self)@.pending.len() > 0,
        ensures
            final(self)@.wf(),
            final(self)@ == ticked(old(self)@, position, window).state,
            r.effects@ == ticked(old(self)@, position, window).effects,
            r.owed == ticked(old(self)@, position, window).owed,
    {
        let ghost s = self@;
        let action = match self.pending_actions.pop_front() {
            Some(action) => action,
            None => return Ticked { effects: Vec::new(), owed: None },
        };
        assert(action == s.pending[0]);
        assert(control::action_ok(s.pending[0]));
        assert(self@.pending =~= s.pending.skip(1));
        assert(self@ == without_front(s));
        assert(self@.wf()) by {
            assert forall|i: int| 0 <= i < self@.pending.len() implies control::action_ok(
                #[trigger] self@.pending[i],
            ) by {
                assert(control::action_ok(s.pending[i + 1]));
            }
        }
        let PendingAction { id, ticket, frames_left, details, kind } = action;
        let left: u16 = if frames_left == 0 {
            0
        } else {
            frames_left - 1
        };
        match kind {
            PendingActionKind::ReleaseKey(key) => {
                if left > 0 {
                    self.pending_actions.push_back(
                        PendingAction { id, ticket, frames_left: left, details, kind },
                    );
                    return Ticked { effects: Vec::new(), owed: None };
                }
                if window.is_none() {
                    return Ticked {
                        effects: Vec::new(),
                        owed: Some(
                            Owed {
                                id,
                                ticket,
                                kind: OwedKind::Refused(CommandError::MissingWindow),
                            },
                        ),
                    };
                }
                proof {
                    control::lemma_without_held(s.keys, key);
                    assert forall|i: int|
                        0 <= i < control::without_held(s.keys, key).len() implies (#[trigger] control::without_held(
                        s.keys,
                        key,
                    )[i]).place < KEY_CODE_NAMES@.len() by {
                        let k = control::without_held(s.keys, key)[i];
                        assert(control::without_held(s.keys, key).contains(k));
                        assert(s.keys.contains(k));
                    }
                }
                track_key(&mut self.held_keys, key, false);
                let mut effects: Vec<Effect> = Vec::new();
                effects.push(Effect::Key { key, pressed: false });
                assert(effects@ =~= seq![Effect::Key { key, pressed: false }]);
                Ticked { effects, owed: Some(Owed { id, ticket, kind: OwedKind::DoneWithWindow }) }
            },
            PendingActionKind::ReleaseButton(button) => {
                if left > 0 {
                    self.pending_actions.push_back(
                        PendingAction { id, ticket, frames_left: left, details, kind },
                    );
                    return Ticked { effects: Vec::new(), owed: None };
                }
                let answer = match details {
                    Some(details) => OwedKind::ClickedTarget(details),
                    None => OwedKind::DoneWithWindow,
                };
                self.finish_with_button(button, Vec::new(), &window, id, ticket, answer)
            },
            PendingActionKind::Drag { from, to, button, total_frames, steps, last_step } => {
                let step: u16 = due_step(total_frames, left, steps);
                let moves = step > last_step;
                let mut effects: Vec<Effect> = Vec::new();
                if moves {
                    if let Err(e) = validate_cursor_position(&window, position) {
                        proof {
                            control::lemma_without_held(s.buttons, button);
                        }
                        track_button(&mut self.held_buttons, button, false);
                        if window.is_some() {
                            effects.push(Effect::Button { button, pressed: false });
                            assert(effects@ =~= seq![Effect::Button { button, pressed: false }]);
                        }
                        return Ticked {
                            effects,
                            owed: Some(Owed { id, ticket, kind: OwedKind::Refused(e) }),
                        };
                    }
                    effects.push(Effect::MoveCursor { position, previous: origin_of(self.cursor_position) });
                    assert(effects@ =~= seq![Effect::MoveCursor { position, previous: control::origin(s.cursor) }]);
                    self.cursor_position = Some(position);
                }
                if left > 0 {
                    let last_step: u16 = if moves {
                        step
                    } else {
                        last_step
                    };
                    self.pending_actions.push_back(
                        PendingAction {
                            id,
                            ticket,
                            frames_left: left,
                            details,
                            kind: PendingActionKind::Drag {
                                from,
                                to,
                                button,
                                total_frames,
                                steps,
                                last_step,
                            },
                        },
                    );
                    return Ticked { effects, owed: None };
                }
                self.finish_with_button(
                    button,
                    effects,
                    &window,
                    id,
                    ticket,
                    OwedKind::DoneWithWindow,
                )
            },
        }
    }

    /// Starts a click on a target that was found.
    ///
    /// The caller has checked that nobody gave the request up.
    pub fn inject_resolved_click(
        &mut self,
        click: ResolvedClick,
        window: Option<WindowInfo>,
        limit: usize,
    ) -> (r: Ticked)
        requires
            old(self)@.wf(),
        ensures
            final(self)@.wf(),
            click_agrees(old(self)@, final(self)@, click, window, limit, r.effects@, r.owed),
    {
        let ResolvedClick { id, ticket, position, button, frames, details } = click;
        if self.pending_actions.len() >= limit {
            return Ticked {
                effects: Vec::new(),
                owed: Some(
                    Owed { id, ticket, kind: OwedKind::QueueFull("too many pending actions") },
                ),
            };
        }
        if let Err(e) = validate_cursor_position(&window, position) {
            return Ticked {
                effects: Vec::new(),
                owed: Some(Owed { id, ticket, kind: OwedKind::Refused(e) }),
            };
        }
        let action = PendingAction {
            id,
            ticket,
            frames_left: frames,
            details: Some(details),
            kind: PendingActionKind::ReleaseButton(button),
        };
        let started = self.press_button_at(position, button, action);
        Ticked { effects: started.effects, owed: None }
    }
}

/// Law: a frame either keeps the first pending action for a later frame or answers its caller, and
/// never both.
pub proof fn law_frame_keeps_or_answers(s: ControlView, position: Point, window: Option<WindowInfo>)
    requires
        s.pending.len() > 0,
    ensures
        ({
            let t = ticked(s, position, window);
            match t.owed {
                Some(owed) => owed.id == s.pending[0].id && owed.ticket == s.pending[0].ticket
                    && t.state.pending == s.pending.skip(1),
                None => t.state.pending.len() == s.pending.len() && t.state.pending.drop_last()
                    == s.pending.skip(1) && t.state.pending.last().ticket == s.pending[0].ticket
                    && t.state.pending.last().id == s.pending[0].id,
            }
        }),
{
    let t = ticked(s, position, window);
    if t.owed is None {
        assert(t.state.pending.drop_last() =~= s.pending.skip(1));
    }
}

/// Law: a pending action that is kept has fewer frames left.
pub proof fn law_kept_actions_progress(s: ControlView, position: Point, window: Option<WindowInfo>)
    requires
        s.pending.len() > 0,
        ticked(s, position, window).owed is None,
    ensures
        ticked(s, position, window).state.pending.last().frames_left
            < s.pending[0].frames_left,
{
}

/// Law: what is noted as held agrees with the events that a frame sends, key by key and button by
/// button, and the cursor is noted to be where it was moved last. Where the window is gone, nothing
/// can be sent, and only the button of a drag that has to move is forgotten.
pub proof fn law_frames_note_what_they_send(
    s: ControlView,
    position: Point,
    window: Option<WindowInfo>,
)
    requires
        s.wf(),
        s.pending.len() > 0,
    ensures
        ({
            let t = ticked(s, position, window);
            &&& control::keys_follow(s, t.state, t.effects)
            &&& window is Some || !(s.pending[0].kind is Drag) ==> control::buttons_follow(
                s,
                t.state,
                t.effects,
            )
            &&& window is None && s.pending[0].kind is Drag ==> t.effects.len() == 0
            &&& control::cursor_follows(s, t.state, t.effects)
            &&& window is None ==> t.effects.len() == 0 && t.state.keys == s.keys
                && t.state.cursor == s.cursor
            &&& window is None && !(s.pending[0].kind is Drag) ==> t.state.buttons == s.buttons
        }),
{
    let t = ticked(s, position, window);
    control::lemma_short_effects(s, t.effects);
    match s.pending[0].kind {
        PendingActionKind::ReleaseKey(key) => control::lemma_without_held(s.keys, key),
        PendingActionKind::ReleaseButton(button) => control::lemma_without_held(s.buttons, button),
        PendingActionKind::Drag { button, .. } => control::lemma_without_held(s.buttons, button),
    }
    if t.effects.len() == 2 {
        assert(t.effects[0] is MoveCursor && t.effects[1] is Button);
    }
}

/// Law: what is noted as held agrees with the events that a click on a target sends. It is refused
/// exactly where too much is pending or the target is outside the window; otherwise the cursor is
/// moved to the target, the button goes down, and its release is pending with the frames that were
/// asked for.
pub proof fn law_target_clicks_press_where_the_target_is(
    s: ControlView,
    t: ControlView,
    click: ResolvedClick,
    window: Option<WindowInfo>,
    limit: usize,
    effects: Seq<Effect>,
    owed: Option<Owed>,
)
    requires
        s.wf(),
        click_agrees(s, t, click, window, limit, effects, owed),
    ensures
        control::keys_follow(s, t, effects),
        control::buttons_follow(s, t, effects),
        control::cursor_follows(s, t, effects),
        owed is None <==> s.pending.len() < limit && window is Some && control::window_contains(
            window->Some_0,
            click.position,
        ),
        owed matches Some(answer) ==> t == s && effects.len() == 0 && answer.id == click.id
            && answer.ticket == click.ticket && (answer.kind is QueueFull <==> s.pending.len()
            >= limit) && (answer.kind is QueueFull || answer.kind is Refused),
        owed is None ==> {
            &&& effects.len() == 2
            &&& effects[0] matches Effect::MoveCursor { position, .. }
            &&& position == click.position
            &&& effects[1] == (Effect::Button { button: click.button, pressed: true })
            &&& t.buttons.contains(click.button)
            &&& t.cursor == Some(click.position)
            &&& t.pending.len() == s.pending.len() + 1
            &&& t.pending.drop_last() == s.pending
            &&& t.pending.last() == (PendingAction {
                id: click.id,
                ticket: click.ticket,
                frames_left: click.frames,
                details: Some(click.details),
                kind: PendingActionKind::ReleaseButton(click.button),
            })
        },
{
    control::lemma_short_effects(s, effects);
    control::lemma_with_held(s.buttons, click.button);
    if owed is None {
        assert(t.pending.drop_last() =~= s.pending);
    }
}

/// What a frame makes of the only pending action, after it was run in some frames before.
pub open spec fn ticked_after(
    s: ControlView,
    position: Point,
    window: Option<WindowInfo>,
    frames: nat,
) -> TickView
    decreases frames,
{
    if frames == 0 {
        ticked(s, position, window)
    } else {
        ticked(ticked_after(s, position, window, (frames - 1) as nat).state, position, window)
    }
}

/// Law: a key that is held for some frames is released in exactly the last of them. Until then
/// nothing is sent, nothing is answered, and the key stays held; in the last frame its release is
/// sent, it is held no more, and its caller is answered.
pub proof fn law_keys_are_held_their_frames(
    s: ControlView,
    position: Point,
    window: WindowInfo,
    frames: nat,
)
    requires
        s.pending.len() == 1,
        s.pending[0].kind is ReleaseKey,
        frames < (if s.pending[0].frames_left == 0 {
            1
        } else {
            s.pending[0].frames_left as int
        }),
    ensures
        ({
            let action = s.pending[0];
            let key = action.kind->ReleaseKey_0;
            let t = ticked_after(s, position, Some(window), frames);
            if frames + 1 < action.frames_left {
                &&& t.effects.len() == 0
                &&& t.owed is None
                &&& t.state.keys == s.keys && t.state.buttons == s.buttons
                &&& t.state.pending.len() == 1
                &&& t.state.pending[0].kind == action.kind
                &&& t.state.pending[0].frames_left == action.frames_left - frames - 1
                &&& t.state.pending[0].id == action.id && t.state.pending[0].ticket
                    == action.ticket
            } else {
                &&& t.effects.len() == 1
                &&& t.effects[0] == (Effect::Key { key, pressed: false })
                &&& t.owed == Some(
                    Owed { id: action.id, ticket: action.ticket, kind: OwedKind::DoneWithWindow },
                )
                &&& !t.state.keys.contains(key)
                &&& forall|other: crate::commands::KeyCode|
                    other != key ==> (#[trigger] t.state.keys.contains(other)
                        <==> s.keys.contains(other))
                &&& t.state.buttons == s.buttons
                &&& t.state.pending.len() == 0
            }
        }),
    decreases frames,
{
    if frames > 0 {
        law_keys_are_held_their_frames(s, position, window, (frames - 1) as nat);
    }
    control::lemma_without_held(s.keys, s.pending[0].kind->ReleaseKey_0);
}

/// Law: a button that is clicked for some frames is released in exactly the last of them. Until then
/// nothing is sent, nothing is answered, and the button stays held; in the last frame its release
/// is sent, it is held no more, and its caller is answered, with the target where there is one.
pub proof fn law_buttons_are_held_their_frames(
    s: ControlView,
    position: Point,
    window: WindowInfo,
    frames: nat,
)
    requires
        s.pending.len() == 1,
        s.pending[0].kind is ReleaseButton,
        frames < (if s.pending[0].frames_left == 0 {
            1
        } else {
            s.pending[0].frames_left as int
        }),
    ensures
        ({
            let action = s.pending[0];
            let button = action.kind->ReleaseButton_0;
            let t = ticked_after(s, position, Some(window), frames);
            if frames + 1 < action.frames_left {
                &&& t.effects.len() == 0
                &&& t.owed is None
                &&& t.state.keys == s.keys && t.state.buttons == s.buttons
                &&& t.state.pending.len() == 1
                &&& t.state.pending[0].kind == action.kind
                &&& t.state.pending[0].frames_left == action.frames_left - frames - 1
                &&& t.state.pending[0].id == action.id && t.state.pending[0].ticket
                    == action.ticket
                &&& t.state.pending[0].details == action.details
            } else {
                &&& t.effects.len() == 1
                &&& t.effects[0] == (Effect::Button { button, pressed: false })
                &&& t.owed matches Some(owed)
                &&& owed.id == action.id && owed.ticket == action.ticket
                &&& owed.kind == (match action.details {
                    Some(details) => OwedKind::ClickedTarget(details),
                    None => OwedKind::DoneWithWindow,
                })
                &&& !t.state.buttons.contains(button)
                &&& forall|other: MouseButton|
                    other != button ==> (#[trigger] t.state.buttons.contains(other)
                        <==> s.buttons.contains(other))
                &&& t.state.keys == s.keys
                &&& t.state.pending.len() == 0
            }
        }),
    decreases frames,
{
    if frames > 0 {
        law_buttons_are_held_their_frames(s, position, window, (frames - 1) as nat);
    }
    control::lemma_without_held(s.buttons, s.pending[0].kind->ReleaseButton_0);
}

/// Law: the moves of a drag keep pace with its frames: after each frame as many moves are due as
/// are its passed share of all frames, rounded up, so that a move less would be too few. The move
/// that is due next is given with the ends of the drag, exactly where it was not made yet.
pub proof fn law_drags_keep_pace(s: ControlView)
    requires
        s.wf(),
        s.pending.len() > 0,
        s.pending[0].kind is Drag,
        s.pending[0].frames_left <= s.pending[0].kind->total_frames,
    ensures
        ({
            let action = s.pending[0];
            let total = action.kind->total_frames as int;
            let steps = action.kind->steps as int;
            let left = if action.frames_left == 0 {
                0
            } else {
                action.frames_left - 1
            };
            let passed = if total == left {
                1
            } else {
                total - left
            };
            match front_progress(s) {
                Some(next) => {
                    &&& next.from == action.kind->from && next.to == action.kind->to
                    &&& next.steps == action.kind->steps
                    &&& next.step > action.kind->last_step
                    &&& (next.step - 1) * total < passed * steps <= next.step * total
                    &&& left == 0 ==> next.step == steps
                },
                None => passed * steps <= action.kind->last_step * total,
            }
        }),
{
    let action = s.pending[0];
    assert(control::action_ok(action));
    let total_frames = action.kind->total_frames;
    let steps = action.kind->steps;
    let left = one_less(action.frames_left);
    let passed = drag_elapsed(total_frames, left);
    let total = total_frames as int;
    lemma_rounded_up(passed, total, steps as int);
    let due = (passed * steps + total - 1) / total;
    lemma_quotient_bounds(passed * steps + total - 1, total);
    assert((due - 1) * total == due * total - total) by (nonlinear_arith);
    let last = action.kind->last_step as int;
    if due <= last {
        assert(passed * steps <= last * total) by (nonlinear_arith)
            requires
                passed * steps <= due * total,
                due <= last,
                total >= 1,
        ;
    }
}

/// Law: a frame of a drag makes its due move, where one is due and the place is inside the window;
/// the last frame then lifts the button and answers, and a frame before that keeps the drag with the
/// move noted. A move to a place outside the window lifts the button and refuses the drag.
pub proof fn law_drags_move_and_release(s: ControlView, position: Point, window: WindowInfo)
    requires
        s.wf(),
        s.pending.len() > 0,
        s.pending[0].kind is Drag,
    ensures
        ({
            let action = s.pending[0];
            let button = action.kind->Drag_button;
            let due = front_progress(s);
            let outside = due is Some && !control::window_contains(window, position);
            let last = action.frames_left <= 1;
            let t = ticked(s, position, Some(window));
            &&& outside ==> t.effects == seq![Effect::Button { button, pressed: false }]
            &&& outside ==> (t.owed matches Some(owed) && owed.kind is Refused)
            &&& !outside && due is Some ==> t.effects.len() >= 1 && (
            t.effects[0] matches Effect::MoveCursor { position: there, .. } && there == position)
                && t.state.cursor == Some(position)
            &&& !outside && due is None ==> t.state.cursor == s.cursor
            &&& !outside && !last ==> t.effects.len() == (if due is Some {
                1int
            } else {
                0int
            }) && t.owed is None && t.state.buttons == s.buttons
            &&& !outside && last ==> t.effects.len() == (if due is Some {
                2int
            } else {
                1int
            }) && t.effects.last() == (Effect::Button { button, pressed: false }) && (
            t.owed matches Some(owed) && owed.kind is DoneWithWindow)
            &&& outside || last ==> !t.state.buttons.contains(button) && t.state.pending
                == s.pending.skip(1)
            &&& !outside && !last ==> ({
                let kept = t.state.pending.last();
                &&& t.state.pending.len() == s.pending.len()
                &&& kept.frames_left == action.frames_left - 1
                &&& kept.kind is Drag
                &&& kept.kind->from == action.kind->from && kept.kind->to == action.kind->to
                &&& kept.kind->Drag_button == button && kept.kind->steps == action.kind->steps
                &&& kept.kind->total_frames == action.kind->total_frames
                &&& kept.kind->last_step == (if due is Some {
                    due->Some_0.step
                } else {
                    action.kind->last_step
                })
            })
            &&& t.state.keys == s.keys
        }),
{
    let action = s.pending[0];
    assert(control::action_ok(action));
    control::lemma_without_held(s.buttons, action.kind->Drag_button);
}

/// Law: an owed answer is a success exactly where what was asked for was done, and it always goes to
/// the request that it is owed to. A refusal says why.
pub proof fn law_owed_answers_are_settled(
    s: ControlView,
    owed: Owed,
    window: Option<WindowInfo>,
    texts: PositionTexts,
    r: AgentResponse,
)
    requires
        settled(s, owed, window, texts, r),
    ensures
        r.id == owed.id,
        r.ok <==> owed.kind is Done || owed.kind is DoneWithWindow || owed.kind is Released
            || owed.kind is ClickedTarget,
        r.ok ==> r.error is None && (r.result matches Some(result) && result.latest_capture
            == s.latest_capture && result.capture is None && result.status == (match owed.kind {
            OwedKind::Released => "released",
            OwedKind::ClickedTarget(_) => "clicked_target",
            _ => "ok",
        }) && (owed.kind is Done <==> result.snapshot is None) && (
        result.snapshot matches Some(shown) ==> shown.frame == s.frame && shown.window == window
            && shown.mouse_position == s.cursor && shown.pressed_keys@.len() == s.keys.len()
            && shown.pressed_buttons@.len() == s.buttons.len()) && (
        owed.kind matches OwedKind::ClickedTarget(found) ==> result.details == Some(
            Details::Diagnostic(found),
        ))),
        !r.ok ==> r.result is None && (r.error matches Some(error) && error.code == (
        match owed.kind {
            OwedKind::QueueFull(_) => "queue_full",
            OwedKind::DiagnosticsUnavailable => "diagnostics_unavailable",
            OwedKind::Refused(CommandError::MissingWindow) => "missing_window",
            _ => "position_out_of_bounds",
        })),
{
}

} // verus!
