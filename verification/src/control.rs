//! Input control: held keys and buttons, clicks and drags that take several frames, and the
//! handling of one request.
//!
//! The application carries out effects and answers requests; which effects and which answers is
//! decided here. An answer is first owed and then settled, because it reports the window as it is
//! after the effects.
use crate::commands::{AgentCommand, KeyCode, MouseButton, MouseScrollUnit, Point};
use crate::json::Json;
use crate::names::KEY_CODE_NAMES;
use crate::reals::{at_most_single, less_single};
use crate::reals;
use crate::responses::{AgentSnapshot, CaptureInfo, WindowInfo};
use std::collections::VecDeque;
use vstd::prelude::*;

verus! {

/// A request that waits to be handled.
pub struct AgentRequest {
    /// What the request is known by.
    pub id: Json,
    /// Which caller waits for the answer.
    pub ticket: u64,
    /// The command.
    pub command: AgentCommand,
}

/// What a move of the cursor is measured from.
#[derive(Clone, Copy, Debug, PartialEq, Eq, Structural)]
pub enum CursorOrigin {
    /// Where input control put the cursor last.
    Put(Point),
    /// Where the window says that the cursor is, once it was put: input control had not put it
    /// before.
    Window,
}

/// What a move of the cursor is measured from, where input control put it at `cursor` last.
pub open spec fn origin(cursor: Option<Point>) -> CursorOrigin {
    match cursor {
        Some(position) => CursorOrigin::Put(position),
        None => CursorOrigin::Window,
    }
}

pub(crate) fn origin_of(cursor: Option<Point>) -> (r: CursorOrigin)
    ensures
        r == origin(cursor),
{
    match cursor {
        Some(position) => CursorOrigin::Put(position),
        None => CursorOrigin::Window,
    }
}

/// Something that the application does.
pub enum Effect {
    /// Send a key event.
    Key {
        /// The key.
        key: KeyCode,
        /// Whether it goes down.
        pressed: bool,
    },
    /// Send a mouse button event.
    Button {
        /// The button.
        button: MouseButton,
        /// Whether it goes down.
        pressed: bool,
    },
    /// Put the cursor somewhere and send the move.
    MoveCursor {
        /// Where to.
        position: Point,
        /// What the move is measured from.
        previous: CursorOrigin,
    },
    /// Send a mouse motion.
    MouseMotion {
        /// The displacement.
        delta: Point,
    },
    /// Send a scroll event.
    MouseScroll {
        /// The displacement.
        delta: Point,
        /// Its unit.
        unit: MouseScrollUnit,
    },
    /// Commit a text.
    Text {
        /// The text.
        value: String,
    },
    /// Hover a file.
    FileHover {
        /// The file.
        path: String,
    },
    /// Drop a file.
    FileDrop {
        /// The file.
        path: String,
    },
    /// Take a hovering file away.
    FileCancel,
    /// Leave the application.
    Exit,
    /// Settle an answer.
    Answer(Owed),
}

/// Why a cursor position was refused.
pub enum CommandError {
    /// There is no window.
    MissingWindow,
    /// The position is outside the window.
    PositionOutOfBounds {
        /// The position.
        position: Point,
        /// The bits of the logical width of the window.
        logical_width: u32,
        /// The bits of the logical height of the window.
        logical_height: u32,
    },
}

/// Which answer is owed.
pub enum OwedKind {
    /// That it was done.
    Done,
    /// That it was done, with the window.
    DoneWithWindow,
    /// That a pending action was ended early, with the window.
    Released,
    /// That a target was clicked, with the window and what was found.
    ClickedTarget(Json),
    /// That too much is pending.
    QueueFull(&'static str),
    /// That there are no diagnostics.
    DiagnosticsUnavailable,
    /// That a cursor position was refused.
    Refused(CommandError),
}

/// An answer that is owed.
pub struct Owed {
    /// What the request is known by.
    pub id: Json,
    /// Which caller waits for it.
    pub ticket: u64,
    /// Which answer.
    pub kind: OwedKind,
}

/// What a pending action does at its end, and on the way there.
pub enum PendingActionKind {
    /// Releases a key.
    ReleaseKey(KeyCode),
    /// Releases a button.
    ReleaseButton(MouseButton),
    /// Moves with a held button.
    Drag {
        /// The first position.
        from: Point,
        /// The last position.
        to: Point,
        /// The button.
        button: MouseButton,
        /// The frames that the moves take.
        total_frames: u16,
        /// The number of moves.
        steps: u16,
        /// The moves made so far.
        last_step: u16,
    },
}

/// An action that takes several frames.
pub struct PendingAction {
    /// What the request is known by.
    pub id: Json,
    /// Which caller waits for the answer.
    pub ticket: u64,
    /// The frames that are left.
    pub frames_left: u16,
    /// What was found, for a click on a target.
    pub details: Option<Json>,
    /// What it does.
    pub kind: PendingActionKind,
}

/// A click on a target that was found.
pub struct ResolvedClick {
    /// What the request is known by.
    pub id: Json,
    /// Which caller waits for the answer.
    pub ticket: u64,
    /// Where the target is.
    pub position: Point,
    /// The button.
    pub button: MouseButton,
    /// The frames that the button is held.
    pub frames: u16,
    /// What was found.
    pub details: Json,
}

/// The state of input control.
pub struct AgentFeedbackState {
    /// The frame, counted from one.
    pub frame: u64,
    /// The bits of the game time in seconds.
    pub game_time_secs: u64,
    /// The latest capture.
    pub latest_capture: Option<CaptureInfo>,
    /// Actions that take several frames.
    pub pending_actions: VecDeque<PendingAction>,
    /// Keys that are down, in the order in which they went down.
    pub held_keys: Vec<KeyCode>,
    /// Buttons that are down, in the order in which they went down.
    pub held_buttons: Vec<MouseButton>,
    /// Where the cursor was put.
    pub cursor_position: Option<Point>,
    /// When the last heartbeat was written, in milliseconds; zero where none was.
    pub last_heartbeat_unix_ms: u128,
}

/// What the state of input control is.
pub struct ControlView {
    /// The frame.
    pub frame: u64,
    /// The bits of the game time in seconds.
    pub game_time_secs: u64,
    /// The latest capture.
    pub latest_capture: Option<CaptureInfo>,
    /// Actions that take several frames.
    pub pending: Seq<PendingAction>,
    /// Keys that are down.
    pub keys: Seq<KeyCode>,
    /// Buttons that are down.
    pub buttons: Seq<MouseButton>,
    /// Where the cursor was put.
    pub cursor: Option<Point>,
    /// When the last heartbeat was written.
    pub heartbeat: u128,
}

/// No element occurs twice.
pub open spec fn distinct<T>(s: Seq<T>) -> bool {
    forall|i: int, j: int| 0 <= i < j < s.len() ==> s[i] != s[j]
}

/// A pending action that can be run: its key is a known key, and a drag has a frame and a move.
pub open spec fn action_ok(action: PendingAction) -> bool {
    match action.kind {
        PendingActionKind::ReleaseKey(key) => key.place < KEY_CODE_NAMES@.len(),
        PendingActionKind::ReleaseButton(_) => true,
        PendingActionKind::Drag { total_frames, steps, last_step, .. } => {
            0 < total_frames && 0 < steps && last_step <= steps
        },
    }
}

impl View for AgentFeedbackState {
    type V = ControlView;

    open spec fn view(&self) -> ControlView {
        ControlView {
            frame: self.frame,
            game_time_secs: self.game_time_secs,
            latest_capture: self.latest_capture,
            pending: self.pending_actions@,
            keys: self.held_keys@,
            buttons: self.held_buttons@,
            cursor: self.cursor_position,
            heartbeat: self.last_heartbeat_unix_ms,
        }
    }
}

impl ControlView {
    /// No key and no button is held twice, every held key is a known key, and every pending
    /// action can be run.
    pub open spec fn wf(self) -> bool {
        &&& distinct(self.keys)
        &&& distinct(self.buttons)
        &&& forall|i: int|
            0 <= i < self.keys.len() ==> (#[trigger] self.keys[i]).place < KEY_CODE_NAMES@.len()
        &&& forall|i: int| 0 <= i < self.pending.len() ==> action_ok(#[trigger] self.pending[i])
    }
}

/// The held elements after one more went down.
pub open spec fn with_held<T>(held: Seq<T>, x: T) -> Seq<T> {
    if held.contains(x) {
        held
    } else {
        held.push(x)
    }
}

/// The held elements after one went up.
pub open spec fn without_held<T>(held: Seq<T>, x: T) -> Seq<T>
    decreases held.len(),
{
    if held.len() == 0 {
        Seq::empty()
    } else if held.last() == x {
        without_held(held.drop_last(), x)
    } else {
        without_held(held.drop_last(), x).push(held.last())
    }
}

/// Taking an element out keeps exactly the others, each still once.
pub proof fn lemma_without_held<T>(held: Seq<T>, x: T)
    ensures
        forall|y: T| #[trigger]
            without_held(held, x).contains(y) <==> held.contains(y) && y != x,
        distinct(held) ==> distinct(without_held(held, x)),
        without_held(held, x).len() <= held.len(),
    decreases held.len(),
{
    if held.len() > 0 {
        let head = held.drop_last();
        let last = held.last();
        let rest = without_held(head, x);
        lemma_without_held(head, x);
        assert forall|y: T| #[trigger] held.contains(y) <==> head.contains(y) || y == last by {
            if held.contains(y) {
                let i = choose|i: int| 0 <= i < held.len() && held[i] == y;
                if i < head.len() {
                    assert(head[i] == y);
                }
            }
            if head.contains(y) {
                let i = choose|i: int| 0 <= i < head.len() && head[i] == y;
                assert(held[i] == y);
            }
            if y == last {
                assert(held[held.len() - 1] == y);
            }
        }
        if last != x {
            let whole = rest.push(last);
            assert forall|y: T| #[trigger] whole.contains(y) <==> rest.contains(y) || y == last by {
                if whole.contains(y) {
                    let i = choose|i: int| 0 <= i < whole.len() && whole[i] == y;
                    if i < rest.len() {
                        assert(rest[i] == y);
                    }
                }
                if rest.contains(y) {
                    let i = choose|i: int| 0 <= i < rest.len() && rest[i] == y;
                    assert(whole[i] == y);
                }
                if y == last {
                    assert(whole[whole.len() - 1] == y);
                }
            }
            if distinct(held) {
                assert(distinct(head));
                assert(!head.contains(last));
                assert(!rest.contains(last));
                assert forall|i: int, j: int| 0 <= i < j < whole.len() implies whole[i]
                    != whole[j] by {
                    if j == rest.len() {
                        assert(rest[i] == whole[i]);
                        assert(rest.contains(rest[i]));
                    }
                }
            }
        } else if distinct(held) {
            assert(distinct(head));
        }
    }
}

fn held_key(held: &Vec<KeyCode>, key: KeyCode) -> (r: bool)
    ensures
        r == held@.contains(key),
{
    let mut i: usize = 0;
    while i < held.len()
        invariant
            i <= held@.len(),
            forall|k: int| 0 <= k < i ==> held@[k] != key,
        decreases held@.len() - i,
    {
        if held[i] == key {
            assert(held@[i as int] == key);
            return true;
        }
        i = i + 1;
    }
    false
}

fn held_button(held: &Vec<MouseButton>, button: MouseButton) -> (r: bool)
    ensures
        r == held@.contains(button),
{
    let mut i: usize = 0;
    while i < held.len()
        invariant
            i <= held@.len(),
            forall|k: int| 0 <= k < i ==> held@[k] != button,
        decreases held@.len() - i,
    {
        if held[i] == button {
            assert(held@[i as int] == button);
            return true;
        }
        i = i + 1;
    }
    false
}

/// Notes that a key went down or up.
pub fn track_key(held: &mut Vec<KeyCode>, key: KeyCode, pressed: bool)
    ensures
        final(held)@ == (if pressed {
            with_held(old(held)@, key)
        } else {
            without_held(old(held)@, key)
        }),
{
    if pressed {
        if !held_key(held, key) {
            held.push(key);
        }
        return;
    }
    let mut kept: Vec<KeyCode> = Vec::new();
    let mut i: usize = 0;
    assert(held@.take(0) =~= Seq::<KeyCode>::empty());
    while i < held.len()
        invariant
            i <= held@.len(),
            held@ == old(held)@,
            kept@ == without_held(held@.take(i as int), key),
        decreases held@.len() - i,
    {
        proof {
            let t = held@.take(i + 1);
            assert(t.drop_last() =~= held@.take(i as int));
            assert(t.last() == held@[i as int]);
        }
        if held[i] != key {
            kept.push(held[i]);
        }
        i = i + 1;
    }
    assert(held@.take(held@.len() as int) =~= held@);
    *held = kept;
}

/// Notes that a button went down or up.
pub fn track_button(held: &mut Vec<MouseButton>, button: MouseButton, pressed: bool)
    ensures
        final(held)@ == (if pressed {
            with_held(old(held)@, button)
        } else {
            without_held(old(held)@, button)
        }),
{
    if pressed {
        if !held_button(held, button) {
            held.push(button);
        }
        return;
    }
    let mut kept: Vec<MouseButton> = Vec::new();
    let mut i: usize = 0;
    assert(held@.take(0) =~= Seq::<MouseButton>::empty());
    while i < held.len()
        invariant
            i <= held@.len(),
            held@ == old(held)@,
            kept@ == without_held(held@.take(i as int), button),
        decreases held@.len() - i,
    {
        proof {
            let t = held@.take(i + 1);
            assert(t.drop_last() =~= held@.take(i as int));
            assert(t.last() == held@[i as int]);
        }
        if held[i] != button {
            kept.push(held[i]);
        }
        i = i + 1;
    }
    assert(held@.take(held@.len() as int) =~= held@);
    *held = kept;
}

/// Tells whether a position is inside a window.
pub open spec fn window_contains(window: WindowInfo, position: Point) -> bool {
    &&& reals::single_at_most(0, position.x)
    &&& reals::single_at_most(0, position.y)
    &&& reals::single_less(position.x, window.logical_width)
    &&& reals::single_less(position.y, window.logical_height)
}

/// Tells whether a position is inside a window.
pub fn contains_position(window: &WindowInfo, position: Point) -> (r: bool)
    ensures
        r == window_contains(*window, position),
{
    at_most_single(0, position.x) && at_most_single(0, position.y) && less_single(
        position.x,
        window.logical_width,
    ) && less_single(position.y, window.logical_height)
}

/// The objection against a position.
pub open spec fn position_objection(window: WindowInfo, position: Point) -> Option<CommandError> {
    if window_contains(window, position) {
        None
    } else {
        Some(
            CommandError::PositionOutOfBounds {
                position,
                logical_width: window.logical_width,
                logical_height: window.logical_height,
            },
        )
    }
}

/// Checks that a position is inside a window.
pub fn validate_position(window: &WindowInfo, position: Point) -> (r: Result<(), CommandError>)
    ensures
        match r {
            Ok(()) => position_objection(*window, position) is None,
            Err(e) => position_objection(*window, position) == Some(e),
        },
{
    if contains_position(window, position) {
        Ok(())
    } else {
        Err(
            CommandError::PositionOutOfBounds {
                position,
                logical_width: window.logical_width,
                logical_height: window.logical_height,
            },
        )
    }
}

/// The objection against a cursor position, with or without a window.
pub open spec fn cursor_objection(window: Option<WindowInfo>, position: Point) -> Option<
    CommandError,
> {
    match window {
        None => Some(CommandError::MissingWindow),
        Some(window) => position_objection(window, position),
    }
}

/// Checks that there is a window and that a position is inside it.
pub fn validate_cursor_position(window: &Option<WindowInfo>, position: Point) -> (r: Result<
    (),
    CommandError,
>)
    ensures
        match r {
            Ok(()) => cursor_objection(*window, position) is None,
            Err(e) => cursor_objection(*window, position) == Some(e),
        },
{
    match window {
        None => Err(CommandError::MissingWindow),
        Some(window) => validate_position(window, position),
    }
}

/// The name of a mouse button.
pub open spec fn button_text(button: MouseButton) -> &'static str {
    match button {
        MouseButton::Left => "Left",
        MouseButton::Right => "Right",
        MouseButton::Middle => "Middle",
        MouseButton::Back => "Back",
        MouseButton::Forward => "Forward",
    }
}

pub(crate) fn text_of_button(button: MouseButton) -> (r: &'static str)
    ensures
        r == button_text(button),
{
    match button {
        MouseButton::Left => "Left",
        MouseButton::Right => "Right",
        MouseButton::Middle => "Middle",
        MouseButton::Back => "Back",
        MouseButton::Forward => "Forward",
    }
}

/// The snapshot `r` shows the state and the window.
pub open spec fn shows(s: ControlView, window: Option<WindowInfo>, r: AgentSnapshot) -> bool {
    &&& r.frame == s.frame
    &&& r.game_time_secs == s.game_time_secs
    &&& r.window == window
    &&& r.mouse_position == s.cursor
    &&& r.pressed_keys@ == Seq::new(s.keys.len(), |i: int| KEY_CODE_NAMES@[s.keys[i].place as int])
    &&& r.pressed_buttons@ == Seq::new(s.buttons.len(), |i: int| button_text(s.buttons[i]))
}

/// The text of an answer for a missing window.
pub open spec fn missing_window_message() -> Seq<char> {
    "primary Window resource is missing"@
}

/// The text of an answer for missing diagnostics.
pub open spec fn diagnostics_message() -> Seq<char> {
    "diagnostics require the diagnostics feature and AgentFeedbackDiagnosticsPlugin"@
}

/// The text of an answer for a position outside the window, from the texts of its numbers.
pub open spec fn position_message(
    x: Seq<char>,
    y: Seq<char>,
    width: Seq<char>,
    height: Seq<char>,
) -> Seq<char> {
    "point ["@ + x + ","@ + y + "] outside logical window "@ + width + "x"@ + height
}

/// A command that can be carried out: its key is a known key, and a drag has a frame and a move.
pub open spec fn command_ok(command: AgentCommand) -> bool {
    match command {
        AgentCommand::KeyDown(key) => key.place < KEY_CODE_NAMES@.len(),
        AgentCommand::KeyUp(key) => key.place < KEY_CODE_NAMES@.len(),
        AgentCommand::KeyHold { key, .. } => key.place < KEY_CODE_NAMES@.len(),
        AgentCommand::Drag { steps, frames, .. } => 0 < steps && 0 < frames,
        _ => true,
    }
}

/// A capture that is asked for.
pub struct CaptureRequest {
    /// What the request is known by.
    pub id: Json,
    /// Which caller waits for the answer.
    pub ticket: u64,
    /// The frames to wait first.
    pub frames: u16,
    /// A label in the file name.
    pub label: Option<String>,
}

/// What came of a request that input control handled.
pub struct Handled {
    /// Whether it counts as accepted.
    pub accepted: bool,
    /// What the application does, in order.
    pub effects: Vec<Effect>,
    /// The answer that is owed at once.
    pub owed: Option<Owed>,
}

/// Where a request went.
pub enum Drained {
    /// Input control handled it.
    Handled(Handled),
    /// It is for time control.
    Timing(AgentRequest),
    /// It is for captures.
    Capture(CaptureRequest),
    /// It is for diagnostics.
    Diagnostics(AgentRequest),
}

/// The request was handled in this way.
pub open spec fn handled(
    r: Drained,
    accepted: bool,
    effects: Seq<Effect>,
    owed: Option<Owed>,
) -> bool {
    r matches Drained::Handled(h) && h.accepted == accepted && h.effects@ == effects && h.owed
        == owed
}

/// The answer `kind` to a request.
pub open spec fn owed_for(request: AgentRequest, kind: OwedKind) -> Owed {
    Owed { id: request.id, ticket: request.ticket, kind }
}

/// The request was refused with this answer, and nothing changed.
pub open spec fn turned_down(
    s: ControlView,
    t: ControlView,
    request: AgentRequest,
    r: Drained,
    kind: OwedKind,
) -> bool {
    t == s && handled(r, false, Seq::empty(), Some(owed_for(request, kind)))
}

/// The request had this effect on the window, or was refused for want of one.
pub open spec fn sent_to_window(
    s: ControlView,
    t: ControlView,
    request: AgentRequest,
    window: Option<WindowInfo>,
    effects: Seq<Effect>,
    after: ControlView,
    r: Drained,
) -> bool {
    match window {
        None => turned_down(s, t, request, r, OwedKind::Refused(CommandError::MissingWindow)),
        Some(_) => t == after && handled(
            r,
            true,
            effects,
            Some(owed_for(request, OwedKind::DoneWithWindow)),
        ),
    }
}

/// The state with the cursor put somewhere.
pub open spec fn cursor_put(s: ControlView, position: Point) -> ControlView {
    ControlView { cursor: Some(position), ..s }
}

/// The state with one more pending action.
pub open spec fn with_pending(s: ControlView, action: PendingAction) -> ControlView {
    ControlView { pending: s.pending.push(action), ..s }
}

/// The state with a button down.
pub open spec fn button_down(s: ControlView, button: MouseButton) -> ControlView {
    ControlView { buttons: with_held(s.buttons, button), ..s }
}

/// The effects that release everything that is held and answer everything that is pending.
pub open spec fn release_effects(s: ControlView) -> Seq<Effect> {
    Seq::new(s.keys.len(), |i: int| Effect::Key { key: s.keys[i], pressed: false }) + Seq::new(
        s.buttons.len(),
        |i: int| Effect::Button { button: s.buttons[i], pressed: false },
    ) + Seq::new(
        s.pending.len(),
        |i: int|
            Effect::Answer(
                Owed { id: s.pending[i].id, ticket: s.pending[i].ticket, kind: OwedKind::Released },
            ),
    )
}

/// The state with nothing held and nothing pending.
pub open spec fn all_released(s: ControlView) -> ControlView {
    ControlView { keys: Seq::empty(), buttons: Seq::empty(), pending: Seq::empty(), ..s }
}

/// What starting an action with a held button does, once the queue has room and the cursor may
/// go to `position`.
pub open spec fn press_at(s: ControlView, position: Point, action: PendingAction, button: MouseButton) -> ControlView {
    with_pending(button_down(cursor_put(s, position), button), action)
}

/// The effects of starting an action with a held button.
pub open spec fn press_effects(s: ControlView, position: Point, button: MouseButton) -> Seq<Effect> {
    seq![
        Effect::MoveCursor { position, previous: origin(s.cursor) },
        Effect::Button { button, pressed: true },
    ]
}

/// The result `r` and the state `t` are what a request makes of the state `s`.
pub open spec fn drain_agrees(
    s: ControlView,
    t: ControlView,
    request: AgentRequest,
    window: Option<WindowInfo>,
    limit: usize,
    diagnostics: bool,
    r: Drained,
) -> bool {
    match request.command {
        AgentCommand::KeyDown(key) => sent_to_window(
            s,
            t,
            request,
            window,
            seq![Effect::Key { key, pressed: true }],
            ControlView { keys: with_held(s.keys, key), ..s },
            r,
        ),
        AgentCommand::KeyUp(key) => sent_to_window(
            s,
            t,
            request,
            window,
            seq![Effect::Key { key, pressed: false }],
            ControlView { keys: without_held(s.keys, key), ..s },
            r,
        ),
        AgentCommand::MouseDown(button) => sent_to_window(
            s,
            t,
            request,
            window,
            seq![Effect::Button { button, pressed: true }],
            button_down(s, button),
            r,
        ),
        AgentCommand::MouseUp(button) => sent_to_window(
            s,
            t,
            request,
            window,
            seq![Effect::Button { button, pressed: false }],
            ControlView { buttons: without_held(s.buttons, button), ..s },
            r,
        ),
        AgentCommand::CursorMove { position } => match cursor_objection(window, position) {
            Some(e) => turned_down(s, t, request, r, OwedKind::Refused(e)),
            None => t == cursor_put(s, position) && handled(
                r,
                true,
                seq![Effect::MoveCursor { position, previous: origin(s.cursor) }],
                Some(owed_for(request, OwedKind::DoneWithWindow)),
            ),
        },
        AgentCommand::MouseMotion { delta } => t == s && handled(
            r,
            true,
            seq![Effect::MouseMotion { delta }],
            Some(owed_for(request, OwedKind::Done)),
        ),
        AgentCommand::MouseScroll { delta, unit } => sent_to_window(
            s,
            t,
            request,
            window,
            seq![Effect::MouseScroll { delta, unit }],
            s,
            r,
        ),
        AgentCommand::Text { value } => sent_to_window(
            s,
            t,
            request,
            window,
            seq![Effect::Text { value }],
            s,
            r,
        ),
        AgentCommand::FileHover { path } => sent_to_window(
            s,
            t,
            request,
            window,
            seq![Effect::FileHover { path }],
            s,
            r,
        ),
        AgentCommand::FileDrop { path } => sent_to_window(
            s,
            t,
            request,
            window,
            seq![Effect::FileDrop { path }],
            s,
            r,
        ),
        AgentCommand::FileCancel => sent_to_window(
            s,
            t,
            request,
            window,
            seq![Effect::FileCancel],
            s,
            r,
        ),
        AgentCommand::WindowInfo => sent_to_window(
            s,
            t,
            request,
            window,
            Seq::empty(),
            s,
            r,
        ),
        AgentCommand::Wait { .. } => t == s && r == Drained::Timing(request),
        AgentCommand::WaitSeconds { .. } => t == s && r == Drained::Timing(request),
        AgentCommand::AdvanceTime { .. } => t == s && r == Drained::Timing(request),
        AgentCommand::Capture { label } => t == s && r == Drained::Capture(
            CaptureRequest { id: request.id, ticket: request.ticket, frames: 0, label },
        ),
        AgentCommand::CaptureAfterFrames { frames, label } => t == s && r == Drained::Capture(
            CaptureRequest { id: request.id, ticket: request.ticket, frames, label },
        ),
        AgentCommand::ReleaseAllInputs => sent_to_window(
            s,
            t,
            request,
            window,
            release_effects(s),
            all_released(s),
            r,
        ),
        AgentCommand::Shutdown => match window {
            None => t == s && handled(
                r,
                true,
                seq![Effect::Exit],
                Some(owed_for(request, OwedKind::Done)),
            ),
            Some(_) => t == all_released(s) && handled(
                r,
                true,
                release_effects(s).push(Effect::Exit),
                Some(owed_for(request, OwedKind::DoneWithWindow)),
            ),
        },
        AgentCommand::Click { position, button, frames } => if s.pending.len() >= limit {
            turned_down(s, t, request, r, OwedKind::QueueFull("too many pending actions"))
        } else {
            match cursor_objection(window, position) {
                Some(e) => turned_down(s, t, request, r, OwedKind::Refused(e)),
                None => {
                    let action = PendingAction {
                        id: request.id,
                        ticket: request.ticket,
                        frames_left: frames,
                        details: None,
                        kind: PendingActionKind::ReleaseButton(button),
                    };
                    t == press_at(s, position, action, button) && handled(
                        r,
                        true,
                        press_effects(s, position, button),
                        None,
                    )
                },
            }
        },
        AgentCommand::Drag { from, to, button, steps, frames } => if s.pending.len() >= limit {
            turned_down(s, t, request, r, OwedKind::QueueFull("too many pending actions"))
        } else if cursor_objection(window, to) is Some {
            turned_down(
                s,
                t,
                request,
                r,
                OwedKind::Refused(cursor_objection(window, to)->Some_0),
            )
        } else {
            match cursor_objection(window, from) {
                Some(e) => turned_down(s, t, request, r, OwedKind::Refused(e)),
                None => {
                    let action = PendingAction {
                        id: request.id,
                        ticket: request.ticket,
                        frames_left: frames,
                        details: None,
                        kind: PendingActionKind::Drag {
                            from,
                            to,
                            button,
                            total_frames: frames,
                            steps,
                            last_step: 0,
                        },
                    };
                    t == press_at(s, from, action, button) && handled(
                        r,
                        true,
                        press_effects(s, from, button),
                        None,
                    )
                },
            }
        },
        AgentCommand::KeyHold { key, frames } => if s.pending.len() >= limit {
            turned_down(s, t, request, r, OwedKind::QueueFull("too many pending actions"))
        } else {
            match window {
                None => turned_down(
                    s,
                    t,
                    request,
                    r,
                    OwedKind::Refused(CommandError::MissingWindow),
                ),
                Some(_) => {
                    let action = PendingAction {
                        id: request.id,
                        ticket: request.ticket,
                        frames_left: frames,
                        details: None,
                        kind: PendingActionKind::ReleaseKey(key),
                    };
                    t == with_pending(ControlView { keys: with_held(s.keys, key), ..s }, action)
                        && handled(r, true, seq![Effect::Key { key, pressed: true }], None)
                },
            }
        },
        _ => if diagnostics {
            t == s && r == Drained::Diagnostics(request)
        } else {
            turned_down(s, t, request, r, OwedKind::DiagnosticsUnavailable)
        },
    }
}

fn handled_with(accepted: bool, effects: Vec<Effect>, id: Json, ticket: u64, kind: OwedKind) -> (r:
    Drained)
    ensures
        handled(r, accepted, effects@, Some(Owed { id, ticket, kind })),
{
    Drained::Handled(Handled { accepted, effects, owed: Some(Owed { id, ticket, kind }) })
}

fn turn_down(id: Json, ticket: u64, kind: OwedKind) -> (r: Drained)
    ensures
        handled(r, false, Seq::empty(), Some(Owed { id, ticket, kind })),
{
    handled_with(false, Vec::new(), id, ticket, kind)
}

fn one_effect(effect: Effect) -> (r: Vec<Effect>)
    ensures
        r@ == seq![effect],
{
    let mut r: Vec<Effect> = Vec::new();
    r.push(effect);
    assert(r@ =~= seq![effect]);
    r
}

fn to_window(effect: Effect, id: Json, ticket: u64, window: &Option<WindowInfo>) -> (r: Drained)
    ensures
        match *window {
            None => handled(
                r,
                false,
                Seq::empty(),
                Some(
                    Owed { id, ticket, kind: OwedKind::Refused(CommandError::MissingWindow) },
                ),
            ),
            Some(_) => handled(
                r,
                true,
                seq![effect],
                Some(Owed { id, ticket, kind: OwedKind::DoneWithWindow }),
            ),
        },
{
    if window.is_none() {
        return turn_down(id, ticket, OwedKind::Refused(CommandError::MissingWindow));
    }
    handled_with(true, one_effect(effect), id, ticket, OwedKind::DoneWithWindow)
}

/// One more distinct element keeps a sequence distinct.
pub(crate) proof fn lemma_with_held<T>(held: Seq<T>, x: T)
    requires
        distinct(held),
    ensures
        distinct(with_held(held, x)),
        forall|y: T| #[trigger] with_held(held, x).contains(y) <==> held.contains(y) || y == x,
{
    let whole = with_held(held, x);
    if !held.contains(x) {
        assert forall|i: int, j: int| 0 <= i < j < whole.len() implies whole[i] != whole[j] by {
            if j == held.len() {
                assert(held[i] == whole[i]);
                assert(held.contains(held[i]));
            }
        }
        assert forall|y: T| #[trigger] whole.contains(y) <==> held.contains(y) || y == x by {
            if whole.contains(y) {
                let i = choose|i: int| 0 <= i < whole.len() && whole[i] == y;
                if i < held.len() {
                    assert(held[i] == y);
                }
            }
            if held.contains(y) {
                let i = choose|i: int| 0 <= i < held.len() && held[i] == y;
                assert(whole[i] == y);
            }
            if y == x {
                assert(whole[whole.len() - 1] == y);
            }
        }
    }
}

/// A known key that goes down or up keeps every held key known.
proof fn lemma_keys_known(keys: Seq<KeyCode>, key: KeyCode)
    requires
        distinct(keys),
        key.place < KEY_CODE_NAMES@.len(),
        forall|i: int|
            0 <= i < keys.len() ==> (#[trigger] keys[i]).place < KEY_CODE_NAMES@.len(),
    ensures
        forall|i: int|
            0 <= i < with_held(keys, key).len() ==> (#[trigger] with_held(keys, key)[i]).place
                < KEY_CODE_NAMES@.len(),
        forall|i: int|
            0 <= i < without_held(keys, key).len() ==> (#[trigger] without_held(
                keys,
                key,
            )[i]).place < KEY_CODE_NAMES@.len(),
{
    lemma_with_held(keys, key);
    lemma_without_held(keys, key);
    assert forall|i: int| 0 <= i < without_held(keys, key).len() implies (#[trigger] without_held(
        keys,
        key,
    )[i]).place < KEY_CODE_NAMES@.len() by {
        let k = without_held(keys, key)[i];
        assert(without_held(keys, key).contains(k));
        assert(keys.contains(k));
    }
}

/// A frame begins: it is counted, the game time is taken over, and a heartbeat is due at first and
/// then once its interval has passed since the last one.
pub open spec fn frame_begun(
    s: ControlView,
    t: ControlView,
    game_time: Option<u64>,
    heartbeat_interval_ms: Option<u128>,
    now_unix_ms: u128,
    due: bool,
) -> bool {
    &&& due == (heartbeat_interval_ms is Some && (s.heartbeat == 0 || now_unix_ms - s.heartbeat
        >= heartbeat_interval_ms->Some_0 || (now_unix_ms <= s.heartbeat
        && heartbeat_interval_ms->Some_0 == 0)))
    &&& t == (ControlView {
        frame: if s.frame == u64::MAX {
            u64::MAX
        } else {
            (s.frame + 1) as u64
        },
        game_time_secs: match game_time {
            Some(bits) => bits,
            None => s.game_time_secs,
        },
        heartbeat: if due {
            now_unix_ms
        } else {
            s.heartbeat
        },
        ..s
    })
}

impl AgentFeedbackState {
    /// A state with nothing held and nothing pending.
    pub fn new() -> (r: AgentFeedbackState)
        ensures
            r@ == (ControlView {
                frame: 0,
                game_time_secs: 0,
                latest_capture: None,
                pending: Seq::empty(),
                keys: Seq::empty(),
                buttons: Seq::empty(),
                cursor: None,
                heartbeat: 0,
            }),
            r@.wf(),
    {
        AgentFeedbackState {
            frame: 0,
            game_time_secs: 0,
            latest_capture: None,
            pending_actions: VecDeque::new(),
            held_keys: Vec::new(),
            held_buttons: Vec::new(),
            cursor_position: None,
            last_heartbeat_unix_ms: 0,
        }
    }

    /// Begins a frame: counts it, takes over the game time, and tells whether a heartbeat is due.
    ///
    /// A heartbeat is due at first and then once its interval has passed since the last one.
    pub fn begin_agent_frame(
        &mut self,
        game_time: Option<u64>,
        heartbeat_interval_ms: Option<u128>,
        now_unix_ms: u128,
    ) -> (due: bool)
        ensures
            frame_begun(
                old(self)@,
                final(self)@,
                game_time,
                heartbeat_interval_ms,
                now_unix_ms,
                due,
            ),
    {
        self.frame = self.frame.saturating_add(1);
        if let Some(bits) = game_time {
            self.game_time_secs = bits;
        }
        match heartbeat_interval_ms {
            None => false,
            Some(interval) => {
                let last: u128 = self.last_heartbeat_unix_ms;
                let passed: u128 = if now_unix_ms >= last {
                    now_unix_ms - last
                } else {
                    0
                };
                if last == 0 || passed >= interval {
                    self.last_heartbeat_unix_ms = now_unix_ms;
                    true
                } else {
                    false
                }
            },
        }
    }

    /// Releases everything that is held and answers everything that is pending.
    pub fn release_all_inputs_internal(&mut self) -> (effects: Vec<Effect>)
        ensures
            effects@ == release_effects(old(self)@),
            final(self)@ == all_released(old(self)@),
            final(self)@.wf(),
    {
        let mut effects: Vec<Effect> = Vec::new();
        let ghost s = self@;
        let mut i: usize = 0;
        while i < self.held_keys.len()
            invariant
                self@ == s,
                i <= s.keys.len(),
                effects@ == Seq::new(
                    i as nat,
                    |k: int| Effect::Key { key: s.keys[k], pressed: false },
                ),
            decreases s.keys.len() - i,
        {
            effects.push(Effect::Key { key: self.held_keys[i], pressed: false });
            i = i + 1;
            assert(effects@ =~= Seq::new(
                i as nat,
                |k: int| Effect::Key { key: s.keys[k], pressed: false },
            ));
        }
        let ghost first = effects@;
        let mut j: usize = 0;
        assert(effects@ =~= first + Seq::new(
            0,
            |k: int| Effect::Button { button: s.buttons[k], pressed: false },
        ));
        while j < self.held_buttons.len()
            invariant
                self@ == s,
                j <= s.buttons.len(),
                effects@ == first + Seq::new(
                    j as nat,
                    |k: int| Effect::Button { button: s.buttons[k], pressed: false },
                ),
            decreases s.buttons.len() - j,
        {
            effects.push(Effect::Button { button: self.held_buttons[j], pressed: false });
            j = j + 1;
            assert(effects@ =~= first + Seq::new(
                j as nat,
                |k: int| Effect::Button { button: s.buttons[k], pressed: false },
            ));
        }
        let ghost second = effects@;
        let ghost mut done: nat = 0;
        assert(effects@ =~= second + Seq::new(
            0,
            |k: int|
                Effect::Answer(
                    Owed {
                        id: s.pending[k].id,
                        ticket: s.pending[k].ticket,
                        kind: OwedKind::Released,
                    },
                ),
        ));
        assert(s.pending.skip(0) =~= s.pending);
        while self.pending_actions.len() > 0
            invariant
                done <= s.pending.len(),
                self.pending_actions@ == s.pending.skip(done as int),
                self@ == (ControlView { pending: self.pending_actions@, ..s }),
                effects@ == second + Seq::new(
                    done,
                    |k: int|
                        Effect::Answer(
                            Owed {
                                id: s.pending[k].id,
                                ticket: s.pending[k].ticket,
                                kind: OwedKind::Released,
                            },
                        ),
                ),
            decreases self.pending_actions@.len(),
        {
            if let Some(action) = self.pending_actions.pop_front() {
                effects.push(
                    Effect::Answer(
                        Owed { id: action.id, ticket: action.ticket, kind: OwedKind::Released },
                    ),
                );
                proof {
                    done = done + 1;
                    assert(self.pending_actions@ =~= s.pending.skip(done as int));
                }
                assert(effects@ =~= second + Seq::new(
                    done,
                    |k: int|
                        Effect::Answer(
                            Owed {
                                id: s.pending[k].id,
                                ticket: s.pending[k].ticket,
                                kind: OwedKind::Released,
                            },
                        ),
                ));
            }
        }
        self.held_keys.clear();
        self.held_buttons.clear();
        assert(effects@ =~= release_effects(s));
        assert(self.pending_actions@ =~= Seq::empty());
        assert(self@ == all_released(s));
        effects
    }

    /// Starts an action with a held button: puts the cursor somewhere and presses the button.
    pub(crate) fn press_button_at(
        &mut self,
        position: Point,
        button: MouseButton,
        action: PendingAction,
    ) -> (r: Handled)
        requires
            old(self)@.wf(),
            action_ok(action),
        ensures
            final(self)@ == press_at(old(self)@, position, action, button),
            final(self)@.wf(),
            r.accepted && r.owed is None,
            r.effects@ == press_effects(old(self)@, position, button),
    {
        let ghost s = self@;
        let mut effects: Vec<Effect> = Vec::new();
        effects.push(Effect::MoveCursor { position, previous: origin_of(self.cursor_position) });
        effects.push(Effect::Button { button, pressed: true });
        self.cursor_position = Some(position);
        proof {
            lemma_with_held(s.buttons, button);
        }
        track_button(&mut self.held_buttons, button, true);
        self.pending_actions.push_back(action);
        assert(effects@ =~= press_effects(s, position, button));
        Handled { accepted: true, effects, owed: None }
    }

    /// Handles one request.
    ///
    /// Input commands change what is held, start an action of several frames, or are refused.
    /// Commands for time, captures and diagnostics are passed on.
    pub fn drain_agent_request(
        &mut self,
        request: AgentRequest,
        window: Option<WindowInfo>,
        limit: usize,
        diagnostics: bool,
    ) -> (r: Drained)
        requires
            old(self)@.wf(),
            command_ok(request.command),
        ensures
            final(self)@.wf(),
            drain_agrees(old(self)@, final(self)@, request, window, limit, diagnostics, r),
    {
        let AgentRequest { id, ticket, command } = request;
        let ghost s = self@;
        match command {
            AgentCommand::KeyDown(key) => {
                if window.is_some() {
                    proof {
                        lemma_with_held(s.keys, key);
                        lemma_keys_known(s.keys, key);
                    }
                    track_key(&mut self.held_keys, key, true);
                }
                to_window(Effect::Key { key, pressed: true }, id, ticket, &window)
            },
            AgentCommand::KeyUp(key) => {
                if window.is_some() {
                    proof {
                        lemma_without_held(s.keys, key);
                        lemma_keys_known(s.keys, key);
                    }
                    track_key(&mut self.held_keys, key, false);
                }
                to_window(Effect::Key { key, pressed: false }, id, ticket, &window)
            },
            AgentCommand::MouseDown(button) => {
                if window.is_some() {
                    proof {
                        lemma_with_held(s.buttons, button);
                    }
                    track_button(&mut self.held_buttons, button, true);
                }
                to_window(Effect::Button { button, pressed: true }, id, ticket, &window)
            },
            AgentCommand::MouseUp(button) => {
                if window.is_some() {
                    proof {
                        lemma_without_held(s.buttons, button);
                    }
                    track_button(&mut self.held_buttons, button, false);
                }
                to_window(Effect::Button { button, pressed: false }, id, ticket, &window)
            },
            AgentCommand::CursorMove { position } => {
                if let Err(e) = validate_cursor_position(&window, position) {
                    return turn_down(id, ticket, OwedKind::Refused(e));
                }
                let effects = one_effect(
                    Effect::MoveCursor { position, previous: origin_of(self.cursor_position) },
                );
                self.cursor_position = Some(position);
                handled_with(true, effects, id, ticket, OwedKind::DoneWithWindow)
            },
            AgentCommand::MouseMotion { delta } => handled_with(
                true,
                one_effect(Effect::MouseMotion { delta }),
                id,
                ticket,
                OwedKind::Done,
            ),
            AgentCommand::MouseScroll { delta, unit } => to_window(
                Effect::MouseScroll { delta, unit },
                id,
                ticket,
                &window,
            ),
            AgentCommand::Text { value } => to_window(Effect::Text { value }, id, ticket, &window),
            AgentCommand::FileHover { path } => to_window(
                Effect::FileHover { path },
                id,
                ticket,
                &window,
            ),
            AgentCommand::FileDrop { path } => to_window(
                Effect::FileDrop { path },
                id,
                ticket,
                &window,
            ),
            AgentCommand::FileCancel => to_window(Effect::FileCancel, id, ticket, &window),
            AgentCommand::WindowInfo => {
                if window.is_none() {
                    return turn_down(id, ticket, OwedKind::Refused(CommandError::MissingWindow));
                }
                handled_with(true, Vec::new(), id, ticket, OwedKind::DoneWithWindow)
            },
            AgentCommand::Wait { frames } => Drained::Timing(
                AgentRequest { id, ticket, command: AgentCommand::Wait { frames } },
            ),
            AgentCommand::WaitSeconds { duration, max_frames } => Drained::Timing(
                AgentRequest {
                    id,
                    ticket,
                    command: AgentCommand::WaitSeconds { duration, max_frames },
                },
            ),
            AgentCommand::AdvanceTime { duration, step } => Drained::Timing(
                AgentRequest { id, ticket, command: AgentCommand::AdvanceTime { duration, step } },
            ),
            AgentCommand::Capture { label } => Drained::Capture(
                CaptureRequest { id, ticket, frames: 0, label },
            ),
            AgentCommand::CaptureAfterFrames { frames, label } => Drained::Capture(
                CaptureRequest { id, ticket, frames, label },
            ),
            AgentCommand::ReleaseAllInputs => {
                if window.is_none() {
                    return turn_down(id, ticket, OwedKind::Refused(CommandError::MissingWindow));
                }
                let effects = self.release_all_inputs_internal();
                handled_with(true, effects, id, ticket, OwedKind::DoneWithWindow)
            },
            AgentCommand::Shutdown => {
                if window.is_none() {
                    return handled_with(
                        true,
                        one_effect(Effect::Exit),
                        id,
                        ticket,
                        OwedKind::Done,
                    );
                }
                let mut effects = self.release_all_inputs_internal();
                effects.push(Effect::Exit);
                handled_with(true, effects, id, ticket, OwedKind::DoneWithWindow)
            },
            AgentCommand::Click { position, button, frames } => {
                if self.pending_actions.len() >= limit {
                    return turn_down(id, ticket, OwedKind::QueueFull("too many pending actions"));
                }
                if let Err(e) = validate_cursor_position(&window, position) {
                    return turn_down(id, ticket, OwedKind::Refused(e));
                }
                let action = PendingAction {
                    id,
                    ticket,
                    frames_left: frames,
                    details: None,
                    kind: PendingActionKind::ReleaseButton(button),
                };
                Drained::Handled(self.press_button_at(position, button, action))
            },
            AgentCommand::Drag { from, to, button, steps, frames } => {
                if self.pending_actions.len() >= limit {
                    return turn_down(id, ticket, OwedKind::QueueFull("too many pending actions"));
                }
                if let Err(e) = validate_cursor_position(&window, to) {
                    return turn_down(id, ticket, OwedKind::Refused(e));
                }
                if let Err(e) = validate_cursor_position(&window, from) {
                    return turn_down(id, ticket, OwedKind::Refused(e));
                }
                let action = PendingAction {
                    id,
                    ticket,
                    frames_left: frames,
                    details: None,
                    kind: PendingActionKind::Drag {
                        from,
                        to,
                        button,
                        total_frames: frames,
                        steps,
                        last_step: 0,
                    },
                };
                Drained::Handled(self.press_button_at(from, button, action))
            },
            AgentCommand::KeyHold { key, frames } => {
                if self.pending_actions.len() >= limit {
                    return turn_down(id, ticket, OwedKind::QueueFull("too many pending actions"));
                }
                if window.is_none() {
                    return turn_down(id, ticket, OwedKind::Refused(CommandError::MissingWindow));
                }
                proof {
                    lemma_with_held(s.keys, key);
                    lemma_keys_known(s.keys, key);
                }
                track_key(&mut self.held_keys, key, true);
                self.pending_actions.push_back(
                    PendingAction {
                        id,
                        ticket,
                        frames_left: frames,
                        details: None,
                        kind: PendingActionKind::ReleaseKey(key),
                    },
                );
                Drained::Handled(
                    Handled {
                        accepted: true,
                        effects: one_effect(Effect::Key { key, pressed: true }),
                        owed: None,
                    },
                )
            },
            command => {
                if diagnostics {
                    Drained::Diagnostics(AgentRequest { id, ticket, command })
                } else {
                    turn_down(id, ticket, OwedKind::DiagnosticsUnavailable)
                }
            },
        }
    }
}

/// Law: releasing everything sends a release for each held key and each held button, answers every
/// pending action, and leaves nothing held and nothing pending.
pub proof fn law_everything_held_is_released(s: ControlView)
    ensures
        all_released(s).keys.len() == 0,
        all_released(s).buttons.len() == 0,
        all_released(s).pending.len() == 0,
        forall|key: KeyCode| #[trigger]
            s.keys.contains(key) ==> release_effects(s).contains(
                Effect::Key { key, pressed: false },
            ),
        forall|button: MouseButton| #[trigger]
            s.buttons.contains(button) ==> release_effects(s).contains(
                Effect::Button { button, pressed: false },
            ),
        forall|action: PendingAction| #[trigger]
            s.pending.contains(action) ==> release_effects(s).contains(
                Effect::Answer(
                    Owed { id: action.id, ticket: action.ticket, kind: OwedKind::Released },
                ),
            ),
{
    let effects = release_effects(s);
    let k = s.keys.len() as int;
    let b = s.buttons.len() as int;
    assert forall|key: KeyCode| #[trigger] s.keys.contains(key) implies effects.contains(
        Effect::Key { key, pressed: false },
    ) by {
        let i = s.keys.index_of(key);
        assert(effects[i] == (Effect::Key { key, pressed: false }));
    }
    assert forall|button: MouseButton| #[trigger]
        s.buttons.contains(button) implies effects.contains(
        Effect::Button { button, pressed: false },
    ) by {
        let i = s.buttons.index_of(button);
        assert(effects[k + i] == (Effect::Button { button, pressed: false }));
    }
    assert forall|action: PendingAction| #[trigger]
        s.pending.contains(action) implies effects.contains(
        Effect::Answer(Owed { id: action.id, ticket: action.ticket, kind: OwedKind::Released }),
    ) by {
        let i = s.pending.index_of(action);
        assert(effects[k + b + i] == Effect::Answer(
            Owed { id: action.id, ticket: action.ticket, kind: OwedKind::Released },
        ));
    }
}

/// Law: a request that is refused changes nothing, does nothing, and is answered under its own
/// identity.
pub proof fn law_refused_requests_change_nothing(
    s: ControlView,
    t: ControlView,
    request: AgentRequest,
    window: Option<WindowInfo>,
    limit: usize,
    diagnostics: bool,
    r: Drained,
)
    requires
        drain_agrees(s, t, request, window, limit, diagnostics, r),
    ensures
        r matches Drained::Handled(h) ==> (!h.accepted ==> t == s && h.effects@.len() == 0 && (
        h.owed matches Some(owed) && owed.id == request.id && owed.ticket == request.ticket)),
{
}

/// Law: a request that input control handles is answered at once, or one action more is pending
/// that will answer it; the actions that are pending never exceed their bound.
pub proof fn law_requests_are_answered_or_pending(
    s: ControlView,
    t: ControlView,
    request: AgentRequest,
    window: Option<WindowInfo>,
    limit: usize,
    diagnostics: bool,
    r: Drained,
)
    requires
        drain_agrees(s, t, request, window, limit, diagnostics, r),
    ensures
        r matches Drained::Handled(h) ==> match h.owed {
            Some(owed) => owed.id == request.id && owed.ticket == request.ticket,
            None => t.pending.len() == s.pending.len() + 1 && t.pending.last().id == request.id
                && t.pending.last().ticket == request.ticket,
        },
        s.pending.len() <= limit ==> t.pending.len() <= limit,
{
}

/// Whether a key is down after the application carried out some effects, in their order: as the
/// last event of that key says, or as before where there is none.
pub open spec fn key_after(down: bool, key: KeyCode, effects: Seq<Effect>) -> bool
    decreases effects.len(),
{
    if effects.len() == 0 {
        down
    } else {
        match effects.last() {
            Effect::Key { key: other, pressed } => if other == key {
                pressed
            } else {
                key_after(down, key, effects.drop_last())
            },
            _ => key_after(down, key, effects.drop_last()),
        }
    }
}

/// Whether a button is down after the application carried out some effects, in their order.
pub open spec fn button_after(down: bool, button: MouseButton, effects: Seq<Effect>) -> bool
    decreases effects.len(),
{
    if effects.len() == 0 {
        down
    } else {
        match effects.last() {
            Effect::Button { button: other, pressed } => if other == button {
                pressed
            } else {
                button_after(down, button, effects.drop_last())
            },
            _ => button_after(down, button, effects.drop_last()),
        }
    }
}

/// Where the cursor is after the application carried out some effects, in their order.
pub open spec fn cursor_after(cursor: Option<Point>, effects: Seq<Effect>) -> Option<Point>
    decreases effects.len(),
{
    if effects.len() == 0 {
        cursor
    } else {
        match effects.last() {
            Effect::MoveCursor { position, .. } => Some(position),
            _ => cursor_after(cursor, effects.drop_last()),
        }
    }
}

/// What is noted as held agrees with the events that the application sends: from one state to the
/// next exactly those keys go down and up for which there is an event that says so.
pub open spec fn keys_follow(s: ControlView, t: ControlView, effects: Seq<Effect>) -> bool {
    forall|key: KeyCode| #[trigger]
        t.keys.contains(key) <==> key_after(s.keys.contains(key), key, effects)
}

/// The same of buttons.
pub open spec fn buttons_follow(s: ControlView, t: ControlView, effects: Seq<Effect>) -> bool {
    forall|button: MouseButton| #[trigger]
        t.buttons.contains(button) <==> button_after(s.buttons.contains(button), button, effects)
}

/// Moves of the cursor are measured from where it was put last, and the last of them is where the
/// cursor is noted to be.
pub open spec fn cursor_follows(s: ControlView, t: ControlView, effects: Seq<Effect>) -> bool {
    &&& t.cursor == cursor_after(s.cursor, effects)
    &&& forall|i: int|
        0 <= i < effects.len() && #[trigger] effects[i] is MoveCursor
            ==> effects[i]->MoveCursor_previous == (match cursor_after(s.cursor, effects.take(i)) {
            Some(put) => CursorOrigin::Put(put),
            None => CursorOrigin::Window,
        })
}

/// A key whose events all say one thing is as they say; one without an event is as before.
pub(crate) proof fn lemma_key_after(down: bool, key: KeyCode, effects: Seq<Effect>, pressed: bool)
    requires
        forall|i: int|
            0 <= i < effects.len() ==> (#[trigger] effects[i] is Key && effects[i]->key == key
                ==> effects[i]->Key_pressed == pressed),
    ensures
        (exists|i: int|
            0 <= i < effects.len() && #[trigger] effects[i] is Key && effects[i]->key == key)
            ==> key_after(down, key, effects) == pressed,
        (forall|i: int|
            0 <= i < effects.len() ==> !(#[trigger] effects[i] is Key && effects[i]->key == key))
            ==> key_after(down, key, effects) == down,
    decreases effects.len(),
{
    if effects.len() > 0 {
        let rest = effects.drop_last();
        assert(effects.last() == effects[effects.len() - 1]);
        assert forall|i: int|
            0 <= i < rest.len() && #[trigger] rest[i] is Key && rest[i]->key
                == key implies rest[i]->Key_pressed == pressed by {
            assert(rest[i] == effects[i]);
        }
        lemma_key_after(down, key, rest, pressed);
        if !(effects.last() is Key && effects.last()->key == key) {
            if exists|i: int|
                0 <= i < effects.len() && #[trigger] effects[i] is Key && effects[i]->key == key {
                let i = choose|i: int|
                    0 <= i < effects.len() && #[trigger] effects[i] is Key && effects[i]->key
                        == key;
                assert(rest[i] == effects[i]);
            } else {
                assert forall|i: int| 0 <= i < rest.len() implies !(#[trigger] rest[i] is Key
                    && rest[i]->key == key) by {
                    assert(rest[i] == effects[i]);
                }
            }
        }
    }
}

/// A button whose events all say one thing is as they say; one without an event is as before.
pub(crate) proof fn lemma_button_after(
    down: bool,
    button: MouseButton,
    effects: Seq<Effect>,
    pressed: bool,
)
    requires
        forall|i: int|
            0 <= i < effects.len() ==> (#[trigger] effects[i] is Button && effects[i]->button
                == button ==> effects[i]->Button_pressed == pressed),
    ensures
        (exists|i: int|
            0 <= i < effects.len() && #[trigger] effects[i] is Button && effects[i]->button
                == button) ==> button_after(down, button, effects) == pressed,
        (forall|i: int|
            0 <= i < effects.len() ==> !(#[trigger] effects[i] is Button && effects[i]->button
                == button)) ==> button_after(down, button, effects) == down,
    decreases effects.len(),
{
    if effects.len() > 0 {
        let rest = effects.drop_last();
        assert(effects.last() == effects[effects.len() - 1]);
        assert forall|i: int|
            0 <= i < rest.len() && #[trigger] rest[i] is Button && rest[i]->button
                == button implies rest[i]->Button_pressed == pressed by {
            assert(rest[i] == effects[i]);
        }
        lemma_button_after(down, button, rest, pressed);
        if !(effects.last() is Button && effects.last()->button == button) {
            if exists|i: int|
                0 <= i < effects.len() && #[trigger] effects[i] is Button && effects[i]->button
                    == button {
                let i = choose|i: int|
                    0 <= i < effects.len() && #[trigger] effects[i] is Button
                        && effects[i]->button == button;
                assert(rest[i] == effects[i]);
            } else {
                assert forall|i: int| 0 <= i < rest.len() implies !(#[trigger] rest[i] is Button
                    && rest[i]->button == button) by {
                    assert(rest[i] == effects[i]);
                }
            }
        }
    }
}

/// The cursor stays where no event moves it.
pub(crate) proof fn lemma_cursor_stays(cursor: Option<Point>, effects: Seq<Effect>)
    requires
        forall|i: int| 0 <= i < effects.len() ==> !(#[trigger] effects[i] is MoveCursor),
    ensures
        cursor_after(cursor, effects) == cursor,
    decreases effects.len(),
{
    if effects.len() > 0 {
        let rest = effects.drop_last();
        assert(effects.last() == effects[effects.len() - 1]);
        assert forall|i: int| 0 <= i < rest.len() implies !(#[trigger] rest[i] is MoveCursor) by {
            assert(rest[i] == effects[i]);
        }
        lemma_cursor_stays(cursor, rest);
    }
}

/// Effects of which at most the first moves the cursor, and which release or press at most one key
/// and one button, are followed as each of them says.
pub(crate) proof fn lemma_short_effects(s: ControlView, effects: Seq<Effect>)
    requires
        effects.len() <= 2,
    ensures
        forall|key: KeyCode| #[trigger]
            key_after(s.keys.contains(key), key, effects) == (if effects.len() == 2
                && effects[1] is Key && effects[1]->key == key {
                effects[1]->Key_pressed
            } else if effects.len() >= 1 && effects[0] is Key && effects[0]->key == key {
                effects[0]->Key_pressed
            } else {
                s.keys.contains(key)
            }),
        forall|button: MouseButton| #[trigger]
            button_after(s.buttons.contains(button), button, effects) == (if effects.len() == 2
                && effects[1] is Button && effects[1]->button == button {
                effects[1]->Button_pressed
            } else if effects.len() >= 1 && effects[0] is Button && effects[0]->button == button {
                effects[0]->Button_pressed
            } else {
                s.buttons.contains(button)
            }),
        cursor_after(s.cursor, effects) == (if effects.len() == 2 && effects[1] is MoveCursor {
            Some(effects[1]->position)
        } else if effects.len() >= 1 && effects[0] is MoveCursor {
            Some(effects[0]->position)
        } else {
            s.cursor
        }),
        cursor_after(s.cursor, effects.take(0)) == s.cursor,
{
    reveal_with_fuel(key_after, 3);
    reveal_with_fuel(button_after, 3);
    reveal_with_fuel(cursor_after, 3);
}

/// What releasing everything sends, and perhaps one effect more that holds nothing.
proof fn lemma_release_follows(s: ControlView, effects: Seq<Effect>)
    requires
        effects == release_effects(s) || (effects.len() == release_effects(s).len() + 1
            && effects.drop_last() == release_effects(s) && effects.last() is Exit),
    ensures
        keys_follow(s, all_released(s), effects),
        buttons_follow(s, all_released(s), effects),
        cursor_follows(s, all_released(s), effects),
{
    let sent = release_effects(s);
    let k = s.keys.len() as int;
    let b = s.buttons.len() as int;
    let t = all_released(s);
    assert forall|i: int| 0 <= i < sent.len() implies #[trigger] effects[i] == sent[i] by {
        if effects != sent {
            assert(effects.drop_last()[i] == effects[i]);
        }
    }
    assert forall|key: KeyCode| #[trigger] t.keys.contains(key) <==> key_after(
        s.keys.contains(key),
        key,
        effects,
    ) by {
        lemma_key_after(s.keys.contains(key), key, effects, false);
        if s.keys.contains(key) {
            let i = s.keys.index_of(key);
            assert(effects[i] == sent[i]);
            assert(effects[i] is Key && effects[i]->key == key);
        }
    }
    assert forall|button: MouseButton| #[trigger] t.buttons.contains(button) <==> button_after(
        s.buttons.contains(button),
        button,
        effects,
    ) by {
        lemma_button_after(s.buttons.contains(button), button, effects, false);
        if s.buttons.contains(button) {
            let i = s.buttons.index_of(button);
            assert(effects[k + i] == sent[k + i]);
            assert(effects[k + i] is Button && effects[k + i]->button == button);
        }
    }
    lemma_cursor_stays(s.cursor, effects);
}

/// Law: what is noted as held agrees with the events that are sent. Whatever a request does, a key
/// or a button is noted as held afterwards exactly where the last event that was sent for it says so,
/// or where it was held and none was sent; and the cursor is noted to be where it was moved last.
pub proof fn law_requests_note_what_they_send(
    s: ControlView,
    t: ControlView,
    request: AgentRequest,
    window: Option<WindowInfo>,
    limit: usize,
    diagnostics: bool,
    r: Drained,
)
    requires
        s.wf(),
        drain_agrees(s, t, request, window, limit, diagnostics, r),
    ensures
        r matches Drained::Handled(h) ==> keys_follow(s, t, h.effects@) && buttons_follow(
            s,
            t,
            h.effects@,
        ) && cursor_follows(s, t, h.effects@),
        !(r is Handled) ==> t == s,
{
    if r is Handled {
        let effects = r->Handled_0.effects@;
        if (request.command is ReleaseAllInputs || request.command is Shutdown) && window is Some {
            assert(release_effects(s).push(Effect::Exit).drop_last() =~= release_effects(s));
            lemma_release_follows(s, effects);
        } else {
            lemma_short_effects(s, effects);
            match request.command {
                AgentCommand::KeyDown(key) => lemma_with_held(s.keys, key),
                AgentCommand::KeyUp(key) => lemma_without_held(s.keys, key),
                AgentCommand::KeyHold { key, .. } => lemma_with_held(s.keys, key),
                AgentCommand::MouseDown(button) => lemma_with_held(s.buttons, button),
                AgentCommand::MouseUp(button) => lemma_without_held(s.buttons, button),
                AgentCommand::Click { button, .. } => lemma_with_held(s.buttons, button),
                AgentCommand::Drag { button, .. } => lemma_with_held(s.buttons, button),
                _ => {},
            }
        }
    }
}

/// Law: whenever a request takes a key or a button out of what is held, its release is sent, and
/// whenever one puts a key or a button there, its press is.
pub proof fn law_held_inputs_change_by_events(
    s: ControlView,
    t: ControlView,
    effects: Seq<Effect>,
    key: KeyCode,
    button: MouseButton,
)
    requires
        keys_follow(s, t, effects),
        buttons_follow(s, t, effects),
    ensures
        s.keys.contains(key) != t.keys.contains(key) ==> effects.contains(
            Effect::Key { key, pressed: t.keys.contains(key) },
        ),
        s.buttons.contains(button) != t.buttons.contains(button) ==> effects.contains(
            Effect::Button { button, pressed: t.buttons.contains(button) },
        ),
{
    lemma_key_change(s.keys.contains(key), key, effects);
    lemma_button_change(s.buttons.contains(button), button, effects);
}

proof fn lemma_key_change(down: bool, key: KeyCode, effects: Seq<Effect>)
    ensures
        key_after(down, key, effects) != down ==> effects.contains(
            Effect::Key { key, pressed: !down },
        ),
    decreases effects.len(),
{
    if effects.len() > 0 {
        let rest = effects.drop_last();
        lemma_key_change(down, key, rest);
        assert(effects.last() == effects[effects.len() - 1]);
        if rest.contains(Effect::Key { key, pressed: !down }) {
            let i = rest.index_of(Effect::Key { key, pressed: !down });
            assert(effects[i] == rest[i]);
        }
    }
}

proof fn lemma_button_change(down: bool, button: MouseButton, effects: Seq<Effect>)
    ensures
        button_after(down, button, effects) != down ==> effects.contains(
            Effect::Button { button, pressed: !down },
        ),
    decreases effects.len(),
{
    if effects.len() > 0 {
        let rest = effects.drop_last();
        lemma_button_change(down, button, rest);
        assert(effects.last() == effects[effects.len() - 1]);
        if rest.contains(Effect::Button { button, pressed: !down }) {
            let i = rest.index_of(Effect::Button { button, pressed: !down });
            assert(effects[i] == rest[i]);
        }
    }
}

/// Law: a request that input control accepts sends what it names and nothing else, in order: a
/// press and a release are sent at once, a click and a drag first move the cursor and then press,
/// and a hold presses. What takes several frames is then pending with the frames that were asked
/// for; everything else is answered at once.
pub proof fn law_requests_send_what_they_name(
    s: ControlView,
    t: ControlView,
    request: AgentRequest,
    window: Option<WindowInfo>,
    limit: usize,
    diagnostics: bool,
    r: Drained,
    h: Handled,
)
    requires
        drain_agrees(s, t, request, window, limit, diagnostics, r),
        r == Drained::Handled(h),
        h.accepted,
    ensures
        match request.command {
            AgentCommand::KeyDown(key) => h.effects@.len() == 1 && h.effects@[0] == (Effect::Key {
                key,
                pressed: true,
            }) && t.keys.contains(key),
            AgentCommand::KeyUp(key) => h.effects@.len() == 1 && h.effects@[0] == (Effect::Key {
                key,
                pressed: false,
            }) && !t.keys.contains(key),
            AgentCommand::MouseDown(button) => h.effects@.len() == 1 && h.effects@[0] == (
            Effect::Button { button, pressed: true }) && t.buttons.contains(button),
            AgentCommand::MouseUp(button) => h.effects@.len() == 1 && h.effects@[0] == (
            Effect::Button { button, pressed: false }) && !t.buttons.contains(button),
            AgentCommand::CursorMove { position } => h.effects@.len() == 1 && (
            h.effects@[0] matches Effect::MoveCursor { position: there, .. } && there == position),
            AgentCommand::MouseMotion { delta } => h.effects@.len() == 1 && h.effects@[0] == (
            Effect::MouseMotion { delta }),
            AgentCommand::MouseScroll { delta, unit } => h.effects@.len() == 1 && h.effects@[0] == (
            Effect::MouseScroll { delta, unit }),
            AgentCommand::Text { value } => h.effects@.len() == 1 && h.effects@[0] == (
            Effect::Text { value }),
            AgentCommand::FileHover { path } => h.effects@.len() == 1 && h.effects@[0] == (
            Effect::FileHover { path }),
            AgentCommand::FileDrop { path } => h.effects@.len() == 1 && h.effects@[0] == (
            Effect::FileDrop { path }),
            AgentCommand::FileCancel => h.effects@.len() == 1 && h.effects@[0] == Effect::FileCancel,
            AgentCommand::WindowInfo => h.effects@.len() == 0 && t == s,
            AgentCommand::ReleaseAllInputs => t.keys.len() == 0 && t.buttons.len() == 0
                && t.pending.len() == 0 && h.effects@.len() == s.keys.len() + s.buttons.len()
                + s.pending.len(),
            AgentCommand::Shutdown => h.effects@.len() > 0 && h.effects@.last() == Effect::Exit,
            AgentCommand::KeyHold { key, frames } => {
                &&& h.effects@.len() == 1
                &&& h.effects@[0] == (Effect::Key { key, pressed: true })
                &&& h.owed is None
                &&& t.pending.len() == s.pending.len() + 1
                &&& t.pending.last().kind == PendingActionKind::ReleaseKey(key)
                &&& t.pending.last().frames_left == frames
                &&& t.pending.last().details is None
            },
            AgentCommand::Click { position, button, frames } => {
                &&& h.effects@.len() == 2
                &&& h.effects@[0] matches Effect::MoveCursor { position: there, .. }
                &&& there == position
                &&& h.effects@[1] == (Effect::Button { button, pressed: true })
                &&& h.owed is None
                &&& t.pending.len() == s.pending.len() + 1
                &&& t.pending.last().kind == PendingActionKind::ReleaseButton(button)
                &&& t.pending.last().frames_left == frames
                &&& t.pending.last().details is None
            },
            AgentCommand::Drag { from, to, button, steps, frames } => {
                &&& h.effects@.len() == 2
                &&& h.effects@[0] matches Effect::MoveCursor { position: there, .. }
                &&& there == from
                &&& h.effects@[1] == (Effect::Button { button, pressed: true })
                &&& h.owed is None
                &&& t.pending.len() == s.pending.len() + 1
                &&& t.pending.last().frames_left == frames
                &&& t.pending.last().kind == (PendingActionKind::Drag {
                    from,
                    to,
                    button,
                    total_frames: frames,
                    steps,
                    last_step: 0,
                })
            },
            _ => false,
        },
        h.owed is Some <==> !(request.command is KeyHold || request.command is Click
            || request.command is Drag),
        h.owed matches Some(owed) ==> owed.kind == (if request.command is MouseMotion || (
        request.command is Shutdown && window is None) {
            OwedKind::Done
        } else {
            OwedKind::DoneWithWindow
        }),
        h.owed is None ==> t.pending.drop_last() == s.pending && t.pending.last().id == request.id
            && t.pending.last().ticket == request.ticket,
        h.owed is Some ==> t.pending == s.pending || t.pending.len() == 0,
        t.frame == s.frame && t.latest_capture == s.latest_capture && t.heartbeat == s.heartbeat
            && t.game_time_secs == s.game_time_secs,
{
    if h.owed is None {
        assert(t.pending.drop_last() =~= s.pending);
    }
    match request.command {
        AgentCommand::KeyDown(key) => {
            if !s.keys.contains(key) {
                assert(t.keys.last() == key);
                assert(t.keys[t.keys.len() - 1] == key);
            }
        },
        AgentCommand::MouseDown(button) => {
            if !s.buttons.contains(button) {
                assert(t.buttons.last() == button);
                assert(t.buttons[t.buttons.len() - 1] == button);
            }
        },
        AgentCommand::KeyUp(key) => lemma_without_held(s.keys, key),
        AgentCommand::MouseUp(button) => lemma_without_held(s.buttons, button),
        _ => {},
    }
}

/// Law: an input request is refused exactly where there is no window, where its position or one of
/// the ends of its drag is outside the window, or where as many actions are pending as are allowed.
/// Motions and the request to leave need no window.
pub proof fn law_requests_are_refused_for_a_reason(
    s: ControlView,
    t: ControlView,
    request: AgentRequest,
    window: Option<WindowInfo>,
    limit: usize,
    diagnostics: bool,
    r: Drained,
    h: Handled,
)
    requires
        drain_agrees(s, t, request, window, limit, diagnostics, r),
        r == Drained::Handled(h),
    ensures
        h.accepted <==> match request.command {
            AgentCommand::MouseMotion { .. } => true,
            AgentCommand::Shutdown => true,
            AgentCommand::CursorMove { position } => window is Some && window_contains(
                window->Some_0,
                position,
            ),
            AgentCommand::Click { position, .. } => s.pending.len() < limit && window is Some
                && window_contains(window->Some_0, position),
            AgentCommand::Drag { from, to, .. } => s.pending.len() < limit && window is Some
                && window_contains(window->Some_0, from) && window_contains(window->Some_0, to),
            AgentCommand::KeyHold { .. } => s.pending.len() < limit && window is Some,
            AgentCommand::KeyDown(_) => window is Some,
            AgentCommand::KeyUp(_) => window is Some,
            AgentCommand::MouseDown(_) => window is Some,
            AgentCommand::MouseUp(_) => window is Some,
            AgentCommand::MouseScroll { .. } => window is Some,
            AgentCommand::Text { .. } => window is Some,
            AgentCommand::FileHover { .. } => window is Some,
            AgentCommand::FileDrop { .. } => window is Some,
            AgentCommand::FileCancel => window is Some,
            AgentCommand::WindowInfo => window is Some,
            AgentCommand::ReleaseAllInputs => window is Some,
            _ => false,
        },
        !h.accepted ==> (h.owed matches Some(owed) && match owed.kind {
            OwedKind::QueueFull(_) => s.pending.len() >= limit,
            OwedKind::Refused(CommandError::MissingWindow) => window is None,
            OwedKind::Refused(CommandError::PositionOutOfBounds {
                position,
                logical_width,
                logical_height,
            }) => window is Some && !window_contains(window->Some_0, position) && logical_width
                == window->Some_0.logical_width && logical_height == window->Some_0.logical_height,
            OwedKind::DiagnosticsUnavailable => !diagnostics,
            _ => false,
        }),
{
}

/// Law: requests for time, captures and diagnostics are passed on as they came, and change nothing.
pub proof fn law_other_requests_are_passed_on(
    s: ControlView,
    t: ControlView,
    request: AgentRequest,
    window: Option<WindowInfo>,
    limit: usize,
    diagnostics: bool,
    r: Drained,
)
    requires
        drain_agrees(s, t, request, window, limit, diagnostics, r),
    ensures
        r is Timing <==> request.command is Wait || request.command is WaitSeconds
            || request.command is AdvanceTime,
        r matches Drained::Timing(passed) ==> passed == request && t == s,
        r matches Drained::Diagnostics(passed) ==> passed == request && t == s && diagnostics,
        r is Capture <==> request.command is Capture || request.command is CaptureAfterFrames,
        r matches Drained::Capture(asked) ==> {
            &&& t == s
            &&& asked.id == request.id && asked.ticket == request.ticket
            &&& request.command matches AgentCommand::Capture { label } ==> asked.frames == 0
                && asked.label == label
            &&& request.command matches AgentCommand::CaptureAfterFrames { frames, label }
                ==> asked.frames == frames && asked.label == label
        },
{
}

/// Law: a position is inside a window exactly where its coordinates are at least zero and less than
/// the width and the height, as numbers.
pub proof fn law_positions_are_inside_by_value(window: WindowInfo, position: Point)
    requires
        reals::single_finite(position.x),
        reals::single_finite(position.y),
        reals::single_finite(window.logical_width),
        reals::single_finite(window.logical_height),
    ensures
        window_contains(window, position) <==> {
            &&& 0 <= reals::single_value(position.x) < reals::single_value(window.logical_width)
            &&& 0 <= reals::single_value(position.y) < reals::single_value(window.logical_height)
        },
{
    reals::law_singles_are_ordered_by_value(0, position.x);
    reals::law_singles_are_ordered_by_value(0, position.y);
    reals::law_singles_are_ordered_by_value(position.x, window.logical_width);
    reals::law_singles_are_ordered_by_value(position.y, window.logical_height);
    reals::law_zero_is_nothing();
}

/// Law: frames are counted one by one. A heartbeat is due exactly where heartbeats are wanted and
/// none was written yet or the last one is at least the interval ago; the time of the last one is
/// noted, and what is held and pending does not change.
pub proof fn law_heartbeats_keep_their_interval(
    s: ControlView,
    t: ControlView,
    game_time: Option<u64>,
    interval: Option<u128>,
    now: u128,
    due: bool,
)
    requires
        frame_begun(s, t, game_time, interval, now, due),
    ensures
        t.frame == s.frame + 1 || t.frame == s.frame == u64::MAX,
        interval is None ==> !due,
        interval matches Some(least) ==> (due <==> s.heartbeat == 0 || least == 0 || now
            >= s.heartbeat + least),
        due ==> t.heartbeat == now,
        !due ==> t.heartbeat == s.heartbeat,
        game_time is Some ==> t.game_time_secs == game_time->Some_0,
        game_time is None ==> t.game_time_secs == s.game_time_secs,
        t.keys == s.keys && t.buttons == s.buttons && t.pending == s.pending && t.cursor
            == s.cursor && t.latest_capture == s.latest_capture,
{
}

} // verus!
