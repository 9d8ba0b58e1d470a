//! A run: prepare, start the application, drive it, tear it down, and judge what happened.
//!
//! [`Lifecycle`] says what to do next. The caller does it and hands back what came of it.
use vstd::prelude::*;

use crate::arguments::RequiredWindowSize;
use crate::json;
use crate::json::{double_bits, member, show_double, Json, JsonNumber, JsonValue, NumberValue};
use crate::lines;
use crate::lines::starts_with;
use crate::reals;
use crate::reals::equal_double;
use crate::span::{Span, NANOS_PER_MILLI};
use crate::text;
use crate::text::{cat2, cat3, cat4, decimal, same_text};

verus! {

/// How a process stands.
#[derive(Clone, Copy, Debug, PartialEq, Eq, Structural)]
pub enum ProcessExit {
    /// It was not started.
    NotStarted,
    /// It runs, as far as is known.
    Running,
    /// It ended well.
    Success,
    /// It ended with another code than zero.
    Nonzero,
    /// A signal ended it.
    Signal,
}

impl ProcessExit {
    /// The name of this state.
    pub open spec fn spec_text(self) -> &'static str {
        match self {
            ProcessExit::NotStarted => "not_started",
            ProcessExit::Running => "running",
            ProcessExit::Success => "success",
            ProcessExit::Nonzero => "nonzero",
            ProcessExit::Signal => "signal",
        }
    }

    /// The name of this state.
    pub fn text(self) -> (r: &'static str)
        ensures
            r == self.spec_text(),
    {
        match self {
            ProcessExit::NotStarted => "not_started",
            ProcessExit::Running => "running",
            ProcessExit::Success => "success",
            ProcessExit::Nonzero => "nonzero",
            ProcessExit::Signal => "signal",
        }
    }
}

/// How a process ended.
#[derive(Debug)]
pub struct ExitInfo {
    /// Whether it ended well.
    pub success: bool,
    /// The code that it ended with, where no signal ended it.
    pub code: Option<i32>,
    /// The status as the system words it.
    pub text: String,
}

/// The state of a process that ended.
pub open spec fn exit_of(status: ExitInfo) -> ProcessExit {
    if status.success {
        ProcessExit::Success
    } else if status.code is Some {
        ProcessExit::Nonzero
    } else {
        ProcessExit::Signal
    }
}

/// The state of a process that ended.
pub fn exit_category(status: &ExitInfo) -> (r: ProcessExit)
    ensures
        r == exit_of(*status),
{
    if status.success {
        ProcessExit::Success
    } else if status.code.is_some() {
        ProcessExit::Nonzero
    } else {
        ProcessExit::Signal
    }
}

/// How the application was torn down.
#[derive(Clone, Copy, Debug)]
pub struct TeardownSummary {
    /// Whether held inputs were released.
    pub input_release: &'static str,
    /// Whether the request to leave was acknowledged.
    pub shutdown_acknowledgment: &'static str,
    /// Whether the connection was closed.
    pub socket_closure: &'static str,
    /// How the process ended.
    pub child_exit: &'static str,
    /// Whether the process had to be killed.
    pub forced_termination: bool,
}

/// A teardown that has not begun.
pub open spec fn no_teardown() -> TeardownSummary {
    TeardownSummary {
        input_release: "not_attempted",
        shutdown_acknowledgment: "not_attempted",
        socket_closure: "not_attempted",
        child_exit: "not_attempted",
        forced_termination: false,
    }
}

impl Default for TeardownSummary {
    fn default() -> (r: TeardownSummary)
        ensures
            r == no_teardown(),
    {
        TeardownSummary {
            input_release: "not_attempted",
            shutdown_acknowledgment: "not_attempted",
            socket_closure: "not_attempted",
            child_exit: "not_attempted",
            forced_termination: false,
        }
    }
}

/// How the application stands and how it was torn down.
#[derive(Clone, Copy, Debug)]
pub struct Ending {
    /// How the process stands.
    pub process_exit: ProcessExit,
    /// How it was torn down.
    pub teardown: TeardownSummary,
}

/// What the client of a teardown saw.
#[derive(Clone, Copy, Debug)]
pub struct ClientTeardown {
    /// Releasing held inputs was acknowledged.
    pub released: bool,
    /// The request to leave was acknowledged.
    pub acknowledged: bool,
    /// The connection was closed.
    pub disconnected: bool,
}

/// The ending where the application has left by itself.
pub open spec fn left_early(e: Ending, status: ExitInfo) -> Ending {
    Ending {
        process_exit: exit_of(status),
        teardown: TeardownSummary {
            input_release: "unavailable",
            shutdown_acknowledgment: "unavailable",
            socket_closure: "closed",
            child_exit: "exited_before_request",
            forced_termination: e.teardown.forced_termination,
        },
    }
}

/// The ending after the client has asked the application to leave, or could not be had.
pub open spec fn asked_to_leave(e: Ending, client: Option<ClientTeardown>) -> Ending {
    let teardown = match client {
        Some(client) => TeardownSummary {
            input_release: if client.released {
                "acknowledged"
            } else {
                "failed"
            },
            shutdown_acknowledgment: if client.acknowledged {
                "acknowledged"
            } else {
                "failed"
            },
            socket_closure: if client.disconnected {
                "closed"
            } else {
                "not_observed"
            },
            ..e.teardown
        },
        None => TeardownSummary {
            input_release: "unavailable",
            shutdown_acknowledgment: "unavailable",
            socket_closure: "not_observed",
            ..e.teardown
        },
    };
    Ending { teardown, ..e }
}

/// The ending after the application has left.
pub open spec fn left(e: Ending, status: ExitInfo) -> Ending {
    Ending {
        process_exit: exit_of(status),
        teardown: TeardownSummary { child_exit: "exited", ..e.teardown },
    }
}

/// The ending where the application has to be killed.
pub open spec fn to_be_killed(e: Ending) -> Ending {
    Ending {
        teardown: TeardownSummary {
            child_exit: "forced",
            forced_termination: true,
            ..e.teardown
        },
        ..e
    }
}

/// The ending after a first look at the process.
pub open spec fn teardown_begun(e: Ending, polled: Option<&ExitInfo>) -> Ending {
    match polled {
        Some(status) => left_early(e, *status),
        None => e,
    }
}

/// The ending after a wait for the process, which left or did not.
pub open spec fn waited_for(e: Ending, status: Option<&ExitInfo>) -> Ending {
    match status {
        Some(status) => left(e, *status),
        None => e,
    }
}

/// The ending after the last look at the process, which left or has to be killed.
pub open spec fn looked_at_last(e: Ending, polled: Option<&ExitInfo>) -> Ending {
    match polled {
        Some(status) => left(e, *status),
        None => to_be_killed(e),
    }
}

/// The ending after a process was killed, where its status is known and where not.
pub open spec fn killed_with(e: Ending, status: Option<&ExitInfo>) -> Ending {
    match status {
        Some(status) => Ending { process_exit: exit_of(*status), ..e },
        None => e,
    }
}

impl Ending {
    /// An application that runs.
    pub fn running() -> (r: Ending)
        ensures
            r == (Ending { process_exit: ProcessExit::Running, teardown: no_teardown() }),
    {
        Ending { process_exit: ProcessExit::Running, teardown: TeardownSummary::default() }
    }

    /// Begins a teardown with what a look at the process showed. Tells whether it is over already,
    /// because the application has left by itself.
    pub fn teardown_game(&mut self, polled: Option<&ExitInfo>) -> (r: bool)
        ensures
            r == (polled is Some),
            *final(self) == teardown_begun(*old(self), polled),
    {
        match polled {
            Some(status) => {
                self.process_exit = exit_category(status);
                self.teardown.child_exit = "exited_before_request";
                self.teardown.input_release = "unavailable";
                self.teardown.shutdown_acknowledgment = "unavailable";
                self.teardown.socket_closure = "closed";
                true
            },
            None => false,
        }
    }

    /// Takes note of what the client saw when it asked the application to leave.
    pub fn asked(&mut self, client: Option<ClientTeardown>)
        ensures
            *final(self) == asked_to_leave(*old(self), client),
    {
        match client {
            Some(client) => {
                self.teardown.input_release = if client.released {
                    "acknowledged"
                } else {
                    "failed"
                };
                self.teardown.shutdown_acknowledgment = if client.acknowledged {
                    "acknowledged"
                } else {
                    "failed"
                };
                self.teardown.socket_closure = if client.disconnected {
                    "closed"
                } else {
                    "not_observed"
                };
            },
            None => {
                self.teardown.input_release = "unavailable";
                self.teardown.shutdown_acknowledgment = "unavailable";
                self.teardown.socket_closure = "not_observed";
            },
        }
    }

    /// Takes note of how the wait for the application ended. Tells whether it has left.
    pub fn waited(&mut self, status: Option<&ExitInfo>) -> (r: bool)
        ensures
            r == (status is Some),
            *final(self) == waited_for(*old(self), status),
    {
        match status {
            Some(status) => {
                self.process_exit = exit_category(status);
                self.teardown.child_exit = "exited";
                true
            },
            None => false,
        }
    }

    /// Decides by a last look at the process whether it has to be killed.
    pub fn terminate_game(&mut self, polled: Option<&ExitInfo>) -> (r: bool)
        ensures
            r == (polled is None),
            *final(self) == looked_at_last(*old(self), polled),
    {
        if self.waited(polled) {
            return false;
        }
        self.teardown.forced_termination = true;
        self.teardown.child_exit = "forced";
        true
    }

    /// Takes note of how a killed process ended.
    pub fn killed(&mut self, status: Option<&ExitInfo>)
        ensures
            *final(self) == killed_with(*old(self), status),
    {
        match status {
            Some(status) => self.process_exit = exit_category(status),
            None => {},
        }
    }
}

/// Why a run failed.
#[derive(Debug)]
pub struct RunFailure {
    /// The phase in which it failed.
    pub phase: &'static str,
    /// What went wrong, as a code.
    pub code: &'static str,
    /// What went wrong, in words.
    pub message: String,
}

/// Why a run failed, as a model.
pub struct FailureView {
    /// The phase in which it failed.
    pub phase: &'static str,
    /// What went wrong, as a code.
    pub code: &'static str,
    /// What went wrong, in words.
    pub message: Seq<char>,
}

impl View for RunFailure {
    type V = FailureView;

    open spec fn view(&self) -> FailureView {
        FailureView { phase: self.phase, code: self.code, message: self.message@ }
    }
}

/// The view of an optional failure.
pub open spec fn opt_failure(f: Option<RunFailure>) -> Option<FailureView> {
    match f {
        Some(f) => Some(f@),
        None => None,
    }
}

/// What came of a process that was started and waited for.
pub enum ChildOutcome {
    /// Its log could not be made.
    LogFailed(String),
    /// It could not be started.
    SpawnFailed(String),
    /// It could not be waited for.
    WaitFailed(String),
    /// It ended.
    Exited(ExitInfo),
    /// It did not end in time and was killed.
    TimedOut,
}

/// What a preparation that came to this has failed by.
pub open spec fn prepare_failure(outcome: ChildOutcome, timeout: Span) -> Option<FailureView> {
    match outcome {
        ChildOutcome::LogFailed(message) | ChildOutcome::SpawnFailed(message) => Some(
            FailureView { phase: "prepare", code: "prepare_spawn_failed", message: message@ },
        ),
        ChildOutcome::WaitFailed(message) => Some(
            FailureView { phase: "prepare", code: "prepare_wait_failed", message: message@ },
        ),
        ChildOutcome::Exited(status) => if status.success {
            None
        } else {
            Some(
                FailureView {
                    phase: "prepare",
                    code: "prepare_nonzero_exit",
                    message: "prepare exited with status "@ + status.text@,
                },
            )
        },
        ChildOutcome::TimedOut => Some(
            FailureView {
                phase: "prepare",
                code: "prepare_timeout",
                message: "prepare timed out after "@ + text::digits(
                    (timeout.nanos / NANOS_PER_MILLI) as nat,
                ) + " ms"@,
            },
        ),
    }
}

/// Judges a preparation.
pub fn run_prepare(outcome: ChildOutcome, timeout: Span) -> (r: Option<RunFailure>)
    ensures
        opt_failure(r) == prepare_failure(outcome, timeout),
{
    let (code, message): (&'static str, String) = match outcome {
        ChildOutcome::LogFailed(message) => ("prepare_spawn_failed", message),
        ChildOutcome::SpawnFailed(message) => ("prepare_spawn_failed", message),
        ChildOutcome::WaitFailed(message) => ("prepare_wait_failed", message),
        ChildOutcome::Exited(status) => if status.success {
            return None;
        } else {
            ("prepare_nonzero_exit", cat2("prepare exited with status ", status.text.as_str()))
        },
        ChildOutcome::TimedOut => (
            "prepare_timeout",
            cat3("prepare timed out after ", decimal(timeout.as_millis()).as_str(), " ms"),
        ),
    };
    Some(RunFailure { phase: "prepare", code, message })
}

/// What a driver that came to this has failed by.
pub open spec fn driver_failure(outcome: ChildOutcome, timeout: Span) -> Option<FailureView> {
    match outcome {
        ChildOutcome::LogFailed(message) => Some(
            FailureView { phase: "driver", code: "driver_log_failed", message: message@ },
        ),
        ChildOutcome::SpawnFailed(message) => Some(
            FailureView { phase: "driver", code: "driver_spawn_failed", message: message@ },
        ),
        ChildOutcome::WaitFailed(message) => Some(
            FailureView { phase: "driver", code: "driver_wait_failed", message: message@ },
        ),
        ChildOutcome::Exited(status) => if status.success {
            None
        } else {
            Some(
                FailureView {
                    phase: "driver",
                    code: "driver_nonzero_exit",
                    message: "driver exited with status "@ + status.text@,
                },
            )
        },
        ChildOutcome::TimedOut => Some(
            FailureView {
                phase: "driver",
                code: "driver_timeout",
                message: "driver timed out after "@ + text::digits(
                    (timeout.nanos / NANOS_PER_MILLI) as nat,
                ) + " ms"@,
            },
        ),
    }
}

/// Judges a driver.
pub fn run_driver(outcome: ChildOutcome, timeout: Span) -> (r: Option<RunFailure>)
    ensures
        opt_failure(r) == driver_failure(outcome, timeout),
{
    let (code, message): (&'static str, String) = match outcome {
        ChildOutcome::LogFailed(message) => ("driver_log_failed", message),
        ChildOutcome::SpawnFailed(message) => ("driver_spawn_failed", message),
        ChildOutcome::WaitFailed(message) => ("driver_wait_failed", message),
        ChildOutcome::Exited(status) => if status.success {
            return None;
        } else {
            ("driver_nonzero_exit", cat2("driver exited with status ", status.text.as_str()))
        },
        ChildOutcome::TimedOut => (
            "driver_timeout",
            cat3("driver timed out after ", decimal(timeout.as_millis()).as_str(), " ms"),
        ),
    };
    Some(RunFailure { phase: "driver", code, message })
}

/// A list of words as `{:?}` writes a slice of strings.
pub uninterp spec fn shown_command(command: Seq<Seq<char>>) -> Seq<char>;

/// `{:?}` of a slice of strings.
#[verifier::external_body]
fn show_command(command: &[String]) -> (r: String)
    ensures
        r@ == shown_command(lines::views(command@)),
{
    format!("{:?}", command)
}

/// The text has white space in it.
pub open spec fn has_white(s: Seq<char>) -> bool {
    exists|i: int| 0 <= i < s.len() && lines::white(#[trigger] s[i])
}

fn has_whitespace(s: &str) -> (r: bool)
    ensures
        r == has_white(s@),
{
    let v = text::chars_of(s);
    let mut i: usize = 0;
    while i < v.len()
        invariant
            i <= v@.len(),
            v@ == s@,
            forall|k: int| 0 <= k < i ==> !lines::white(#[trigger] s@[k]),
        decreases v@.len() - i,
    {
        if v[i].is_whitespace() {
            assert(lines::white(s@[i as int]));
            return true;
        }
        i = i + 1;
    }
    false
}

/// What is said where the executable looks like a whole command.
pub const WHITESPACE_HINT: &'static str = "; executable contains whitespace; if this was a command plus arguments, pass each argv word separately";

/// What is said where a command could not be started.
pub open spec fn spawn_message(
    label: Seq<char>,
    command: Seq<Seq<char>>,
    error: Seq<char>,
) -> Seq<char> {
    "spawn "@ + label + " "@ + shown_command(command) + ": "@ + error + (if command.len() > 0
        && has_white(command[0]) {
        WHITESPACE_HINT@
    } else {
        Seq::empty()
    })
}

/// Says that a command could not be started, with a hint where its first word looks like a whole
/// command line.
pub fn spawn_error(label: &str, command: &[String], error: &str) -> (r: String)
    ensures
        r@ == spawn_message(label@, lines::views(command@), error@),
{
    let shown = show_command(command);
    let mut message = cat4("spawn ", label, " ", shown.as_str());
    message.append(": ");
    message.append(error);
    if command.len() > 0 && has_whitespace(command[0].as_str()) {
        message.append(WHITESPACE_HINT);
    }
    assert(message@ =~= spawn_message(label@, lines::views(command@), error@));
    message
}

/// What the discovery document of a running application says.
#[derive(Debug)]
pub struct ReadyInfo {
    /// The session.
    pub session_id: String,
    /// The address of the socket.
    pub socket_addr: String,
    /// Where captures go, unless that is empty.
    pub capture_dir: Option<String>,
}

/// The text under a name, or a word for nothing.
pub open spec fn text_or(document: JsonValue, name: Seq<char>, otherwise: Seq<char>) -> Seq<char> {
    match json::text_in(json::value_at(document, name)) {
        Some(s) => s,
        None => otherwise,
    }
}

/// Reads what the discovery document says.
pub fn ready_info(document: &Json) -> (r: ReadyInfo)
    ensures
        r.session_id@ == text_or(document@, "session_id"@, "unknown"@),
        r.socket_addr@ == text_or(document@, "socket_addr"@, "unknown"@),
        match json::text_in(json::value_at(document@, "capture_dir"@)) {
            Some(dir) => if dir.len() > 0 {
                r.capture_dir matches Some(s) && s@ == dir
            } else {
                r.capture_dir is None
            },
            None => r.capture_dir is None,
        },
{
    let session_id = match json::text_value(member(document, "session_id")) {
        Some(s) => s.to_owned(),
        None => "unknown".to_owned(),
    };
    let socket_addr = match json::text_value(member(document, "socket_addr")) {
        Some(s) => s.to_owned(),
        None => "unknown".to_owned(),
    };
    let capture_dir = match json::text_value(member(document, "capture_dir")) {
        Some(s) => if s.is_empty() {
            None
        } else {
            Some(s.to_owned())
        },
        None => None,
    };
    ReadyInfo { session_id, socket_addr, capture_dir }
}

/// What to do while the application has not written its discovery document.
#[derive(Clone, Copy, Debug, PartialEq, Eq, Structural)]
pub enum ReadyStep {
    /// Look again after a while.
    Again,
    /// It is ready.
    Ready,
    /// It has left.
    Exited,
    /// It takes too long, or the run is to stop.
    GiveUp,
}

/// What to do, by the time gone, a request to stop, the process and the reach of the document.
pub open spec fn ready_step_of(
    elapsed: Span,
    timeout: Span,
    stop: bool,
    exited: bool,
    reachable: bool,
) -> ReadyStep {
    if elapsed.nanos >= timeout.nanos || stop {
        ReadyStep::GiveUp
    } else if exited {
        ReadyStep::Exited
    } else if reachable {
        ReadyStep::Ready
    } else {
        ReadyStep::Again
    }
}

/// Decides what to do while the application has not written its discovery document.
pub fn wait_ready(
    elapsed: Span,
    timeout: Span,
    stop: bool,
    exited: bool,
    reachable: bool,
) -> (r: ReadyStep)
    ensures
        r == ready_step_of(elapsed, timeout, stop, exited, reachable),
{
    if elapsed.nanos >= timeout.nanos || stop {
        ReadyStep::GiveUp
    } else if exited {
        ReadyStep::Exited
    } else if reachable {
        ReadyStep::Ready
    } else {
        ReadyStep::Again
    }
}

/// What to do while a process is waited for.
#[derive(Clone, Copy, Debug, PartialEq, Eq, Structural)]
pub enum WaitStep {
    /// Look again after a while.
    Again,
    /// It has ended.
    Ended,
    /// It takes too long, or the run is to stop.
    GiveUp,
}

/// What to do, by the time gone, the time allowed where there is a bound, a request to stop, and
/// what a look at the process showed. A process that is seen to have ended only when its time is
/// over has taken too long.
pub open spec fn wait_step_of(
    elapsed: Span,
    timeout: Option<Span>,
    stop: bool,
    exited: bool,
) -> WaitStep {
    if stop || (timeout matches Some(timeout) && elapsed.nanos >= timeout.nanos) {
        WaitStep::GiveUp
    } else if exited {
        WaitStep::Ended
    } else {
        WaitStep::Again
    }
}

/// Decides what to do while a process is waited for.
pub fn wait_step(elapsed: Span, timeout: Option<Span>, stop: bool, exited: bool) -> (r: WaitStep)
    ensures
        r == wait_step_of(elapsed, timeout, stop, exited),
{
    let over = match timeout {
        Some(timeout) => elapsed.nanos >= timeout.nanos,
        None => false,
    };
    if stop || over {
        WaitStep::GiveUp
    } else if exited {
        WaitStep::Ended
    } else {
        WaitStep::Again
    }
}

/// What is said where the application was not ready in time, or left before.
pub open spec fn not_ready_message(exit: Option<ExitInfo>, timeout: Span) -> Seq<char> {
    match exit {
        Some(status) => "game exited before protocol was ready: "@ + status.text@,
        None => "protocol was not ready within "@ + text::digits(
            (timeout.nanos / NANOS_PER_MILLI) as nat,
        ) + " ms while the game process remained live"@,
    }
}

/// Says why the application is not ready.
pub fn not_ready(exit: &Option<ExitInfo>, timeout: Span) -> (r: String)
    ensures
        r@ == not_ready_message(*exit, timeout),
{
    match exit {
        Some(status) => cat2("game exited before protocol was ready: ", status.text.as_str()),
        None => cat3(
            "protocol was not ready within ",
            decimal(timeout.as_millis()).as_str(),
            " ms while the game process remained live",
        ),
    }
}

/// The window that an application reported.
pub struct ObservedWindow {
    /// Logical width.
    pub logical_width: JsonNumber,
    /// Logical height.
    pub logical_height: JsonNumber,
    /// Width in pixels.
    pub physical_width: u64,
    /// Height in pixels.
    pub physical_height: u64,
    /// Pixels for each logical unit.
    pub scale_factor: JsonNumber,
}

/// The number under a name.
pub open spec fn number_in(value: JsonValue, name: Seq<char>) -> Option<NumberValue> {
    match json::value_at(value, name) {
        Some(JsonValue::Number(n)) => Some(n),
        _ => None,
    }
}

/// The window is what the application reported.
pub open spec fn window_reported(value: JsonValue, w: ObservedWindow) -> bool {
    &&& number_in(value, "logical_width"@) == Some(w.logical_width@)
    &&& number_in(value, "logical_height"@) == Some(w.logical_height@)
    &&& number_in(value, "physical_width"@) == Some(NumberValue::Unsigned(w.physical_width))
    &&& number_in(value, "physical_height"@) == Some(NumberValue::Unsigned(w.physical_height))
    &&& number_in(value, "scale_factor"@) == Some(w.scale_factor@)
}

/// A report has all that the window needs.
pub open spec fn window_readable(value: JsonValue) -> bool {
    &&& number_in(value, "logical_width"@) is Some
    &&& number_in(value, "logical_height"@) is Some
    &&& number_in(value, "physical_width"@) matches Some(NumberValue::Unsigned(_))
    &&& number_in(value, "physical_height"@) matches Some(NumberValue::Unsigned(_))
    &&& number_in(value, "scale_factor"@) is Some
}

fn read_number(value: &Json, name: &str) -> (r: Option<JsonNumber>)
    ensures
        match r {
            Some(n) => number_in(value@, name@) == Some(n@),
            None => number_in(value@, name@) is None,
        },
{
    match member(value, name) {
        Some(found) => match json::copy_json(found) {
            Json::Number(n) => Some(n),
            _ => None,
        },
        None => None,
    }
}

/// Reads the window that an application reported.
pub fn read_window(value: &Json) -> (r: Option<ObservedWindow>)
    ensures
        match r {
            Some(w) => window_reported(value@, w),
            None => !window_readable(value@),
        },
{
    match (
        read_number(value, "logical_width"),
        read_number(value, "logical_height"),
        read_number(value, "physical_width"),
        read_number(value, "physical_height"),
        read_number(value, "scale_factor"),
    ) {
        (
            Some(logical_width),
            Some(logical_height),
            Some(JsonNumber::Unsigned(physical_width)),
            Some(JsonNumber::Unsigned(physical_height)),
            Some(scale_factor),
        ) => Some(
            ObservedWindow {
                logical_width,
                logical_height,
                physical_width,
                physical_height,
                scale_factor,
            },
        ),
        _ => None,
    }
}

/// A length of the window is the required one.
pub open spec fn length_is(observed: NumberValue, required: u32) -> bool {
    reals::double_equal(
        json::double_of(observed),
        json::double_of(NumberValue::Unsigned(required as u64)),
    )
}

fn has_length(observed: &JsonNumber, required: u32) -> (r: bool)
    ensures
        r == length_is(observed@, required),
{
    let wanted = JsonNumber::Unsigned(required as u64);
    equal_double(double_bits(observed), double_bits(&wanted))
}

/// What is said where the window has another size than the required one.
pub open spec fn mismatch_message(required: RequiredWindowSize, w: ObservedWindow) -> Seq<char> {
    "required logical window "@ + text::digits(required.width as nat) + "x"@ + text::digits(
        required.height as nat,
    ) + ", observed "@ + json::shown_double(w.logical_width@) + "x"@ + json::shown_double(
        w.logical_height@,
    )
}

/// What a window that was asked for in a size has failed by.
pub open spec fn window_failure(required: RequiredWindowSize, w: ObservedWindow) -> Option<
    FailureView,
> {
    if length_is(w.logical_width@, required.width) && length_is(
        w.logical_height@,
        required.height,
    ) {
        None
    } else {
        Some(
            FailureView {
                phase: "window",
                code: "window_size_mismatch",
                message: mismatch_message(required, w),
            },
        )
    }
}

/// Judges the size of the window.
pub fn inspect_window_contract(required: RequiredWindowSize, w: &ObservedWindow) -> (r: Option<
    RunFailure,
>)
    ensures
        opt_failure(r) == window_failure(required, *w),
{
    if has_length(&w.logical_width, required.width) && has_length(
        &w.logical_height,
        required.height,
    ) {
        return None;
    }
    let mut message = cat4(
        "required logical window ",
        decimal(required.width as u128).as_str(),
        "x",
        decimal(required.height as u128).as_str(),
    );
    message.append(", observed ");
    message.append(show_double(&w.logical_width).as_str());
    message.append("x");
    message.append(show_double(&w.logical_height).as_str());
    assert(message@ =~= mismatch_message(required, *w));
    Some(RunFailure { phase: "window", code: "window_size_mismatch", message })
}

/// The window beside the required size, in one line.
pub open spec fn window_line(required: RequiredWindowSize, w: ObservedWindow) -> Seq<char> {
    "bevy-feedback window: required_logical="@ + text::digits(required.width as nat) + "x"@
        + text::digits(required.height as nat) + " actual_logical="@ + json::shown_double(
        w.logical_width@,
    ) + "x"@ + json::shown_double(w.logical_height@) + " actual_physical="@ + text::digits(
        w.physical_width as nat,
    ) + "x"@ + text::digits(w.physical_height as nat) + " scale_factor="@ + json::shown_double(
        w.scale_factor@,
    )
}

/// Shows the window beside the required size.
pub fn window_diagnostic(required: RequiredWindowSize, w: &ObservedWindow) -> (r: String)
    ensures
        r@ == window_line(required, *w),
{
    let mut line = cat4(
        "bevy-feedback window: required_logical=",
        decimal(required.width as u128).as_str(),
        "x",
        decimal(required.height as u128).as_str(),
    );
    line.append(" actual_logical=");
    line.append(show_double(&w.logical_width).as_str());
    line.append("x");
    line.append(show_double(&w.logical_height).as_str());
    line.append(" actual_physical=");
    line.append(decimal(w.physical_width as u128).as_str());
    line.append("x");
    line.append(decimal(w.physical_height as u128).as_str());
    line.append(" scale_factor=");
    line.append(show_double(&w.scale_factor).as_str());
    assert(line@ =~= window_line(required, *w));
    line
}

/// What a run is about.
#[derive(Clone, Copy, Debug)]
pub struct Plan {
    /// Whether there is a preparation.
    pub prepare: bool,
    /// Whether there is a driver.
    pub driver: bool,
    /// The size that the window has to have.
    pub window: Option<RequiredWindowSize>,
    /// How long the preparation may take.
    pub prepare_timeout: Span,
    /// How long the driver may take.
    pub driver_timeout: Span,
}

/// What to do next in a run.
#[derive(Clone, Copy, Debug, PartialEq, Eq, Structural)]
pub enum Action {
    /// Run the preparation.
    Prepare,
    /// Make the files of the run.
    SetUp,
    /// Start the application.
    SpawnGame,
    /// Wait until the application can be reached.
    WaitReady,
    /// Ask for the window.
    InspectWindow,
    /// Run the driver.
    RunDriver,
    /// Wait for the application itself.
    WaitGame,
    /// Keep the discovery document, end the application by force if need be, and keep its captures.
    Terminate,
    /// Keep the discovery document and tear the application down.
    TearDown,
    /// Keep the captures.
    CopyCaptures,
    /// Write the failure summary.
    WriteFailure,
    /// The run is over.
    Finish,
}

/// What came of an action.
pub enum Event {
    /// What came of the preparation.
    Prepared(ChildOutcome),
    /// The files of the run were made, or why not.
    SetUpDone(Result<(), String>),
    /// The application was started, or why not.
    GameSpawned(Result<(), String>),
    /// The application can be reached.
    Ready,
    /// Why the application cannot be reached, and what a look at the process showed.
    NotReady(String, Option<ExitInfo>),
    /// The window, or why it could not be had.
    Window(Result<ObservedWindow, String>),
    /// What came of the driver.
    Driven(ChildOutcome),
    /// How the application ended, unless a signal asked the run to stop, or why it could not be
    /// waited for.
    GameWaited(Result<Option<ExitInfo>, String>),
    /// How the application was torn down or terminated.
    Ended(Ending),
    /// The captures were kept, or why not.
    Copied(Result<(), String>),
    /// The failure summary was written.
    FailureWritten,
}

/// A run under way.
pub struct Lifecycle {
    /// What the run is about.
    pub plan: Plan,
    /// What is being done.
    pub doing: Action,
    /// How the application stands.
    pub ending: Ending,
    /// What the run has failed by.
    pub failure: Option<RunFailure>,
    /// Whether the application left before it acknowledged the request to.
    pub unacknowledged: bool,
}

/// A run under way, as a model.
pub struct LifeView {
    /// What the run is about.
    pub plan: Plan,
    /// What is being done.
    pub doing: Action,
    /// How the application stands.
    pub ending: Ending,
    /// What the run has failed by.
    pub failure: Option<FailureView>,
    /// Whether the application left before it acknowledged the request to.
    pub unacknowledged: bool,
}

impl View for Lifecycle {
    type V = LifeView;

    open spec fn view(&self) -> LifeView {
        LifeView {
            plan: self.plan,
            doing: self.doing,
            ending: self.ending,
            failure: opt_failure(self.failure),
            unacknowledged: self.unacknowledged,
        }
    }
}

/// A run before anything was done.
pub open spec fn first_step(plan: Plan) -> LifeView {
    LifeView {
        plan,
        doing: if plan.prepare {
            Action::Prepare
        } else {
            Action::SetUp
        },
        ending: Ending { process_exit: ProcessExit::NotStarted, teardown: no_teardown() },
        failure: None,
        unacknowledged: false,
    }
}

/// The run goes on with an action.
pub open spec fn go(s: LifeView, doing: Action) -> LifeView {
    LifeView { doing, ..s }
}

/// The run goes on with an action and has failed.
pub open spec fn fail_and(
    s: LifeView,
    doing: Action,
    phase: &'static str,
    code: &'static str,
    message: Seq<char>,
) -> LifeView {
    LifeView { doing, failure: Some(FailureView { phase, code, message }), ..s }
}

/// What a run does after the application can be reached and has the right window.
pub open spec fn driving(plan: Plan) -> Action {
    if plan.driver {
        Action::RunDriver
    } else {
        Action::WaitGame
    }
}

/// The judgement once the application is gone and the captures are kept.
pub open spec fn judged(s: LifeView) -> LifeView {
    if s.failure is Some {
        go(s, Action::WriteFailure)
    } else if s.ending.teardown.forced_termination {
        fail_and(
            s,
            Action::WriteFailure,
            "teardown",
            "teardown_forced_termination",
            "game required forced termination during teardown"@,
        )
    } else if s.ending.process_exit == ProcessExit::Nonzero || s.ending.process_exit
        == ProcessExit::Signal {
        fail_and(
            s,
            Action::WriteFailure,
            "teardown",
            "game_nonzero_exit",
            "game process exited with category "@ + s.ending.process_exit.spec_text()@,
        )
    } else {
        LifeView {
            doing: Action::Finish,
            unacknowledged: s.ending.teardown.shutdown_acknowledgment@ != "acknowledged"@,
            ..s
        }
    }
}

/// What a run does after an event. An event that does not answer what is being done changes
/// nothing.
pub open spec fn after(s: LifeView, e: Event) -> LifeView {
    match (s.doing, e) {
        (Action::Prepare, Event::Prepared(outcome)) => match prepare_failure(
            outcome,
            s.plan.prepare_timeout,
        ) {
            Some(f) => fail_and(s, Action::Finish, f.phase, f.code, f.message),
            None => go(s, Action::SetUp),
        },
        (Action::SetUp, Event::SetUpDone(done)) => match done {
            Ok(_) => go(s, Action::SpawnGame),
            Err(message) => fail_and(
                s,
                Action::Finish,
                "setup",
                "artifact_setup_failed",
                message@,
            ),
        },
        (Action::SpawnGame, Event::GameSpawned(done)) => match done {
            Ok(_) => LifeView {
                doing: Action::WaitReady,
                ending: Ending { process_exit: ProcessExit::Running, ..s.ending },
                ..s
            },
            Err(message) => fail_and(
                s,
                Action::Finish,
                "game_spawn",
                "game_spawn_failed",
                message@,
            ),
        },
        (Action::WaitReady, Event::Ready) => go(
            s,
            if s.plan.window is Some {
                Action::InspectWindow
            } else {
                driving(s.plan)
            },
        ),
        (Action::WaitReady, Event::NotReady(message, exit)) => fail_and(
            LifeView {
                ending: Ending {
                    process_exit: match exit {
                        Some(status) => exit_of(status),
                        None => ProcessExit::Running,
                    },
                    ..s.ending
                },
                ..s
            },
            Action::Terminate,
            "protocol_startup",
            if "game exited"@.is_prefix_of(message@) {
                "protocol_early_exit"
            } else {
                "protocol_timeout"
            },
            message@,
        ),
        (Action::InspectWindow, Event::Window(window)) => match (window, s.plan.window) {
            (Ok(w), Some(required)) => match window_failure(required, w) {
                Some(f) => fail_and(s, Action::TearDown, f.phase, f.code, f.message),
                None => go(s, driving(s.plan)),
            },
            (Ok(_), None) => go(s, driving(s.plan)),
            (Err(message), _) => fail_and(
                s,
                Action::TearDown,
                "window",
                "window_unavailable",
                message@,
            ),
        },
        (Action::RunDriver, Event::Driven(outcome)) => match driver_failure(
            outcome,
            s.plan.driver_timeout,
        ) {
            Some(f) => fail_and(s, Action::TearDown, f.phase, f.code, f.message),
            None => go(s, Action::TearDown),
        },
        (Action::WaitGame, Event::GameWaited(waited)) => match waited {
            Err(message) => fail_and(s, Action::Finish, "game", "game_wait_failed", message@),
            Ok(None) => go(s, Action::TearDown),
            Ok(Some(status)) => if status.success {
                LifeView {
                    doing: Action::TearDown,
                    ending: Ending { process_exit: exit_of(status), ..s.ending },
                    ..s
                }
            } else {
                fail_and(
                    s,
                    Action::TearDown,
                    "game",
                    "game_nonzero_exit",
                    "game exited with status "@ + status.text@,
                )
            },
        },
        (Action::Terminate, Event::Ended(ending)) => LifeView {
            doing: Action::WriteFailure,
            ending,
            ..s
        },
        (Action::TearDown, Event::Ended(ending)) => LifeView {
            doing: Action::CopyCaptures,
            ending,
            ..s
        },
        (Action::CopyCaptures, Event::Copied(done)) => match done {
            Ok(_) => judged(s),
            Err(message) => fail_and(
                s,
                Action::Finish,
                "artifacts",
                "artifact_copy_failed",
                message@,
            ),
        },
        (Action::WriteFailure, Event::FailureWritten) => go(s, Action::Finish),
        _ => s,
    }
}

impl Lifecycle {
    /// A run before anything was done.
    pub fn new(plan: Plan) -> (r: Lifecycle)
        ensures
            r@ == first_step(plan),
    {
        Lifecycle {
            plan,
            doing: if plan.prepare {
                Action::Prepare
            } else {
                Action::SetUp
            },
            ending: Ending {
                process_exit: ProcessExit::NotStarted,
                teardown: TeardownSummary::default(),
            },
            failure: None,
            unacknowledged: false,
        }
    }

    fn fail(&mut self, doing: Action, failure: RunFailure)
        ensures
            final(self)@ == fail_and(
                old(self)@,
                doing,
                failure.phase,
                failure.code,
                failure.message@,
            ),
    {
        self.doing = doing;
        self.failure = Some(failure);
    }

    fn drive(&mut self)
        ensures
            final(self)@ == go(old(self)@, driving(old(self)@.plan)),
    {
        self.doing = if self.plan.driver {
            Action::RunDriver
        } else {
            Action::WaitGame
        };
    }

    fn judge(&mut self)
        ensures
            final(self)@ == judged(old(self)@),
    {
        if self.failure.is_some() {
            self.doing = Action::WriteFailure;
        } else if self.ending.teardown.forced_termination {
            self.fail(
                Action::WriteFailure,
                RunFailure {
                    phase: "teardown",
                    code: "teardown_forced_termination",
                    message: "game required forced termination during teardown".to_owned(),
                },
            );
        } else if self.ending.process_exit == ProcessExit::Nonzero || self.ending.process_exit
            == ProcessExit::Signal {
            let message = cat2(
                "game process exited with category ",
                self.ending.process_exit.text(),
            );
            self.fail(
                Action::WriteFailure,
                RunFailure { phase: "teardown", code: "game_nonzero_exit", message },
            );
        } else {
            self.unacknowledged = !same_text(
                self.ending.teardown.shutdown_acknowledgment,
                "acknowledged",
            );
            self.doing = Action::Finish;
        }
    }

    /// Takes in what came of what is being done, and says what to do next.
    pub fn run_lifecycle(&mut self, event: Event) -> (r: Action)
        ensures
            final(self)@ == after(old(self)@, event),
            r == final(self)@.doing,
    {
        match (self.doing, event) {
            (Action::Prepare, Event::Prepared(outcome)) => match run_prepare(
                outcome,
                self.plan.prepare_timeout,
            ) {
                Some(failure) => self.fail(Action::Finish, failure),
                None => self.doing = Action::SetUp,
            },
            (Action::SetUp, Event::SetUpDone(done)) => match done {
                Ok(_) => self.doing = Action::SpawnGame,
                Err(message) => self.fail(
                    Action::Finish,
                    RunFailure { phase: "setup", code: "artifact_setup_failed", message },
                ),
            },
            (Action::SpawnGame, Event::GameSpawned(done)) => match done {
                Ok(_) => {
                    self.ending.process_exit = ProcessExit::Running;
                    self.doing = Action::WaitReady;
                },
                Err(message) => self.fail(
                    Action::Finish,
                    RunFailure { phase: "game_spawn", code: "game_spawn_failed", message },
                ),
            },
            (Action::WaitReady, Event::Ready) => {
                if self.plan.window.is_some() {
                    self.doing = Action::InspectWindow;
                } else {
                    self.drive();
                }
            },
            (Action::WaitReady, Event::NotReady(message, exit)) => {
                self.ending.process_exit = match exit {
                    Some(status) => exit_category(&status),
                    None => ProcessExit::Running,
                };
                let code = if starts_with(message.as_str(), "game exited") {
                    "protocol_early_exit"
                } else {
                    "protocol_timeout"
                };
                self.fail(
                    Action::Terminate,
                    RunFailure { phase: "protocol_startup", code, message },
                );
            },
            (Action::InspectWindow, Event::Window(window)) => match (window, self.plan.window) {
                (Ok(w), Some(required)) => match inspect_window_contract(required, &w) {
                    Some(failure) => self.fail(Action::TearDown, failure),
                    None => self.drive(),
                },
                (Ok(_), None) => self.drive(),
                (Err(message), _) => self.fail(
                    Action::TearDown,
                    RunFailure { phase: "window", code: "window_unavailable", message },
                ),
            },
            (Action::RunDriver, Event::Driven(outcome)) => match run_driver(
                outcome,
                self.plan.driver_timeout,
            ) {
                Some(failure) => self.fail(Action::TearDown, failure),
                None => self.doing = Action::TearDown,
            },
            (Action::WaitGame, Event::GameWaited(waited)) => match waited {
                Err(message) => self.fail(
                    Action::Finish,
                    RunFailure { phase: "game", code: "game_wait_failed", message },
                ),
                Ok(None) => self.doing = Action::TearDown,
                Ok(Some(status)) => if status.success {
                    self.ending.process_exit = exit_category(&status);
                    self.doing = Action::TearDown;
                } else {
                    let message = cat2("game exited with status ", status.text.as_str());
                    self.fail(
                        Action::TearDown,
                        RunFailure { phase: "game", code: "game_nonzero_exit", message },
                    );
                },
            },
            (Action::Terminate, Event::Ended(ending)) => {
                self.ending = ending;
                self.doing = Action::WriteFailure;
            },
            (Action::TearDown, Event::Ended(ending)) => {
                self.ending = ending;
                self.doing = Action::CopyCaptures;
            },
            (Action::CopyCaptures, Event::Copied(done)) => match done {
                Ok(_) => self.judge(),
                Err(message) => self.fail(
                    Action::Finish,
                    RunFailure { phase: "artifacts", code: "artifact_copy_failed", message },
                ),
            },
            (Action::WriteFailure, Event::FailureWritten) => self.doing = Action::Finish,
            _ => {},
        }
        self.doing
    }
}

/// A run after some events.
pub open spec fn after_all(s: LifeView, events: Seq<Event>) -> LifeView
    decreases events.len(),
{
    if events.len() == 0 {
        s
    } else {
        after(after_all(s, events.drop_last()), events.last())
    }
}

/// The application has been started and is not yet known to be gone.
pub open spec fn game_is_up(a: Action) -> bool {
    ||| a == Action::WaitReady
    ||| a == Action::InspectWindow
    ||| a == Action::RunDriver
    ||| a == Action::WaitGame
    ||| a == Action::Terminate
    ||| a == Action::TearDown
}

/// Law: a run ends well only if nothing failed, the application was not killed, and it did not end
/// with a code other than zero or by a signal.
pub proof fn law_success_is_earned(plan: Plan, events: Seq<Event>)
    ensures
        ({
            let s = after_all(first_step(plan), events);
            s.doing == Action::Finish && s.failure is None ==> !s.ending.teardown.forced_termination
                && s.ending.process_exit != ProcessExit::Nonzero && s.ending.process_exit
                != ProcessExit::Signal
        }),
    decreases events.len(),
{
    if events.len() > 0 {
        law_success_is_earned(plan, events.drop_last());
        lemma_write_failure_has_one(plan, events.drop_last());
    }
}

proof fn lemma_write_failure_has_one(plan: Plan, events: Seq<Event>)
    ensures
        ({
            let s = after_all(first_step(plan), events);
            s.doing == Action::WriteFailure || s.doing == Action::Terminate ==> s.failure is Some
        }),
    decreases events.len(),
{
    if events.len() > 0 {
        lemma_write_failure_has_one(plan, events.drop_last());
    }
}

/// Law: once the application is up, the run is over only after it was torn down or terminated, or
/// where it could not be waited for.
pub proof fn law_game_is_torn_down(s: LifeView, e: Event)
    requires
        game_is_up(s.doing),
        after(s, e).doing == Action::Finish,
    ensures
        s.doing == Action::WaitGame,
        after(s, e).failure matches Some(f) && f.code == "game_wait_failed",
{
}

/// Law: the first failure of a run is the one that it reports, unless its captures could not be
/// kept.
pub proof fn law_first_failure_stands(plan: Plan, events: Seq<Event>, e: Event)
    ensures
        ({
            let s = after_all(first_step(plan), events);
            s.failure is Some ==> (after(s, e).failure == s.failure || (s.doing
                == Action::CopyCaptures && (after(s, e).failure matches Some(f) && f.code
                == "artifact_copy_failed")))
        }),
{
    lemma_failed_runs_do_not_drive(plan, events);
}

proof fn lemma_failed_runs_do_not_drive(plan: Plan, events: Seq<Event>)
    ensures
        ({
            let s = after_all(first_step(plan), events);
            s.failure is Some ==> s.doing == Action::Terminate || s.doing == Action::TearDown
                || s.doing == Action::CopyCaptures || s.doing == Action::WriteFailure || s.doing
                == Action::Finish
        }),
    decreases events.len(),
{
    if events.len() > 0 {
        lemma_failed_runs_do_not_drive(plan, events.drop_last());
    }
}

/// Law: a run that is over stays as it is.
pub proof fn law_finished_runs_stay(s: LifeView, e: Event)
    requires
        s.doing == Action::Finish,
    ensures
        after(s, e) == s,
{
}

/// An event answers what is being done.
pub open spec fn answers(doing: Action, e: Event) -> bool {
    match doing {
        Action::Prepare => e is Prepared,
        Action::SetUp => e is SetUpDone,
        Action::SpawnGame => e is GameSpawned,
        Action::WaitReady => e is Ready || e is NotReady,
        Action::InspectWindow => e is Window,
        Action::RunDriver => e is Driven,
        Action::WaitGame => e is GameWaited,
        Action::Terminate => e is Ended,
        Action::TearDown => e is Ended,
        Action::CopyCaptures => e is Copied,
        Action::WriteFailure => e is FailureWritten,
        Action::Finish => false,
    }
}

/// An event is the good answer to what is being done: a process ended with success, a thing was
/// made, the application can be reached, its window has both required lengths, and it left by
/// itself with no other code than zero.
pub open spec fn went_well(plan: Plan, doing: Action, e: Event) -> bool {
    match doing {
        Action::Prepare => (e matches Event::Prepared(ChildOutcome::Exited(status))
            && status.success),
        Action::SetUp => (e matches Event::SetUpDone(done) && done is Ok),
        Action::SpawnGame => (e matches Event::GameSpawned(done) && done is Ok),
        Action::WaitReady => e is Ready,
        Action::InspectWindow => (e matches Event::Window(Ok(w)) && (
        plan.window matches Some(required) ==> reals::double_equal(
            json::double_of(w.logical_width@),
            json::double_of(NumberValue::Unsigned(required.width as u64)),
        ) && reals::double_equal(
            json::double_of(w.logical_height@),
            json::double_of(NumberValue::Unsigned(required.height as u64)),
        ))),
        Action::RunDriver => (e matches Event::Driven(ChildOutcome::Exited(status))
            && status.success),
        Action::WaitGame => (e matches Event::GameWaited(Ok(left)) && (left matches Some(status)
            ==> status.success)),
        Action::TearDown => (e matches Event::Ended(ending) && !ending.teardown.forced_termination
            && ending.process_exit != ProcessExit::Nonzero && ending.process_exit
            != ProcessExit::Signal),
        Action::CopyCaptures => (e matches Event::Copied(done) && done is Ok),
        Action::Terminate => false,
        Action::WriteFailure => false,
        Action::Finish => false,
    }
}

/// An action was under way in a run, and the event that came was the good answer to it.
#[verifier::opaque]
pub open spec fn done_well(plan: Plan, events: Seq<Event>, doing: Action) -> bool {
    exists|i: int|
        0 <= i < events.len() && #[trigger] after_all(first_step(plan), events.take(i)).doing
            == doing && went_well(plan, doing, events[i])
}

/// What a run that ends well has to have done.
pub open spec fn everything_done(plan: Plan, events: Seq<Event>) -> bool {
    &&& plan.prepare ==> done_well(plan, events, Action::Prepare)
    &&& done_well(plan, events, Action::SetUp)
    &&& done_well(plan, events, Action::SpawnGame)
    &&& done_well(plan, events, Action::WaitReady)
    &&& plan.window is Some ==> done_well(plan, events, Action::InspectWindow)
    &&& plan.driver ==> done_well(plan, events, Action::RunDriver)
    &&& !plan.driver ==> done_well(plan, events, Action::WaitGame)
    &&& done_well(plan, events, Action::TearDown)
    &&& done_well(plan, events, Action::CopyCaptures)
}

proof fn lemma_done_stays_done(plan: Plan, events: Seq<Event>, doing: Action)
    requires
        events.len() > 0,
    ensures
        done_well(plan, events.drop_last(), doing) ==> done_well(plan, events, doing),
        after_all(first_step(plan), events.drop_last()).doing == doing && went_well(
            plan,
            doing,
            events.last(),
        ) ==> done_well(plan, events, doing),
{
    reveal(done_well);
    let before = events.drop_last();
    let n = before.len() as int;
    if done_well(plan, before, doing) {
        let i = choose|i: int|
            0 <= i < before.len() && #[trigger] after_all(first_step(plan), before.take(i)).doing
                == doing && went_well(plan, doing, before[i]);
        assert(events.take(i) =~= before.take(i));
        assert(after_all(first_step(plan), events.take(i)).doing == doing);
    }
    assert(events.take(n) =~= before);
    if after_all(first_step(plan), before).doing == doing && went_well(
        plan,
        doing,
        events.last(),
    ) {
        assert(after_all(first_step(plan), events.take(n)).doing == doing);
    }
}

/// How far a run has come that has not failed, up to the teardown.
spec fn came_here(plan: Plan, events: Seq<Event>, doing: Action) -> bool {
    let set_up = doing != Action::Prepare;
    let spawning = set_up && doing != Action::SetUp;
    let spawned = spawning && doing != Action::SpawnGame;
    let ready = spawned && doing != Action::WaitReady;
    let sized = ready && doing != Action::InspectWindow;
    let driven = sized && doing != Action::RunDriver && doing != Action::WaitGame;
    &&& doing != Action::Terminate && doing != Action::WriteFailure
    &&& doing == Action::RunDriver ==> plan.driver
    &&& doing == Action::WaitGame ==> !plan.driver
    &&& doing == Action::InspectWindow ==> plan.window is Some
    &&& set_up && plan.prepare ==> done_well(plan, events, Action::Prepare)
    &&& spawning ==> done_well(plan, events, Action::SetUp)
    &&& spawned ==> done_well(plan, events, Action::SpawnGame)
    &&& ready ==> done_well(plan, events, Action::WaitReady)
    &&& sized && plan.window is Some ==> done_well(plan, events, Action::InspectWindow)
    &&& driven && plan.driver ==> done_well(plan, events, Action::RunDriver)
    &&& driven && !plan.driver ==> done_well(plan, events, Action::WaitGame)
}

/// The end of the teardown is kept until the captures are.
spec fn tearing_down(plan: Plan, events: Seq<Event>, s: LifeView) -> bool {
    &&& s.doing == Action::CopyCaptures && !s.ending.teardown.forced_termination
        && s.ending.process_exit != ProcessExit::Nonzero && s.ending.process_exit
        != ProcessExit::Signal ==> done_well(plan, events, Action::TearDown)
    &&& s.doing == Action::Finish ==> done_well(plan, events, Action::TearDown) && done_well(
        plan,
        events,
        Action::CopyCaptures,
    )
}

#[verifier::rlimit(40)]
proof fn lemma_came_here(plan: Plan, events: Seq<Event>)
    ensures
        ({
            let s = after_all(first_step(plan), events);
            s.plan == plan && (s.failure is None ==> came_here(plan, events, s.doing)
                && tearing_down(plan, events, s))
        }),
    decreases events.len(),
{
    if events.len() > 0 {
        let before = events.drop_last();
        lemma_came_here(plan, before);
        lemma_done_stays_done(plan, events, Action::Prepare);
        lemma_done_stays_done(plan, events, Action::SetUp);
        lemma_done_stays_done(plan, events, Action::SpawnGame);
        lemma_done_stays_done(plan, events, Action::WaitReady);
        lemma_done_stays_done(plan, events, Action::InspectWindow);
        lemma_done_stays_done(plan, events, Action::RunDriver);
        lemma_done_stays_done(plan, events, Action::WaitGame);
        lemma_done_stays_done(plan, events, Action::TearDown);
        lemma_done_stays_done(plan, events, Action::CopyCaptures);
        let p = after_all(first_step(plan), before);
        let s = after_all(first_step(plan), events);
        assert(s == after(p, events.last()));
    }
}

/// Law: a run that is over without a failure did everything it had to, and each of these things was
/// answered well while it was being done: the preparation and the driver, where there are any,
/// ended with success, the application was started, could be reached and had the required window,
/// it left by itself, and its captures were kept.
pub proof fn law_success_did_everything(plan: Plan, events: Seq<Event>)
    requires
        after_all(first_step(plan), events).doing == Action::Finish,
        after_all(first_step(plan), events).failure is None,
    ensures
        everything_done(plan, events),
        plan.driver ==> exists|i: int|
            0 <= i < events.len() && #[trigger] after_all(first_step(plan), events.take(i)).doing
                == Action::RunDriver && (events[i] matches Event::Driven(ChildOutcome::Exited(status))
                && status.success),
{
    lemma_came_here(plan, events);
    reveal(done_well);
    if plan.driver {
        assert(done_well(plan, events, Action::RunDriver));
    }
}

/// The phase that a failure of an action is reported under.
pub open spec fn phase_of(doing: Action) -> &'static str {
    match doing {
        Action::Prepare => "prepare",
        Action::SetUp => "setup",
        Action::SpawnGame => "game_spawn",
        Action::WaitReady => "protocol_startup",
        Action::InspectWindow => "window",
        Action::RunDriver => "driver",
        Action::WaitGame => "game",
        Action::CopyCaptures => "artifacts",
        _ => "teardown",
    }
}

/// Law: whatever answers an action of a run other than well is recorded as a failure of its phase;
/// a good answer records none. Before the application was started a failure ends the run, while it
/// is started the application is terminated, and after that it is torn down.
pub proof fn law_bad_answers_are_failures(s: LifeView, e: Event)
    requires
        s.failure is None,
        answers(s.doing, e),
        s.doing != Action::Terminate,
        s.doing != Action::TearDown,
        s.doing != Action::CopyCaptures,
        s.doing != Action::WriteFailure,
    ensures
        after(s, e).failure is None <==> went_well(s.plan, s.doing, e),
        !went_well(s.plan, s.doing, e) ==> (after(s, e).failure matches Some(f) && f.phase
            == phase_of(s.doing)),
        !went_well(s.plan, s.doing, e) ==> after(s, e).doing == (match s.doing {
            Action::WaitReady => Action::Terminate,
            Action::InspectWindow => Action::TearDown,
            Action::RunDriver => Action::TearDown,
            Action::WaitGame => if (e matches Event::GameWaited(waited) && waited is Ok) {
                Action::TearDown
            } else {
                Action::Finish
            },
            _ => Action::Finish,
        }),
        after(s, e).plan == s.plan,
        after(s, e).ending.teardown == s.ending.teardown,
{
}

/// Law: a good answer leads on: from the preparation to the files, to the application, to its
/// window where one is required, to the driver or to the wait for the application, and from there
/// to the teardown.
pub proof fn law_good_answers_lead_on(s: LifeView, e: Event)
    requires
        went_well(s.plan, s.doing, e),
        s.doing != Action::CopyCaptures,
    ensures
        after(s, e).doing == (match s.doing {
            Action::Prepare => Action::SetUp,
            Action::SetUp => Action::SpawnGame,
            Action::SpawnGame => Action::WaitReady,
            Action::WaitReady => if s.plan.window is Some {
                Action::InspectWindow
            } else if s.plan.driver {
                Action::RunDriver
            } else {
                Action::WaitGame
            },
            Action::InspectWindow => if s.plan.driver {
                Action::RunDriver
            } else {
                Action::WaitGame
            },
            Action::RunDriver => Action::TearDown,
            Action::WaitGame => Action::TearDown,
            _ => Action::CopyCaptures,
        }),
        after(s, e).failure == s.failure,
        after(s, e).plan == s.plan,
{
}

/// Law: once the application is gone and its captures are kept, a run without a failure is over
/// exactly where the application was not killed and did not end with another code than zero or by a
/// signal; everything else is a failure, and every failure is written down before the run is over.
/// Whether the application acknowledged the request to leave is remembered.
pub proof fn law_endings_are_judged(s: LifeView, e: Event)
    requires
        s.doing == Action::CopyCaptures || s.doing == Action::TearDown || s.doing
            == Action::Terminate || s.doing == Action::WriteFailure,
        answers(s.doing, e),
    ensures
        ({
            let t = after(s, e);
            let bad = s.ending.teardown.forced_termination || s.ending.process_exit
                == ProcessExit::Nonzero || s.ending.process_exit == ProcessExit::Signal;
            &&& t.plan == s.plan
            &&& s.failure is Some ==> t.failure is Some
            &&& s.doing == Action::TearDown ==> t.doing == Action::CopyCaptures && t.failure
                == s.failure && Event::Ended(t.ending) == e
            &&& s.doing == Action::Terminate ==> t.doing == Action::WriteFailure && t.failure
                == s.failure && Event::Ended(t.ending) == e
            &&& s.doing == Action::WriteFailure ==> t.doing == Action::Finish && t.failure
                == s.failure && t.ending == s.ending
            &&& s.doing == Action::CopyCaptures ==> t.ending == s.ending
            &&& s.doing == Action::CopyCaptures && (e matches Event::Copied(done) && done is Ok)
                ==> {
                &&& t.failure is None <==> s.failure is None && !bad
                &&& t.doing == (if t.failure is None {
                    Action::Finish
                } else {
                    Action::WriteFailure
                })
                &&& s.failure is Some ==> t.failure == s.failure
                &&& s.failure is None && bad ==> (t.failure matches Some(f) && f.phase == "teardown"
                    && f.code == (if s.ending.teardown.forced_termination {
                    "teardown_forced_termination"
                } else {
                    "game_nonzero_exit"
                }))
                &&& t.failure is None ==> t.unacknowledged == (
                s.ending.teardown.shutdown_acknowledgment@ != "acknowledged"@)
            }
            &&& s.doing == Action::CopyCaptures && (e matches Event::Copied(done) && done is Err)
                ==> t.doing == Action::Finish && (t.failure matches Some(f) && f.phase
                == "artifacts" && f.code == "artifact_copy_failed")
        }),
{
}

/// Law: an event that does not answer what is being done changes nothing.
pub proof fn law_stray_events_change_nothing(s: LifeView, e: Event)
    requires
        !answers(s.doing, e),
    ensures
        after(s, e) == s,
{
}

/// Law: a run that has failed never ends without a failure.
pub proof fn law_failures_are_not_forgotten(s: LifeView, events: Seq<Event>)
    requires
        s.failure is Some,
    ensures
        after_all(s, events).failure is Some,
    decreases events.len(),
{
    if events.len() > 0 {
        law_failures_are_not_forgotten(s, events.drop_last());
    }
}

/// What a run does from its beginning to its end where everything goes well.
pub open spec fn good_course(plan: Plan) -> Seq<Action> {
    (if plan.prepare {
        seq![Action::Prepare]
    } else {
        seq![]
    }) + seq![Action::SetUp, Action::SpawnGame, Action::WaitReady] + (if plan.window is Some {
        seq![Action::InspectWindow]
    } else {
        seq![]
    }) + seq![
        if plan.driver {
            Action::RunDriver
        } else {
            Action::WaitGame
        },
        Action::TearDown,
        Action::CopyCaptures,
    ]
}

proof fn lemma_good_course(plan: Plan, events: Seq<Event>)
    requires
        events.len() <= good_course(plan).len(),
        forall|i: int|
            0 <= i < events.len() ==> #[trigger] went_well(plan, good_course(plan)[i], events[i]),
    ensures
        ({
            let s = after_all(first_step(plan), events);
            let course = good_course(plan);
            &&& s.failure is None
            &&& s.plan == plan
            &&& s.doing == (if events.len() < course.len() {
                course[events.len() as int]
            } else {
                Action::Finish
            })
            &&& s.doing == Action::CopyCaptures ==> !s.ending.teardown.forced_termination
                && s.ending.process_exit != ProcessExit::Nonzero && s.ending.process_exit
                != ProcessExit::Signal
        }),
    decreases events.len(),
{
    let course = good_course(plan);
    if events.len() > 0 {
        let before = events.drop_last();
        assert forall|i: int| 0 <= i < before.len() implies #[trigger] went_well(
            plan,
            course[i],
            before[i],
        ) by {
            assert(went_well(plan, course[i], events[i]));
        }
        lemma_good_course(plan, before);
        let last = events.len() - 1;
        assert(went_well(plan, course[last], events[last]));
        let s = after_all(first_step(plan), before);
        if s.doing != Action::CopyCaptures {
            law_good_answers_lead_on(s, events.last());
        }
    }
}

/// Law: a run in which everything goes well does each thing once, in its order, and ends well.
pub proof fn law_good_runs_end_well(plan: Plan, events: Seq<Event>)
    requires
        events.len() == good_course(plan).len(),
        forall|i: int|
            0 <= i < events.len() ==> #[trigger] went_well(plan, good_course(plan)[i], events[i]),
    ensures
        after_all(first_step(plan), events).doing == Action::Finish,
        after_all(first_step(plan), events).failure is None,
        forall|i: int|
            0 <= i < events.len() ==> (#[trigger] after_all(first_step(plan), events.take(i))).doing
                == good_course(plan)[i],
{
    lemma_good_course(plan, events);
    assert forall|i: int| 0 <= i < events.len() implies (#[trigger] after_all(
        first_step(plan),
        events.take(i),
    )).doing == good_course(plan)[i] by {
        assert forall|k: int| 0 <= k < i implies #[trigger] went_well(
            plan,
            good_course(plan)[k],
            events.take(i)[k],
        ) by {
            assert(went_well(plan, good_course(plan)[k], events[k]));
        }
        lemma_good_course(plan, events.take(i));
    }
}

/// Law: a preparation and a driver are judged alike: each has failed unless it ended with success,
/// and each way to fail has a code of its own. The message names the status that it ended with, or
/// passes on what was reported.
pub proof fn law_processes_are_judged_by_their_end(outcome: ChildOutcome, timeout: Span)
    ensures
        ({
            let well = outcome matches ChildOutcome::Exited(status) && status.success;
            let p = prepare_failure(outcome, timeout);
            let d = driver_failure(outcome, timeout);
            &&& p is None <==> well
            &&& d is None <==> well
            &&& p is Some ==> p->Some_0.phase == "prepare"
            &&& d is Some ==> d->Some_0.phase == "driver"
            &&& outcome matches ChildOutcome::Exited(status) ==> !status.success ==> {
                &&& p->Some_0.code == "prepare_nonzero_exit" && status.text@.is_suffix_of(
                    p->Some_0.message,
                )
                &&& d->Some_0.code == "driver_nonzero_exit" && status.text@.is_suffix_of(
                    d->Some_0.message,
                )
                &&& d->Some_0.message == "driver exited with status "@ + status.text@
                &&& p->Some_0.message == "prepare exited with status "@ + status.text@
            }
            &&& outcome is TimedOut ==> p->Some_0.code == "prepare_timeout" && d->Some_0.code
                == "driver_timeout"
            &&& outcome matches ChildOutcome::LogFailed(told) ==> p->Some_0.code
                == "prepare_spawn_failed" && d->Some_0.code == "driver_log_failed"
                && p->Some_0.message == told@ && d->Some_0.message == told@
            &&& outcome matches ChildOutcome::SpawnFailed(told) ==> p->Some_0.code
                == "prepare_spawn_failed" && d->Some_0.code == "driver_spawn_failed"
                && p->Some_0.message == told@ && d->Some_0.message == told@
            &&& outcome matches ChildOutcome::WaitFailed(told) ==> p->Some_0.code
                == "prepare_wait_failed" && d->Some_0.code == "driver_wait_failed"
                && p->Some_0.message == told@ && d->Some_0.message == told@
        }),
{
    if outcome is Exited {
        let tail = outcome->Exited_0.text@;
        let p = "prepare exited with status "@ + tail;
        let d = "driver exited with status "@ + tail;
        assert(tail =~= p.subrange(p.len() - tail.len(), p.len() as int));
        assert(tail =~= d.subrange(d.len() - tail.len(), d.len() as int));
    }
}

/// Law: a window fits exactly where both of its logical lengths equal the required ones.
pub proof fn law_windows_need_both_lengths(required: RequiredWindowSize, w: ObservedWindow)
    ensures
        window_failure(required, w) is None <==> reals::double_equal(
            json::double_of(w.logical_width@),
            json::double_of(NumberValue::Unsigned(required.width as u64)),
        ) && reals::double_equal(
            json::double_of(w.logical_height@),
            json::double_of(NumberValue::Unsigned(required.height as u64)),
        ),
        window_failure(required, w) matches Some(f) ==> f.phase == "window" && f.code
            == "window_size_mismatch",
{
}

/// Law: a wait gives up exactly where it is told to stop or its time is over, and once its time is
/// over it stays over. Only before that does it matter whether the process ended or can be reached.
pub proof fn law_waits_give_up_in_time(
    elapsed: Span,
    later: Span,
    timeout: Span,
    stop: bool,
    exited: bool,
    reachable: bool,
)
    requires
        elapsed.nanos <= later.nanos,
    ensures
        ready_step_of(elapsed, timeout, stop, exited, reachable) == ReadyStep::GiveUp <==> stop
            || timeout.nanos <= elapsed.nanos,
        ready_step_of(elapsed, timeout, stop, exited, reachable) == ReadyStep::GiveUp
            ==> ready_step_of(later, timeout, stop, exited, reachable) == ReadyStep::GiveUp,
        ready_step_of(elapsed, timeout, stop, exited, reachable) == ReadyStep::Ready ==> reachable
            && !exited,
        ready_step_of(elapsed, timeout, stop, exited, reachable) == ReadyStep::Exited ==> exited,
        ready_step_of(elapsed, timeout, stop, exited, reachable) == ReadyStep::Again ==> !exited
            && !reachable,
        wait_step_of(elapsed, Some(timeout), stop, exited) == WaitStep::GiveUp <==> stop
            || timeout.nanos <= elapsed.nanos,
        wait_step_of(elapsed, Some(timeout), stop, exited) == WaitStep::GiveUp ==> wait_step_of(
            later,
            Some(timeout),
            stop,
            exited,
        ) == WaitStep::GiveUp,
        wait_step_of(elapsed, None, stop, exited) == WaitStep::GiveUp <==> stop,
        wait_step_of(elapsed, None, stop, exited) == WaitStep::Ended ==> exited,
        wait_step_of(elapsed, None, stop, exited) == WaitStep::Again ==> !exited,
        wait_step_of(elapsed, Some(timeout), stop, exited) == WaitStep::Ended ==> exited,
        wait_step_of(elapsed, Some(timeout), stop, exited) == WaitStep::Again ==> !exited,
{
}

/// Law: a process that ended is told by its status: well exactly where it ended with success,
/// otherwise by whether it has a code. Only a process that had to be killed counts as forced, and
/// only an acknowledged request counts as acknowledged.
pub proof fn law_endings_tell_what_was_seen(
    e: Ending,
    status: ExitInfo,
    client: Option<ClientTeardown>,
)
    ensures
        left(e, status).process_exit == ProcessExit::Success <==> status.success,
        left(e, status).process_exit == ProcessExit::Signal <==> !status.success && status.code
            is None,
        left(e, status).process_exit == ProcessExit::Nonzero <==> !status.success && status.code
            is Some,
        left_early(e, status).process_exit == left(e, status).process_exit,
        left(e, status).teardown.child_exit == "exited",
        left_early(e, status).teardown.child_exit == "exited_before_request",
        to_be_killed(e).teardown.child_exit == "forced",
        to_be_killed(e).teardown.forced_termination,
        left(e, status).teardown.forced_termination == e.teardown.forced_termination,
        left_early(e, status).teardown.forced_termination == e.teardown.forced_termination,
        asked_to_leave(e, client).teardown.forced_termination == e.teardown.forced_termination,
        asked_to_leave(e, client).process_exit == e.process_exit,
        to_be_killed(e).process_exit == e.process_exit,
        asked_to_leave(e, client).teardown.child_exit == e.teardown.child_exit,
        asked_to_leave(e, client).teardown.shutdown_acknowledgment == (match client {
            None => "unavailable",
            Some(seen) => if seen.acknowledged {
                "acknowledged"
            } else {
                "failed"
            },
        }),
        asked_to_leave(e, client).teardown.input_release == (match client {
            None => "unavailable",
            Some(seen) => if seen.released {
                "acknowledged"
            } else {
                "failed"
            },
        }),
        asked_to_leave(e, client).teardown.socket_closure == (if client is Some
            && client->Some_0.disconnected {
            "closed"
        } else {
            "not_observed"
        }),
        left(e, status).teardown.shutdown_acknowledgment == e.teardown.shutdown_acknowledgment,
        to_be_killed(e).teardown.shutdown_acknowledgment == e.teardown.shutdown_acknowledgment,
        left_early(e, status).teardown.shutdown_acknowledgment == "unavailable",
{
}

/// Law: a teardown ends as the application did. It is forced exactly where the application was seen
/// to have left at none of the looks, neither at first, nor after it was asked and waited for, nor at
/// the last one; how the process ended is what the look that saw it says, or what the kill says.
/// What the client saw is told wherever the application was asked to leave.
pub proof fn law_teardowns_end_as_the_application_did(
    e: Ending,
    first: Option<&ExitInfo>,
    client: Option<ClientTeardown>,
    waited: Option<&ExitInfo>,
    last: Option<&ExitInfo>,
    kill: Option<&ExitInfo>,
)
    requires
        !e.teardown.forced_termination,
    ensures
        ({
            let asked = asked_to_leave(teardown_begun(e, first), client);
            let after_wait = waited_for(asked, waited);
            let after_look = looked_at_last(after_wait, last);
            let done = if first is Some {
                teardown_begun(e, first)
            } else if waited is Some {
                after_wait
            } else if last is Some {
                after_look
            } else {
                killed_with(after_look, kill)
            };
            let seen = if first is Some {
                first
            } else if waited is Some {
                waited
            } else if last is Some {
                last
            } else {
                kill
            };
            &&& done.teardown.forced_termination <==> first is None && waited is None && last is None
            &&& done.teardown.child_exit == (if first is Some {
                "exited_before_request"
            } else if waited is Some || last is Some {
                "exited"
            } else {
                "forced"
            })
            &&& seen matches Some(status) ==> (done.process_exit == ProcessExit::Success
                <==> status.success) && (done.process_exit == ProcessExit::Nonzero
                <==> !status.success && status.code is Some) && (done.process_exit
                == ProcessExit::Signal <==> !status.success && status.code is None)
            &&& seen is None ==> done.process_exit == e.process_exit
            &&& first is None ==> (done.teardown.shutdown_acknowledgment == "acknowledged"
                <== client is Some && client->Some_0.acknowledged) && (
            done.teardown.input_release == "acknowledged" <== client is Some
                && client->Some_0.released)
        }),
{
}

/// Law: a window is read from an answer with its own numbers, each under its name, so that two
/// windows read from one answer are the same. It can be read exactly where the answer has all five of
/// them, the lengths in pixels as whole numbers that are not negative.
pub proof fn law_windows_are_read_by_name(value: JsonValue, w: ObservedWindow, v: ObservedWindow)
    requires
        window_reported(value, w),
        window_reported(value, v),
    ensures
        json::value_at(value, "logical_width"@) == Some(JsonValue::Number(w.logical_width@)),
        json::value_at(value, "logical_height"@) == Some(JsonValue::Number(w.logical_height@)),
        json::value_at(value, "physical_width"@) == Some(
            JsonValue::Number(NumberValue::Unsigned(w.physical_width)),
        ),
        json::value_at(value, "physical_height"@) == Some(
            JsonValue::Number(NumberValue::Unsigned(w.physical_height)),
        ),
        json::value_at(value, "scale_factor"@) == Some(JsonValue::Number(w.scale_factor@)),
        w.logical_width@ == v.logical_width@ && w.logical_height@ == v.logical_height@
            && w.physical_width == v.physical_width && w.physical_height == v.physical_height
            && w.scale_factor@ == v.scale_factor@,
        window_readable(value),
{
}

} // verus!
