//! Configuration of the application side, and the session that a client finds.
use crate::commands::ParseLimits;
use crate::json::{parse_json_bytes, Json, JsonValue};
use crate::json;
use crate::span::Span;
use crate::span;
use crate::text::{cat2, cat3, decimal, same_text};
use crate::text;
use vstd::prelude::*;

verus! {

/// The name and version of the protocol.
pub const PROTOCOL_VERSION: &'static str = "bevy-agent-feedback/3";

/// Configuration of the application side.
///
/// Defaults bind to localhost on port `15712`, write `agent-feedback.json` and keep captures in
/// `agent-feedback-captures`.
pub struct AgentFeedbackConfig {
    /// TCP address of the local control socket, as text. Port `0` lets the system choose.
    pub bind_addr: String,
    /// JSON file that is written at startup so that clients can find the socket.
    pub protocol_file: String,
    /// Directory for screenshots.
    pub capture_dir: String,
    /// The most agent commands that are drained in a frame.
    pub max_pending_commands: usize,
    /// The most frames of one wait.
    pub max_wait_frames: u16,
    /// The most moves of one drag.
    pub max_action_steps: u16,
    /// Whether virtual time stands still unless it is advanced.
    pub deterministic_time: bool,
    /// The most steps of one advance of time; at least one.
    pub max_time_advance_steps: u16,
    /// The longest advance of time.
    pub max_time_advance: Span,
    /// How often the heartbeat is written.
    pub heartbeat_interval: Span,
    /// How old the heartbeat may be before clients take the session for dead.
    pub session_stale_after: Span,
    /// The most screenshots that are kept.
    pub max_captures: usize,
    /// How long a client waits for an answer.
    pub command_timeout: Span,
    /// How long the application may run without an accepted command.
    pub idle_shutdown_after: Option<Span>,
}

impl AgentFeedbackConfig {
    /// The lengths of time are ones that the system can hold.
    pub open spec fn wf(self) -> bool {
        &&& self.max_time_advance.wf()
        &&& self.heartbeat_interval.wf()
        &&& self.session_stale_after.wf()
        &&& self.command_timeout.wf()
    }

    /// The most commands that may be pending, at least one.
    pub fn command_limit(&self) -> (r: usize)
        ensures
            r == (if self.max_pending_commands == 0 {
                1
            } else {
                self.max_pending_commands
            }),
    {
        if self.max_pending_commands == 0 {
            1
        } else {
            self.max_pending_commands
        }
    }

    /// The most screenshots that are kept, at least one.
    pub fn capture_limit(&self) -> (r: usize)
        ensures
            r == (if self.max_captures == 0 {
                1
            } else {
                self.max_captures
            }),
    {
        if self.max_captures == 0 {
            1
        } else {
            self.max_captures
        }
    }

    /// The bounds that requests are held to.
    pub fn parse_limits(&self) -> (r: ParseLimits)
        ensures
            r == (ParseLimits {
                max_wait_frames: self.max_wait_frames,
                max_action_steps: self.max_action_steps,
                max_time_advance_steps: self.max_time_advance_steps,
                max_time_advance: self.max_time_advance,
            }),
    {
        ParseLimits {
            max_wait_frames: self.max_wait_frames,
            max_action_steps: self.max_action_steps,
            max_time_advance_steps: self.max_time_advance_steps,
            max_time_advance: self.max_time_advance,
        }
    }
}

impl Default for AgentFeedbackConfig {
    fn default() -> (r: AgentFeedbackConfig)
        ensures
            r.wf(),
            r.bind_addr@ == "127.0.0.1:15712"@,
            r.protocol_file@ == "agent-feedback.json"@,
            r.capture_dir@ == "agent-feedback-captures"@,
            r.max_pending_commands == 32,
            r.max_wait_frames == 300,
            r.max_action_steps == 120,
            !r.deterministic_time,
            r.max_time_advance_steps == 600,
            r.max_time_advance == (Span { nanos: 10_000_000_000 }),
            r.heartbeat_interval == (Span { nanos: 250_000_000 }),
            r.session_stale_after == (Span { nanos: 3_000_000_000 }),
            r.max_captures == 32,
            r.command_timeout == (Span { nanos: 10_000_000_000 }),
            r.idle_shutdown_after is None,
    {
        AgentFeedbackConfig {
            bind_addr: "127.0.0.1:15712".to_owned(),
            protocol_file: "agent-feedback.json".to_owned(),
            capture_dir: "agent-feedback-captures".to_owned(),
            max_pending_commands: 32,
            max_wait_frames: 300,
            max_action_steps: 120,
            deterministic_time: false,
            max_time_advance_steps: 600,
            max_time_advance: Span::from_secs(10),
            heartbeat_interval: Span::from_millis(250),
            session_stale_after: Span::from_secs(3),
            max_captures: 32,
            command_timeout: Span::from_secs(10),
            idle_shutdown_after: None,
        }
    }
}

/// A length of time held between two bounds, the upper one last.
pub open spec fn clamped(value: Span, min: Span, max: Span) -> Span {
    span::span_min(
        if value.nanos >= min.nanos {
            value
        } else {
            min
        },
        max,
    )
}

/// Holds a length of time between two bounds.
pub fn clamp_duration(value: Span, min: Span, max: Span) -> (r: Span)
    ensures
        r == clamped(value, min, max),
{
    let raised = if value.nanos >= min.nanos {
        value
    } else {
        min
    };
    raised.shorter(max)
}

/// The name of the heartbeat file beside a protocol file of this name.
pub open spec fn heartbeat_name(file_name: Option<Seq<char>>) -> Seq<char> {
    match file_name {
        Some(name) => name + ".heartbeat"@,
        None => "agent-feedback.json"@ + ".heartbeat"@,
    }
}

/// Names the heartbeat file beside a protocol file.
pub fn heartbeat_file(file_name: Option<&str>) -> (r: String)
    ensures
        r@ == heartbeat_name(
            match file_name {
                Some(name) => Some(name@),
                None => None,
            },
        ),
{
    match file_name {
        Some(name) => cat2(name, ".heartbeat"),
        None => cat2("agent-feedback.json", ".heartbeat"),
    }
}

/// A session of the application.
pub struct AgentFeedbackSession {
    /// What the session is known by.
    pub session_id: String,
    /// The process.
    pub pid: u32,
    /// When it started, in milliseconds.
    pub started_at_unix_ms: u64,
    /// Its heartbeat file.
    pub heartbeat_file: String,
    /// How often the heartbeat is written.
    pub heartbeat_interval: Span,
    /// How old the heartbeat may be.
    pub stale_after: Span,
}

impl AgentFeedbackSession {
    /// A session of a process that started at a time, with its heartbeat held within bounds.
    pub fn new(
        config: &AgentFeedbackConfig,
        pid: u32,
        started_at_unix_ms: u64,
        heartbeat_file: String,
    ) -> (r: AgentFeedbackSession)
        ensures
            r.session_id@ == text::digits(pid as nat) + "-"@ + text::digits(started_at_unix_ms as nat),
            r.pid == pid,
            r.started_at_unix_ms == started_at_unix_ms,
            r.heartbeat_file == heartbeat_file,
            r.heartbeat_interval == clamped(
                config.heartbeat_interval,
                (Span { nanos: 50_000_000 }),
                (Span { nanos: 5_000_000_000 }),
            ),
            r.stale_after == clamped(
                config.session_stale_after,
                (Span { nanos: 250_000_000 }),
                (Span { nanos: 120_000_000_000 }),
            ),
    {
        AgentFeedbackSession {
            session_id: cat3(
                decimal(pid as u128).as_str(),
                "-",
                decimal(started_at_unix_ms as u128).as_str(),
            ),
            pid,
            started_at_unix_ms,
            heartbeat_file,
            heartbeat_interval: clamp_duration(
                config.heartbeat_interval,
                Span::from_millis(50),
                Span::from_secs(5),
            ),
            stale_after: clamp_duration(
                config.session_stale_after,
                Span::from_millis(250),
                Span::from_secs(120),
            ),
        }
    }
}

/// A JSON value is an object that names this session.
pub open spec fn names_session(value: JsonValue, session_id: Seq<char>) -> bool {
    value matches JsonValue::Object(m) && m.dom().contains("session_id"@) && m["session_id"@]
        == JsonValue::Text(session_id)
}

/// Tells whether a protocol file belongs to a session, so that its end may remove it.
pub fn protocol_belongs_to_session(bytes: Option<&[u8]>, session_id: &str) -> (r: bool)
    ensures
        r == (bytes matches Some(b) && json::parsed_json_bytes(b@) matches Ok(value) && names_session(
            value,
            session_id@,
        )),
{
    let bytes = match bytes {
        Some(bytes) => bytes,
        None => return false,
    };
    match parse_json_bytes(bytes) {
        Ok(json) => session_in(&json, session_id),
        Err(_) => false,
    }
}

/// Tells whether a JSON value is an object that names a session.
pub fn session_in(json: &Json, session_id: &str) -> (r: bool)
    ensures
        r == names_session(json@, session_id@),
{
    proof {
        if let Json::Object(entries) = json {
            crate::json::law_lookup_reads_object(entries@, "session_id"@);
        }
    }
    match json.get("session_id") {
        Some(Json::Text(s)) => same_text(s.as_str(), session_id),
        _ => false,
    }
}

/// The shortest time without a command after which the application may leave.
pub const MIN_IDLE_SECONDS: u64 = 5;

/// The application has been idle for too long.
pub open spec fn idle_too_long(idle_after: Option<Span>, idle: Span) -> bool {
    idle_after matches Some(after) && idle.nanos >= after.nanos && idle.nanos >= MIN_IDLE_SECONDS
        * crate::span::NANOS_PER_SECOND
}

/// Tells whether the application has been idle for too long. A bound below five seconds counts as
/// five seconds.
pub fn idle_shutdown(idle_after: Option<Span>, idle: Span) -> (r: bool)
    ensures
        r == idle_too_long(idle_after, idle),
{
    match idle_after {
        None => false,
        Some(after) => idle.nanos >= after.nanos && idle.nanos >= Span::from_secs(
            MIN_IDLE_SECONDS,
        ).nanos,
    }
}

/// Law: a length of time between the bounds stays, one outside becomes the bound that it is beyond,
/// and a longer time never becomes a shorter one.
pub proof fn law_lengths_are_held_between_bounds(value: Span, longer: Span, min: Span, max: Span)
    requires
        min.nanos <= max.nanos,
        value.nanos <= longer.nanos,
    ensures
        min.nanos <= clamped(value, min, max).nanos <= max.nanos,
        min.nanos <= value.nanos <= max.nanos ==> clamped(value, min, max) == value,
        value.nanos < min.nanos ==> clamped(value, min, max) == min,
        value.nanos > max.nanos ==> clamped(value, min, max) == max,
        clamped(value, min, max).nanos <= clamped(longer, min, max).nanos,
{
}

/// Law: an application leaves for idleness exactly where that was asked for and it has been idle for
/// as long as was asked and for five seconds at least; once it would leave, it would later too.
pub proof fn law_idle_applications_leave(idle_after: Option<Span>, idle: Span, longer: Span)
    requires
        idle.nanos <= longer.nanos,
    ensures
        idle_too_long(idle_after, idle) <==> idle_after is Some && idle.nanos
            >= idle_after->Some_0.nanos && idle.nanos >= 5_000_000_000,
        idle_too_long(idle_after, idle) ==> idle_too_long(idle_after, longer),
{
}

} // verus!
