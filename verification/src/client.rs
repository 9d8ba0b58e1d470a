//! The client side of the protocol: what is sent, and what an answer means.
//!
//! [`AgentClient`] makes requests and reads answers; the caller carries both over the socket.
use crate::responses::ObservedPredicate;
use vstd::prelude::*;

use crate::advance::AdvancePlan;
use crate::commands::{ComparisonOperator, TargetKind, TargetSelector};
use crate::config::PROTOCOL_VERSION;
use crate::json;
use crate::json::{
    copy_json, json_text, member, member2, parse_json, parse_json_bytes, print_json,
    seconds_to_nanos, span_json, text_value, Json, JsonNumber, JsonValue, NumberValue, ObjectBuilder,
};
use crate::lines;
use crate::lines::{lossy_text, single_spaced, trim};
use crate::span::{Span, NANOS_PER_MILLI};
use crate::text;
use crate::text::{cat2, cat3, cat4, cat5, decimal, same_text};

verus! {

/// Settings of text recognition.
pub struct OcrOptions {
    /// The `tesseract` program.
    pub tesseract: String,
    /// The code of its language, for example `eng`.
    pub language: String,
    /// How long it may take.
    pub timeout: Span,
}

impl OcrOptions {
    /// The settings where `BEVY_FEEDBACK_TESSERACT` is set like this.
    pub fn with_environment(tesseract: Option<String>) -> (r: OcrOptions)
        ensures
            r.tesseract@ == (match tesseract {
                Some(path) => path@,
                None => "tesseract"@,
            }),
            r.language@ == "eng"@,
            r.timeout == (Span { nanos: 5_000_000_000 }),
    {
        OcrOptions {
            tesseract: match tesseract {
                Some(path) => path,
                None => "tesseract".to_owned(),
            },
            language: "eng".to_owned(),
            timeout: Span::from_secs(5),
        }
    }
}

/// Settings of a client.
pub struct AgentClientConfig {
    /// The discovery document that the application writes.
    pub protocol_file: String,
    /// How long to wait for the socket.
    pub timeout: Span,
    /// Where to keep what was sent and answered.
    pub transcript_file: Option<String>,
    /// Settings of text recognition.
    pub ocr: OcrOptions,
}

impl AgentClientConfig {
    /// The settings where `BEVY_FEEDBACK_PROTOCOL`, `BEVY_FEEDBACK_TRANSCRIPT` and
    /// `BEVY_FEEDBACK_TESSERACT` are set like this.
    pub fn with_environment(
        protocol: Option<String>,
        transcript: Option<String>,
        tesseract: Option<String>,
    ) -> (r: AgentClientConfig)
        ensures
            r.protocol_file@ == (match protocol {
                Some(path) => path@,
                None => "target/agent-feedback/agent-feedback.json"@,
            }),
            r.timeout == (Span { nanos: 10_000_000_000 }),
            r.transcript_file == transcript,
            r.ocr.tesseract@ == (match tesseract {
                Some(path) => path@,
                None => "tesseract"@,
            }),
            r.ocr.language@ == "eng"@,
            r.ocr.timeout == (Span { nanos: 5_000_000_000 }),
    {
        AgentClientConfig {
            protocol_file: match protocol {
                Some(path) => path,
                None => "target/agent-feedback/agent-feedback.json".to_owned(),
            },
            timeout: Span::from_secs(10),
            transcript_file: transcript,
            ocr: OcrOptions::with_environment(tesseract),
        }
    }
}

/// The mode of a window, as a capture records it.
#[derive(Clone, Copy, Debug, PartialEq, Eq, Structural)]
pub enum CaptureWindowMode {
    /// In a frame of its own.
    Windowed,
    /// Over the whole screen, without a border.
    BorderlessFullscreen,
    /// Over the whole screen, exclusively.
    Fullscreen,
}

/// What kind of target was found.
#[derive(Clone, Copy, Debug, PartialEq, Eq, Structural)]
pub enum ResolvedTargetKind {
    /// A node of the user interface.
    Ui,
    /// An entity of the world.
    World,
}

/// A rectangle of pixels.
#[derive(Clone, Copy, Debug, PartialEq, Eq, Structural)]
pub struct Region {
    /// Left edge.
    pub x: u32,
    /// Top edge.
    pub y: u32,
    /// Width.
    pub width: u32,
    /// Height.
    pub height: u32,
}

/// What the running application allows.
#[derive(Clone, Copy, Debug, PartialEq, Eq, Structural)]
pub struct AgentCapabilities {
    /// The most frames of one request.
    pub max_wait_frames: u16,
    /// The most conditions on which one wait may give up.
    pub max_abort_predicates: usize,
    /// Whether virtual time stands still unless it is advanced.
    pub deterministic_time: bool,
    /// The most steps of one advance of time.
    pub max_time_advance_steps: u16,
    /// The longest advance of time.
    pub max_time_advance: Span,
}

impl AgentCapabilities {
    /// Nothing that is allowed is allowed zero times.
    pub open spec fn wf(self) -> bool {
        &&& self.max_wait_frames > 0
        &&& self.max_abort_predicates > 0
        &&& self.max_time_advance_steps > 0
        &&& 0 < self.max_time_advance.nanos <= crate::span::MAX_NANOS
    }
}

/// Why a client failed.
pub enum ClientError {
    /// A file, the socket or a process failed.
    Io(String),
    /// JSON could not be read or written.
    Json(String),
    /// The application could not be found or talked to, or the request was not sent.
    Protocol(String),
    /// The application answered with an error.
    Command {
        /// Which error.
        code: String,
        /// The error in words.
        message: String,
        /// The application at that time.
        context: Option<Json>,
    },
    /// Text recognition or its language is not there.
    OcrUnavailable(String),
    /// Text recognition failed.
    Ocr(String),
    /// An assertion does not hold.
    Assertion(String),
}

impl ClientError {
    /// What is said of the failure.
    pub open spec fn spec_text(self) -> Seq<char> {
        match self {
            ClientError::Io(message) => message@,
            ClientError::Json(message) => message@,
            ClientError::Protocol(message) => message@,
            ClientError::OcrUnavailable(message) => message@,
            ClientError::Ocr(message) => message@,
            ClientError::Assertion(message) => message@,
            ClientError::Command { code, message, context } => "command failed ["@ + code@ + "]: "@
                + message@ + (match context {
                Some(json) => "; context="@ + json::printed_json(json@),
                None => Seq::empty(),
            }),
        }
    }

    /// What is said of the failure.
    pub fn text(&self) -> (r: String)
        ensures
            r@ == self.spec_text(),
    {
        match self {
            ClientError::Io(message) => message.clone(),
            ClientError::Json(message) => message.clone(),
            ClientError::Protocol(message) => message.clone(),
            ClientError::OcrUnavailable(message) => message.clone(),
            ClientError::Ocr(message) => message.clone(),
            ClientError::Assertion(message) => message.clone(),
            ClientError::Command { code, message, context } => {
                let mut text = cat4("command failed [", code.as_str(), "]: ", message.as_str());
                match context {
                    Some(json) => {
                        text.append("; context=");
                        text.append(print_json(json).as_str());
                    },
                    None => {},
                }
                assert(text@ =~= self.spec_text());
                text
            },
        }
    }

    /// A wait for a condition came to nothing.
    pub open spec fn semantic_wait_failure(self) -> bool {
        self matches ClientError::Command { code, .. } && (code@ == "predicate_timeout"@ || code@
            == "predicate_aborted"@)
    }

    /// Tells whether a wait for a condition came to nothing.
    pub fn is_semantic_wait_failure(&self) -> (r: bool)
        ensures
            r == self.semantic_wait_failure(),
    {
        match self {
            ClientError::Command { code, .. } => same_text(code.as_str(), "predicate_timeout")
                || same_text(code.as_str(), "predicate_aborted"),
            _ => false,
        }
    }

    /// Adds the capture that shows the failure to the context of an error that the application
    /// answered. Anything else about the error stays.
    pub fn attach_failure_capture(&mut self, capture: Json)
        ensures
            match *old(self) {
                ClientError::Command { code, message, context } => *final(self) matches
                    ClientError::Command { code: c, message: m, context: after } && c == code && m
                    == message && after is Some && after->Some_0@ == with_capture(
                    match context {
                        Some(json) => Some(json@),
                        None => None,
                    },
                    capture@,
                ),
                _ => *final(self) == *old(self),
            },
    {
        match self {
            ClientError::Command { context, .. } => {
                let before: Json = match context.take() {
                    Some(json) => json,
                    None => ObjectBuilder::new().build(),
                };
                let after = match before {
                    Json::Object(mut entries) => {
                        let ghost start = entries@;
                        entries.push(("failure_capture".to_owned(), capture));
                        proof {
                            json::lemma_object_push(start, entries@.last());
                        }
                        Json::Object(entries)
                    },
                    other => other,
                };
                *context = Some(after);
            },
            _ => {},
        }
    }
}

/// The context with the capture that shows the failure. A context that is no object stays as it is.
pub open spec fn with_capture(context: Option<JsonValue>, capture: JsonValue) -> JsonValue {
    match context {
        None => JsonValue::Object(Map::empty().insert("failure_capture"@, capture)),
        Some(JsonValue::Object(m)) => JsonValue::Object(m.insert("failure_capture"@, capture)),
        Some(other) => other,
    }
}

/// The result is refused for this reason, without anything being sent.
pub open spec fn refused<T>(r: Result<T, ClientError>, reason: Seq<char>) -> bool {
    r matches Err(ClientError::Protocol(message)) && message@ == reason
}

/// What the discovery document of the application says.
pub struct ProtocolFile {
    /// The address of the socket.
    pub socket_addr: String,
    /// The process.
    pub pid: u32,
    /// The heartbeat.
    pub heartbeat_file: String,
    /// How old the heartbeat may be, in milliseconds.
    pub stale_after_ms: u64,
    /// The most frames of one request.
    pub max_wait_frames: u16,
    /// The most conditions on which one wait may give up.
    pub max_abort_predicates: usize,
    /// Whether virtual time stands still unless it is advanced.
    pub deterministic_time: bool,
    /// The most steps of one advance of time.
    pub max_time_advance_steps: u16,
    /// The longest advance of time in seconds.
    pub max_time_advance_seconds: JsonNumber,
}

/// The most frames of one request where a discovery document does not say.
pub fn default_max_wait_frames() -> (r: u16)
    ensures
        r == 300,
{
    300
}

/// The most abort conditions of one wait, where the discovery document does not say.
pub fn default_max_abort_predicates() -> (r: usize)
    ensures
        r == 16,
{
    16
}

/// Why a discovery document is not of this protocol.
pub open spec fn version_refusal(document: JsonValue, path: Seq<char>) -> Option<Seq<char>> {
    match json::text_in(json::value_at(document, "protocol"@)) {
        None => Some(
            "unknown protocol file "@ + path + "; missing protocol, expected "@
                + PROTOCOL_VERSION@,
        ),
        Some(version) => if version == PROTOCOL_VERSION@ {
            None
        } else {
            Some("unsupported protocol '"@ + version + "'; expected "@ + PROTOCOL_VERSION@)
        },
    }
}

/// Checks that a discovery document is of this protocol.
pub fn check_version(document: &Json, path: &str) -> (r: Result<(), ClientError>)
    ensures
        match version_refusal(document@, path@) {
            None => r is Ok,
            Some(reason) => refused(r, reason),
        },
{
    match text_value(member(document, "protocol")) {
        None => Err(
            ClientError::Protocol(
                cat4(
                    "unknown protocol file ",
                    path,
                    "; missing protocol, expected ",
                    PROTOCOL_VERSION,
                ),
            ),
        ),
        Some(version) => if same_text(version, PROTOCOL_VERSION) {
            Ok(())
        } else {
            Err(
                ClientError::Protocol(
                    cat4("unsupported protocol '", version, "'; expected ", PROTOCOL_VERSION),
                ),
            )
        },
    }
}

/// Reads the bytes of a discovery document and checks that it is of this protocol.
pub fn read_document(bytes: &[u8], path: &str) -> (r: Result<Json, ClientError>)
    ensures
        match json::parsed_json_bytes(bytes@) {
            Err(message) => r matches Err(ClientError::Json(m)) && m@ == message,
            Ok(value) => match version_refusal(value, path@) {
                None => r matches Ok(document) && document@ == value && json::canonical(document),
                Some(reason) => refused(r, reason),
            },
        },
{
    let document = match parse_json_bytes(bytes) {
        Ok(document) => document,
        Err(message) => return Err(ClientError::Json(message)),
    };
    match check_version(&document, path) {
        Ok(()) => Ok(document),
        Err(error) => Err(error),
    }
}

/// A process can be alive: it has a number, and the system lists it where it lists processes.
pub fn process_alive(pid: u32, listed: Option<bool>) -> (r: bool)
    ensures
        r == (pid != 0 && listed != Some(false)),
{
    if pid == 0 {
        return false;
    }
    match listed {
        Some(listed) => listed,
        None => true,
    }
}

/// What `str::parse::<u128>` says of a text that is no number.
pub uninterp spec fn number_error(text: Seq<char>) -> Seq<char>;

/// `str::parse::<u128>`: reads decimal digits with an optional plus sign, up to the greatest
/// `u128`, and says of anything else why it is no such number.
#[verifier::external_body]
fn parse_whole(text: &str) -> (r: Result<u128, String>)
    ensures
        match r {
            Ok(n) => text::parsed_number(text@, u128::MAX as nat) == Some(n as nat),
            Err(message) => text::parsed_number(text@, u128::MAX as nat) is None && message@
                == number_error(text@),
        },
{
    text.parse::<u128>().map_err(|error| error.to_string())
}

/// The age of a heartbeat.
pub open spec fn heartbeat_age(now_ms: u128, heartbeat_ms: nat) -> int {
    if now_ms >= heartbeat_ms {
        now_ms - heartbeat_ms
    } else {
        0
    }
}

/// Why an application seems to be gone.
pub open spec fn stale_reason(
    protocol: ProtocolFile,
    alive: bool,
    heartbeat: Result<String, String>,
    now_ms: u128,
) -> Option<Seq<char>> {
    if !alive {
        Some("protocol stale: process "@ + text::digits(protocol.pid as nat) + " is not alive"@)
    } else {
        match heartbeat {
            Err(error) => Some(
                "protocol stale: failed to read heartbeat "@ + protocol.heartbeat_file@ + ": "@
                    + error@,
            ),
            Ok(told) => match text::parsed_number(lines::trimmed(told@), u128::MAX as nat) {
                None => Some(
                    "protocol stale: heartbeat is invalid: "@ + number_error(lines::trimmed(told@)),
                ),
                Some(beat) => if heartbeat_age(now_ms, beat) > protocol.stale_after_ms {
                    Some(
                        "protocol stale: heartbeat is "@ + text::digits(
                            heartbeat_age(now_ms, beat) as nat,
                        ) + " ms old, stale after "@ + text::digits(
                            protocol.stale_after_ms as nat,
                        ) + " ms"@,
                    )
                } else {
                    None
                },
            },
        }
    }
}

/// Checks that the application still runs and its heartbeat is fresh.
pub fn read_protocol(
    protocol: &ProtocolFile,
    alive: bool,
    heartbeat: &Result<String, String>,
    now_ms: u128,
) -> (r: Result<(), ClientError>)
    ensures
        match stale_reason(*protocol, alive, *heartbeat, now_ms) {
            None => r is Ok,
            Some(reason) => refused(r, reason),
        },
{
    if !alive {
        return Err(
            ClientError::Protocol(
                cat3(
                    "protocol stale: process ",
                    decimal(protocol.pid as u128).as_str(),
                    " is not alive",
                ),
            ),
        );
    }
    let told = match heartbeat {
        Ok(told) => told,
        Err(error) => return Err(
            ClientError::Protocol(
                cat4(
                    "protocol stale: failed to read heartbeat ",
                    protocol.heartbeat_file.as_str(),
                    ": ",
                    error.as_str(),
                ),
            ),
        ),
    };
    let beat = match parse_whole(trim(told.as_str()).as_str()) {
        Ok(beat) => beat,
        Err(error) => return Err(
            ClientError::Protocol(
                cat2("protocol stale: heartbeat is invalid: ", error.as_str()),
            ),
        ),
    };
    let age: u128 = if now_ms >= beat {
        now_ms - beat
    } else {
        0
    };
    if age > protocol.stale_after_ms as u128 {
        return Err(
            ClientError::Protocol(
                cat5(
                    "protocol stale: heartbeat is ",
                    decimal(age).as_str(),
                    " ms old, stale after ",
                    decimal(protocol.stale_after_ms as u128).as_str(),
                    " ms",
                ),
            ),
        );
    }
    Ok(())
}

/// The failure to connect, where the connection was refused and otherwise.
pub fn socket_error(refused: bool, socket_addr: &str, error: &str) -> (r: ClientError)
    ensures
        refused ==> (r matches ClientError::Protocol(message) && message@ == "socket refused at "@
            + socket_addr@ + "; game probably exited"@),
        !refused ==> (r matches ClientError::Io(message) && message@ == "connect "@ + socket_addr@
            + ": "@ + error@),
{
    if refused {
        ClientError::Protocol(cat3("socket refused at ", socket_addr, "; game probably exited"))
    } else {
        ClientError::Io(cat4("connect ", socket_addr, ": ", error))
    }
}

/// Why the capabilities in a discovery document are refused.
pub open spec fn capability_refusal(p: ProtocolFile) -> Option<Seq<char>> {
    if p.max_wait_frames == 0 {
        Some("protocol advertises zero max_wait_frames"@)
    } else if p.max_abort_predicates == 0 {
        Some("protocol advertises zero max_abort_predicates"@)
    } else if p.max_time_advance_steps == 0 {
        Some("protocol advertises zero max_time_advance_steps"@)
    } else {
        match json::nanos_of_seconds(p.max_time_advance_seconds@) {
            None => Some("protocol max_time_advance_seconds must be finite and positive"@),
            Some(nanos) => if nanos == 0 {
                Some("protocol advertises zero max_time_advance_seconds"@)
            } else {
                None
            },
        }
    }
}

/// A client before or between requests.
pub struct AgentClient {
    /// What the next request is known by.
    pub next_id: u64,
    /// How long to wait for the socket.
    pub timeout: Span,
    /// What the application allows.
    pub capabilities: AgentCapabilities,
    /// The file of the latest capture.
    pub last_capture: Option<String>,
    /// The latest observation of a condition.
    pub last_observation: Option<ObservedPredicate>,
}

/// The value as an unsigned number.
pub open spec fn unsigned(n: u64) -> JsonValue {
    JsonValue::Number(NumberValue::Unsigned(n))
}

fn json_unsigned(n: u64) -> (r: Json)
    ensures
        r@ == unsigned(n),
{
    Json::Number(JsonNumber::Unsigned(n))
}

/// A request that has a name and nothing else.
pub open spec fn bare_request(command: Seq<char>) -> Map<Seq<char>, JsonValue> {
    Map::empty().insert("command"@, JsonValue::Text(command))
}

fn request_for(command: &str) -> (r: ObjectBuilder)
    ensures
        r@ == bare_request(command@),
{
    ObjectBuilder::new().with("command", json_text(command))
}

/// A request with its identity: the one that it has, or the given one.
pub open spec fn identified(request: Map<Seq<char>, JsonValue>, id: u64) -> Map<
    Seq<char>,
    JsonValue,
> {
    if request.dom().contains("id"@) {
        request
    } else {
        request.insert("id"@, unsigned(id))
    }
}

/// An answer says that the request was carried out.
pub open spec fn answered_ok(response: JsonValue) -> bool {
    json::value_at(response, "ok"@) == Some(JsonValue::Bool(true))
}

/// What an answer says of a failure, or a word for nothing.
pub open spec fn error_text(response: JsonValue, name: Seq<char>, otherwise: Seq<char>) -> Seq<
    char,
> {
    match json::text_in(json::value_at2(response, "error"@, name)) {
        Some(s) => s,
        None => otherwise,
    }
}

/// A message with the file of the latest capture.
pub open spec fn with_last(message: Seq<char>, last_capture: Option<String>) -> Seq<char> {
    match last_capture {
        Some(path) => message + "; last captured frame: "@ + path@,
        None => message,
    }
}

/// The capture that an answer tells of: its own, or else the latest.
pub open spec fn capture_told(response: JsonValue) -> Option<JsonValue> {
    match json::value_at2(response, "result"@, "capture"@) {
        Some(capture) => Some(capture),
        None => match json::value_at2(response, "result"@, "latest_capture"@) {
            Some(capture) => Some(capture),
            None => match json::value_at2(response, "error"@, "context"@) {
                Some(context) => json::value_at(context, "latest_capture"@),
                None => None,
            },
        },
    }
}

/// Finds the capture that an answer tells of.
pub fn capture_value<'a>(response: &'a Json) -> (r: Option<&'a Json>)
    ensures
        capture_told(response@) == (match r {
            Some(json) => Some(json@),
            None => None,
        }),
{
    match member2(response, "result", "capture") {
        Some(capture) => Some(capture),
        None => match member2(response, "result", "latest_capture") {
            Some(capture) => Some(capture),
            None => match member2(response, "error", "context") {
                Some(context) => member(context, "latest_capture"),
                None => None,
            },
        },
    }
}

/// The observation that an answer tells of: its details, or else that of its error.
pub open spec fn observation_told(response: JsonValue) -> Option<JsonValue> {
    match json::value_at2(response, "result"@, "details"@) {
        Some(details) => Some(details),
        None => match json::value_at2(response, "error"@, "context"@) {
            Some(context) => json::value_at(context, "observed_predicate"@),
            None => None,
        },
    }
}

/// Finds the observation that an answer tells of.
pub fn observation_value<'a>(response: &'a Json) -> (r: Option<&'a Json>)
    ensures
        observation_told(response@) == (match r {
            Some(json) => Some(json@),
            None => None,
        }),
{
    match member2(response, "result", "details") {
        Some(details) => Some(details),
        None => match member2(response, "error", "context") {
            Some(context) => member(context, "observed_predicate"),
            None => None,
        },
    }
}

/// A record of a transcript: a request and its answer.
pub fn transcript_record(ts_ms: u64, duration_ms: u64, request: &Json, response: &Json) -> (r: Json)
    ensures
        r@ == JsonValue::Object(
            Map::empty().insert("ts_ms"@, unsigned(ts_ms)).insert(
                "duration_ms"@,
                unsigned(duration_ms),
            ).insert("request"@, request@).insert("response"@, response@),
        ),
{
    ObjectBuilder::new().with("ts_ms", json_unsigned(ts_ms)).with(
        "duration_ms",
        json_unsigned(duration_ms),
    ).with("request", copy_json(request)).with("response", copy_json(response)).build()
}

/// The request in a line of a transcript, or the line itself. An empty line has none.
pub open spec fn replayed_of(line: Seq<char>) -> Option<Result<JsonValue, Seq<char>>> {
    if lines::trimmed(line).len() == 0 {
        None
    } else {
        match json::parsed_json(line) {
            Err(message) => Some(Err(message)),
            Ok(value) => match json::value_at(value, "request"@) {
                Some(request) => Some(Ok(request)),
                None => Some(Ok(value)),
            },
        }
    }
}

/// Reads a line that is to be replayed: a request, or a record of a transcript with one.
pub fn replay_line(line: &str) -> (r: Result<Option<Json>, ClientError>)
    ensures
        match replayed_of(line@) {
            None => r matches Ok(None),
            Some(Ok(request)) => r matches Ok(Some(json)) && json@ == request,
            Some(Err(message)) => r matches Err(ClientError::Json(m)) && m@ == message,
        },
{
    if trim(line).as_str().is_empty() {
        return Ok(None);
    }
    let value = match parse_json(line) {
        Ok(value) => value,
        Err(message) => return Err(ClientError::Json(message)),
    };
    let request: Option<Json> = match member(&value, "request") {
        Some(request) => Some(copy_json(request)),
        None => None,
    };
    match request {
        Some(request) => Ok(Some(request)),
        None => Ok(Some(value)),
    }
}

/// What a number of seconds is as a length of time above zero, or why it is none.
pub open spec fn positive_time(name: Seq<char>, seconds: NumberValue) -> Result<Span, Seq<char>> {
    match json::nanos_of_seconds(seconds) {
        None => Err(name + " must be finite and greater than zero"@),
        Some(nanos) => if nanos == 0 {
            Err(name + " must be at least one nanosecond"@)
        } else {
            Ok(Span { nanos })
        },
    }
}

/// Reads a number of seconds as a length of time above zero.
pub fn positive_duration(name: &str, seconds: &JsonNumber) -> (r: Result<Span, ClientError>)
    ensures
        match positive_time(name@, seconds@) {
            Ok(span) => r == Ok::<Span, ClientError>(span) && span.wf() && span.nanos > 0,
            Err(reason) => refused(r, reason),
        },
{
    match seconds_to_nanos(seconds) {
        None => Err(ClientError::Protocol(cat2(name, " must be finite and greater than zero"))),
        Some(nanos) => if nanos == 0 {
            Err(ClientError::Protocol(cat2(name, " must be at least one nanosecond")))
        } else {
            Ok(Span { nanos })
        },
    }
}

/// A length of time that a number of seconds can say exactly.
pub open spec fn exact_on_wire(span: Span) -> bool {
    json::nanos_of_seconds(json::span_number(span)) == Some(span.nanos)
}

/// A length of time as a number of seconds that says it exactly.
pub fn exact_wire_seconds(name: &str, span: Span) -> (r: Result<Json, ClientError>)
    requires
        span.wf(),
    ensures
        if exact_on_wire(span) {
            r matches Ok(json) && json@ == JsonValue::Number(json::span_number(span))
        } else {
            refused(
                r,
                name@ + " cannot be represented as exact integer nanoseconds on the f64 wire"@,
            )
        },
{
    let seconds = span_json(span);
    let exact = match &seconds {
        Json::Number(number) => match seconds_to_nanos(number) {
            Some(nanos) => nanos == span.nanos,
            None => false,
        },
        _ => false,
    };
    if exact {
        Ok(seconds)
    } else {
        Err(
            ClientError::Protocol(
                cat2(
                    name,
                    " cannot be represented as exact integer nanoseconds on the f64 wire",
                ),
            ),
        )
    }
}

/// A target that is found by one field, as a JSON value.
pub open spec fn selected_by(field: Seq<char>, value: Seq<char>) -> JsonValue {
    JsonValue::Object(Map::empty().insert(field, JsonValue::Text(value)))
}

/// A target as a JSON value.
pub open spec fn selector_value(target: TargetSelector) -> JsonValue {
    match target {
        TargetSelector::Name(name) => selected_by("name"@, name@),
        TargetSelector::AccessibilityLabel(label) => selected_by("accessibility_label"@, label@),
        TargetSelector::Marker(marker) => selected_by("marker"@, marker@),
    }
}

fn selector_json(target: &TargetSelector) -> (r: Json)
    ensures
        r@ == selector_value(*target),
{
    match target {
        TargetSelector::Name(name) => ObjectBuilder::new().with(
            "name",
            json_text(name.as_str()),
        ).build(),
        TargetSelector::AccessibilityLabel(label) => ObjectBuilder::new().with(
            "accessibility_label",
            json_text(label.as_str()),
        ).build(),
        TargetSelector::Marker(marker) => ObjectBuilder::new().with(
            "marker",
            json_text(marker.as_str()),
        ).build(),
    }
}

/// The name of a kind of target.
pub open spec fn kind_name(kind: TargetKind) -> Seq<char> {
    match kind {
        TargetKind::Any => "any"@,
        TargetKind::Ui => "ui"@,
        TargetKind::World => "world"@,
    }
}

fn kind_json(kind: TargetKind) -> (r: Json)
    ensures
        r@ == JsonValue::Text(kind_name(kind)),
{
    match kind {
        TargetKind::Any => json_text("any"),
        TargetKind::Ui => json_text("ui"),
        TargetKind::World => json_text("world"),
    }
}

/// The name of a comparison.
pub open spec fn operator_name(operator: ComparisonOperator) -> Seq<char> {
    match operator {
        ComparisonOperator::Eq => "eq"@,
        ComparisonOperator::Ne => "ne"@,
        ComparisonOperator::Lt => "lt"@,
        ComparisonOperator::Lte => "lte"@,
        ComparisonOperator::Gt => "gt"@,
        ComparisonOperator::Gte => "gte"@,
    }
}

fn operator_json(operator: ComparisonOperator) -> (r: Json)
    ensures
        r@ == JsonValue::Text(operator_name(operator)),
{
    match operator {
        ComparisonOperator::Eq => json_text("eq"),
        ComparisonOperator::Ne => json_text("ne"),
        ComparisonOperator::Lt => json_text("lt"),
        ComparisonOperator::Lte => json_text("lte"),
        ComparisonOperator::Gt => json_text("gt"),
        ComparisonOperator::Gte => json_text("gte"),
    }
}

/// An optional text as a JSON value; nothing is null.
pub open spec fn text_or_null(t: Option<&str>) -> JsonValue {
    match t {
        Some(s) => JsonValue::Text(s@),
        None => JsonValue::Null,
    }
}

fn opt_text_json(t: Option<&str>) -> (r: Json)
    ensures
        r@ == text_or_null(t),
{
    match t {
        Some(s) => json_text(s),
        None => Json::Null,
    }
}

/// An optional count as a JSON value; nothing is null.
pub open spec fn count_or_null(n: Option<u32>) -> JsonValue {
    match n {
        Some(n) => unsigned(n as u64),
        None => JsonValue::Null,
    }
}

fn opt_count_json(n: Option<u32>) -> (r: Json)
    ensures
        r@ == count_or_null(n),
{
    match n {
        Some(n) => json_unsigned(n as u64),
        None => Json::Null,
    }
}

/// The condition that a state has a value.
pub fn state_equals(state: &str, value: Json) -> (r: Json)
    ensures
        r@ == JsonValue::Object(
            Map::empty().insert("type"@, JsonValue::Text("state_equals"@)).insert(
                "state"@,
                JsonValue::Text(state@),
            ).insert("value"@, value@),
        ),
{
    ObjectBuilder::new().with("type", json_text("state_equals")).with(
        "state",
        json_text(state),
    ).with("value", value).build()
}

/// The condition that a field of a resource compares with a value.
pub fn resource_field(resource: &str, field: &str, operator: ComparisonOperator, value: Json) -> (r:
    Json)
    ensures
        r@ == JsonValue::Object(
            Map::empty().insert("type"@, JsonValue::Text("resource_field"@)).insert(
                "resource"@,
                JsonValue::Text(resource@),
            ).insert("field"@, JsonValue::Text(field@)).insert(
                "operator"@,
                JsonValue::Text(operator_name(operator)),
            ).insert("value"@, value@),
        ),
{
    ObjectBuilder::new().with("type", json_text("resource_field")).with(
        "resource",
        json_text(resource),
    ).with("field", json_text(field)).with("operator", operator_json(operator)).with(
        "value",
        value,
    ).build()
}

/// The condition that a marker counts between two bounds.
pub fn marker_count(marker: &str, min: Option<u32>, max: Option<u32>) -> (r: Json)
    ensures
        r@ == JsonValue::Object(
            Map::empty().insert("type"@, JsonValue::Text("marker_count"@)).insert(
                "marker"@,
                JsonValue::Text(marker@),
            ).insert("min"@, count_or_null(min)).insert("max"@, count_or_null(max)),
        ),
{
    ObjectBuilder::new().with("type", json_text("marker_count")).with(
        "marker",
        json_text(marker),
    ).with("min", opt_count_json(min)).with("max", opt_count_json(max)).build()
}

/// The condition that a target exists, or that it does not.
pub fn target_condition(
    exists: bool,
    target: &TargetSelector,
    kind: TargetKind,
    camera: Option<&str>,
) -> (r: Json)
    ensures
        r@ == JsonValue::Object(
            Map::empty().insert(
                "type"@,
                JsonValue::Text(
                    if exists {
                        "target_exists"@
                    } else {
                        "target_absent"@
                    },
                ),
            ).insert("target"@, selector_value(*target)).insert(
                "kind"@,
                JsonValue::Text(kind_name(kind)),
            ).insert("camera"@, text_or_null(camera)),
        ),
{
    let tag = if exists {
        "target_exists"
    } else {
        "target_absent"
    };
    ObjectBuilder::new().with("type", json_text(tag)).with("target", selector_json(target)).with(
        "kind",
        kind_json(kind),
    ).with("camera", opt_text_json(camera)).build()
}

/// The request to move the cursor.
pub open spec fn cursor_request(x: NumberValue, y: NumberValue) -> Map<Seq<char>, JsonValue> {
    bare_request("cursor_move"@).insert("x"@, JsonValue::Number(x)).insert("y"@, JsonValue::Number(y))
}

/// The request to press a mouse button.
pub open spec fn mouse_down_request(button: Seq<char>) -> Map<Seq<char>, JsonValue> {
    bare_request("mouse_down"@).insert("button"@, JsonValue::Text(button))
}

/// The request to release a mouse button.
pub open spec fn mouse_up_request(button: Seq<char>) -> Map<Seq<char>, JsonValue> {
    bare_request("mouse_up"@).insert("button"@, JsonValue::Text(button))
}

/// The request to scroll.
pub open spec fn scroll_request(lines: NumberValue) -> Map<Seq<char>, JsonValue> {
    bare_request("scroll"@).insert("lines"@, JsonValue::Number(lines))
}

/// The request to click.
pub open spec fn click_request(x: NumberValue, y: NumberValue, button: Seq<char>) -> Map<Seq<char>, JsonValue> {
    bare_request("click"@).insert("x"@, JsonValue::Number(x)).insert("y"@, JsonValue::Number(y)).insert("button"@, JsonValue::Text(button))
}

/// The request to hold a key.
pub open spec fn key_hold_request(key: Seq<char>, frames: u16) -> Map<Seq<char>, JsonValue> {
    bare_request("key_hold"@).insert("key"@, JsonValue::Text(key)).insert("frames"@, unsigned(frames as u64))
}

/// The request to wait for virtual time.
pub open spec fn wait_seconds_request(seconds: NumberValue, max_frames: u16) -> Map<Seq<char>, JsonValue> {
    bare_request("wait_seconds"@).insert("seconds"@, JsonValue::Number(seconds)).insert("max_frames"@, unsigned(max_frames as u64))
}

/// The request to wait for frames.
pub open spec fn wait_request(frames: u64) -> Map<Seq<char>, JsonValue> {
    bare_request("wait"@).insert("frames"@, unsigned(frames))
}

/// The request to advance time step by step.
pub open spec fn step_request(seconds: NumberValue, step_seconds: NumberValue) -> Map<Seq<char>, JsonValue> {
    bare_request("advance_time"@).insert("seconds"@, JsonValue::Number(seconds)).insert("step_seconds"@, JsonValue::Number(step_seconds))
}

/// The request for a capture with a label.
pub open spec fn label_request(label: Seq<char>) -> Map<Seq<char>, JsonValue> {
    bare_request("capture"@).insert("label"@, JsonValue::Text(label))
}

/// The request for a capture with a label after some frames.
pub open spec fn late_label_request(frames: u16, label: Seq<char>) -> Map<Seq<char>, JsonValue> {
    bare_request("capture_after_frames"@).insert("frames"@, unsigned(frames as u64)).insert("label"@, JsonValue::Text(label))
}

/// The request to find a target.
pub open spec fn target_request(target: TargetSelector, kind: TargetKind, camera: Option<&str>) -> Map<Seq<char>, JsonValue> {
    bare_request("target_info"@).insert("target"@, selector_value(target)).insert("kind"@, JsonValue::Text(kind_name(kind))).insert("camera"@, text_or_null(camera))
}

/// The question about resources.
pub open spec fn resource_request(resource: Option<&str>, field: Option<&str>) -> Map<Seq<char>, JsonValue> {
    bare_request("resource_info"@).insert("resource"@, text_or_null(resource)).insert("field"@, text_or_null(field))
}

/// The request to press a key.
pub open spec fn key_down_request(key: Seq<char>) -> Map<Seq<char>, JsonValue> {
    bare_request("key_down"@).insert("key"@, JsonValue::Text(key))
}

/// The request to release a key.
pub open spec fn key_up_request(key: Seq<char>) -> Map<Seq<char>, JsonValue> {
    bare_request("key_up"@).insert("key"@, JsonValue::Text(key))
}

/// The request to tap a key.
pub open spec fn key_tap_request(key: Seq<char>) -> Map<Seq<char>, JsonValue> {
    bare_request("key_tap"@).insert("key"@, JsonValue::Text(key))
}

/// The request for the window.
pub open spec fn window_info_request() -> Map<Seq<char>, JsonValue> {
    bare_request("window_info"@)
}

/// The request to release what is held.
pub open spec fn release_all_inputs_request() -> Map<Seq<char>, JsonValue> {
    bare_request("release_all_inputs"@)
}

/// The request to leave.
pub open spec fn shutdown_request() -> Map<Seq<char>, JsonValue> {
    bare_request("shutdown"@)
}

/// The request for a capture.
pub open spec fn capture_request() -> Map<Seq<char>, JsonValue> {
    bare_request("capture"@)
}

/// The request for a capture after some frames.
pub open spec fn late_request(frames: u16) -> Map<Seq<char>, JsonValue> {
    bare_request("capture_after_frames"@).insert("frames"@, unsigned(frames as u64))
}

/// The request to advance time at once.
pub open spec fn advance_request(seconds: NumberValue) -> Map<Seq<char>, JsonValue> {
    bare_request("advance_time"@).insert("seconds"@, JsonValue::Number(seconds))
}

/// The request to drag with a button.
pub open spec fn drag_request(
    button: Seq<char>,
    from: (NumberValue, NumberValue),
    to: (NumberValue, NumberValue),
    steps: u16,
    frames: u16,
) -> Map<Seq<char>, JsonValue> {
    bare_request("drag"@).insert("button"@, JsonValue::Text(button)).insert(
        "from"@,
        JsonValue::Array(seq![JsonValue::Number(from.0), JsonValue::Number(from.1)]),
    ).insert(
        "to"@,
        JsonValue::Array(seq![JsonValue::Number(to.0), JsonValue::Number(to.1)]),
    ).insert("steps"@, unsigned(steps as u64)).insert("frames"@, unsigned(frames as u64))
}

/// A wait that is longer than the application allows.
pub open spec fn limit_refusal(name: Seq<char>, requested: u64, supported: u16) -> Seq<char> {
    name + "="@ + text::digits(requested as nat) + " exceeds server limit "@ + text::digits(
        supported as nat,
    )
        + "; configure AgentFeedbackConfig.max_wait_frames or issue explicit bounded requests"@
}

/// The list of conditions as a JSON value.
pub open spec fn value_list(list: Seq<Json>) -> JsonValue {
    JsonValue::Array(Seq::new(list.len(), |i: int| list[i]@))
}

/// The request of a condition.
pub open spec fn predicate_request_of(
    command: Seq<char>,
    predicate: JsonValue,
    abort: Seq<Json>,
    max_frames: Option<u16>,
) -> JsonValue {
    let first = bare_request(command).insert("predicate"@, predicate);
    let second = if abort.len() > 0 {
        first.insert("abort_predicates"@, value_list(abort))
    } else {
        first
    };
    JsonValue::Object(
        match max_frames {
            Some(n) => second.insert("max_frames"@, unsigned(n as u64)),
            None => second,
        },
    )
}

fn predicate_request(
    command: &str,
    predicate: Json,
    abort_predicates: Vec<Json>,
    max_frames: Option<u16>,
) -> (r: Json)
    ensures
        r@ == predicate_request_of(command@, predicate@, abort_predicates@, max_frames),
{
    let mut request = request_for(command).with("predicate", predicate);
    if abort_predicates.len() > 0 {
        let ghost list = abort_predicates@;
        let array = Json::Array(abort_predicates);
        assert(array@ =~= value_list(list)) by {
            assert(array@ matches JsonValue::Array(items) && items =~= Seq::new(
                list.len(),
                |i: int| list[i]@,
            ));
        }
        request = request.with("abort_predicates", array);
    }
    match max_frames {
        Some(n) => request = request.with("max_frames", json_unsigned(n as u64)),
        None => {},
    }
    request.build()
}

/// The result `r` is what a client makes of an answer.
pub open spec fn answer_read(client: AgentClient, response: Json, r: Result<Json, ClientError>) -> bool {
    if answered_ok(response@) {
        r matches Ok(json) && json == response
    } else {
        &&& r matches Err(ClientError::Command { code, message, context })
        &&& code@ == error_text(response@, "code"@, "command_failed"@)
        &&& message@ == (if code@ == "timeout"@ {
            with_last(
                error_text(response@, "message"@, "game returned an error"@),
                client.last_capture,
            )
        } else {
            error_text(response@, "message"@, "game returned an error"@)
        })
        &&& json::value_at2(response@, "error"@, "context"@) == (match context {
            Some(json) => Some(json@),
            None => None,
        })
    }
}

/// The result `r` is the request to wait for frames, or says why none is made.
pub open spec fn wait_frames_agrees(client: AgentClient, frames: u64, r: Result<Json, ClientError>) -> bool {
    if frames == 0 {
        refused(r, "frames must be greater than zero"@)
    } else if frames > client.capabilities.max_wait_frames {
        refused(r, limit_refusal("frames"@, frames, client.capabilities.max_wait_frames))
    } else {
        r matches Ok(json) && json@ == JsonValue::Object(
            wait_request(frames),
        )
    }
}

/// The result `r` is the request to wait for virtual time, or says why none is made.
pub open spec fn wait_seconds_agrees(
    client: AgentClient,
    seconds: NumberValue,
    max_frames: Option<u16>,
    r: Result<Json, ClientError>,
) -> bool {
    let frames = match max_frames {
        Some(n) => n,
        None => client.capabilities.max_wait_frames,
    };
    match positive_time("seconds"@, seconds) {
        Err(reason) => refused(r, reason),
        Ok(span) => if frames == 0 || frames > client.capabilities.max_wait_frames {
            refused(
                r,
                "max_frames must be in 1..="@ + text::digits(
                    client.capabilities.max_wait_frames as nat,
                ),
            )
        } else {
            r matches Ok(json) && json@ == JsonValue::Object(
                wait_seconds_request(json::span_number(span), frames),
            )
        },
    }
}

/// The result `r` is the request for a capture after some frames, or says why none is made.
pub open spec fn late_capture_agrees(
    client: AgentClient,
    frames: u16,
    label: Option<&str>,
    r: Result<Json, ClientError>,
) -> bool {
    if frames == 0 || frames > client.capabilities.max_wait_frames {
        refused(
            r,
            "capture frames must be in 1..="@ + text::digits(
                client.capabilities.max_wait_frames as nat,
            ),
        )
    } else {
        r matches Ok(json) && json@ == JsonValue::Object(
            match label {
                Some(label) => late_label_request(frames, label@),
                None => late_request(frames),
            },
        )
    }
}

/// The result `r` is the request to click a target, or says why none is made.
pub open spec fn click_target_agrees(
    client: AgentClient,
    target: TargetSelector,
    kind: TargetKind,
    camera: Option<&str>,
    button: Seq<char>,
    frames: u16,
    r: Result<Json, ClientError>,
) -> bool {
    if frames == 0 || frames > client.capabilities.max_wait_frames {
        refused(
            r,
            "frames must be in 1..="@ + text::digits(
                client.capabilities.max_wait_frames as nat,
            ),
        )
    } else {
        r matches Ok(json) && json@ == click_target_of(
            selector_value(target),
            kind,
            camera,
            button,
            frames,
        )
    }
}

/// The result `r` is the request to wait for a condition, or says why none is made.
pub open spec fn wait_for_agrees(
    client: AgentClient,
    predicate: JsonValue,
    abort_predicates: Seq<Json>,
    max_frames: u16,
    r: Result<Json, ClientError>,
) -> bool {
    match client.semantic_refusal(max_frames, abort_predicates.len() as usize) {
        Some(reason) => refused(r, reason),
        None => r matches Ok(json) && json@ == predicate_request_of(
            "wait_for"@,
            predicate,
            abort_predicates,
            Some(max_frames),
        ),
    }
}

/// The result `r` is how time is advanced, or says why it is not.
pub open spec fn advance_agrees(
    client: AgentClient,
    seconds: NumberValue,
    step_seconds: Option<&JsonNumber>,
    r: Result<Advance, ClientError>,
) -> bool {
    match positive_time("seconds"@, seconds) {
        Err(reason) => refused(r, reason),
        Ok(span) => match step_seconds {
            None => if span.nanos > client.capabilities.max_time_advance.nanos {
                refused(
                    r,
                    "advance_time requires an explicit step_seconds when protocol caps require chunking"@,
                )
            } else {
                r matches Ok(Advance::Once(json)) && json@ == JsonValue::Object(
                    advance_request(json::span_number(span)),
                )
            },
            Some(step) => match positive_time("step_seconds"@, step@) {
                Err(reason) => refused(r, reason),
                Ok(step) => r matches Ok(Advance::Chunked(plan)) && plan == (AdvancePlan {
                    remaining: span.nanos,
                    step: step.nanos,
                    cap: client.capabilities.max_time_advance.nanos,
                    max_steps: client.capabilities.max_time_advance_steps,
                    left: crate::advance::MAX_CLIENT_CHUNKS,
                }) && plan.step > 0 && plan.remaining > 0,
            },
        },
    }
}

/// The result `r` is a client for what a discovery document says, or says why there is none.
pub open spec fn client_made(
    config: AgentClientConfig,
    protocol: ProtocolFile,
    r: Result<AgentClient, ClientError>,
) -> bool {
    match capability_refusal(protocol) {
        Some(reason) => refused(r, reason),
        None => r matches Ok(client) && client.next_id == 1 && client.timeout
            == config.timeout && client.last_capture is None && client.last_observation is None
            && client.capabilities == (
        AgentCapabilities {
            max_wait_frames: protocol.max_wait_frames,
            max_abort_predicates: protocol.max_abort_predicates,
            deterministic_time: protocol.deterministic_time,
            max_time_advance_steps: protocol.max_time_advance_steps,
            max_time_advance: Span {
                nanos: json::nanos_of_seconds(
                    protocol.max_time_advance_seconds@,
                )->Some_0,
            },
        }) && client.capabilities.wf(),
    }
}

/// What making a request ready does.
pub open spec fn request_made(
    a: AgentClient,
    b: AgentClient,
    request: JsonValue,
    r: Result<Json, ClientError>,
) -> bool {
    match request {
        JsonValue::Object(m) => {
            &&& r matches Ok(json) && json@ == JsonValue::Object(
                identified(m, a.next_id),
            )
            &&& b.next_id == (if a.next_id < u64::MAX {
                (a.next_id + 1) as u64
            } else {
                u64::MAX
            })
            &&& b == (AgentClient {
                next_id: b.next_id,
                ..a
            })
        },
        _ => refused(r, "request must be a JSON object"@) && b == a,
    }
}

impl AgentClient {
    /// A client for what a discovery document says, unless it allows nothing.
    pub fn with_config(config: &AgentClientConfig, protocol: &ProtocolFile) -> (r: Result<
        AgentClient,
        ClientError,
    >)
        ensures
            client_made(*config, *protocol, r),
    {
        if protocol.max_wait_frames == 0 {
            return Err(
                ClientError::Protocol("protocol advertises zero max_wait_frames".to_owned()),
            );
        }
        if protocol.max_abort_predicates == 0 {
            return Err(
                ClientError::Protocol("protocol advertises zero max_abort_predicates".to_owned()),
            );
        }
        if protocol.max_time_advance_steps == 0 {
            return Err(
                ClientError::Protocol("protocol advertises zero max_time_advance_steps".to_owned()),
            );
        }
        let nanos = match seconds_to_nanos(&protocol.max_time_advance_seconds) {
            Some(nanos) => nanos,
            None => return Err(
                ClientError::Protocol(
                    "protocol max_time_advance_seconds must be finite and positive".to_owned(),
                ),
            ),
        };
        if nanos == 0 {
            return Err(
                ClientError::Protocol(
                    "protocol advertises zero max_time_advance_seconds".to_owned(),
                ),
            );
        }
        Ok(
            AgentClient {
                next_id: 1,
                timeout: config.timeout,
                capabilities: AgentCapabilities {
                    max_wait_frames: protocol.max_wait_frames,
                    max_abort_predicates: protocol.max_abort_predicates,
                    deterministic_time: protocol.deterministic_time,
                    max_time_advance_steps: protocol.max_time_advance_steps,
                    max_time_advance: Span { nanos },
                },
                last_capture: None,
                last_observation: None,
            },
        )
    }

    /// What the application allows.
    pub fn capabilities(&self) -> (r: AgentCapabilities)
        ensures
            r == self.capabilities,
    {
        self.capabilities
    }

    /// Whether virtual time stands still unless it is advanced.
    pub fn deterministic_time_enabled(&self) -> (r: bool)
        ensures
            r == self.capabilities.deterministic_time,
    {
        self.capabilities.deterministic_time
    }

    /// The most frames of one request.
    pub fn max_wait_frames(&self) -> (r: u16)
        ensures
            r == self.capabilities.max_wait_frames,
    {
        self.capabilities.max_wait_frames
    }

    /// The most steps of one advance of time.
    pub fn max_time_advance_steps(&self) -> (r: u16)
        ensures
            r == self.capabilities.max_time_advance_steps,
    {
        self.capabilities.max_time_advance_steps
    }

    /// The longest advance of time.
    pub fn max_time_advance(&self) -> (r: Span)
        ensures
            r == self.capabilities.max_time_advance,
    {
        self.capabilities.max_time_advance
    }

    /// Makes a request ready to be sent. A request without an identity gets the next one.
    pub fn request(&mut self, request: Json) -> (r: Result<Json, ClientError>)
        ensures
            request_made(*old(self), *final(self), request@, r),
    {
        match request {
            Json::Object(entries) => {
                let ghost start = entries@;
                let whole = Json::Object(entries);
                let has_id = member(&whole, "id").is_some();
                let id = self.next_id;
                self.next_id = self.next_id.saturating_add(1);
                if has_id {
                    return Ok(whole);
                }
                match whole {
                    Json::Object(mut entries) => {
                        entries.push(("id".to_owned(), json_unsigned(id)));
                        proof {
                            json::lemma_object_push(start, entries@.last());
                        }
                        Ok(Json::Object(entries))
                    },
                    other => Ok(other),
                }
            },
            _ => Err(ClientError::Protocol("request must be a JSON object".to_owned())),
        }
    }

    /// Makes a request ready to be sent, together with the line that holds it. The line is read as
    /// the request, where that holds no double and is not nested too deep.
    pub fn request_line(&mut self, request: Json) -> (r: Result<(Json, String), ClientError>)
        ensures
            match request@ {
                JsonValue::Object(m) => {
                    &&& r matches Ok((json, line)) && json@ == JsonValue::Object(
                        identified(m, old(self).next_id),
                    ) && line@ == json::printed_json(json@) && json::read_back(line@, json@)
                    &&& *final(self) == (AgentClient {
                        next_id: if old(self).next_id < u64::MAX {
                            (old(self).next_id + 1) as u64
                        } else {
                            u64::MAX
                        },
                        ..*old(self)
                    })
                },
                _ => refused(r, "request must be a JSON object"@) && *final(self) == *old(self),
            },
    {
        match self.request(request) {
            Ok(json) => {
                let line = print_json(&json);
                Ok((json, line))
            },
            Err(error) => Err(error),
        }
    }

    /// What is said together with the file of the latest capture.
    pub fn with_last_capture(&self, message: String) -> (r: String)
        ensures
            r@ == with_last(message@, self.last_capture),
    {
        match &self.last_capture {
            Some(path) => cat3(message.as_str(), "; last captured frame: ", path.as_str()),
            None => message,
        }
    }

    /// The failure to read an answer, in time or at all.
    pub fn read_error(&self, timed_out: bool, error: &str) -> (r: ClientError)
        ensures
            r matches ClientError::Io(message) && message@ == (if timed_out {
                with_last(
                    "agent request timed out after "@ + text::digits(
                        (self.timeout.nanos / NANOS_PER_MILLI) as nat,
                    ) + " ms"@,
                    self.last_capture,
                )
            } else {
                error@
            }),
    {
        if timed_out {
            ClientError::Io(
                self.with_last_capture(
                    cat3(
                        "agent request timed out after ",
                        decimal(self.timeout.as_millis()).as_str(),
                        " ms",
                    ),
                ),
            )
        } else {
            ClientError::Io(error.to_owned())
        }
    }

    /// Takes note of the file of a capture and of the observation that an answer told of.
    pub fn record_response_context(
        &mut self,
        capture_path: Option<String>,
        observation: Option<ObservedPredicate>,
    )
        ensures
            *final(self) == (AgentClient {
                last_capture: if capture_path is Some {
                    capture_path
                } else {
                    old(self).last_capture
                },
                last_observation: if observation is Some {
                    observation
                } else {
                    old(self).last_observation
                },
                ..*old(self)
            }),
    {
        match capture_path {
            Some(path) => self.last_capture = Some(path),
            None => {},
        }
        match observation {
            Some(seen) => self.last_observation = Some(seen),
            None => {},
        }
    }

    /// The latest observation of a condition.
    pub fn last_observation(&self) -> (r: Option<&ObservedPredicate>)
        ensures
            match r {
                Some(seen) => self.last_observation == Some(*seen),
                None => self.last_observation is None,
            },
    {
        match &self.last_observation {
            Some(seen) => Some(seen),
            None => None,
        }
    }

    /// Reads an answer: what it holds, or the error that it tells of.
    pub fn read_answer(&self, response: Json) -> (r: Result<Json, ClientError>)
        ensures
            answer_read(*self, response, r),
    {
        let ok = match member(&response, "ok") {
            Some(Json::Bool(b)) => *b,
            _ => false,
        };
        if ok {
            return Ok(response);
        }
        let code = match text_value(member2(&response, "error", "code")) {
            Some(code) => code.to_owned(),
            None => "command_failed".to_owned(),
        };
        let told = match text_value(member2(&response, "error", "message")) {
            Some(message) => message.to_owned(),
            None => "game returned an error".to_owned(),
        };
        let message = if same_text(code.as_str(), "timeout") {
            self.with_last_capture(told)
        } else {
            told
        };
        let context = match member2(&response, "error", "context") {
            Some(context) => Some(copy_json(context)),
            None => None,
        };
        Err(ClientError::Command { code, message, context })
    }

    /// The request that releases what is held, which a client sends before it leaves.
    pub fn close(&self) -> (r: Json)
        ensures
            r@ == JsonValue::Object(
                Map::empty().insert("id"@, unsigned(self.next_id)).insert(
                    "command"@,
                    JsonValue::Text("release_all_inputs"@),
                ),
            ),
    {
        ObjectBuilder::new().with("id", json_unsigned(self.next_id)).with(
            "command",
            json_text("release_all_inputs"),
        ).build()
    }

    /// Asks for the window.
    pub fn window_info(&self) -> (r: Json)
        ensures
            r@ == JsonValue::Object(window_info_request()),
    {
        request_for("window_info").build()
    }

    /// Asks to move the cursor.
    pub fn cursor_move(&self, x: JsonNumber, y: JsonNumber) -> (r: Json)
        ensures
            r@ == JsonValue::Object(
                cursor_request(x@, y@),
            ),
    {
        request_for("cursor_move").with("x", Json::Number(x)).with("y", Json::Number(y)).build()
    }

    /// Asks to press a key.
    pub fn key_down(&self, key: &str) -> (r: Json)
        ensures
            r@ == JsonValue::Object(key_down_request(key@)),
    {
        request_for("key_down").with("key", json_text(key)).build()
    }

    /// Asks to release a key.
    pub fn key_up(&self, key: &str) -> (r: Json)
        ensures
            r@ == JsonValue::Object(key_up_request(key@)),
    {
        request_for("key_up").with("key", json_text(key)).build()
    }

    /// Asks to press a mouse button.
    pub fn mouse_down(&self, button: &str) -> (r: Json)
        ensures
            r@ == JsonValue::Object(
                mouse_down_request(button@),
            ),
    {
        request_for("mouse_down").with("button", json_text(button)).build()
    }

    /// Asks to release a mouse button.
    pub fn mouse_up(&self, button: &str) -> (r: Json)
        ensures
            r@ == JsonValue::Object(
                mouse_up_request(button@),
            ),
    {
        request_for("mouse_up").with("button", json_text(button)).build()
    }

    /// Asks to scroll by lines.
    pub fn scroll(&self, lines: JsonNumber) -> (r: Json)
        ensures
            r@ == JsonValue::Object(
                scroll_request(lines@),
            ),
    {
        request_for("scroll").with("lines", Json::Number(lines)).build()
    }

    /// Asks to click.
    pub fn click(&self, x: JsonNumber, y: JsonNumber, button: &str) -> (r: Json)
        ensures
            r@ == JsonValue::Object(
                click_request(x@, y@, button@),
            ),
    {
        request_for("click").with("x", Json::Number(x)).with("y", Json::Number(y)).with(
            "button",
            json_text(button),
        ).build()
    }

    /// Asks to drag.
    pub fn drag(
        &self,
        button: &str,
        from: (JsonNumber, JsonNumber),
        to: (JsonNumber, JsonNumber),
        steps: u16,
        frames: u16,
    ) -> (r: Json)
        ensures
            r@ == JsonValue::Object(
                drag_request(button@, (from.0@, from.1@), (to.0@, to.1@), steps, frames),
            ),
    {
        request_for("drag").with("button", json_text(button)).with("from", pair_json(from)).with(
            "to",
            pair_json(to),
        ).with("steps", json_unsigned(steps as u64)).with(
            "frames",
            json_unsigned(frames as u64),
        ).build()
    }

    /// Asks to tap a key.
    pub fn key_tap(&self, key: &str) -> (r: Json)
        ensures
            r@ == JsonValue::Object(key_tap_request(key@)),
    {
        request_for("key_tap").with("key", json_text(key)).build()
    }

    /// Asks to hold a key for some frames.
    pub fn key_hold(&self, key: &str, frames: u16) -> (r: Json)
        ensures
            r@ == JsonValue::Object(
                key_hold_request(key@, frames),
            ),
    {
        request_for("key_hold").with("key", json_text(key)).with(
            "frames",
            json_unsigned(frames as u64),
        ).build()
    }

    /// Asks to release what this client holds.
    pub fn release_all_inputs(&self) -> (r: Json)
        ensures
            r@ == JsonValue::Object(release_all_inputs_request()),
    {
        request_for("release_all_inputs").build()
    }

    /// Asks the application to leave.
    pub fn shutdown(&self) -> (r: Json)
        ensures
            r@ == JsonValue::Object(shutdown_request()),
    {
        request_for("shutdown").build()
    }

    /// What a teardown asks for, in this order: to release what is held, and to leave.
    pub fn shutdown_game(&self) -> (r: Vec<Json>)
        ensures
            r@.len() == 2,
            r@[0]@ == JsonValue::Object(bare_request("release_all_inputs"@)),
            r@[1]@ == JsonValue::Object(bare_request("shutdown"@)),
    {
        let mut requests: Vec<Json> = Vec::new();
        requests.push(self.release_all_inputs());
        requests.push(self.shutdown());
        requests
    }

    /// What the end of the connection means: an error where more came than nothing.
    pub fn wait_for_disconnect(&self, more: bool) -> (r: Result<(), ClientError>)
        ensures
            if more {
                refused(r, "unexpected protocol data after shutdown acknowledgment"@)
            } else {
                r is Ok
            },
    {
        if more {
            Err(
                ClientError::Protocol(
                    "unexpected protocol data after shutdown acknowledgment".to_owned(),
                ),
            )
        } else {
            Ok(())
        }
    }

    fn validate_wait_limit(&self, name: &str, requested: u64) -> (r: Result<(), ClientError>)
        ensures
            if requested > self.capabilities.max_wait_frames {
                refused(r, limit_refusal(name@, requested, self.capabilities.max_wait_frames))
            } else {
                r is Ok
            },
    {
        let supported = self.capabilities.max_wait_frames;
        if requested > supported as u64 {
            let mut message = cat5(
                name,
                "=",
                decimal(requested as u128).as_str(),
                " exceeds server limit ",
                decimal(supported as u128).as_str(),
            );
            message.append(
                "; configure AgentFeedbackConfig.max_wait_frames or issue explicit bounded requests",
            );
            assert(message@ =~= limit_refusal(name@, requested, supported));
            return Err(ClientError::Protocol(message));
        }
        Ok(())
    }

    /// Asks to wait for some frames. What the application does not allow is refused before anything
    /// is sent.
    pub fn wait_frames(&self, frames: u64) -> (r: Result<Json, ClientError>)
        ensures
            wait_frames_agrees(*self, frames, r),
    {
        if frames == 0 {
            return Err(ClientError::Protocol("frames must be greater than zero".to_owned()));
        }
        match self.validate_wait_limit("frames", frames) {
            Err(error) => Err(error),
            Ok(_) => Ok(request_for("wait").with("frames", json_unsigned(frames)).build()),
        }
    }

    /// Asks to wait for virtual time.
    pub fn wait_seconds(&self, seconds: &JsonNumber, max_frames: Option<u16>) -> (r: Result<
        Json,
        ClientError,
    >)
        ensures
            wait_seconds_agrees(*self, seconds@, max_frames, r),
    {
        let span = match positive_duration("seconds", seconds) {
            Ok(span) => span,
            Err(error) => return Err(error),
        };
        let frames = match max_frames {
            Some(n) => n,
            None => self.capabilities.max_wait_frames,
        };
        if frames == 0 || frames > self.capabilities.max_wait_frames {
            return Err(
                ClientError::Protocol(
                    cat2(
                        "max_frames must be in 1..=",
                        decimal(self.capabilities.max_wait_frames as u128).as_str(),
                    ),
                ),
            );
        }
        Ok(
            request_for("wait_seconds").with("seconds", span_json(span)).with(
                "max_frames",
                json_unsigned(frames as u64),
            ).build(),
        )
    }

    /// Begins an advance of time: one request where no step is given, or a plan of requests.
    pub fn advance_time(&self, seconds: &JsonNumber, step_seconds: Option<&JsonNumber>) -> (r:
        Result<Advance, ClientError>)
        ensures
            advance_agrees(*self, seconds@, step_seconds, r),
    {
        let span = match positive_duration("seconds", seconds) {
            Ok(span) => span,
            Err(error) => return Err(error),
        };
        match step_seconds {
            None => {
                if span.nanos > self.capabilities.max_time_advance.nanos {
                    return Err(
                        ClientError::Protocol(
                            "advance_time requires an explicit step_seconds when protocol caps require chunking".to_owned(),
                        ),
                    );
                }
                Ok(
                    Advance::Once(
                        request_for("advance_time").with("seconds", span_json(span)).build(),
                    ),
                )
            },
            Some(step_seconds) => {
                let step = match positive_duration("step_seconds", step_seconds) {
                    Ok(step) => step,
                    Err(error) => return Err(error),
                };
                Ok(
                    Advance::Chunked(
                        AdvancePlan::new(
                            span,
                            step,
                            self.capabilities.max_time_advance,
                            self.capabilities.max_time_advance_steps,
                        ),
                    ),
                )
            },
        }
    }

    /// Asks for one chunk of an advance of time, where both lengths can be said exactly.
    pub fn advance_time_request(&self, nanoseconds: u128, step: Span) -> (r: Result<
        Json,
        ClientError,
    >)
        requires
            step.wf(),
        ensures
            if nanoseconds > crate::span::MAX_NANOS {
                refused(r, "advance_time duration overflowed"@)
            } else if !exact_on_wire(Span { nanos: nanoseconds }) {
                refused(
                    r,
                    "advance_time chunk"@
                        + " cannot be represented as exact integer nanoseconds on the f64 wire"@,
                )
            } else if !exact_on_wire(step) {
                refused(
                    r,
                    "step_seconds"@
                        + " cannot be represented as exact integer nanoseconds on the f64 wire"@,
                )
            } else {
                r matches Ok(json) && json@ == JsonValue::Object(
                    step_request(json::span_number(Span { nanos: nanoseconds }), json::span_number(step)),
                )
            },
    {
        let span = match crate::advance::duration_from_nanos(nanoseconds) {
            Some(span) => span,
            None => return Err(
                ClientError::Protocol("advance_time duration overflowed".to_owned()),
            ),
        };
        assert(span == (Span { nanos: nanoseconds }));
        let seconds = match exact_wire_seconds("advance_time chunk", span) {
            Ok(seconds) => seconds,
            Err(error) => return Err(error),
        };
        let step_seconds = match exact_wire_seconds("step_seconds", step) {
            Ok(seconds) => seconds,
            Err(error) => return Err(error),
        };
        Ok(
            request_for("advance_time").with("seconds", seconds).with(
                "step_seconds",
                step_seconds,
            ).build(),
        )
    }

    /// Asks for a capture.
    pub fn capture(&self) -> (r: Json)
        ensures
            r@ == JsonValue::Object(capture_request()),
    {
        request_for("capture").build()
    }

    /// Asks for a capture with a label.
    pub fn capture_labeled(&self, label: &str) -> (r: Json)
        ensures
            r@ == JsonValue::Object(
                label_request(label@),
            ),
    {
        request_for("capture").with("label", json_text(label)).build()
    }

    /// Asks for a capture after some frames.
    pub fn capture_after_frames(&self, frames: u16, label: Option<&str>) -> (r: Result<
        Json,
        ClientError,
    >)
        ensures
            late_capture_agrees(*self, frames, label, r),
    {
        if frames == 0 || frames > self.capabilities.max_wait_frames {
            return Err(
                ClientError::Protocol(
                    cat2(
                        "capture frames must be in 1..=",
                        decimal(self.capabilities.max_wait_frames as u128).as_str(),
                    ),
                ),
            );
        }
        let request = request_for("capture_after_frames").with(
            "frames",
            json_unsigned(frames as u64),
        );
        Ok(
            match label {
                Some(label) => request.with("label", json_text(label)).build(),
                None => request.build(),
            },
        )
    }

    /// Asks for the first capture.
    pub fn wait_until_first_capture(&self) -> (r: Result<Json, ClientError>)
        requires
            self.capabilities.wf(),
        ensures
            r matches Ok(json) && json@ == JsonValue::Object(
                bare_request("capture_after_frames"@).insert("frames"@, unsigned(1)),
            ),
    {
        self.capture_after_frames(1, None)
    }

    /// The file of the latest capture.
    pub fn last_capture_info(&self) -> (r: Option<&String>)
        ensures
            match r {
                Some(path) => self.last_capture == Some(*path),
                None => self.last_capture is None,
            },
    {
        match &self.last_capture {
            Some(path) => Some(path),
            None => None,
        }
    }

    /// Asks to find a target.
    pub fn target_info(&self, target: &TargetSelector, kind: TargetKind, camera: Option<&str>) -> (r:
        Json)
        ensures
            r@ == JsonValue::Object(
                target_request(*target, kind, camera),
            ),
    {
        request_for("target_info").with("target", selector_json(target)).with(
            "kind",
            kind_json(kind),
        ).with("camera", opt_text_json(camera)).build()
    }

    /// Asks to find a target and click it.
    pub fn click_target(
        &self,
        target: &TargetSelector,
        kind: TargetKind,
        camera: Option<&str>,
        button: &str,
        frames: u16,
    ) -> (r: Result<Json, ClientError>)
        ensures
            click_target_agrees(*self, *target, kind, camera, button@, frames, r),
    {
        if frames == 0 || frames > self.capabilities.max_wait_frames {
            return Err(
                ClientError::Protocol(
                    cat2(
                        "frames must be in 1..=",
                        decimal(self.capabilities.max_wait_frames as u128).as_str(),
                    ),
                ),
            );
        }
        Ok(
            request_for("click_target").with("target", selector_json(target)).with(
                "kind",
                kind_json(kind),
            ).with("camera", opt_text_json(camera)).with("button", json_text(button)).with(
                "frames",
                json_unsigned(frames as u64),
            ).build(),
        )
    }

    /// Asks to click what has a name.
    pub fn click_named(&self, name: &str) -> (r: Result<Json, ClientError>)
        requires
            self.capabilities.wf(),
        ensures
            r matches Ok(json) && json@ == click_target_of(
                selected_by("name"@, name@),
                TargetKind::Any,
                None,
                "Left"@,
                1,
            ),
    {
        let target = TargetSelector::Name(name.to_owned());
        self.click_target(&target, TargetKind::Any, None, "Left", 1)
    }

    /// Asks to click what has an accessibility label.
    pub fn click_accessibility_label(&self, label: &str) -> (r: Result<Json, ClientError>)
        requires
            self.capabilities.wf(),
        ensures
            r matches Ok(json) && json@ == click_target_of(
                selected_by("accessibility_label"@, label@),
                TargetKind::Any,
                None,
                "Left"@,
                1,
            ),
    {
        let target = TargetSelector::AccessibilityLabel(label.to_owned());
        self.click_target(&target, TargetKind::Any, None, "Left", 1)
    }

    /// Asks to click what has a marker.
    pub fn click_marker(&self, marker: &str) -> (r: Result<Json, ClientError>)
        requires
            self.capabilities.wf(),
        ensures
            r matches Ok(json) && json@ == click_target_of(
                selected_by("marker"@, marker@),
                TargetKind::Any,
                None,
                "Left"@,
                1,
            ),
    {
        let target = TargetSelector::Marker(marker.to_owned());
        self.click_target(&target, TargetKind::Any, None, "Left", 1)
    }

    /// Asks for registered resources or a field of one.
    pub fn resource_info(&self, resource: Option<&str>, field: Option<&str>) -> (r: Json)
        ensures
            r@ == JsonValue::Object(
                resource_request(resource, field),
            ),
    {
        request_for("resource_info").with("resource", opt_text_json(resource)).with(
            "field",
            opt_text_json(field),
        ).build()
    }

    /// Asks to evaluate a condition once.
    pub fn evaluate_predicate(&self, predicate: Json) -> (r: Json)
        ensures
            r@ == predicate_request_of("evaluate_predicate"@, predicate@, Seq::empty(), None),
    {
        predicate_request("evaluate_predicate", predicate, Vec::new(), None)
    }

    /// What is wrong with a wait for a condition.
    pub open spec fn semantic_refusal(self, max_frames: u16, aborts: usize) -> Option<Seq<char>> {
        if max_frames == 0 {
            Some("max_frames must be greater than zero"@)
        } else if max_frames > self.capabilities.max_wait_frames {
            Some(
                limit_refusal(
                    "max_frames"@,
                    max_frames as u64,
                    self.capabilities.max_wait_frames,
                ),
            )
        } else if aborts > self.capabilities.max_abort_predicates {
            Some(
                "abort_predicates has "@ + text::digits(aborts as nat)
                    + " items, but server supports "@ + text::digits(
                    self.capabilities.max_abort_predicates as nat,
                ) + "; reduce abort predicates or configure separate explicit waits"@,
            )
        } else {
            None
        }
    }

    fn validate_semantic_wait(&self, max_frames: u16, abort_predicates: usize) -> (r: Result<
        (),
        ClientError,
    >)
        ensures
            match self.semantic_refusal(max_frames, abort_predicates) {
                Some(reason) => refused(r, reason),
                None => r is Ok,
            },
    {
        if max_frames == 0 {
            return Err(ClientError::Protocol("max_frames must be greater than zero".to_owned()));
        }
        match self.validate_wait_limit("max_frames", max_frames as u64) {
            Err(error) => return Err(error),
            Ok(_) => {},
        }
        if abort_predicates > self.capabilities.max_abort_predicates {
            return Err(
                ClientError::Protocol(
                    cat5(
                        "abort_predicates has ",
                        decimal(abort_predicates as u128).as_str(),
                        " items, but server supports ",
                        decimal(self.capabilities.max_abort_predicates as u128).as_str(),
                        "; reduce abort predicates or configure separate explicit waits",
                    ),
                ),
            );
        }
        Ok(())
    }

    /// Asks to wait for a condition, and to give up where one of some others comes to hold. What
    /// the application does not allow is refused before anything is sent.
    pub fn wait_for_with_abort(
        &self,
        predicate: Json,
        abort_predicates: Vec<Json>,
        max_frames: u16,
    ) -> (r: Result<Json, ClientError>)
        ensures
            wait_for_agrees(*self, predicate@, abort_predicates@, max_frames, r),
    {
        match self.validate_semantic_wait(max_frames, abort_predicates.len()) {
            Err(error) => Err(error),
            Ok(_) => Ok(
                predicate_request("wait_for", predicate, abort_predicates, Some(max_frames)),
            ),
        }
    }

    /// Asks to wait for a condition.
    pub fn wait_for(&self, predicate: Json, max_frames: u16) -> (r: Result<Json, ClientError>)
        ensures
            match self.semantic_refusal(max_frames, 0) {
                Some(reason) => refused(r, reason),
                None => r matches Ok(json) && json@ == predicate_request_of(
                    "wait_for"@,
                    predicate@,
                    Seq::empty(),
                    Some(max_frames),
                ),
            },
    {
        self.wait_for_with_abort(predicate, Vec::new(), max_frames)
    }

    /// The capture that is asked for after a failed wait for a condition, where that failed by
    /// what the application saw.
    pub fn failure_capture(&self, error: &ClientError) -> (r: Option<Json>)
        ensures
            match r {
                Some(json) => error.semantic_wait_failure() && json@ == JsonValue::Object(
                    bare_request("capture"@).insert(
                        "label"@,
                        JsonValue::Text("semantic-wait-failure"@),
                    ),
                ),
                None => !error.semantic_wait_failure(),
            },
    {
        if error.is_semantic_wait_failure() {
            Some(self.capture_labeled("semantic-wait-failure"))
        } else {
            None
        }
    }
}

/// The request to click a target.
pub open spec fn click_target_of(
    target: JsonValue,
    kind: TargetKind,
    camera: Option<&str>,
    button: Seq<char>,
    frames: u16,
) -> JsonValue {
    JsonValue::Object(
        bare_request("click_target"@).insert("target"@, target).insert(
            "kind"@,
            JsonValue::Text(kind_name(kind)),
        ).insert("camera"@, text_or_null(camera)).insert(
            "button"@,
            JsonValue::Text(button),
        ).insert("frames"@, unsigned(frames as u64)),
    )
}

/// An advance of time.
pub enum Advance {
    /// One request.
    Once(Json),
    /// A plan of requests.
    Chunked(AdvancePlan),
}

fn pair_json(pair: (JsonNumber, JsonNumber)) -> (r: Json)
    ensures
        r@ == JsonValue::Array(seq![JsonValue::Number(pair.0@), JsonValue::Number(pair.1@)]),
{
    let mut items: Vec<Json> = Vec::new();
    items.push(Json::Number(pair.0));
    items.push(Json::Number(pair.1));
    assert(items@[0]@ == JsonValue::Number(pair.0@));
    assert(items@[1]@ == JsonValue::Number(pair.1@));
    let r = Json::Array(items);
    assert(r@ matches JsonValue::Array(s) && s =~= seq![
        JsonValue::Number(pair.0@),
        JsonValue::Number(pair.1@),
    ]);
    r
}

/// What text recognition came to.
pub enum OcrOutcome {
    /// It could not be started.
    NotStarted(String),
    /// It could not be waited for.
    Failed(String),
    /// It ended.
    Ended {
        /// Whether it ended well.
        success: bool,
        /// What it wrote.
        stdout: Vec<u8>,
        /// What it wrote as errors.
        stderr: Vec<u8>,
    },
    /// It did not end in time and was killed.
    TimedOut,
}

/// What `String::from_utf8` makes of some bytes: the text, or what is wrong with them.
pub uninterp spec fn utf8_result(bytes: Seq<u8>) -> Result<Seq<char>, Seq<char>>;

/// `String::from_utf8`: reads bytes as UTF-8 and says of others why they are none.
#[verifier::external_body]
fn strict_text(bytes: Vec<u8>) -> (r: Result<String, String>)
    ensures
        match r {
            Ok(s) => utf8_result(bytes@) == Ok::<Seq<char>, Seq<char>>(s@)
                && vstd::utf8::valid_utf8(bytes@) && s@ == vstd::utf8::decode_utf8(bytes@),
            Err(m) => utf8_result(bytes@) == Err::<Seq<char>, Seq<char>>(m@)
                && !vstd::utf8::valid_utf8(bytes@),
        },
{
    String::from_utf8(bytes).map_err(|error| error.to_string())
}

/// The result `r` is the text that was recognised, or says why there is none.
pub open spec fn text_recognised(
    options: OcrOptions,
    outcome: OcrOutcome,
    r: Result<String, ClientError>,
) -> bool {
    match outcome {
        OcrOutcome::NotStarted(error) => r matches Err(ClientError::OcrUnavailable(message))
            && message@ == "tesseract unavailable at "@ + options.tesseract@ + ": "@ + error@,
        OcrOutcome::Failed(error) => r matches Err(ClientError::Ocr(message)) && message@
            == error@,
        OcrOutcome::Ended { success, stdout, stderr } => if !success {
            r matches Err(ClientError::OcrUnavailable(message)) && message@ == lines::trimmed(
                lines::lossy(stderr@),
            )
        } else {
            match utf8_result(stdout@) {
                Ok(text) => r matches Ok(s) && s@ == text,
                Err(m) => r matches Err(ClientError::Ocr(message)) && message@ == m,
            }
        },
        OcrOutcome::TimedOut => r matches Err(ClientError::OcrUnavailable(message)) && message@
            == "tesseract timed out after "@ + text::digits(
            (options.timeout.nanos / NANOS_PER_MILLI) as nat,
        ) + " ms"@,
    }
}

/// Reads the text that was recognised, or says why there is none.
pub fn run_tesseract(options: &OcrOptions, outcome: OcrOutcome) -> (r: Result<String, ClientError>)
    ensures
        text_recognised(*options, outcome, r),
{
    match outcome {
        OcrOutcome::NotStarted(error) => Err(
            ClientError::OcrUnavailable(
                cat4(
                    "tesseract unavailable at ",
                    options.tesseract.as_str(),
                    ": ",
                    error.as_str(),
                ),
            ),
        ),
        OcrOutcome::Failed(error) => Err(ClientError::Ocr(error)),
        OcrOutcome::Ended { success, stdout, stderr } => if success {
            match strict_text(stdout) {
                Ok(text) => Ok(text),
                Err(message) => Err(ClientError::Ocr(message)),
            }
        } else {
            Err(
                ClientError::OcrUnavailable(trim(lossy_text(stderr.as_slice()).as_str())),
            )
        },
        OcrOutcome::TimedOut => Err(
            ClientError::OcrUnavailable(
                cat3(
                    "tesseract timed out after ",
                    decimal(options.timeout.as_millis()).as_str(),
                    " ms",
                ),
            ),
        ),
    }
}

/// What `str::to_lowercase` makes of a text.
pub uninterp spec fn lowercase(text: Seq<char>) -> Seq<char>;

/// The text has only ASCII characters.
pub open spec fn ascii(s: Seq<char>) -> bool {
    forall|i: int| 0 <= i < s.len() ==> (#[trigger] s[i]) as u32 <= 127
}

/// An ASCII character in lower case.
pub open spec fn ascii_lower(c: char) -> char {
    if 'A' as u32 <= c as u32 <= 'Z' as u32 {
        (c as u32 + 32) as char
    } else {
        c
    }
}

/// A text with its ASCII letters in lower case.
pub open spec fn ascii_lowered(s: Seq<char>) -> Seq<char> {
    Seq::new(s.len(), |i: int| ascii_lower(s[i]))
}

/// `str::to_lowercase`: the text in lower case, by Unicode. Of ASCII characters, the 26 capital
/// letters change, each to its small letter; what becomes of other characters is left unsaid.
#[verifier::external_body]
fn lower(text: &str) -> (r: String)
    ensures
        r@ == lowercase(text@),
        ascii(text@) ==> r@ == ascii_lowered(text@),
{
    text.to_lowercase()
}

/// A recognised text as it is compared: its words in lower case with single spaces.
pub fn normalize_text(value: &str) -> (r: String)
    ensures
        normalizes(value@, r@),
{
    proof {
        if ascii(value@) {
            lemma_spaced_ascii(value@);
        }
    }
    lower(single_spaced(value).as_str())
}

/// The text `r` is what `value` is compared as: its words in lower case with single spaces.
pub open spec fn normalizes(value: Seq<char>, r: Seq<char>) -> bool {
    let plain = lines::spaced(lines::words_of(value));
    &&& r == lowercase(plain)
    &&& ascii(value) ==> r == ascii_lowered(plain)
}

/// The words of an ASCII text, joined by spaces, are an ASCII text.
proof fn lemma_spaced_ascii(s: Seq<char>)
    requires
        ascii(s),
    ensures
        ascii(lines::spaced(lines::words_of(s))),
{
    lines::lemma_words_are_words(s);
    let words = lines::words_of(s);
    assert forall|i: int| 0 <= i < words.len() implies ascii(#[trigger] words[i]) by {
        assert forall|k: int| 0 <= k < words[i].len() implies (#[trigger] words[i][k]) as u32
            <= 127 by {
            assert(s.contains(words[i][k]));
        }
    }
    lemma_join_ascii(words);
}

proof fn lemma_join_ascii(words: Seq<Seq<char>>)
    requires
        forall|i: int| 0 <= i < words.len() ==> ascii(#[trigger] words[i]),
    ensures
        ascii(lines::spaced(words)),
    decreases words.len(),
{
    if words.len() > 1 {
        let head = words.drop_last();
        assert forall|i: int| 0 <= i < head.len() implies ascii(#[trigger] head[i]) by {
            assert(head[i] == words[i]);
        }
        lemma_join_ascii(head);
        assert(ascii(words.last()));
    } else if words.len() == 1 {
        assert(ascii(words[0]));
    }
}

/// The words, each with its ASCII letters in lower case.
spec fn all_lowered(words: Seq<Seq<char>>) -> Seq<Seq<char>> {
    Seq::new(words.len(), |i: int| ascii_lowered(words[i]))
}

/// A letter in lower case is white space where the letter is.
proof fn lemma_white_lowered(c: char)
    ensures
        lines::white(ascii_lower(c)) == lines::white(c),
        ascii_lower(ascii_lower(c)) == ascii_lower(c),
{
}

proof fn lemma_word_len_lowered(s: Seq<char>)
    ensures
        lines::word_len(ascii_lowered(s)) == lines::word_len(s),
    decreases s.len(),
{
    if s.len() > 0 {
        lemma_white_lowered(s[0]);
        assert(ascii_lowered(s).skip(1) =~= ascii_lowered(s.skip(1)));
        lemma_word_len_lowered(s.skip(1));
    }
}

/// The words of a text in lower case are its words in lower case.
proof fn lemma_words_lowered(s: Seq<char>)
    ensures
        lines::words_of(ascii_lowered(s)) == all_lowered(lines::words_of(s)),
    decreases s.len(),
{
    let t = ascii_lowered(s);
    if s.len() == 0 {
        assert(lines::words_of(t) =~= all_lowered(lines::words_of(s)));
    } else {
        lemma_white_lowered(s[0]);
        lemma_word_len_lowered(s);
        lines::lemma_word_len(s);
        if lines::white(s[0]) {
            assert(t.skip(1) =~= ascii_lowered(s.skip(1)));
            lemma_words_lowered(s.skip(1));
        } else {
            let n = lines::word_len(s);
            lines::lemma_word_len(s.skip(1));
            assert(n > 0);
            assert(t.take(n) =~= ascii_lowered(s.take(n)));
            assert(t.skip(n) =~= ascii_lowered(s.skip(n)));
            lemma_words_lowered(s.skip(n));
            assert(lines::words_of(t) =~= all_lowered(lines::words_of(s)));
        }
    }
}

/// Joining words in lower case gives the joined words in lower case.
proof fn lemma_join_lowered(words: Seq<Seq<char>>)
    ensures
        lines::spaced(all_lowered(words)) == ascii_lowered(lines::spaced(words)),
    decreases words.len(),
{
    if words.len() > 1 {
        let head = words.drop_last();
        lemma_join_lowered(head);
        assert(all_lowered(words).drop_last() =~= all_lowered(head));
        assert(ascii_lower(' ') == ' ');
    }
    assert(lines::spaced(all_lowered(words)) =~= ascii_lowered(lines::spaced(words)));
}

/// Law: the amount and the sort of white space between words does not matter to a comparison:
/// texts with the same words are compared as the same text.
pub proof fn law_white_space_does_not_matter(
    a: Seq<char>,
    b: Seq<char>,
    ra: Seq<char>,
    rb: Seq<char>,
)
    requires
        lines::words_of(a) == lines::words_of(b),
        normalizes(a, ra),
        normalizes(b, rb),
    ensures
        ra == rb,
{
}

/// Law: of ASCII texts, the case of letters does not matter to a comparison.
pub proof fn law_ascii_case_does_not_matter(
    a: Seq<char>,
    b: Seq<char>,
    ra: Seq<char>,
    rb: Seq<char>,
)
    requires
        ascii(a),
        ascii(b),
        ascii_lowered(a) == ascii_lowered(b),
        normalizes(a, ra),
        normalizes(b, rb),
    ensures
        ra == rb,
{
    lemma_words_lowered(a);
    lemma_words_lowered(b);
    lemma_join_lowered(lines::words_of(a));
    lemma_join_lowered(lines::words_of(b));
}

/// Law: a text in lower case with single spaces between its words, and none at its ends, is compared
/// as itself.
pub proof fn law_plain_text_stays(text: Seq<char>, r: Seq<char>)
    requires
        lowercase(text) == text,
        lines::spaced(lines::words_of(text)) == text,
        normalizes(text, r),
    ensures
        r == text,
{
}

/// Law: what an ASCII text is compared as has single spaces between its words and none at its
/// ends, and is compared as itself.
pub proof fn law_normal_ascii_text_stays(value: Seq<char>, r: Seq<char>, again: Seq<char>)
    requires
        ascii(value),
        normalizes(value, r),
        normalizes(r, again),
    ensures
        r == lines::spaced(lines::words_of(r)),
        again == r,
{
    let words = lines::words_of(value);
    let plain = lines::spaced(words);
    lines::law_single_spaces_keep_the_words(value);
    lemma_spaced_ascii(value);
    lemma_words_lowered(plain);
    lemma_join_lowered(words);
    assert(lines::words_of(r) == all_lowered(words));
    assert forall|i: int| 0 <= i < r.len() implies (#[trigger] r[i]) as u32 <= 127 by {
        assert(plain[i] as u32 <= 127);
    }
    assert forall|i: int| 0 <= i < r.len() implies ascii_lower(#[trigger] r[i]) == r[i] by {
        lemma_white_lowered(plain[i]);
    }
    assert(ascii_lowered(r) =~= r);
}

/// Law: an identity that a request has is kept, and one that it lacks is added; nothing else about
/// the request changes.
pub proof fn law_requests_keep_their_identity(request: Map<Seq<char>, JsonValue>, id: u64)
    ensures
        identified(request, id).dom().contains("id"@),
        request.dom().contains("id"@) ==> identified(request, id) == request,
        forall|name: Seq<char>|
            name != "id"@ ==> (identified(request, id).dom().contains(name)
                <==> request.dom().contains(name)) && (request.dom().contains(name)
                ==> #[trigger] identified(request, id)[name] == request[name]),
{
}

/// Law: attaching a capture adds it to the context and keeps every other entry.
pub proof fn law_failure_capture_is_added(m: Map<Seq<char>, JsonValue>, capture: JsonValue)
    ensures
        json::value_at(with_capture(Some(JsonValue::Object(m)), capture), "failure_capture"@)
            == Some(capture),
        forall|name: Seq<char>|
            name != "failure_capture"@ ==> #[trigger] json::value_at(
                with_capture(Some(JsonValue::Object(m)), capture),
                name,
            ) == json::value_at(JsonValue::Object(m), name),
{
}

/// Law: a line that holds a record of a transcript replays the request in it.
pub proof fn law_transcript_records_replay(
    line: Seq<char>,
    ts_ms: u64,
    duration_ms: u64,
    request: JsonValue,
    response: JsonValue,
)
    requires
        lines::trimmed(line).len() > 0,
        json::parsed_json(line) == Ok::<JsonValue, Seq<char>>(
            JsonValue::Object(
                Map::empty().insert("ts_ms"@, unsigned(ts_ms)).insert(
                    "duration_ms"@,
                    unsigned(duration_ms),
                ).insert("request"@, request).insert("response"@, response),
            ),
        ),
    ensures
        replayed_of(line) == Some(Ok::<JsonValue, Seq<char>>(request)),
{
    reveal_strlit("request");
    reveal_strlit("response");
    assert("request"@.len() == 7 && "response"@.len() == 8);
}

/// Law: an answer is believed exactly where it is an object that says so in its flag; then it is
/// given back as it is. Any other answer is an error of the application, with the code, the message
/// and the context that it tells of, and words of the client's own only where it tells of none. Only
/// to a timeout is the latest capture added.
pub proof fn law_answers_are_believed_by_their_flag(
    client: AgentClient,
    response: Json,
    r: Result<Json, ClientError>,
)
    requires
        answer_read(client, response, r),
    ensures
        r is Ok <==> (response@ matches JsonValue::Object(m) && m.dom().contains("ok"@) && m["ok"@]
            == JsonValue::Bool(true)),
        r matches Ok(json) ==> json == response,
        r matches Err(e) ==> (e matches ClientError::Command { code, message, context } && code@ == (
        match json::text_in(json::value_at2(response@, "error"@, "code"@)) {
            Some(told) => told,
            None => "command_failed"@,
        }) && ({
            let words = match json::text_in(json::value_at2(response@, "error"@, "message"@)) {
                Some(told) => told,
                None => "game returned an error"@,
            };
            &&& words.is_prefix_of(message@)
            &&& code@ != "timeout"@ || client.last_capture is None ==> message@ == words
            &&& code@ == "timeout"@ ==> (client.last_capture matches Some(path)
                ==> path@.is_suffix_of(message@))
        }) && (context is Some <==> json::value_at2(response@, "error"@, "context"@) is Some) && (
        context matches Some(told) ==> json::value_at2(response@, "error"@, "context"@) == Some(
            told@,
        ))),
{
    if r is Err {
        let words = match json::text_in(json::value_at2(response@, "error"@, "message"@)) {
            Some(told) => told,
            None => "game returned an error"@,
        };
        assert(words =~= words.subrange(0, words.len() as int));
        if client.last_capture is Some {
            let path = client.last_capture->Some_0@;
            let whole = words + "; last captured frame: "@ + path;
            assert(words =~= whole.subrange(0, words.len() as int));
            assert(path =~= whole.subrange(whole.len() - path.len(), whole.len() as int));
        }
    }
}

/// Law: an application counts as running exactly where its process is alive and its heartbeat can be
/// read and is no older than the document allows; a heartbeat of the future counts as fresh.
pub proof fn law_fresh_heartbeats_count(
    protocol: ProtocolFile,
    alive: bool,
    heartbeat: Result<String, String>,
    now_ms: u128,
)
    ensures
        stale_reason(protocol, alive, heartbeat, now_ms) is None <==> {
            &&& alive
            &&& heartbeat is Ok
            &&& text::parsed_number(
                lines::trimmed(heartbeat->Ok_0@),
                340282366920938463463374607431768211455,
            ) matches Some(beat)
            &&& now_ms <= beat + protocol.stale_after_ms
        },
{
}

/// Law: a discovery document is of this protocol exactly where it names it.
pub proof fn law_documents_name_their_protocol(document: JsonValue, path: Seq<char>)
    ensures
        version_refusal(document, path) is None <==> json::value_at(document, "protocol"@) == Some(
            JsonValue::Text("bevy-agent-feedback/3"@),
        ),
{
}

/// Law: a client is made exactly where nothing is allowed zero times. It then allows what the
/// document says, and starts without a capture and an observation, with the first identity.
pub proof fn law_clients_take_over_what_is_allowed(
    config: AgentClientConfig,
    protocol: ProtocolFile,
    r: Result<AgentClient, ClientError>,
)
    requires
        client_made(config, protocol, r),
    ensures
        r is Ok <==> protocol.max_wait_frames > 0 && protocol.max_abort_predicates > 0
            && protocol.max_time_advance_steps > 0 && (json::nanos_of_seconds(
            protocol.max_time_advance_seconds@,
        ) matches Some(nanos) && nanos > 0),
        r matches Ok(client) ==> {
            &&& client.capabilities.max_wait_frames == protocol.max_wait_frames
            &&& client.capabilities.max_abort_predicates == protocol.max_abort_predicates
            &&& client.capabilities.deterministic_time == protocol.deterministic_time
            &&& client.capabilities.max_time_advance_steps == protocol.max_time_advance_steps
            &&& Some(client.capabilities.max_time_advance.nanos) == json::nanos_of_seconds(
                protocol.max_time_advance_seconds@,
            )
            &&& client.timeout == config.timeout
            &&& client.next_id == 1
            &&& client.last_capture is None && client.last_observation is None
        },
        r matches Err(e) ==> e is Protocol,
{
}

/// Law: requests are numbered one after the other. A request without an identity gets the next
/// number, and one that has an identity keeps it; everything else in a request stays, and only an
/// object is a request.
pub proof fn law_requests_are_numbered(
    a: AgentClient,
    b: AgentClient,
    request: JsonValue,
    r: Result<Json, ClientError>,
)
    requires
        request_made(a, b, request, r),
    ensures
        r is Ok <==> request is Object,
        r is Err ==> b == a,
        r matches Ok(json) ==> (json@ matches JsonValue::Object(made) && ({
            let m = request->Object_0;
            &&& made.dom() == m.dom().insert("id"@)
            &&& made["id"@] == (if m.dom().contains("id"@) {
                m["id"@]
            } else {
                JsonValue::Number(NumberValue::Unsigned(a.next_id))
            })
            &&& forall|name: Seq<char>| #[trigger]
                m.dom().contains(name) ==> made[name] == m[name]
        })) && (b.next_id == a.next_id + 1 || b.next_id == a.next_id == u64::MAX)
            && b.capabilities == a.capabilities && b.timeout == a.timeout && b.last_capture
            == a.last_capture && b.last_observation == a.last_observation,
{
    if request is Object {
        let m = request->Object_0;
        let made = identified(m, a.next_id);
        assert(made.dom() =~= m.dom().insert("id"@));
    }
}

/// Law: what the application does not allow is not sent. A wait for frames, a late capture, a click
/// on a target and a wait for a condition are made exactly where their frames are at least one and
/// no more than are allowed, and a wait for a condition only with as many others as are allowed; what
/// is made says how many frames were asked for.
pub proof fn law_clients_keep_within_the_limits(
    client: AgentClient,
    frames: u16,
    many: u64,
    label: Option<&str>,
    target: TargetSelector,
    kind: TargetKind,
    camera: Option<&str>,
    button: Seq<char>,
    predicate: JsonValue,
    aborts: Seq<Json>,
    waited: Result<Json, ClientError>,
    late: Result<Json, ClientError>,
    clicked: Result<Json, ClientError>,
    condition: Result<Json, ClientError>,
)
    requires
        wait_frames_agrees(client, many, waited),
        late_capture_agrees(client, frames, label, late),
        click_target_agrees(client, target, kind, camera, button, frames, clicked),
        aborts.len() <= usize::MAX,
        wait_for_agrees(client, predicate, aborts, frames, condition),
    ensures
        ({
            let most = client.capabilities.max_wait_frames;
            &&& waited is Ok <==> 1 <= many <= most
            &&& late is Ok <==> 1 <= frames <= most
            &&& clicked is Ok <==> 1 <= frames <= most
            &&& condition is Ok <==> 1 <= frames <= most && aborts.len()
                <= client.capabilities.max_abort_predicates
            &&& waited matches Ok(json) ==> json::value_at(json@, "frames"@) == Some(
                JsonValue::Number(NumberValue::Unsigned(many)),
            )
            &&& late matches Ok(json) ==> json::value_at(json@, "frames"@) == Some(
                JsonValue::Number(NumberValue::Unsigned(frames as u64)),
            )
            &&& clicked matches Ok(json) ==> json::value_at(json@, "frames"@) == Some(
                JsonValue::Number(NumberValue::Unsigned(frames as u64)),
            ) && json::value_at(json@, "target"@) == Some(selector_value(target))
            &&& condition matches Ok(json) ==> json::value_at(json@, "max_frames"@) == Some(
                JsonValue::Number(NumberValue::Unsigned(frames as u64)),
            ) && json::value_at(json@, "predicate"@) == Some(predicate)
            &&& condition matches Ok(json) ==> (aborts.len() > 0 <==> json::value_at(
                json@,
                "abort_predicates"@,
            ) is Some)
        }),
{
    reveal_strlit("command");
    reveal_strlit("frames");
    reveal_strlit("max_frames");
    reveal_strlit("predicate");
    reveal_strlit("abort_predicates");
    reveal_strlit("target");
    reveal_strlit("kind");
    reveal_strlit("camera");
    reveal_strlit("button");
    reveal_strlit("label");
    assert("frames"@.len() == 6 && "frames"@[0] == 'f');
    assert("target"@.len() == 6 && "target"@[0] == 't');
    assert("camera"@.len() == 6 && "camera"@[0] == 'c');
    assert("button"@.len() == 6 && "button"@[0] == 'b');
    assert("label"@.len() == 5);
    assert("kind"@.len() == 4);
    assert("command"@.len() == 7);
    assert("max_frames"@.len() == 10);
    assert("predicate"@.len() == 9);
    assert("abort_predicates"@.len() == 16);
}

/// Law: a wait for virtual time is made exactly where its seconds make a time above zero and its
/// frames are at least one and no more than are allowed; without frames of its own it has as many as
/// are allowed.
pub proof fn law_virtual_waits_keep_within_the_limits(
    client: AgentClient,
    seconds: NumberValue,
    max_frames: Option<u16>,
    r: Result<Json, ClientError>,
)
    requires
        wait_seconds_agrees(client, seconds, max_frames, r),
    ensures
        ({
            let frames = if max_frames is Some {
                max_frames->Some_0
            } else {
                client.capabilities.max_wait_frames
            };
            &&& r is Ok <==> (json::nanos_of_seconds(seconds) matches Some(nanos) && nanos > 0) && 1
                <= frames <= client.capabilities.max_wait_frames
            &&& r matches Ok(json) ==> json::value_at(json@, "max_frames"@) == Some(
                JsonValue::Number(NumberValue::Unsigned(frames as u64)),
            ) && json::value_at(json@, "seconds"@) == Some(
                JsonValue::Number(
                    json::span_number(Span { nanos: json::nanos_of_seconds(seconds)->Some_0 }),
                ),
            )
        }),
{
    reveal_strlit("command");
    reveal_strlit("seconds");
    reveal_strlit("max_frames");
    assert("command"@[0] == 'c' && "seconds"@[0] == 's' && "max_frames"@[0] == 'm');
}

/// Law: time is advanced by what the seconds make. Without a step it is one request, exactly where
/// that is no more than is allowed at once; with a step it is cut into chunks that keep the step and
/// are within what is allowed.
pub proof fn law_advances_keep_within_the_limits(
    client: AgentClient,
    seconds: NumberValue,
    step_seconds: Option<&JsonNumber>,
    r: Result<Advance, ClientError>,
)
    requires
        advance_agrees(client, seconds, step_seconds, r),
    ensures
        ({
            let nanos = json::nanos_of_seconds(seconds);
            let long = nanos is Some && nanos->Some_0 > 0;
            &&& step_seconds is None ==> (r is Ok <==> long && nanos->Some_0
                <= client.capabilities.max_time_advance.nanos)
            &&& step_seconds is None && r is Ok ==> r->Ok_0 is Once
            &&& step_seconds matches Some(step) ==> (r is Ok <==> long && (json::nanos_of_seconds(
                step@,
            ) matches Some(n) && n > 0))
            &&& step_seconds matches Some(step) ==> (r matches Ok(advance) ==> (
            advance matches Advance::Chunked(plan) && Some(plan.remaining) == nanos && Some(
                plan.step,
            ) == json::nanos_of_seconds(step@) && plan.cap
                == client.capabilities.max_time_advance.nanos && plan.max_steps
                == client.capabilities.max_time_advance_steps && plan.left == 4096))
        }),
{
}

/// Law: a text was recognised exactly where recognition ended well and wrote UTF-8, and it is what
/// was written. A recognition that could not be started, that failed by itself or took too long is
/// not available; other failures are errors of recognition.
pub proof fn law_recognised_text_is_what_was_written(
    options: OcrOptions,
    outcome: OcrOutcome,
    r: Result<String, ClientError>,
)
    requires
        text_recognised(options, outcome, r),
    ensures
        r is Ok <==> (outcome matches OcrOutcome::Ended { success, stdout, .. } && success
            && utf8_result(stdout@) is Ok),
        r matches Ok(text) ==> (outcome matches OcrOutcome::Ended { stdout, .. } && utf8_result(
            stdout@,
        ) == Ok::<Seq<char>, Seq<char>>(text@)),
        r matches Err(e) ==> (e is OcrUnavailable <==> outcome is NotStarted || outcome is TimedOut
            || (outcome matches OcrOutcome::Ended { success, .. } && !success)),
        r matches Err(e) ==> e is OcrUnavailable || e is Ocr,
{
}

/// Law: a failure is followed by a capture exactly where the application has told that a condition
/// did not come to hold in time, or that another did.
pub proof fn law_failed_waits_are_captured(error: ClientError)
    ensures
        error.semantic_wait_failure() <==> (error matches ClientError::Command { code, .. } && (
        code@ == "predicate_timeout"@ || code@ == "predicate_aborted"@)),
{
}

} // verus!
