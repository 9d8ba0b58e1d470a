//! What the two sides of the protocol agree on: the application's discovery document as clients,
//! the runner and the check of the installation read it.
use crate::client;
use crate::commands;
use crate::config;
use crate::config::{AgentFeedbackConfig, AgentFeedbackSession};
use crate::discovery;
use crate::doctor;
use crate::json;
use crate::json::JsonValue;
use crate::runner;
use crate::text;
use vstd::prelude::*;

verus! {

/// The names in the discovery document are different ones.
proof fn lemma_names_differ()
    ensures
        "protocol"@ != "session_id"@,
        "protocol"@ != "pid"@,
        "protocol"@ != "started_at_unix_ms"@,
        "protocol"@ != "heartbeat_file"@,
        "protocol"@ != "heartbeat_interval_ms"@,
        "protocol"@ != "stale_after_ms"@,
        "protocol"@ != "socket_addr"@,
        "protocol"@ != "transport"@,
        "protocol"@ != "clients"@,
        "protocol"@ != "coordinates"@,
        "protocol"@ != "capture_dir"@,
        "protocol"@ != "command_timeout_ms"@,
        "protocol"@ != "deterministic_time"@,
        "protocol"@ != "max_action_steps"@,
        "protocol"@ != "max_wait_frames"@,
        "protocol"@ != "max_time_advance_steps"@,
        "protocol"@ != "max_time_advance_seconds"@,
        "protocol"@ != "window_modes"@,
        "protocol"@ != "capture_completion"@,
        "protocol"@ != "commands"@,
        "protocol"@ != "examples"@,
        "session_id"@ != "pid"@,
        "session_id"@ != "started_at_unix_ms"@,
        "session_id"@ != "heartbeat_file"@,
        "session_id"@ != "heartbeat_interval_ms"@,
        "session_id"@ != "stale_after_ms"@,
        "session_id"@ != "socket_addr"@,
        "session_id"@ != "transport"@,
        "session_id"@ != "clients"@,
        "session_id"@ != "coordinates"@,
        "session_id"@ != "capture_dir"@,
        "session_id"@ != "command_timeout_ms"@,
        "session_id"@ != "deterministic_time"@,
        "session_id"@ != "max_action_steps"@,
        "session_id"@ != "max_wait_frames"@,
        "session_id"@ != "max_time_advance_steps"@,
        "session_id"@ != "max_time_advance_seconds"@,
        "session_id"@ != "window_modes"@,
        "session_id"@ != "capture_completion"@,
        "session_id"@ != "commands"@,
        "session_id"@ != "examples"@,
        "heartbeat_file"@ != "heartbeat_interval_ms"@,
        "heartbeat_file"@ != "stale_after_ms"@,
        "heartbeat_file"@ != "socket_addr"@,
        "heartbeat_file"@ != "transport"@,
        "heartbeat_file"@ != "clients"@,
        "heartbeat_file"@ != "coordinates"@,
        "heartbeat_file"@ != "capture_dir"@,
        "heartbeat_file"@ != "command_timeout_ms"@,
        "heartbeat_file"@ != "deterministic_time"@,
        "heartbeat_file"@ != "max_action_steps"@,
        "heartbeat_file"@ != "max_wait_frames"@,
        "heartbeat_file"@ != "max_time_advance_steps"@,
        "heartbeat_file"@ != "max_time_advance_seconds"@,
        "heartbeat_file"@ != "window_modes"@,
        "heartbeat_file"@ != "capture_completion"@,
        "heartbeat_file"@ != "commands"@,
        "heartbeat_file"@ != "examples"@,
        "stale_after_ms"@ != "socket_addr"@,
        "stale_after_ms"@ != "transport"@,
        "stale_after_ms"@ != "clients"@,
        "stale_after_ms"@ != "coordinates"@,
        "stale_after_ms"@ != "capture_dir"@,
        "stale_after_ms"@ != "command_timeout_ms"@,
        "stale_after_ms"@ != "deterministic_time"@,
        "stale_after_ms"@ != "max_action_steps"@,
        "stale_after_ms"@ != "max_wait_frames"@,
        "stale_after_ms"@ != "max_time_advance_steps"@,
        "stale_after_ms"@ != "max_time_advance_seconds"@,
        "stale_after_ms"@ != "window_modes"@,
        "stale_after_ms"@ != "capture_completion"@,
        "stale_after_ms"@ != "commands"@,
        "stale_after_ms"@ != "examples"@,
        "socket_addr"@ != "transport"@,
        "socket_addr"@ != "clients"@,
        "socket_addr"@ != "coordinates"@,
        "socket_addr"@ != "capture_dir"@,
        "socket_addr"@ != "command_timeout_ms"@,
        "socket_addr"@ != "deterministic_time"@,
        "socket_addr"@ != "max_action_steps"@,
        "socket_addr"@ != "max_wait_frames"@,
        "socket_addr"@ != "max_time_advance_steps"@,
        "socket_addr"@ != "max_time_advance_seconds"@,
        "socket_addr"@ != "window_modes"@,
        "socket_addr"@ != "capture_completion"@,
        "socket_addr"@ != "commands"@,
        "socket_addr"@ != "examples"@,
        "capture_dir"@ != "command_timeout_ms"@,
        "capture_dir"@ != "deterministic_time"@,
        "capture_dir"@ != "max_action_steps"@,
        "capture_dir"@ != "max_wait_frames"@,
        "capture_dir"@ != "max_time_advance_steps"@,
        "capture_dir"@ != "max_time_advance_seconds"@,
        "capture_dir"@ != "window_modes"@,
        "capture_dir"@ != "capture_completion"@,
        "capture_dir"@ != "commands"@,
        "capture_dir"@ != "examples"@,
        "deterministic_time"@ != "max_action_steps"@,
        "deterministic_time"@ != "max_wait_frames"@,
        "deterministic_time"@ != "max_time_advance_steps"@,
        "deterministic_time"@ != "max_time_advance_seconds"@,
        "deterministic_time"@ != "window_modes"@,
        "deterministic_time"@ != "capture_completion"@,
        "deterministic_time"@ != "commands"@,
        "deterministic_time"@ != "examples"@,
        "max_wait_frames"@ != "max_time_advance_steps"@,
        "max_wait_frames"@ != "max_time_advance_seconds"@,
        "max_wait_frames"@ != "window_modes"@,
        "max_wait_frames"@ != "capture_completion"@,
        "max_wait_frames"@ != "commands"@,
        "max_wait_frames"@ != "examples"@,
        "max_time_advance_steps"@ != "max_time_advance_seconds"@,
        "max_time_advance_steps"@ != "window_modes"@,
        "max_time_advance_steps"@ != "capture_completion"@,
        "max_time_advance_steps"@ != "commands"@,
        "max_time_advance_steps"@ != "examples"@,
        "max_time_advance_seconds"@ != "window_modes"@,
        "max_time_advance_seconds"@ != "capture_completion"@,
        "max_time_advance_seconds"@ != "commands"@,
        "max_time_advance_seconds"@ != "examples"@,
{
    reveal_strlit("protocol");
    reveal_strlit("session_id");
    reveal_strlit("pid");
    reveal_strlit("started_at_unix_ms");
    reveal_strlit("heartbeat_file");
    reveal_strlit("heartbeat_interval_ms");
    reveal_strlit("stale_after_ms");
    reveal_strlit("socket_addr");
    reveal_strlit("transport");
    reveal_strlit("clients");
    reveal_strlit("coordinates");
    reveal_strlit("capture_dir");
    reveal_strlit("command_timeout_ms");
    reveal_strlit("deterministic_time");
    reveal_strlit("max_action_steps");
    reveal_strlit("max_wait_frames");
    reveal_strlit("max_time_advance_steps");
    reveal_strlit("max_time_advance_seconds");
    reveal_strlit("window_modes");
    reveal_strlit("capture_completion");
    reveal_strlit("commands");
    reveal_strlit("examples");
    assert("protocol"@.len() == 8);
    assert("session_id"@.len() == 10);
    assert("pid"@.len() == 3);
    assert("started_at_unix_ms"@.len() == 18);
    assert("heartbeat_file"@.len() == 14);
    assert("heartbeat_interval_ms"@.len() == 21);
    assert("stale_after_ms"@.len() == 14);
    assert("socket_addr"@.len() == 11);
    assert("transport"@.len() == 9);
    assert("clients"@.len() == 7);
    assert("coordinates"@.len() == 11);
    assert("capture_dir"@.len() == 11);
    assert("command_timeout_ms"@.len() == 18);
    assert("deterministic_time"@.len() == 18);
    assert("max_action_steps"@.len() == 16);
    assert("max_wait_frames"@.len() == 15);
    assert("max_time_advance_steps"@.len() == 22);
    assert("max_time_advance_seconds"@.len() == 24);
    assert("window_modes"@.len() == 12);
    assert("capture_completion"@.len() == 18);
    assert("commands"@.len() == 8);
    assert("examples"@.len() == 8);
    assert("protocol"@[0] != "commands"@[0]);
    assert("protocol"@[0] != "examples"@[0]);
    assert("heartbeat_file"@[0] != "stale_after_ms"@[0]);
    assert("socket_addr"@[0] != "coordinates"@[0]);
    assert("socket_addr"@[0] != "capture_dir"@[0]);
    assert("deterministic_time"@[0] != "capture_completion"@[0]);
}

/// Law: a client accepts the discovery document that the application writes, and finds in it the
/// session, the socket, the heartbeat and how old that may be.
pub proof fn law_own_documents_are_accepted(
    config: AgentFeedbackConfig,
    session: AgentFeedbackSession,
    socket_addr: Seq<char>,
    path: Seq<char>,
)
    ensures
        ({
            let document = discovery::document_value(config, session, socket_addr);
            &&& client::version_refusal(document, path) is None
            &&& config::names_session(document, session.session_id@)
            &&& json::value_at(document, "socket_addr"@) == Some(JsonValue::Text(socket_addr))
            &&& json::value_at(document, "heartbeat_file"@) == Some(
                JsonValue::Text(session.heartbeat_file@),
            )
            &&& json::value_at(document, "stale_after_ms"@) == Some(
                discovery::millis_value(session.stale_after),
            )
        }),
{
    lemma_names_differ();
}

/// Law: the runner finds in the discovery document the session, the socket and the directory of
/// captures that the application has.
pub proof fn law_runner_reads_the_document(
    config: AgentFeedbackConfig,
    session: AgentFeedbackSession,
    socket_addr: Seq<char>,
)
    ensures
        ({
            let document = discovery::document_value(config, session, socket_addr);
            &&& runner::text_or(document, "session_id"@, "unknown"@) == session.session_id@
            &&& runner::text_or(document, "socket_addr"@, "unknown"@) == socket_addr
            &&& json::text_in(json::value_at(document, "capture_dir"@)) == Some(config.capture_dir@)
        }),
{
    lemma_names_differ();
}

/// Law: the check of the installation reports the limits that the application advertises: whether
/// its time is deterministic, its frames of a wait where it allows any, and its steps of an advance.
pub proof fn law_advertised_limits_are_reported(
    config: AgentFeedbackConfig,
    session: AgentFeedbackSession,
    socket_addr: Seq<char>,
)
    ensures
        ({
            let document = discovery::document_value(config, session, socket_addr);
            &&& doctor::bool_capability(document, "deterministic_time"@) == Some(
                if config.deterministic_time {
                    "true"@
                } else {
                    "false"@
                },
            )
            &&& doctor::count_capability(document, "max_wait_frames"@) == (
            if config.max_wait_frames > 0 {
                Some(text::digits(config.max_wait_frames as nat))
            } else {
                None
            })
            &&& doctor::count_capability(document, "max_time_advance_steps"@) == Some(
                text::digits(commands::at_least_one(config.max_time_advance_steps) as nat),
            )
            &&& json::value_at(document, "max_time_advance_seconds"@) == Some(
                JsonValue::Number(json::span_number(config.max_time_advance)),
            )
        }),
{
    lemma_names_differ();
}

} // verus!
