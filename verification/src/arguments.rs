//! The command line of `bevy-feedback`.
use vstd::prelude::*;

use crate::lines;
use crate::lines::{find_char, starts_with};
use crate::span::{Span, NANOS_PER_MILLI};
use crate::text;
use crate::text::{cat2, cat3, chars_of, decimal, parse_number, same_text, text_of};

verus! {

/// The logical size that the window has to have.
#[derive(Clone, Copy, Debug, PartialEq, Eq, Structural)]
pub struct RequiredWindowSize {
    /// Logical width.
    pub width: u32,
    /// Logical height.
    pub height: u32,
}

/// What a run is asked to do.
#[derive(Debug, PartialEq, Eq)]
pub struct RunArgs {
    /// Where the application writes its discovery document.
    pub protocol_file: String,
    /// Where the run keeps what it found.
    pub artifacts: String,
    /// The logical size that the window has to have.
    pub required_window_size: Option<RequiredWindowSize>,
    /// How long the preparation may take.
    pub prepare_timeout: Span,
    /// How long the application may take to write its discovery document.
    pub protocol_timeout: Span,
    /// How long the application may take to leave.
    pub shutdown_timeout: Span,
    /// How long the driver may take.
    pub driver_timeout: Span,
    /// The working directory of the application alone.
    pub game_cwd: Option<String>,
    /// The preparation.
    pub prepare: Option<Vec<String>>,
    /// The application.
    pub game: Vec<String>,
    /// The driver.
    pub driver: Option<Vec<String>>,
    /// Whether the timeout came by its deprecated name.
    pub used_legacy_ready_timeout: bool,
}

/// What the check of the installation is asked to do.
#[derive(Debug, PartialEq, Eq)]
pub struct DoctorArgs {
    /// Where the application writes its discovery document.
    pub protocol_file: String,
}

/// What a command line asks for.
#[derive(Debug, PartialEq, Eq)]
pub enum Command {
    /// Show how the command is used.
    Help,
    /// Show the version.
    Version,
    /// Run an application.
    Run(RunArgs),
    /// Check the installation.
    Doctor(DoctorArgs),
}

/// A variable of the environment that has to be a text.
pub enum EnvText {
    /// It is not set.
    Absent,
    /// Its text.
    Text(String),
    /// It is set to something that is not valid UTF-8.
    NotText,
}

/// The variables of the environment that a command line falls back on, and the time.
pub struct Environment {
    /// `BEVY_FEEDBACK_PROTOCOL`.
    pub protocol: Option<String>,
    /// `BEVY_FEEDBACK_ARTIFACTS`.
    pub artifacts: Option<String>,
    /// `BEVY_FEEDBACK_PREPARE_TIMEOUT_MS`.
    pub prepare_timeout: EnvText,
    /// `BEVY_FEEDBACK_PROTOCOL_TIMEOUT_MS`.
    pub protocol_timeout: EnvText,
    /// `BEVY_FEEDBACK_READY_TIMEOUT_MS`.
    pub ready_timeout: EnvText,
    /// `BEVY_FEEDBACK_DRIVER_TIMEOUT_MS`.
    pub driver_timeout: EnvText,
    /// `BEVY_FEEDBACK_SHUTDOWN_TIMEOUT_MS`.
    pub shutdown_timeout: EnvText,
    /// `BEVY_FEEDBACK_REQUIRED_WINDOW_SIZE`.
    pub required_window_size: EnvText,
    /// Milliseconds since the Unix epoch.
    pub now_ms: u128,
}

impl Environment {
    /// An environment in which nothing is set.
    pub fn unset(now_ms: u128) -> (r: Environment)
        ensures
            r == (Environment {
                protocol: None,
                artifacts: None,
                prepare_timeout: EnvText::Absent,
                protocol_timeout: EnvText::Absent,
                ready_timeout: EnvText::Absent,
                driver_timeout: EnvText::Absent,
                shutdown_timeout: EnvText::Absent,
                required_window_size: EnvText::Absent,
                now_ms,
            }),
    {
        Environment {
            protocol: None,
            artifacts: None,
            prepare_timeout: EnvText::Absent,
            protocol_timeout: EnvText::Absent,
            ready_timeout: EnvText::Absent,
            driver_timeout: EnvText::Absent,
            shutdown_timeout: EnvText::Absent,
            required_window_size: EnvText::Absent,
            now_ms,
        }
    }
}

/// What a run is asked to do, as a model.
#[verifier::ext_equal]
pub struct RunView {
    /// Where the application writes its discovery document.
    pub protocol_file: Seq<char>,
    /// Where the run keeps what it found.
    pub artifacts: Seq<char>,
    /// The logical size that the window has to have.
    pub required_window_size: Option<RequiredWindowSize>,
    /// How long the preparation may take.
    pub prepare_timeout: Span,
    /// How long the application may take to write its discovery document.
    pub protocol_timeout: Span,
    /// How long the application may take to leave.
    pub shutdown_timeout: Span,
    /// How long the driver may take.
    pub driver_timeout: Span,
    /// The working directory of the application alone.
    pub game_cwd: Option<Seq<char>>,
    /// The preparation.
    pub prepare: Option<Seq<Seq<char>>>,
    /// The application.
    pub game: Seq<Seq<char>>,
    /// The driver.
    pub driver: Option<Seq<Seq<char>>>,
    /// Whether the timeout came by its deprecated name.
    pub used_legacy_ready_timeout: bool,
}

/// What a command line asks for, as a model.
#[verifier::ext_equal]
pub enum CommandView {
    /// Show how the command is used.
    Help,
    /// Show the version.
    Version,
    /// Run an application.
    Run(RunView),
    /// Check the installation, with the place of the discovery document.
    Doctor(Seq<char>),
}

/// The view of an optional text.
pub open spec fn opt_view(t: Option<String>) -> Option<Seq<char>> {
    match t {
        Some(s) => Some(s@),
        None => None,
    }
}

/// The view of an optional list of texts.
pub open spec fn opt_views(t: Option<Vec<String>>) -> Option<Seq<Seq<char>>> {
    match t {
        Some(v) => Some(lines::views(v@)),
        None => None,
    }
}

impl View for RunArgs {
    type V = RunView;

    open spec fn view(&self) -> RunView {
        RunView {
            protocol_file: self.protocol_file@,
            artifacts: self.artifacts@,
            required_window_size: self.required_window_size,
            prepare_timeout: self.prepare_timeout,
            protocol_timeout: self.protocol_timeout,
            shutdown_timeout: self.shutdown_timeout,
            driver_timeout: self.driver_timeout,
            game_cwd: opt_view(self.game_cwd),
            prepare: opt_views(self.prepare),
            game: lines::views(self.game@),
            driver: opt_views(self.driver),
            used_legacy_ready_timeout: self.used_legacy_ready_timeout,
        }
    }
}

impl View for Command {
    type V = CommandView;

    open spec fn view(&self) -> CommandView {
        match *self {
            Command::Help => CommandView::Help,
            Command::Version => CommandView::Version,
            Command::Run(args) => CommandView::Run(args@),
            Command::Doctor(args) => CommandView::Doctor(args.protocol_file@),
        }
    }
}

/// The settings that options have made so far.
pub struct Settings {
    /// Where the application writes its discovery document.
    pub protocol_file: String,
    /// Where the run keeps what it found.
    pub artifacts: String,
    /// The logical size that the window has to have.
    pub required_window_size: Option<RequiredWindowSize>,
    /// How long the preparation may take.
    pub prepare_timeout: Span,
    /// How long the application may take to write its discovery document.
    pub protocol_timeout: Span,
    /// How long the application may take to leave.
    pub shutdown_timeout: Span,
    /// How long the driver may take.
    pub driver_timeout: Span,
    /// The working directory of the application alone.
    pub game_cwd: Option<String>,
    /// Whether `--protocol-timeout` was given.
    pub protocol_flag_seen: bool,
    /// Whether `--ready-timeout` was given.
    pub ready_flag_seen: bool,
    /// Whether the timeout came by its deprecated name.
    pub used_legacy_ready_timeout: bool,
}

/// The settings that options have made so far, as a model.
pub struct SettingsView {
    /// Where the application writes its discovery document.
    pub protocol_file: Seq<char>,
    /// Where the run keeps what it found.
    pub artifacts: Seq<char>,
    /// The logical size that the window has to have.
    pub required_window_size: Option<RequiredWindowSize>,
    /// How long the preparation may take.
    pub prepare_timeout: Span,
    /// How long the application may take to write its discovery document.
    pub protocol_timeout: Span,
    /// How long the application may take to leave.
    pub shutdown_timeout: Span,
    /// How long the driver may take.
    pub driver_timeout: Span,
    /// The working directory of the application alone.
    pub game_cwd: Option<Seq<char>>,
    /// Whether `--protocol-timeout` was given.
    pub protocol_flag_seen: bool,
    /// Whether `--ready-timeout` was given.
    pub ready_flag_seen: bool,
    /// Whether the timeout came by its deprecated name.
    pub used_legacy_ready_timeout: bool,
}

impl View for Settings {
    type V = SettingsView;

    open spec fn view(&self) -> SettingsView {
        SettingsView {
            protocol_file: self.protocol_file@,
            artifacts: self.artifacts@,
            required_window_size: self.required_window_size,
            prepare_timeout: self.prepare_timeout,
            protocol_timeout: self.protocol_timeout,
            shutdown_timeout: self.shutdown_timeout,
            driver_timeout: self.driver_timeout,
            game_cwd: opt_view(self.game_cwd),
            protocol_flag_seen: self.protocol_flag_seen,
            ready_flag_seen: self.ready_flag_seen,
            used_legacy_ready_timeout: self.used_legacy_ready_timeout,
        }
    }
}

/// A result and its model say the same.
pub open spec fn says(r: Result<Command, String>, s: Result<CommandView, Seq<char>>) -> bool {
    match r {
        Ok(command) => s == Ok::<CommandView, Seq<char>>(command@),
        Err(message) => s == Err::<CommandView, Seq<char>>(message@),
    }
}

/// The version text.
pub fn version(package: &str) -> (r: String)
    ensures
        r@ == "bevy-feedback "@ + package@,
{
    cat2("bevy-feedback ", package)
}

/// How the command is used.
pub const USAGE: &'static str = "usage:\n  bevy-feedback --help\n  bevy-feedback --version\n  bevy-feedback doctor [--protocol FILE]\n  bevy-feedback run [options] -- <game command...>\n  bevy-feedback run [options] [--prepare <prepare...>] --game <game...> [--driver <driver...>]\n\noptions:\n  --prepare-timeout MS   prepare timeout (default 300000)\n  --protocol-timeout MS  protocol startup timeout after game spawn (default 60000)\n  --game-cwd DIR         working directory for the game only\n  --require-window-size WIDTHxHEIGHT\n                         fail unless the actual logical window has this size\n  --ready-timeout MS     deprecated alias for --protocol-timeout\n\nenv:\n  BEVY_FEEDBACK_PROTOCOL             protocol file (default target/agent-feedback/agent-feedback.json)\n  BEVY_FEEDBACK_ARTIFACTS            artifact dir (default target/agent-feedback/artifacts/run-<unix-ms>)\n  BEVY_FEEDBACK_PREPARE_TIMEOUT_MS   prepare timeout in milliseconds (default 300000)\n  BEVY_FEEDBACK_PROTOCOL_TIMEOUT_MS  protocol timeout in milliseconds (default 60000)\n  BEVY_FEEDBACK_READY_TIMEOUT_MS     deprecated protocol-timeout fallback\n  BEVY_FEEDBACK_DRIVER_TIMEOUT_MS    driver timeout in milliseconds (default 300000)\n  BEVY_FEEDBACK_SHUTDOWN_TIMEOUT_MS  shutdown timeout in milliseconds (default 5000)\n  BEVY_FEEDBACK_REQUIRED_WINDOW_SIZE required logical window size (for example 1280x720)\n  BEVY_FEEDBACK_CAPTURE_DIR         exported to game/driver as the capture dir\n  BEVY_FEEDBACK_TRANSCRIPT          exported to game/driver as transcript.jsonl\n\ntimeouts:\n  prepare 300s, protocol 60s, driver 300s, shutdown 5s\n\nartifacts:\n  successful runs print artifacts=<dir> and copy captured PNGs to <dir>/screenshots/\n  live captures remain in the protocol file's capture_dir during the run\n\nexamples:\n  bevy-feedback --version\n  bevy-feedback doctor\n  bevy-feedback run -- cargo run --example minimal\n  bevy-feedback run --prepare cargo build --features agent --game cargo run --features agent --driver python3 tests/drive_camera.py\n\nnote:\n  Protocol-ready is not game-ready; use skills/driving-bevy-games/SKILL.md to choose readiness and time control.\n  Frame waits count app updates, not gameplay time. For animated games use predicates; use deterministic advance for gameplay time.\n  Capture completion proves screenshot readback, not OS compositor presentation.\n  Do not quote the whole game or driver command; pass each argv word separately.";

/// How the command is used.
pub fn usage() -> (r: String)
    ensures
        r@ == USAGE@,
{
    USAGE.to_owned()
}

/// What is said where the application to run is missing.
pub const MISSING_GAME: &'static str = "missing game command; use '-- <game...>' or '--game <game...>'";

/// What is said where the application to run is missing.
pub fn missing_game() -> (r: String)
    ensures
        r@ == MISSING_GAME@,
{
    MISSING_GAME.to_owned()
}

/// What is said of a window size that cannot be read.
pub const WINDOW_SIZE_FORM: &'static str = "required window size must use WIDTHxHEIGHT with positive integers";

/// A timeout as a number of milliseconds above zero.
pub open spec fn timeout_of(value: Seq<char>, name: Seq<char>) -> Result<Span, Seq<char>> {
    match text::parsed_number(value, u64::MAX as nat) {
        Some(n) => if n > 0 {
            Ok(Span { nanos: (n * NANOS_PER_MILLI) as u128 })
        } else {
            Err(name + " must be a positive integer number of milliseconds"@)
        },
        None => Err(name + " must be a positive integer number of milliseconds"@),
    }
}

/// Reads a timeout.
pub fn parse_timeout_ms(value: &str, name: &str) -> (r: Result<Span, String>)
    ensures
        match r {
            Ok(span) => timeout_of(value@, name@) == Ok::<Span, Seq<char>>(span) && span.wf(),
            Err(message) => timeout_of(value@, name@) == Err::<Span, Seq<char>>(message@),
        },
{
    match parse_number(value, u64::MAX) {
        Some(n) if n > 0 => Ok(Span::from_millis(n)),
        _ => Err(cat2(name, " must be a positive integer number of milliseconds")),
    }
}

/// A window size written as `WIDTHxHEIGHT`.
pub open spec fn window_size_of(value: Seq<char>) -> Result<RequiredWindowSize, Seq<char>> {
    let at = lines::first_of(value, 'x');
    if at < 0 || at >= value.len() {
        Err(WINDOW_SIZE_FORM@)
    } else {
        match (
            text::parsed_number(value.take(at), u32::MAX as nat),
            text::parsed_number(value.skip(at + 1), u32::MAX as nat),
        ) {
            (Some(width), Some(height)) => if width > 0 && height > 0 {
                Ok(RequiredWindowSize { width: width as u32, height: height as u32 })
            } else {
                Err(WINDOW_SIZE_FORM@)
            },
            _ => Err(WINDOW_SIZE_FORM@),
        }
    }
}

/// Reads a window size.
pub fn parse_window_size(value: &str) -> (r: Result<RequiredWindowSize, String>)
    ensures
        match r {
            Ok(size) => window_size_of(value@) == Ok::<RequiredWindowSize, Seq<char>>(size),
            Err(message) => window_size_of(value@) == Err::<RequiredWindowSize, Seq<char>>(
                message@,
            ),
        },
{
    let v = chars_of(value);
    let at = find_char(&v, 0, 'x');
    assert(v@.skip(0) =~= v@);
    if at >= v.len() {
        return Err(WINDOW_SIZE_FORM.to_owned());
    }
    let width = text_of(vstd::slice::slice_subrange(v.as_slice(), 0, at));
    let height = text_of(vstd::slice::slice_subrange(v.as_slice(), at + 1, v.len()));
    assert(width@ =~= value@.take(at as int));
    assert(height@ =~= value@.skip(at + 1));
    match (
        parse_number(width.as_str(), u32::MAX as u64),
        parse_number(height.as_str(), u32::MAX as u64),
    ) {
        (Some(width), Some(height)) if width > 0 && height > 0 => Ok(
            RequiredWindowSize { width: width as u32, height: height as u32 },
        ),
        _ => Err(WINDOW_SIZE_FORM.to_owned()),
    }
}

/// What is said where an option lacks its value.
pub open spec fn needs_value(option: Seq<char>) -> Seq<char> {
    "option '"@ + option + "' requires a value"@
}

/// The value that follows an option.
pub open spec fn value_after(args: Seq<Seq<char>>, index: int, option: Seq<char>) -> Result<
    Seq<char>,
    Seq<char>,
> {
    if index + 1 >= args.len() || "--"@.is_prefix_of(args[index + 1]) {
        Err(needs_value(option))
    } else {
        Ok(args[index + 1])
    }
}

/// The value that follows an option. Another option is no value.
pub fn option_value<'a>(args: &'a [String], index: usize, option: &str) -> (r: Result<
    &'a str,
    String,
>)
    ensures
        match r {
            Ok(value) => value_after(lines::views(args@), index as int, option@) == Ok::<
                Seq<char>,
                Seq<char>,
            >(value@),
            Err(message) => value_after(lines::views(args@), index as int, option@) == Err::<
                Seq<char>,
                Seq<char>,
            >(message@),
        },
{
    if index >= args.len() || args.len() - index <= 1 {
        return Err(cat3("option '", option, "' requires a value"));
    }
    let value = args[index + 1].as_str();
    if starts_with(value, "--") {
        return Err(cat3("option '", option, "' requires a value"));
    }
    Ok(value)
}

/// The view of a variable of the environment: what it holds, where it is set to a text.
pub open spec fn env_view(e: EnvText) -> Option<Option<Seq<char>>> {
    match e {
        EnvText::Absent => None,
        EnvText::Text(s) => Some(Some(s@)),
        EnvText::NotText => Some(None),
    }
}

/// A timeout from the environment, or its default.
pub open spec fn env_timeout(
    e: Option<Option<Seq<char>>>,
    name: Seq<char>,
    not_text: Seq<char>,
    default_ms: u64,
) -> Result<Span, Seq<char>> {
    match e {
        None => Ok(Span { nanos: (default_ms * NANOS_PER_MILLI) as u128 }),
        Some(None) => Err(not_text),
        Some(Some(value)) => timeout_of(value, name),
    }
}

/// Reads a timeout from the environment, or takes its default.
pub fn default_timeout(e: &EnvText, name: &str, not_text: &str, default_ms: u64) -> (r: Result<
    Span,
    String,
>)
    ensures
        match r {
            Ok(span) => env_timeout(env_view(*e), name@, not_text@, default_ms) == Ok::<
                Span,
                Seq<char>,
            >(span) && span.wf(),
            Err(message) => env_timeout(env_view(*e), name@, not_text@, default_ms) == Err::<
                Span,
                Seq<char>,
            >(message@),
        },
{
    match e {
        EnvText::Absent => Ok(Span::from_millis(default_ms)),
        EnvText::NotText => Err(not_text.to_owned()),
        EnvText::Text(value) => parse_timeout_ms(value.as_str(), name),
    }
}

/// Where the discovery document is looked for where nothing says so.
pub const DEFAULT_PROTOCOL_FILE: &'static str = "target/agent-feedback/agent-feedback.json";

/// Where the discovery document is looked for, by the environment.
pub open spec fn env_protocol_file(env: Environment) -> Seq<char> {
    match env.protocol {
        Some(path) => path@,
        None => DEFAULT_PROTOCOL_FILE@,
    }
}

fn default_protocol_file(env: &Environment) -> (r: String)
    ensures
        r@ == env_protocol_file(*env),
{
    match &env.protocol {
        Some(path) => path.clone(),
        None => DEFAULT_PROTOCOL_FILE.to_owned(),
    }
}

/// Where a run keeps what it found, by the environment.
pub open spec fn env_artifacts(env: Environment) -> Seq<char> {
    match env.artifacts {
        Some(path) => path@,
        None => "target/agent-feedback/artifacts/run-"@ + text::digits(env.now_ms as nat),
    }
}

/// The settings before any option.
pub open spec fn env_settings(env: Environment) -> Result<SettingsView, Seq<char>> {
    let legacy = env.protocol_timeout is Absent && !(env.ready_timeout is Absent);
    match env_timeout(
        env_view(env.prepare_timeout),
        "prepare timeout"@,
        "BEVY_FEEDBACK_PREPARE_TIMEOUT_MS must be valid UTF-8"@,
        300_000,
    ) {
        Err(message) => Err(message),
        Ok(prepare_timeout) => match env_timeout(
            env_view(
                if legacy {
                    env.ready_timeout
                } else {
                    env.protocol_timeout
                },
            ),
            "protocol timeout"@,
            "protocol timeout environment value must be valid UTF-8"@,
            60_000,
        ) {
            Err(message) => Err(message),
            Ok(protocol_timeout) => match env_window(env_view(env.required_window_size)) {
                Err(message) => Err(message),
                Ok(required_window_size) => match env_timeout(
                    env_view(env.driver_timeout),
                    "driver timeout"@,
                    "BEVY_FEEDBACK_DRIVER_TIMEOUT_MS must be valid UTF-8"@,
                    300_000,
                ) {
                    Err(message) => Err(message),
                    Ok(driver_timeout) => match env_timeout(
                        env_view(env.shutdown_timeout),
                        "shutdown timeout"@,
                        "BEVY_FEEDBACK_SHUTDOWN_TIMEOUT_MS must be valid UTF-8"@,
                        5_000,
                    ) {
                        Err(message) => Err(message),
                        Ok(shutdown_timeout) => Ok(
                            SettingsView {
                                protocol_file: env_protocol_file(env),
                                artifacts: env_artifacts(env),
                                required_window_size,
                                prepare_timeout,
                                protocol_timeout,
                                shutdown_timeout,
                                driver_timeout,
                                game_cwd: None,
                                protocol_flag_seen: false,
                                ready_flag_seen: false,
                                used_legacy_ready_timeout: legacy,
                            },
                        ),
                    },
                },
            },
        },
    }
}

/// The window size that the environment asks for.
pub open spec fn env_window(e: Option<Option<Seq<char>>>) -> Result<
    Option<RequiredWindowSize>,
    Seq<char>,
> {
    match e {
        None => Ok(None),
        Some(None) => Err("BEVY_FEEDBACK_REQUIRED_WINDOW_SIZE must be valid UTF-8"@),
        Some(Some(value)) => match window_size_of(value) {
            Ok(size) => Ok(Some(size)),
            Err(message) => Err(message),
        },
    }
}

fn default_window(e: &EnvText) -> (r: Result<Option<RequiredWindowSize>, String>)
    ensures
        match r {
            Ok(size) => env_window(env_view(*e)) == Ok::<Option<RequiredWindowSize>, Seq<char>>(
                size,
            ),
            Err(message) => env_window(env_view(*e)) == Err::<
                Option<RequiredWindowSize>,
                Seq<char>,
            >(message@),
        },
{
    match e {
        EnvText::Absent => Ok(None),
        EnvText::NotText => Err("BEVY_FEEDBACK_REQUIRED_WINDOW_SIZE must be valid UTF-8".to_owned()),
        EnvText::Text(value) => match parse_window_size(value.as_str()) {
            Ok(size) => Ok(Some(size)),
            Err(message) => Err(message),
        },
    }
}

fn default_settings(env: &Environment) -> (r: Result<Settings, String>)
    ensures
        match r {
            Ok(settings) => env_settings(*env) == Ok::<SettingsView, Seq<char>>(settings@),
            Err(message) => env_settings(*env) == Err::<SettingsView, Seq<char>>(message@),
        },
{
    let protocol_file = default_protocol_file(env);
    let artifacts = match &env.artifacts {
        Some(path) => path.clone(),
        None => cat2("target/agent-feedback/artifacts/run-", decimal(env.now_ms).as_str()),
    };
    let prepare_timeout = match default_timeout(
        &env.prepare_timeout,
        "prepare timeout",
        "BEVY_FEEDBACK_PREPARE_TIMEOUT_MS must be valid UTF-8",
        300_000,
    ) {
        Ok(span) => span,
        Err(message) => return Err(message),
    };
    let legacy = matches!(env.protocol_timeout, EnvText::Absent) && !matches!(
        env.ready_timeout,
        EnvText::Absent
    );
    let source = if legacy {
        &env.ready_timeout
    } else {
        &env.protocol_timeout
    };
    let protocol_timeout = match default_timeout(
        source,
        "protocol timeout",
        "protocol timeout environment value must be valid UTF-8",
        60_000,
    ) {
        Ok(span) => span,
        Err(message) => return Err(message),
    };
    let required_window_size = match default_window(&env.required_window_size) {
        Ok(size) => size,
        Err(message) => return Err(message),
    };
    let driver_timeout = match default_timeout(
        &env.driver_timeout,
        "driver timeout",
        "BEVY_FEEDBACK_DRIVER_TIMEOUT_MS must be valid UTF-8",
        300_000,
    ) {
        Ok(span) => span,
        Err(message) => return Err(message),
    };
    let shutdown_timeout = match default_timeout(
        &env.shutdown_timeout,
        "shutdown timeout",
        "BEVY_FEEDBACK_SHUTDOWN_TIMEOUT_MS must be valid UTF-8",
        5_000,
    ) {
        Ok(span) => span,
        Err(message) => return Err(message),
    };
    Ok(
        Settings {
            protocol_file,
            artifacts,
            required_window_size,
            prepare_timeout,
            protocol_timeout,
            shutdown_timeout,
            driver_timeout,
            game_cwd: None,
            protocol_flag_seen: false,
            ready_flag_seen: false,
            used_legacy_ready_timeout: legacy,
        },
    )
}

/// The place of a text in a list, or the length of the list.
pub open spec fn place_of(args: Seq<Seq<char>>, wanted: Seq<char>) -> int
    decreases args.len(),
{
    if args.len() == 0 || args[0] == wanted {
        0
    } else {
        1 + place_of(args.skip(1), wanted)
    }
}

proof fn lemma_place_of(args: Seq<Seq<char>>, wanted: Seq<char>, n: int)
    requires
        0 <= n <= args.len(),
        forall|q: int| 0 <= q < n ==> args[q] != wanted,
        n < args.len() ==> args[n] == wanted,
    ensures
        place_of(args, wanted) == n,
    decreases args.len(),
{
    if n > 0 {
        let t = args.skip(1);
        assert forall|q: int| 0 <= q < n - 1 implies t[q] != wanted by {
            assert(t[q] == args[q + 1]);
        }
        lemma_place_of(t, wanted, n - 1);
    }
}

fn find_arg(args: &[String], from: usize, wanted: &str) -> (r: usize)
    requires
        from <= args@.len(),
    ensures
        from <= r <= args@.len(),
        r - from == place_of(lines::views(args@).skip(from as int), wanted@),
{
    let mut i: usize = from;
    while i < args.len() && !same_text(args[i].as_str(), wanted)
        invariant
            from <= i <= args@.len(),
            forall|q: int| from <= q < i ==> args@[q]@ != wanted@,
        decreases args@.len() - i,
    {
        i = i + 1;
    }
    proof {
        let t = lines::views(args@).skip(from as int);
        assert forall|q: int| 0 <= q < i - from implies t[q] != wanted@ by {
            assert(t[q] == args@[from + q]@);
        }
        lemma_place_of(t, wanted@, i - from);
    }
    i
}

fn copy_args(args: &[String], from: usize, to: usize) -> (r: Vec<String>)
    requires
        from <= to <= args@.len(),
    ensures
        lines::views(r@) == lines::views(args@).subrange(from as int, to as int),
{
    let mut r: Vec<String> = Vec::new();
    let mut i: usize = from;
    while i < to
        invariant
            from <= i <= to <= args@.len(),
            lines::views(r@) == lines::views(args@).subrange(from as int, i as int),
        decreases to - i,
    {
        let text = args[i].clone();
        proof {
            lines::lemma_views_push(r@, text);
            assert(lines::views(args@).subrange(from as int, i + 1) =~= lines::views(
                args@,
            ).subrange(from as int, i as int).push(args@[i as int]@));
        }
        r.push(text);
        i = i + 1;
    }
    assert(lines::views(r@) =~= lines::views(args@).subrange(from as int, to as int));
    r
}

/// The run that the settings and the commands make.
pub open spec fn run_of(
    s: SettingsView,
    prepare: Option<Seq<Seq<char>>>,
    game: Seq<Seq<char>>,
    driver: Option<Seq<Seq<char>>>,
) -> CommandView {
    CommandView::Run(
        RunView {
            protocol_file: s.protocol_file,
            artifacts: s.artifacts,
            required_window_size: s.required_window_size,
            prepare_timeout: s.prepare_timeout,
            protocol_timeout: s.protocol_timeout,
            shutdown_timeout: s.shutdown_timeout,
            driver_timeout: s.driver_timeout,
            game_cwd: s.game_cwd,
            prepare,
            game,
            driver,
            used_legacy_ready_timeout: s.used_legacy_ready_timeout,
        },
    )
}

fn run_with(
    s: Settings,
    prepare: Option<Vec<String>>,
    game: Vec<String>,
    driver: Option<Vec<String>>,
) -> (r: Command)
    ensures
        r@ == run_of(s@, opt_views(prepare), lines::views(game@), opt_views(driver)),
{
    Command::Run(
        RunArgs {
            protocol_file: s.protocol_file,
            artifacts: s.artifacts,
            required_window_size: s.required_window_size,
            prepare_timeout: s.prepare_timeout,
            protocol_timeout: s.protocol_timeout,
            shutdown_timeout: s.shutdown_timeout,
            driver_timeout: s.driver_timeout,
            game_cwd: s.game_cwd,
            prepare,
            game,
            driver,
            used_legacy_ready_timeout: s.used_legacy_ready_timeout,
        },
    )
}

/// What follows `--game`: the application, and after `--driver` its driver.
pub open spec fn game_driver_of(
    args: Seq<Seq<char>>,
    s: SettingsView,
    prepare: Option<Seq<Seq<char>>>,
) -> Result<CommandView, Seq<char>> {
    let at = place_of(args, "--driver"@);
    let game = if at < args.len() {
        args.take(at)
    } else {
        args
    };
    if game.len() == 0 {
        Err(MISSING_GAME@)
    } else if at >= args.len() {
        Ok(run_of(s, prepare, game, None))
    } else if args.skip(at + 1).len() == 0 {
        Err("missing driver command after '--driver'"@)
    } else {
        Ok(run_of(s, prepare, game, Some(args.skip(at + 1))))
    }
}

/// Reads what follows `--game`.
pub fn parse_game_driver(
    args: &[String],
    from: usize,
    settings: Settings,
    prepare: Option<Vec<String>>,
) -> (r: Result<Command, String>)
    requires
        from <= args@.len(),
    ensures
        says(
            r,
            game_driver_of(
                lines::views(args@).skip(from as int),
                settings@,
                opt_views(prepare),
            ),
        ),
{
    let at = find_arg(args, from, "--driver");
    let ghost rest = lines::views(args@).skip(from as int);
    if at == from {
        return Err(missing_game());
    }
    let game = copy_args(args, from, at);
    if at >= args.len() {
        assert(lines::views(game@) =~= rest);
        return Ok(run_with(settings, prepare, game, None));
    }
    assert(lines::views(game@) =~= rest.take(at - from));
    if at + 1 == args.len() {
        return Err("missing driver command after '--driver'".to_owned());
    }
    let driver = copy_args(args, at + 1, args.len());
    assert(lines::views(driver@) =~= rest.skip(at - from + 1));
    let driver = Some(driver);
    Ok(run_with(settings, prepare, game, driver))
}

/// An option of a run that takes a value.
pub open spec fn takes_value(option: Seq<char>) -> bool {
    ||| option == "--protocol"@
    ||| option == "--artifacts"@
    ||| option == "--prepare-timeout"@
    ||| option == "--protocol-timeout"@
    ||| option == "--ready-timeout"@
    ||| option == "--game-cwd"@
    ||| option == "--require-window-size"@
    ||| option == "--driver-timeout"@
    ||| option == "--shutdown-timeout"@
}

/// The two names of the protocol timeout exclude each other.
pub open spec fn conflict(option: Seq<char>, s: SettingsView) -> Option<Seq<char>> {
    if option == "--protocol-timeout"@ && s.ready_flag_seen {
        Some("--protocol-timeout conflicts with deprecated --ready-timeout"@)
    } else if option == "--ready-timeout"@ && s.protocol_flag_seen {
        Some("deprecated --ready-timeout conflicts with --protocol-timeout"@)
    } else {
        None
    }
}

/// The settings after an option with its value.
pub open spec fn set_option(option: Seq<char>, value: Seq<char>, s: SettingsView) -> Result<
    SettingsView,
    Seq<char>,
> {
    if option == "--protocol"@ {
        Ok(SettingsView { protocol_file: value, ..s })
    } else if option == "--artifacts"@ {
        Ok(SettingsView { artifacts: value, ..s })
    } else if option == "--prepare-timeout"@ {
        match timeout_of(value, "prepare timeout"@) {
            Ok(span) => Ok(SettingsView { prepare_timeout: span, ..s }),
            Err(message) => Err(message),
        }
    } else if option == "--protocol-timeout"@ {
        match timeout_of(value, "protocol timeout"@) {
            Ok(span) => Ok(
                SettingsView {
                    protocol_timeout: span,
                    protocol_flag_seen: true,
                    used_legacy_ready_timeout: false,
                    ..s
                },
            ),
            Err(message) => Err(message),
        }
    } else if option == "--ready-timeout"@ {
        match timeout_of(value, "protocol timeout"@) {
            Ok(span) => Ok(
                SettingsView {
                    protocol_timeout: span,
                    ready_flag_seen: true,
                    used_legacy_ready_timeout: true,
                    ..s
                },
            ),
            Err(message) => Err(message),
        }
    } else if option == "--game-cwd"@ {
        Ok(SettingsView { game_cwd: Some(value), ..s })
    } else if option == "--require-window-size"@ {
        match window_size_of(value) {
            Ok(size) => Ok(SettingsView { required_window_size: Some(size), ..s }),
            Err(message) => Err(message),
        }
    } else if option == "--driver-timeout"@ {
        match timeout_of(value, "driver timeout"@) {
            Ok(span) => Ok(SettingsView { driver_timeout: span, ..s }),
            Err(message) => Err(message),
        }
    } else {
        match timeout_of(value, "shutdown timeout"@) {
            Ok(span) => Ok(SettingsView { shutdown_timeout: span, ..s }),
            Err(message) => Err(message),
        }
    }
}

/// The word starts with a dash.
pub open spec fn dashed(word: Seq<char>) -> bool {
    word.len() > 0 && word[0] == '-'
}

fn is_dashed(word: &str) -> (r: bool)
    ensures
        r == dashed(word@),
{
    let v = chars_of(word);
    v.len() > 0 && v[0] == '-'
}

/// What the options of a run ask for, from some settings on.
pub open spec fn options_of(args: Seq<Seq<char>>, s: SettingsView) -> Result<CommandView, Seq<char>>
    decreases args.len(),
{
    if args.len() == 0 {
        Err(MISSING_GAME@)
    } else if takes_value(args[0]) {
        match conflict(args[0], s) {
            Some(message) => Err(message),
            None => match value_after(args, 0, args[0]) {
                Err(message) => Err(message),
                Ok(value) => match set_option(args[0], value, s) {
                    Err(message) => Err(message),
                    Ok(next) => options_of(args.skip(2), next),
                },
            },
        }
    } else if args[0] == "--prepare"@ {
        let rest = args.skip(1);
        let at = place_of(rest, "--game"@);
        if at >= rest.len() {
            Err("--prepare requires a following --game command"@)
        } else if at == 0 {
            Err("missing prepare command after '--prepare'"@)
        } else {
            game_driver_of(rest.skip(at + 1), s, Some(rest.take(at)))
        }
    } else if args[0] == "--game"@ {
        game_driver_of(args.skip(1), s, None)
    } else if args[0] == "--"@ {
        if args.skip(1).len() == 0 {
            Err(MISSING_GAME@)
        } else {
            Ok(run_of(s, None, args.skip(1), None))
        }
    } else if dashed(args[0]) {
        Err("unknown option '"@ + args[0] + "' (see 'bevy-feedback run --help')"@)
    } else {
        Err(MISSING_GAME@)
    }
}

fn is_value_option(option: &str) -> (r: bool)
    ensures
        r == takes_value(option@),
{
    same_text(option, "--protocol") || same_text(option, "--artifacts") || same_text(
        option,
        "--prepare-timeout",
    ) || same_text(option, "--protocol-timeout") || same_text(option, "--ready-timeout")
        || same_text(option, "--game-cwd") || same_text(option, "--require-window-size")
        || same_text(option, "--driver-timeout") || same_text(option, "--shutdown-timeout")
}

fn apply_option(option: &str, value: &str, settings: &mut Settings) -> (r: Option<String>)
    requires
        takes_value(option@),
    ensures
        match r {
            None => set_option(option@, value@, old(settings)@) == Ok::<SettingsView, Seq<char>>(
                final(settings)@,
            ),
            Some(message) => set_option(option@, value@, old(settings)@) == Err::<
                SettingsView,
                Seq<char>,
            >(message@),
        },
{
    if same_text(option, "--protocol") {
        settings.protocol_file = value.to_owned();
    } else if same_text(option, "--artifacts") {
        settings.artifacts = value.to_owned();
    } else if same_text(option, "--prepare-timeout") {
        match parse_timeout_ms(value, "prepare timeout") {
            Ok(span) => settings.prepare_timeout = span,
            Err(message) => return Some(message),
        }
    } else if same_text(option, "--protocol-timeout") {
        match parse_timeout_ms(value, "protocol timeout") {
            Ok(span) => {
                settings.protocol_timeout = span;
                settings.protocol_flag_seen = true;
                settings.used_legacy_ready_timeout = false;
            },
            Err(message) => return Some(message),
        }
    } else if same_text(option, "--ready-timeout") {
        match parse_timeout_ms(value, "protocol timeout") {
            Ok(span) => {
                settings.protocol_timeout = span;
                settings.ready_flag_seen = true;
                settings.used_legacy_ready_timeout = true;
            },
            Err(message) => return Some(message),
        }
    } else if same_text(option, "--game-cwd") {
        settings.game_cwd = Some(value.to_owned());
    } else if same_text(option, "--require-window-size") {
        match parse_window_size(value) {
            Ok(size) => settings.required_window_size = Some(size),
            Err(message) => return Some(message),
        }
    } else if same_text(option, "--driver-timeout") {
        match parse_timeout_ms(value, "driver timeout") {
            Ok(span) => settings.driver_timeout = span,
            Err(message) => return Some(message),
        }
    } else {
        match parse_timeout_ms(value, "shutdown timeout") {
            Ok(span) => settings.shutdown_timeout = span,
            Err(message) => return Some(message),
        }
    }
    None
}

/// A command line that is one word asking for help or the version.
pub open spec fn single_word(args: Seq<Seq<char>>) -> Option<CommandView> {
    if args.len() == 1 && (args[0] == "--help"@ || args[0] == "-h"@) {
        Some(CommandView::Help)
    } else if args.len() == 1 && (args[0] == "--version"@ || args[0] == "-V"@) {
        Some(CommandView::Version)
    } else {
        None
    }
}

fn lone_word(args: &[String], from: usize) -> (r: Option<Command>)
    requires
        from <= args@.len(),
    ensures
        match r {
            Some(command) => single_word(lines::views(args@).skip(from as int)) == Some(command@),
            None => single_word(lines::views(args@).skip(from as int)) is None,
        },
{
    let ghost rest = lines::views(args@).skip(from as int);
    if args.len() - from == 1 {
        let word = args[from].as_str();
        assert(rest[0] == word@);
        if same_text(word, "--help") || same_text(word, "-h") {
            return Some(Command::Help);
        }
        if same_text(word, "--version") || same_text(word, "-V") {
            return Some(Command::Version);
        }
    }
    None
}

/// What the arguments of `run` ask for.
pub open spec fn run_args_of(args: Seq<Seq<char>>, env: Environment) -> Result<
    CommandView,
    Seq<char>,
> {
    match single_word(args) {
        Some(command) => Ok(command),
        None => match env_settings(env) {
            Err(message) => Err(message),
            Ok(settings) => options_of(args, settings),
        },
    }
}

/// Reads the arguments of `run`. A lone request for help or the version needs no environment.
pub fn parse_run_args(args: &[String], from: usize, env: &Environment) -> (r: Result<
    Command,
    String,
>)
    requires
        from <= args@.len(),
    ensures
        says(r, run_args_of(lines::views(args@).skip(from as int), *env)),
{
    match lone_word(args, from) {
        Some(command) => return Ok(command),
        None => {},
    }
    let mut settings = match default_settings(env) {
        Ok(settings) => settings,
        Err(message) => return Err(message),
    };
    let ghost all = lines::views(args@);
    let ghost first = settings@;
    let mut index: usize = from;
    while index < args.len()
        invariant
            from <= index <= args@.len(),
            all == lines::views(args@),
            options_of(all.skip(index as int), settings@) == options_of(
                all.skip(from as int),
                first,
            ),
            run_args_of(all.skip(from as int), *env) == options_of(all.skip(from as int), first),
        decreases args@.len() - index,
    {
        let option = args[index].as_str();
        let ghost rest = all.skip(index as int);
        assert(rest[0] == option@);
        if is_value_option(option) {
            if same_text(option, "--protocol-timeout") && settings.ready_flag_seen {
                return Err(
                    "--protocol-timeout conflicts with deprecated --ready-timeout".to_owned(),
                );
            }
            if same_text(option, "--ready-timeout") && settings.protocol_flag_seen {
                return Err(
                    "deprecated --ready-timeout conflicts with --protocol-timeout".to_owned(),
                );
            }
            proof {
                if index + 1 < all.len() {
                    assert(rest[1] == all[index + 1]);
                }
                assert(value_after(all, index as int, option@) == value_after(rest, 0, option@));
            }
            let value = match option_value(args, index, option) {
                Ok(value) => value,
                Err(message) => return Err(message),
            };
            match apply_option(option, value, &mut settings) {
                Some(message) => return Err(message),
                None => {},
            }
            assert(rest.skip(2) =~= all.skip(index + 2));
            index = index + 2;
        } else if same_text(option, "--prepare") {
            let at = find_arg(args, index + 1, "--game");
            let ghost tail = rest.skip(1);
            assert(tail =~= all.skip(index + 1));
            if at >= args.len() {
                return Err("--prepare requires a following --game command".to_owned());
            }
            if at == index + 1 {
                return Err("missing prepare command after '--prepare'".to_owned());
            }
            let prepare = copy_args(args, index + 1, at);
            assert(lines::views(prepare@) =~= tail.take(at - index - 1));
            assert(tail.skip(at - index) =~= all.skip(at + 1));
            let prepare = Some(prepare);
            return parse_game_driver(args, at + 1, settings, prepare);
        } else if same_text(option, "--game") {
            assert(rest.skip(1) =~= all.skip(index + 1));
            return parse_game_driver(args, index + 1, settings, None);
        } else if same_text(option, "--") {
            if index + 1 == args.len() {
                return Err(missing_game());
            }
            let game = copy_args(args, index + 1, args.len());
            assert(lines::views(game@) =~= rest.skip(1));
            return Ok(run_with(settings, None, game, None));
        } else if is_dashed(option) {
            return Err(cat3("unknown option '", option, "' (see 'bevy-feedback run --help')"));
        } else {
            return Err(missing_game());
        }
    }
    Err(missing_game())
}

/// What the options of `doctor` ask for.
pub open spec fn doctor_options_of(args: Seq<Seq<char>>, protocol_file: Seq<char>) -> Result<
    CommandView,
    Seq<char>,
>
    decreases args.len(),
{
    if args.len() == 0 {
        Ok(CommandView::Doctor(protocol_file))
    } else if args[0] == "--protocol"@ {
        match value_after(args, 0, "--protocol"@) {
            Err(message) => Err(message),
            Ok(value) => doctor_options_of(args.skip(2), value),
        }
    } else if dashed(args[0]) {
        Err("unknown option '"@ + args[0] + "' (see 'bevy-feedback doctor --help')"@)
    } else {
        Err("unexpected argument '"@ + args[0] + "' (see 'bevy-feedback doctor --help')"@)
    }
}

/// What the arguments of `doctor` ask for.
pub open spec fn doctor_args_of(args: Seq<Seq<char>>, env: Environment) -> Result<
    CommandView,
    Seq<char>,
> {
    match single_word(args) {
        Some(command) => Ok(command),
        None => doctor_options_of(args, env_protocol_file(env)),
    }
}

/// Reads the arguments of `doctor`.
pub fn parse_doctor_args(args: &[String], from: usize, env: &Environment) -> (r: Result<
    Command,
    String,
>)
    requires
        from <= args@.len(),
    ensures
        says(r, doctor_args_of(lines::views(args@).skip(from as int), *env)),
{
    match lone_word(args, from) {
        Some(command) => return Ok(command),
        None => {},
    }
    let mut protocol_file = default_protocol_file(env);
    let ghost all = lines::views(args@);
    let mut index: usize = from;
    while index < args.len()
        invariant
            from <= index <= args@.len(),
            all == lines::views(args@),
            doctor_options_of(all.skip(index as int), protocol_file@) == doctor_args_of(
                all.skip(from as int),
                *env,
            ),
        decreases args@.len() - index,
    {
        let option = args[index].as_str();
        let ghost rest = all.skip(index as int);
        assert(rest[0] == option@);
        if same_text(option, "--protocol") {
            proof {
                if index + 1 < all.len() {
                    assert(rest[1] == all[index + 1]);
                }
                assert(value_after(all, index as int, option@) == value_after(rest, 0, option@));
            }
            match option_value(args, index, "--protocol") {
                Ok(value) => protocol_file = value.to_owned(),
                Err(message) => return Err(message),
            }
            assert(rest.skip(2) =~= all.skip(index + 2));
            index = index + 2;
        } else if is_dashed(option) {
            return Err(cat3("unknown option '", option, "' (see 'bevy-feedback doctor --help')"));
        } else {
            return Err(
                cat3("unexpected argument '", option, "' (see 'bevy-feedback doctor --help')"),
            );
        }
    }
    Ok(Command::Doctor(DoctorArgs { protocol_file }))
}

/// What a command line asks for.
pub open spec fn command_line_of(args: Seq<Seq<char>>, env: Environment) -> Result<
    CommandView,
    Seq<char>,
> {
    if single_word(args) is Some {
        Ok(single_word(args)->0)
    } else if args.len() == 0 {
        Err("missing command; expected 'run' or 'doctor' (see 'bevy-feedback --help')"@)
    } else if args[0] == "run"@ {
        run_args_of(args.skip(1), env)
    } else if args[0] == "doctor"@ {
        doctor_args_of(args.skip(1), env)
    } else if dashed(args[0]) {
        Err("unknown option '"@ + args[0] + "' (see 'bevy-feedback --help')"@)
    } else {
        Err(
            "unknown command '"@ + args[0]
                + "'; expected 'run' or 'doctor' (see 'bevy-feedback --help')"@,
        )
    }
}

/// Reads a command line.
pub fn parse_args_with_env(args: &[String], env: &Environment) -> (r: Result<Command, String>)
    ensures
        says(r, command_line_of(lines::views(args@), *env)),
{
    let ghost all = lines::views(args@);
    assert(all.skip(0) =~= all);
    match lone_word(args, 0) {
        Some(command) => return Ok(command),
        None => {},
    }
    if args.len() == 0 {
        return Err(
            "missing command; expected 'run' or 'doctor' (see 'bevy-feedback --help')".to_owned(),
        );
    }
    let word = args[0].as_str();
    if same_text(word, "run") {
        return parse_run_args(args, 1, env);
    }
    if same_text(word, "doctor") {
        return parse_doctor_args(args, 1, env);
    }
    if is_dashed(word) {
        return Err(cat3("unknown option '", word, "' (see 'bevy-feedback --help')"));
    }
    Err(
        cat3(
            "unknown command '",
            word,
            "'; expected 'run' or 'doctor' (see 'bevy-feedback --help')",
        ),
    )
}

/// Law: a command line that asks for help or the version alone does not depend on the environment.
pub proof fn law_help_ignores_environment(args: Seq<Seq<char>>, a: Environment, b: Environment)
    requires
        single_word(args) is Some || (args.len() == 2 && (args[0] == "run"@ || args[0]
            == "doctor"@) && single_word(args.skip(1)) is Some),
    ensures
        command_line_of(args, a) == command_line_of(args, b),
        command_line_of(args, a) is Ok,
{
}

/// Law: every run has an application to start, and where it names a preparation or a driver, these
/// are not empty.
pub proof fn law_runs_have_commands(args: Seq<Seq<char>>, env: Environment)
    ensures
        command_line_of(args, env) matches Ok(CommandView::Run(run)) ==> {
            &&& run.game.len() > 0
            &&& run.prepare matches Some(prepare) ==> prepare.len() > 0
            &&& run.driver matches Some(driver) ==> driver.len() > 0
        },
{
    if args.len() > 0 && single_word(args) is None && args[0] == "run"@ {
        if single_word(args.skip(1)) is None {
            if let Ok(settings) = env_settings(env) {
                lemma_options_have_commands(args.skip(1), settings);
            }
        }
    } else if args.len() > 0 && single_word(args) is None && args[0] == "doctor"@ {
        if single_word(args.skip(1)) is None {
            lemma_doctor_is_no_run(args.skip(1), env_protocol_file(env));
        }
    }
}

proof fn lemma_place_in_range(args: Seq<Seq<char>>, wanted: Seq<char>)
    ensures
        0 <= place_of(args, wanted) <= args.len(),
    decreases args.len(),
{
    if args.len() > 0 && args[0] != wanted {
        lemma_place_in_range(args.skip(1), wanted);
    }
}

proof fn lemma_options_have_commands(args: Seq<Seq<char>>, s: SettingsView)
    ensures
        options_of(args, s) matches Ok(CommandView::Run(run)) ==> {
            &&& run.game.len() > 0
            &&& run.prepare matches Some(prepare) ==> prepare.len() > 0
            &&& run.driver matches Some(driver) ==> driver.len() > 0
        },
    decreases args.len(),
{
    if args.len() > 0 {
        lemma_place_in_range(args.skip(1), "--game"@);
        if takes_value(args[0]) {
            if conflict(args[0], s) is None {
                if let Ok(value) = value_after(args, 0, args[0]) {
                    if let Ok(next) = set_option(args[0], value, s) {
                        lemma_options_have_commands(args.skip(2), next);
                    }
                }
            }
        }
    }
}

proof fn lemma_doctor_is_no_run(args: Seq<Seq<char>>, protocol_file: Seq<char>)
    ensures
        !(doctor_options_of(args, protocol_file) matches Ok(CommandView::Run(_))),
    decreases args.len(),
{
    if args.len() > 0 && args[0] == "--protocol"@ {
        if let Ok(value) = value_after(args, 0, "--protocol"@) {
            lemma_doctor_is_no_run(args.skip(2), value);
        }
    }
}

proof fn lemma_place_behind(before: Seq<Seq<char>>, wanted: Seq<char>, rest: Seq<Seq<char>>)
    requires
        forall|i: int| 0 <= i < before.len() ==> #[trigger] before[i] != wanted,
    ensures
        place_of(before + seq![wanted] + rest, wanted) == before.len(),
        place_of(before, wanted) == before.len(),
{
    let whole = before + seq![wanted] + rest;
    assert forall|q: int| 0 <= q < before.len() implies whole[q] != wanted by {
        assert(whole[q] == before[q]);
    }
    lemma_place_of(whole, wanted, before.len() as int);
    lemma_place_of(before, wanted, before.len() as int);
}

/// Law: the words of a run are kept as they are. What stands between `--prepare`, `--game` and
/// `--driver` is the preparation, the application and the driver, word by word, and the settings
/// before them are those of the run.
pub proof fn law_words_of_a_run_are_kept(
    prepare: Seq<Seq<char>>,
    game: Seq<Seq<char>>,
    driver: Seq<Seq<char>>,
    s: SettingsView,
)
    requires
        prepare.len() > 0,
        game.len() > 0,
        driver.len() > 0,
        forall|i: int| 0 <= i < game.len() ==> #[trigger] game[i] != "--driver"@,
        forall|i: int| 0 <= i < prepare.len() ==> #[trigger] prepare[i] != "--game"@,
    ensures
        options_of(seq!["--game"@] + game, s) == Ok::<CommandView, Seq<char>>(
            run_of(s, None, game, None),
        ),
        options_of(seq!["--game"@] + (game + seq!["--driver"@] + driver), s) == Ok::<
            CommandView,
            Seq<char>,
        >(run_of(s, None, game, Some(driver))),
        options_of(
            seq!["--prepare"@] + (prepare + seq!["--game"@] + (game + seq!["--driver"@] + driver)),
            s,
        ) == Ok::<CommandView, Seq<char>>(run_of(s, Some(prepare), game, Some(driver))),
        options_of(seq!["--prepare"@] + (prepare + seq!["--game"@] + game), s) == Ok::<
            CommandView,
            Seq<char>,
        >(run_of(s, Some(prepare), game, None)),
        options_of(seq!["--"@] + game, s) == Ok::<CommandView, Seq<char>>(
            run_of(s, None, game, None),
        ),
        run_of(s, Some(prepare), game, Some(driver)) matches CommandView::Run(run) && run.game
            == game && run.prepare == Some(prepare) && run.driver == Some(driver)
            && run.protocol_file == s.protocol_file && run.artifacts == s.artifacts
            && run.required_window_size == s.required_window_size && run.prepare_timeout
            == s.prepare_timeout && run.protocol_timeout == s.protocol_timeout
            && run.shutdown_timeout == s.shutdown_timeout && run.driver_timeout
            == s.driver_timeout && run.game_cwd == s.game_cwd && run.used_legacy_ready_timeout
            == s.used_legacy_ready_timeout,
{
    lemma_option_words();
    let both = game + seq!["--driver"@] + driver;
    lemma_place_behind(game, "--driver"@, driver);
    assert(both.take(game.len() as int) =~= game);
    assert(both.skip(game.len() + 1int) =~= driver);
    assert((seq!["--game"@] + game).skip(1) =~= game);
    assert((seq!["--game"@] + both).skip(1) =~= both);
    assert((seq!["--"@] + game).skip(1) =~= game);
    let long = prepare + seq!["--game"@] + both;
    lemma_place_behind(prepare, "--game"@, both);
    assert((seq!["--prepare"@] + long).skip(1) =~= long);
    assert(long.take(prepare.len() as int) =~= prepare);
    assert(long.skip(prepare.len() + 1int) =~= both);
    let short = prepare + seq!["--game"@] + game;
    lemma_place_behind(prepare, "--game"@, game);
    assert((seq!["--prepare"@] + short).skip(1) =~= short);
    assert(short.take(prepare.len() as int) =~= prepare);
    assert(short.skip(prepare.len() + 1int) =~= game);
}

proof fn lemma_option_words()
    ensures
        !takes_value("--game"@),
        !takes_value("--prepare"@),
        !takes_value("--"@),
        "--game"@ != "--prepare"@,
        "--"@ != "--prepare"@,
        "--"@ != "--game"@,
{
    reveal_strlit("--game");
    reveal_strlit("--prepare");
    reveal_strlit("--");
    reveal_strlit("--protocol");
    reveal_strlit("--artifacts");
    reveal_strlit("--prepare-timeout");
    reveal_strlit("--protocol-timeout");
    reveal_strlit("--ready-timeout");
    reveal_strlit("--game-cwd");
    reveal_strlit("--require-window-size");
    reveal_strlit("--driver-timeout");
    reveal_strlit("--shutdown-timeout");
    assert("--game"@.len() == 6 && "--prepare"@.len() == 9 && "--"@.len() == 2);
    assert("--protocol"@.len() == 10 && "--artifacts"@.len() == 11 && "--prepare-timeout"@.len()
        == 17 && "--protocol-timeout"@.len() == 18 && "--ready-timeout"@.len() == 15
        && "--game-cwd"@.len() == 10 && "--require-window-size"@.len() == 21
        && "--driver-timeout"@.len() == 16 && "--shutdown-timeout"@.len() == 18);
}

/// Law: an option with its value is read before what follows it, and changes the settings for that;
/// one that lacks its value, or whose value is no value for it, makes the command line fail.
pub proof fn law_options_come_before_the_rest(
    option: Seq<char>,
    value: Seq<char>,
    rest: Seq<Seq<char>>,
    s: SettingsView,
)
    requires
        takes_value(option),
    ensures
        options_of(seq![option], s) is Err,
        !"--"@.is_prefix_of(value) && conflict(option, s) is None && set_option(option, value, s)
            is Ok ==> options_of(seq![option, value] + rest, s) == options_of(
            rest,
            set_option(option, value, s)->Ok_0,
        ),
        "--"@.is_prefix_of(value) || conflict(option, s) is Some || set_option(option, value, s)
            is Err ==> options_of(seq![option, value] + rest, s) is Err,
        conflict(option, s) is Some <==> (option == "--protocol-timeout"@ && s.ready_flag_seen) || (
        option == "--ready-timeout"@ && s.protocol_flag_seen),
{
    let whole = seq![option, value] + rest;
    assert(whole.skip(2) =~= rest);
    assert(whole[0] == option && whole[1] == value);
    reveal_strlit("--protocol-timeout");
    reveal_strlit("--ready-timeout");
    assert("--protocol-timeout"@.len() == 18 && "--ready-timeout"@.len() == 15);
}

/// The time of a timeout option: so many milliseconds, a number above zero.
pub open spec fn is_timeout(value: Seq<char>, span: Span) -> bool {
    text::parsed_number(value, 18446744073709551615) matches Some(ms) && ms > 0 && span.nanos == ms
        * 1_000_000
}

/// Law: each option sets what it is named after, from its value, and nothing else: a path or a
/// directory as it is written, a timeout in milliseconds above zero, and the size of the window.
pub proof fn law_options_set_what_they_name(option: Seq<char>, value: Seq<char>, s: SettingsView)
    requires
        takes_value(option),
    ensures
        ({
            let r = set_option(option, value, s);
            &&& r matches Ok(t) ==> {
                &&& t.protocol_file == (if option == "--protocol"@ {
                    value
                } else {
                    s.protocol_file
                })
                &&& t.artifacts == (if option == "--artifacts"@ {
                    value
                } else {
                    s.artifacts
                })
                &&& t.game_cwd == (if option == "--game-cwd"@ {
                    Some(value)
                } else {
                    s.game_cwd
                })
                &&& if option == "--prepare-timeout"@ {
                    is_timeout(value, t.prepare_timeout)
                } else {
                    t.prepare_timeout == s.prepare_timeout
                }
                &&& if option == "--protocol-timeout"@ || option == "--ready-timeout"@ {
                    is_timeout(value, t.protocol_timeout)
                } else {
                    t.protocol_timeout == s.protocol_timeout
                }
                &&& if option == "--driver-timeout"@ {
                    is_timeout(value, t.driver_timeout)
                } else {
                    t.driver_timeout == s.driver_timeout
                }
                &&& if option == "--shutdown-timeout"@ {
                    is_timeout(value, t.shutdown_timeout)
                } else {
                    t.shutdown_timeout == s.shutdown_timeout
                }
                &&& if option == "--require-window-size"@ {
                    t.required_window_size is Some && window_size_of(value) == Ok::<
                        RequiredWindowSize,
                        Seq<char>,
                    >(t.required_window_size->Some_0)
                } else {
                    t.required_window_size == s.required_window_size
                }
                &&& t.used_legacy_ready_timeout == (if option == "--ready-timeout"@ {
                    true
                } else if option == "--protocol-timeout"@ {
                    false
                } else {
                    s.used_legacy_ready_timeout
                })
                &&& t.protocol_flag_seen == (s.protocol_flag_seen || option
                    == "--protocol-timeout"@)
                &&& t.ready_flag_seen == (s.ready_flag_seen || option == "--ready-timeout"@)
            }
            &&& r is Err <==> (option == "--require-window-size"@ && window_size_of(value) is Err)
                || ((option == "--prepare-timeout"@ || option == "--protocol-timeout"@ || option
                == "--ready-timeout"@ || option == "--driver-timeout"@ || option
                == "--shutdown-timeout"@) && !(text::parsed_number(
                value,
                18446744073709551615,
            ) matches Some(ms) && ms > 0))
        }),
{
    reveal_strlit("--protocol");
    reveal_strlit("--artifacts");
    reveal_strlit("--prepare-timeout");
    reveal_strlit("--protocol-timeout");
    reveal_strlit("--ready-timeout");
    reveal_strlit("--game-cwd");
    reveal_strlit("--require-window-size");
    reveal_strlit("--driver-timeout");
    reveal_strlit("--shutdown-timeout");
    assert("--protocol"@.len() == 10 && "--artifacts"@.len() == 11 && "--prepare-timeout"@.len()
        == 17 && "--protocol-timeout"@.len() == 18 && "--ready-timeout"@.len() == 15
        && "--game-cwd"@.len() == 10 && "--require-window-size"@.len() == 21
        && "--driver-timeout"@.len() == 16 && "--shutdown-timeout"@.len() == 18);
    assert("--protocol"@[2] == 'p' && "--game-cwd"@[2] == 'g');
    assert("--protocol-timeout"@[2] == 'p' && "--shutdown-timeout"@[2] == 's');
    lemma_parsed_within(value, u64::MAX as nat);
}

proof fn lemma_parsed_within(value: Seq<char>, max: nat)
    ensures
        text::parsed_number(value, max) matches Some(n) ==> n <= max,
{
}

/// Law: a window size that is written as its width and its height with an `x` between them is read
/// as that size, and a timeout that is written as its milliseconds is read as that time.
pub proof fn law_written_sizes_and_times_are_read(width: u32, height: u32, ms: u64, name: Seq<char>)
    requires
        width > 0,
        height > 0,
        ms > 0,
    ensures
        window_size_of(
            text::digits(width as nat) + seq!['x'] + text::digits(height as nat),
        ) == Ok::<RequiredWindowSize, Seq<char>>(RequiredWindowSize { width, height }),
        timeout_of(text::digits(ms as nat), name) == Ok::<Span, Seq<char>>(
            Span { nanos: (ms * 1_000_000) as u128 },
        ),
{
    let w = text::digits(width as nat);
    let h = text::digits(height as nat);
    let whole = w + seq!['x'] + h;
    text::law_decimal_round_trip(width as nat, u32::MAX as nat);
    text::law_decimal_round_trip(height as nat, u32::MAX as nat);
    text::law_decimal_round_trip(ms as nat, u64::MAX as nat);
    text::lemma_numeral_of_digits(width as nat);
    lemma_first_x(w, h);
    assert(whole.take(w.len() as int) =~= w);
    assert(whole.skip(w.len() + 1int) =~= h);
}

proof fn lemma_first_x(w: Seq<char>, h: Seq<char>)
    requires
        text::all_digits(w),
    ensures
        lines::first_of(w + seq!['x'] + h, 'x') == w.len(),
    decreases w.len(),
{
    let whole = w + seq!['x'] + h;
    if w.len() == 0 {
        assert(whole[0] == 'x');
    } else {
        let tail = w.skip(1);
        assert(text::is_digit(w[0]));
        assert(text::all_digits(tail)) by {
            assert forall|i: int| 0 <= i < tail.len() implies #[trigger] text::is_digit(
                tail[i],
            ) by {
                assert(text::is_digit(w[i + 1]));
            }
        }
        lemma_first_x(tail, h);
        assert(whole[0] == w[0]);
        assert(whole.skip(1) =~= tail + seq!['x'] + h);
    }
}

} // verus!
