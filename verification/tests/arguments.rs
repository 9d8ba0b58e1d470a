use bevy_agent_feedback::arguments::{
    option_value, parse_args_with_env, usage, version, Command, DoctorArgs, EnvText, Environment,
    RequiredWindowSize, RunArgs,
};
use bevy_agent_feedback::span::Span;

fn millis(ms: u64) -> Span {
    Span::from_millis(ms)
}

fn words(args: &[&str]) -> Vec<String> {
    args.iter().map(|arg| arg.to_string()).collect()
}

fn parse_args(args: &[&str]) -> Result<Command, String> {
    parse_args_with_env(&words(args), &Environment::unset(1_700_000_000_123))
}

fn run_args(command: Command) -> RunArgs {
    match command {
        Command::Run(args) => args,
        other => panic!("expected run args, got {other:?}"),
    }
}

#[test]
fn tests_parses_game_only_command() {
    let args = run_args(parse_args(&["run", "--", "cargo", "run", "--example", "minimal"]).expect("args"));
    assert_eq!(args.game, ["cargo", "run", "--example", "minimal"]);
    assert_eq!(args.driver, None);
}

#[test]
fn tests_parses_game_and_driver_command() {
    let args = run_args(
        parse_args(&[
            "run", "--protocol", "target/agent.json", "--game", "cargo", "run", "--driver", "python3", "drive.py",
        ])
        .expect("args"),
    );
    assert_eq!(args.protocol_file, "target/agent.json");
    assert_eq!(args.game, ["cargo", "run"]);
    assert_eq!(args.driver, Some(vec!["python3".to_string(), "drive.py".to_string()]));
}

#[test]
fn parses_timeout_flags_for_game_only_command() {
    let args = run_args(
        parse_args(&[
            "run", "--ready-timeout", "120000", "--driver-timeout", "400000", "--shutdown-timeout", "9000", "--",
            "cargo", "run",
        ])
        .expect("args"),
    );
    assert_eq!(args.protocol_timeout, millis(120_000));
    assert_eq!(args.driver_timeout, millis(400_000));
    assert_eq!(args.shutdown_timeout, millis(9_000));
}

#[test]
fn parses_timeout_flags_for_game_and_driver_command() {
    let args = run_args(
        parse_args(&[
            "run", "--ready-timeout", "120000", "--driver-timeout", "400000", "--shutdown-timeout", "9000",
            "--game", "cargo", "run", "--driver", "python3", "drive.py",
        ])
        .expect("args"),
    );
    assert_eq!(args.protocol_timeout, millis(120_000));
    assert_eq!(args.driver_timeout, millis(400_000));
    assert_eq!(args.shutdown_timeout, millis(9_000));
    assert_eq!(args.game, ["cargo", "run"]);
    assert_eq!(args.driver, Some(vec!["python3".to_string(), "drive.py".to_string()]));
}

#[test]
fn parses_required_window_size_from_flag_and_environment() {
    let flagged = run_args(
        parse_args(&["run", "--require-window-size", "1280x720", "--", "game"]).expect("flagged size"),
    );
    let mut env = Environment::unset(0);
    env.required_window_size = EnvText::Text("955x1170".to_string());
    let from_env = run_args(
        parse_args_with_env(&words(&["run", "--", "game"]), &env).expect("environment size"),
    );
    assert_eq!(flagged.required_window_size, Some(RequiredWindowSize { width: 1280, height: 720 }));
    assert_eq!(from_env.required_window_size, Some(RequiredWindowSize { width: 955, height: 1170 }));
}

#[test]
fn rejects_invalid_required_window_sizes() {
    for size in ["1280", "1280X720", "0x720", "1280x0", "a x b"] {
        let error = parse_args(&["run", "--require-window-size", size, "--", "game"])
            .expect_err("invalid size");
        assert!(error.contains("WIDTHxHEIGHT"), "{size}: {error}");
    }
}

#[test]
fn parses_prepare_protocol_timeout_and_game_cwd() {
    let args = run_args(
        parse_args(&[
            "run", "--prepare-timeout", "7000", "--protocol-timeout", "8000", "--game-cwd", "/tmp/game",
            "--prepare", "cargo", "build", "--game", "target/debug/game", "--driver", "python3", "drive.py",
        ])
        .expect("args"),
    );
    assert_eq!(args.prepare, Some(vec!["cargo".to_string(), "build".to_string()]));
    assert_eq!(args.prepare_timeout, millis(7_000));
    assert_eq!(args.protocol_timeout, millis(8_000));
    assert_eq!(args.game_cwd, Some("/tmp/game".to_string()));
    assert!(!args.used_legacy_ready_timeout);
}

#[test]
fn legacy_ready_timeout_is_a_deprecated_alias() {
    let args = run_args(parse_args(&["run", "--ready-timeout", "9000", "--", "game"]).expect("args"));
    assert_eq!(args.protocol_timeout, millis(9_000));
    assert!(args.used_legacy_ready_timeout);
}

#[test]
fn rejects_both_protocol_timeout_names() {
    let error = parse_args(&[
        "run", "--ready-timeout", "9000", "--protocol-timeout", "8000", "--", "game",
    ])
    .expect_err("aliases must not conflict");
    assert!(error.contains("conflicts"), "{error}");
}

#[test]
fn rejects_zero_timeout() {
    let error = parse_args(&["run", "--ready-timeout", "0", "--", "cargo", "run"])
        .expect_err("zero timeout should be rejected");
    assert!(error.contains("protocol timeout must be a positive integer number of milliseconds"));
}

#[test]
fn uses_timeout_env_defaults() {
    let mut env = Environment::unset(0);
    env.ready_timeout = EnvText::Text("120000".to_string());
    env.driver_timeout = EnvText::Text("400000".to_string());
    env.shutdown_timeout = EnvText::Text("9000".to_string());
    let args = run_args(
        parse_args_with_env(&words(&["run", "--", "cargo", "run"]), &env).expect("args"),
    );
    assert_eq!(args.protocol_timeout, millis(120_000));
    assert_eq!(args.driver_timeout, millis(400_000));
    assert_eq!(args.shutdown_timeout, millis(9_000));
}

#[test]
fn parses_run_help() {
    assert_eq!(parse_args(&["run", "--help"]).expect("help"), Command::Help);
    assert_eq!(parse_args(&["run", "-h"]).expect("help"), Command::Help);
}

#[test]
fn parses_global_help() {
    assert_eq!(parse_args(&["--help"]).expect("help"), Command::Help);
    assert_eq!(parse_args(&["-h"]).expect("help"), Command::Help);
}

#[test]
fn help_does_not_read_timeout_env() {
    let env = Environment {
        protocol: None,
        artifacts: None,
        prepare_timeout: EnvText::NotText,
        protocol_timeout: EnvText::NotText,
        ready_timeout: EnvText::NotText,
        driver_timeout: EnvText::NotText,
        shutdown_timeout: EnvText::NotText,
        required_window_size: EnvText::NotText,
        now_ms: 0,
    };
    assert_eq!(
        parse_args_with_env(&words(&["run", "--help"]), &env).expect("help"),
        Command::Help
    );
    assert_eq!(
        parse_args_with_env(&words(&["run", "--", "game"]), &env).expect_err("environment"),
        "BEVY_FEEDBACK_PREPARE_TIMEOUT_MS must be valid UTF-8"
    );
}

#[test]
fn does_not_consume_help_after_separator() {
    let args = run_args(parse_args(&["run", "--", "--help"]).expect("args"));
    assert_eq!(args.game, ["--help"]);
}

#[test]
fn parses_separator_game_path_with_spaces() {
    let args = run_args(parse_args(&["run", "--", "/tmp/My Game/game"]).expect("args"));
    assert_eq!(args.game, ["/tmp/My Game/game"]);
    assert_eq!(args.driver, None);
}

#[test]
fn parses_game_and_driver_paths_with_spaces() {
    let args = run_args(
        parse_args(&["run", "--game", "/tmp/My Game/game", "--driver", "/tmp/My Driver/driver.py"])
            .expect("args"),
    );
    assert_eq!(args.game, ["/tmp/My Game/game"]);
    assert_eq!(args.driver, Some(vec!["/tmp/My Driver/driver.py".to_string()]));
}

#[test]
fn parses_global_version() {
    assert_eq!(parse_args(&["--version"]).expect("version"), Command::Version);
    assert_eq!(parse_args(&["-V"]).expect("version"), Command::Version);
    assert_eq!(version("1.2.3"), "bevy-feedback 1.2.3");
}

#[test]
fn parses_run_version() {
    assert_eq!(parse_args(&["run", "--version"]).expect("version"), Command::Version);
    assert_eq!(parse_args(&["run", "-V"]).expect("version"), Command::Version);
}

#[test]
fn parses_doctor_protocol() {
    assert_eq!(
        parse_args(&["doctor", "--protocol", "target/custom.json"]).expect("doctor"),
        Command::Doctor(DoctorArgs { protocol_file: "target/custom.json".to_string() })
    );
}

#[test]
fn rejects_unknown_command_precisely() {
    let error = parse_args(&["bad"]).expect_err("unknown command");
    assert_eq!(
        error,
        "unknown command 'bad'; expected 'run' or 'doctor' (see 'bevy-feedback --help')"
    );
}

#[test]
fn rejects_unknown_run_option_precisely() {
    let error = parse_args(&["run", "--bad"]).expect_err("unknown option");
    assert_eq!(error, "unknown option '--bad' (see 'bevy-feedback run --help')");
}

#[test]
fn rejects_missing_value_precisely() {
    let error = parse_args(&["run", "--protocol"]).expect_err("missing value");
    assert_eq!(error, "option '--protocol' requires a value");
}

#[test]
fn the_word_after_an_option_is_its_value() {
    let args = words(&["--protocol", "-x", "--", "y"]);
    assert_eq!(option_value(&args, 0, "--protocol"), Ok("-x"));
    assert_eq!(option_value(&args, 2, "--"), Ok("y"));
    for index in [1, 3, 4, usize::MAX] {
        assert_eq!(
            option_value(&args, index, "--protocol"),
            Err("option '--protocol' requires a value".to_string())
        );
    }
}

#[test]
fn rejects_missing_game_precisely() {
    let error = parse_args(&["run"]).expect_err("missing game");
    assert_eq!(error, "missing game command; use '-- <game...>' or '--game <game...>'");
}

#[test]
fn usage_shows_cargo_driver_argv_example() {
    let usage = usage();
    assert!(
        usage.contains("--game cargo run --features agent --driver python3 tests/drive_camera.py")
    );
    assert!(usage.contains("Do not quote the whole game or driver command"));
    assert!(usage.contains("doctor"));
    assert!(usage.contains("--version"));
    assert!(usage.contains("screenshots"));
}

#[test]
fn usage_points_to_readiness_time_and_capture_completion_guidance() {
    let usage = usage();
    assert!(
        usage.contains(
            "Protocol-ready is not game-ready; use skills/driving-bevy-games/SKILL.md to choose readiness and time control."
        ),
        "{usage}"
    );
    assert!(usage.contains("Frame waits count app updates, not gameplay time."), "{usage}");
    assert!(
        usage.contains(
            "For animated games use predicates; use deterministic advance for gameplay time."
        ),
        "{usage}"
    );
    assert!(usage.contains("Capture completion proves screenshot readback"), "{usage}");
}

#[test]
fn defaults_come_from_the_clock_and_the_environment() {
    let args = run_args(parse_args(&["run", "--", "game"]).expect("args"));
    assert_eq!(args.protocol_file, "target/agent-feedback/agent-feedback.json");
    assert_eq!(args.artifacts, "target/agent-feedback/artifacts/run-1700000000123");
    assert_eq!(args.prepare_timeout, millis(300_000));
    assert_eq!(args.protocol_timeout, millis(60_000));
    assert_eq!(args.driver_timeout, millis(300_000));
    assert_eq!(args.shutdown_timeout, millis(5_000));
    assert_eq!(args.required_window_size, None);
    assert!(!args.used_legacy_ready_timeout);
}

#[test]
fn options_override_the_environment() {
    let mut env = Environment::unset(0);
    env.protocol = Some("from-env.json".to_string());
    env.ready_timeout = EnvText::Text("1".to_string());
    let args = run_args(
        parse_args_with_env(
            &words(&["run", "--protocol-timeout", "+2", "--artifacts", "out", "--", "game"]),
            &env,
        )
        .expect("args"),
    );
    assert_eq!(args.protocol_file, "from-env.json");
    assert_eq!(args.artifacts, "out");
    assert_eq!(args.protocol_timeout, millis(2));
    assert!(!args.used_legacy_ready_timeout);
    assert_eq!(
        parse_args_with_env(&words(&["doctor"]), &env).expect("doctor"),
        Command::Doctor(DoctorArgs { protocol_file: "from-env.json".to_string() })
    );
}

#[test]
fn commands_are_never_empty() {
    for (args, message) in [
        (vec!["run", "--"], "missing game command; use '-- <game...>' or '--game <game...>'"),
        (vec!["run", "--game"], "missing game command; use '-- <game...>' or '--game <game...>'"),
        (vec!["run", "--game", "g", "--driver"], "missing driver command after '--driver'"),
        (vec!["run", "--prepare", "p"], "--prepare requires a following --game command"),
        (vec!["run", "--prepare", "--game", "g"], "missing prepare command after '--prepare'"),
        (vec!["run", "game"], "missing game command; use '-- <game...>' or '--game <game...>'"),
        (vec![], "missing command; expected 'run' or 'doctor' (see 'bevy-feedback --help')"),
        (vec!["--bad"], "unknown option '--bad' (see 'bevy-feedback --help')"),
        (vec!["doctor", "--bad"], "unknown option '--bad' (see 'bevy-feedback doctor --help')"),
        (vec!["doctor", "x"], "unexpected argument 'x' (see 'bevy-feedback doctor --help')"),
        (vec!["run", "--protocol", "--game"], "option '--protocol' requires a value"),
        (
            vec!["run", "--protocol-timeout", "1", "--ready-timeout", "1"],
            "deprecated --ready-timeout conflicts with --protocol-timeout",
        ),
    ] {
        assert_eq!(parse_args(&args).expect_err("refused"), message);
    }
}
