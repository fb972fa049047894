use ssh_mcp::config::{Config, LimitConfig, ServerConfig, TargetConfig};
use ssh_mcp::ssh::{finish_ssh_run, prepare_ssh_run, trim_output, SshRunError, SshRunInput};
use ssh_mcp::text::decimal_text;

fn target(name: &str) -> TargetConfig {
    TargetConfig {
        name: name.to_string(),
        host: "10.0.0.5".to_string(),
        port: 2200,
        user: "ops".to_string(),
        key_path: "/k/id".to_string(),
        known_hosts_path: "/k/hosts".to_string(),
        connect_timeout_seconds: 7,
        server_alive_interval_seconds: 15,
        server_alive_count_max: 3,
    }
}

fn setup() -> (LimitConfig, ssh_mcp::targets::TargetTable) {
    let c = Config { server: ServerConfig::default(), limits: LimitConfig::default(), targets: vec![target("box")] };
    let table = c.targets_by_name();
    (c.limits, table)
}

fn input(target: &str, command: &str, timeout: Option<u64>) -> SshRunInput {
    SshRunInput { target: target.to_string(), command: command.to_string(), timeout_seconds: timeout }
}

#[test]
fn builds_hardened_invocation() {
    let (limits, table) = setup();
    let inv = prepare_ssh_run(&limits, &table, &input("box", "echo 'hi' | wc", None)).unwrap();
    assert_eq!(inv.program, "/usr/bin/ssh");
    assert_eq!(inv.timeout_seconds, 60);
    let expected: Vec<&str> = vec![
        "-o", "BatchMode=yes", "-o", "IdentitiesOnly=yes", "-o", "IdentityFile=/k/id",
        "-o", "UserKnownHostsFile=/k/hosts", "-o", "StrictHostKeyChecking=yes",
        "-o", "PasswordAuthentication=no", "-o", "KbdInteractiveAuthentication=no",
        "-o", "ForwardAgent=no", "-o", "ClearAllForwardings=yes", "-o", "RequestTTY=no",
        "-o", "ConnectTimeout=7", "-o", "ServerAliveInterval=15", "-o", "ServerAliveCountMax=3",
        "-p", "2200", "ops@10.0.0.5", "bash -lc 'echo '\\''hi'\\'' | wc'",
    ];
    assert_eq!(inv.args, expected);
}

#[test]
fn quoting_of_plain_and_empty_free_commands() {
    let (limits, table) = setup();
    let inv = prepare_ssh_run(&limits, &table, &input("box", "hostname", Some(5))).unwrap();
    assert_eq!(inv.args.last().unwrap(), "bash -lc hostname");
    assert_eq!(inv.timeout_seconds, 5);
    let inv = prepare_ssh_run(&limits, &table, &input("box", "a\nb", None)).unwrap();
    assert_eq!(inv.args.last().unwrap(), "bash -lc 'a\nb'");
}

#[test]
fn refuses_unknown_target() {
    let (limits, table) = setup();
    let err = prepare_ssh_run(&limits, &table, &input("other", "ls", None)).unwrap_err();
    assert!(matches!(err, SshRunError::UnknownTarget(ref t) if t == "other"));
    assert_eq!(err.code(), "unknown_target");
    assert_eq!(err.message(), "unknown target: other");
}

#[test]
fn refuses_bad_command_length() {
    let (mut limits, table) = setup();
    let err = prepare_ssh_run(&limits, &table, &input("box", "", None)).unwrap_err();
    assert_eq!(err.code(), "invalid_command");
    assert_eq!(err.message(), "command must contain 1-16384 characters");
    limits.max_command_chars = 3;
    assert!(prepare_ssh_run(&limits, &table, &input("box", "abc", None)).is_ok());
    // Length is counted in bytes: "é" is two.
    assert!(prepare_ssh_run(&limits, &table, &input("box", "aé", None)).is_ok());
    assert!(prepare_ssh_run(&limits, &table, &input("box", "abé", None)).is_err());
}

#[test]
fn refuses_bad_timeout() {
    let (limits, table) = setup();
    let err = prepare_ssh_run(&limits, &table, &input("box", "ls", Some(0))).unwrap_err();
    assert_eq!(err.code(), "invalid_timeout");
    assert_eq!(err.message(), "timeout_seconds must be between 1 and 300");
    assert!(prepare_ssh_run(&limits, &table, &input("box", "ls", Some(301))).is_err());
    assert!(prepare_ssh_run(&limits, &table, &input("box", "ls", Some(300))).is_ok());
}

#[test]
fn error_codes_and_messages() {
    let e = SshRunError::Spawn("No such file or directory (os error 2)".to_string());
    assert_eq!(e.code(), "spawn_error");
    assert_eq!(e.message(), "failed to spawn ssh: No such file or directory (os error 2)");
    let e = SshRunError::Wait("broken pipe".to_string());
    assert_eq!(e.code(), "wait_error");
    assert_eq!(e.message(), "failed to wait for ssh output: broken pipe");
}

#[test]
fn trims_output() {
    assert_eq!(trim_output(b"hello", 10), ("hello".to_string(), false));
    assert_eq!(trim_output(b"hello", 5), ("hello".to_string(), false));
    assert_eq!(trim_output(b"hello", 3), ("hel".to_string(), true));
    assert_eq!(trim_output(b"", 0), (String::new(), false));
    // A cut in the middle of a character is replaced, not kept raw.
    assert_eq!(trim_output("é".as_bytes(), 1), ("\u{fffd}".to_string(), true));
    assert_eq!(trim_output(&[0x66, 0xff, 0x6f], 3), ("f\u{fffd}o".to_string(), false));
    let (text, cut) = trim_output(&[0xff; 8], 5);
    assert!(cut);
    assert_eq!(text.chars().count(), 5);
    assert!(text.len() <= 15);
}

#[test]
fn finishes_runs() {
    let limits = LimitConfig { max_command_chars: 10, max_output_bytes: 4, max_timeout_seconds: 9, default_timeout_seconds: 1 };
    let out = finish_ssh_run(&limits, "box".to_string(), false, Some(3), b"abcdef", b"err");
    assert_eq!(out.target, "box");
    assert_eq!(out.exit_code, Some(3));
    assert!(!out.timed_out);
    assert_eq!(out.stdout, "abcd");
    assert!(out.stdout_truncated);
    assert_eq!(out.stderr, "err");
    assert!(!out.stderr_truncated);
    let out = finish_ssh_run(&limits, "box".to_string(), true, Some(0), b"", b"");
    assert_eq!(out.exit_code, None);
    assert!(out.timed_out);
}

#[test]
fn decimal_rendering() {
    assert_eq!(decimal_text(0), "0");
    assert_eq!(decimal_text(7), "7");
    assert_eq!(decimal_text(1234567890), "1234567890");
    assert_eq!(decimal_text(u64::MAX), u64::MAX.to_string());
}
