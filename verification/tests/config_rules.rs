use ssh_mcp::config::{
    default_bind, default_connect_timeout_seconds, default_instructions, default_max_command_chars,
    default_max_output_bytes, default_max_timeout_seconds, default_name, default_server_alive_count_max,
    default_server_alive_interval_seconds, default_ssh_port, default_timeout_seconds, Config, ConfigError,
    LimitConfig, ServerConfig, TargetConfig,
};

fn target(name: &str) -> TargetConfig {
    TargetConfig {
        name: name.to_string(),
        host: format!("{name}.example.net"),
        port: 22,
        user: "deploy".to_string(),
        key_path: "/keys/id_ed25519".to_string(),
        known_hosts_path: "/keys/known_hosts".to_string(),
        connect_timeout_seconds: 10,
        server_alive_interval_seconds: 10,
        server_alive_count_max: 2,
    }
}

fn config(targets: Vec<TargetConfig>) -> Config {
    Config { server: ServerConfig::default(), limits: LimitConfig::default(), targets }
}

#[test]
fn defaults_have_documented_values() {
    assert_eq!(default_bind(), "0.0.0.0:8000");
    assert_eq!(default_name(), "SSH MCP");
    assert!(default_instructions().starts_with("Run commands on explicitly configured SSH targets."));
    assert_eq!(default_max_command_chars(), 16_384);
    assert_eq!(default_max_output_bytes(), 65_536);
    assert_eq!(default_max_timeout_seconds(), 300);
    assert_eq!(default_timeout_seconds(), 60);
    assert_eq!(default_ssh_port(), 22);
    assert_eq!(default_connect_timeout_seconds(), 10);
    assert_eq!(default_server_alive_interval_seconds(), 10);
    assert_eq!(default_server_alive_count_max(), 2);
    let server = ServerConfig::default();
    assert_eq!(server.bind, "0.0.0.0:8000");
    assert!(server.allowed_origins.is_empty());
    let limits = LimitConfig::default();
    assert_eq!(limits.max_command_chars, 16_384);
    assert_eq!(limits.default_timeout_seconds, 60);
}

#[test]
fn accepts_a_sound_config() {
    assert!(config(vec![target("web"), target("db")]).validate().is_ok());
    // U+200B is not white space, so this name is not blank.
    assert!(config(vec![target("\u{200B}")]).validate().is_ok());
}

#[test]
fn refuses_no_targets() {
    let err = config(vec![]).validate().unwrap_err();
    assert!(matches!(err, ConfigError::NoTargets));
    assert_eq!(err.message(), "at least one target must be configured");
}

#[test]
fn refuses_blank_name() {
    let err = config(vec![target(" \t\u{3000}\u{2028}\u{85}")]).validate().unwrap_err();
    assert!(matches!(err, ConfigError::EmptyTargetName));
    assert_eq!(err.message(), "target name must not be empty");
}

#[test]
fn refuses_slashes_in_name() {
    let err = config(vec![target("a/b")]).validate().unwrap_err();
    assert_eq!(err.message(), "target name must not contain slashes: a/b");
    let err = config(vec![target("a\\b")]).validate().unwrap_err();
    assert_eq!(err.message(), "target name must not contain slashes: a\\b");
}

#[test]
fn refuses_duplicate_name() {
    let err = config(vec![target("web"), target("db"), target("web")]).validate().unwrap_err();
    assert!(matches!(err, ConfigError::DuplicateTargetName(ref n) if n == "web"));
    assert_eq!(err.message(), "duplicate target name: web");
}

#[test]
fn reports_first_problem_in_order() {
    let mut bad_host = target("first");
    bad_host.host = "  ".to_string();
    let err = config(vec![bad_host, target("x/y")]).validate().unwrap_err();
    assert_eq!(err.message(), "target host must not be empty: first");
}

#[test]
fn refuses_empty_fields() {
    let mut t = target("t");
    t.user = "\n".to_string();
    assert_eq!(config(vec![t]).validate().unwrap_err().message(), "target user must not be empty: t");
    let mut t = target("t");
    t.key_path = String::new();
    assert_eq!(config(vec![t]).validate().unwrap_err().message(), "target key_path must not be empty: t");
    let mut t = target("t");
    t.known_hosts_path = String::new();
    assert_eq!(
        config(vec![t]).validate().unwrap_err().message(),
        "target known_hosts_path must not be empty: t"
    );
}

#[test]
fn refuses_bad_default_timeout() {
    let mut c = config(vec![target("t")]);
    c.limits.default_timeout_seconds = 0;
    assert_eq!(c.validate().unwrap_err().message(), "default_timeout_seconds must be positive");
    c.limits.default_timeout_seconds = 301;
    assert!(matches!(c.validate().unwrap_err(), ConfigError::DefaultTimeoutAboveMax));
    c.limits.default_timeout_seconds = 300;
    assert!(c.validate().is_ok());
}

#[test]
fn table_is_name_ordered_and_last_wins() {
    let mut second_a = target("alpha");
    second_a.port = 2222;
    let c = config(vec![target("zeta"), target("alpha"), target("Beta"), second_a]);
    let table = c.targets_by_name();
    assert_eq!(table.len(), 3);
    let names: Vec<&str> = (0..table.len()).map(|i| table.at(i).name.as_str()).collect();
    assert_eq!(names, vec!["Beta", "alpha", "zeta"]);
    assert_eq!(table.get("alpha").unwrap().port, 2222);
    assert!(table.get("gamma").is_none());
}

#[test]
fn table_of_accepted_config_holds_every_target_once() {
    let c = config(vec![target("b"), target("a"), target("c")]);
    assert!(c.validate().is_ok());
    let table = c.targets_by_name();
    assert_eq!(table.len(), c.targets.len());
    for t in &c.targets {
        assert_eq!(table.get(&t.name).unwrap().host, t.host);
    }
}

#[test]
fn table_orders_by_bytes() {
    let c = config(vec![target("é"), target("z"), target("ab"), target("a")]);
    let table = c.targets_by_name();
    let names: Vec<&str> = (0..table.len()).map(|i| table.at(i).name.as_str()).collect();
    assert_eq!(names, vec!["a", "ab", "z", "é"]);
    assert_eq!(table.get("é").unwrap().name, "é");
    assert!(table.get("e").is_none());
    assert!(table.get("a\u{0301}").is_none());
}
