//! Server configuration: its parts, their defaults and the rules that a
//! configuration must meet before the server starts.

use vstd::prelude::*;

use crate::text::{blank, has_char, is_blank};

verus! {

/// The whole server configuration.
#[derive(Debug)]
pub struct Config {
    pub server: ServerConfig,
    pub limits: LimitConfig,
    pub targets: Vec<TargetConfig>,
}

/// Where and as what the server presents itself. `bind` is the socket
/// address to listen on, written as text.
#[derive(Debug)]
pub struct ServerConfig {
    pub bind: String,
    pub name: String,
    pub instructions: String,
    pub allowed_origins: Vec<String>,
}

/// Caps on what a caller may ask for and on what is sent back.
#[derive(Debug)]
pub struct LimitConfig {
    pub max_command_chars: usize,
    pub max_output_bytes: usize,
    pub max_timeout_seconds: u64,
    pub default_timeout_seconds: u64,
}

/// One SSH target that callers may name. The key and known-hosts paths are
/// held as text.
#[derive(Debug)]
pub struct TargetConfig {
    pub name: String,
    pub host: String,
    pub port: u16,
    pub user: String,
    pub key_path: String,
    pub known_hosts_path: String,
    pub connect_timeout_seconds: u64,
    pub server_alive_interval_seconds: u64,
    pub server_alive_count_max: u64,
}

impl TargetConfig {
    /// A copy of this target.
    pub fn duplicate(&self) -> (r: TargetConfig)
        ensures
            r == *self,
    {
        TargetConfig {
            name: self.name.clone(),
            host: self.host.clone(),
            port: self.port,
            user: self.user.clone(),
            key_path: self.key_path.clone(),
            known_hosts_path: self.known_hosts_path.clone(),
            connect_timeout_seconds: self.connect_timeout_seconds,
            server_alive_interval_seconds: self.server_alive_interval_seconds,
            server_alive_count_max: self.server_alive_count_max,
        }
    }
}

/// The default listening address.
pub fn default_bind() -> (r: String)
    ensures
        r@ == "0.0.0.0:8000"@,
{
    String::from_str("0.0.0.0:8000")
}

/// The default server name.
pub fn default_name() -> (r: String)
    ensures
        r@ == "SSH MCP"@,
{
    String::from_str("SSH MCP")
}

/// The default instructions sent to clients.
pub fn default_instructions() -> (r: String)
    ensures
        r@
            == "Run commands on explicitly configured SSH targets. Use ssh_targets before ssh_run when target availability is uncertain."@,
{
    String::from_str(
        "Run commands on explicitly configured SSH targets. Use ssh_targets before ssh_run when target availability is uncertain.",
    )
}

/// The default cap on the length of a command.
pub fn default_max_command_chars() -> (r: usize)
    ensures
        r == 16384,
{
    16_384
}

/// The default cap on the bytes kept of each output stream.
pub fn default_max_output_bytes() -> (r: usize)
    ensures
        r == 65536,
{
    65_536
}

/// The default cap on a command's timeout, in seconds.
pub fn default_max_timeout_seconds() -> (r: u64)
    ensures
        r == 300,
{
    300
}

/// The timeout used when a caller gives none, in seconds.
pub fn default_timeout_seconds() -> (r: u64)
    ensures
        r == 60,
{
    60
}

/// The default SSH port.
pub fn default_ssh_port() -> (r: u16)
    ensures
        r == 22,
{
    22
}

/// The default SSH connect timeout, in seconds.
pub fn default_connect_timeout_seconds() -> (r: u64)
    ensures
        r == 10,
{
    10
}

/// The default interval between server-alive probes, in seconds.
pub fn default_server_alive_interval_seconds() -> (r: u64)
    ensures
        r == 10,
{
    10
}

/// The default number of unanswered server-alive probes tolerated.
pub fn default_server_alive_count_max() -> (r: u64)
    ensures
        r == 2,
{
    2
}

impl Default for ServerConfig {
    fn default() -> (r: Self)
        ensures
            r.bind@ == "0.0.0.0:8000"@,
            r.name@ == "SSH MCP"@,
            r.instructions@
                == "Run commands on explicitly configured SSH targets. Use ssh_targets before ssh_run when target availability is uncertain."@,
            r.allowed_origins@.len() == 0,
    {
        ServerConfig {
            bind: default_bind(),
            name: default_name(),
            instructions: default_instructions(),
            allowed_origins: Vec::new(),
        }
    }
}

impl Default for LimitConfig {
    fn default() -> (r: Self)
        ensures
            r.max_command_chars == 16384,
            r.max_output_bytes == 65536,
            r.max_timeout_seconds == 300,
            r.default_timeout_seconds == 60,
    {
        LimitConfig {
            max_command_chars: default_max_command_chars(),
            max_output_bytes: default_max_output_bytes(),
            max_timeout_seconds: default_max_timeout_seconds(),
            default_timeout_seconds: default_timeout_seconds(),
        }
    }
}

/// Why a configuration is refused. Variants that concern one target carry
/// its name.
#[derive(Debug)]
pub enum ConfigError {
    NoTargets,
    EmptyTargetName,
    TargetNameHasSlash(String),
    DuplicateTargetName(String),
    EmptyHost(String),
    EmptyUser(String),
    EmptyKeyPath(String),
    EmptyKnownHostsPath(String),
    ZeroDefaultTimeout,
    DefaultTimeoutAboveMax,
}

/// What is wrong with target `t`, given the targets before it.
pub open spec fn target_problem(earlier: Seq<TargetConfig>, t: TargetConfig) -> Option<ConfigError> {
    if blank(t.name@) {
        Some(ConfigError::EmptyTargetName)
    } else if t.name@.contains('/') || t.name@.contains('\\') {
        Some(ConfigError::TargetNameHasSlash(t.name))
    } else if exists|j: int| 0 <= j < earlier.len() && #[trigger] earlier[j].name@ == t.name@ {
        Some(ConfigError::DuplicateTargetName(t.name))
    } else if blank(t.host@) {
        Some(ConfigError::EmptyHost(t.name))
    } else if blank(t.user@) {
        Some(ConfigError::EmptyUser(t.name))
    } else if t.key_path@.len() == 0 {
        Some(ConfigError::EmptyKeyPath(t.name))
    } else if t.known_hosts_path@.len() == 0 {
        Some(ConfigError::EmptyKnownHostsPath(t.name))
    } else {
        None
    }
}

/// The first problem among the targets, in their order.
pub open spec fn targets_problem(ts: Seq<TargetConfig>) -> Option<ConfigError>
    decreases ts.len(),
{
    if ts.len() == 0 {
        None
    } else {
        match targets_problem(ts.drop_last()) {
            Some(e) => Some(e),
            None => target_problem(ts.drop_last(), ts.last()),
        }
    }
}

/// The first problem of a configuration: no targets, then the targets one
/// by one, then the timeouts.
pub open spec fn config_problem(c: Config) -> Option<ConfigError> {
    if c.targets@.len() == 0 {
        Some(ConfigError::NoTargets)
    } else {
        match targets_problem(c.targets@) {
            Some(e) => Some(e),
            None => if c.limits.default_timeout_seconds == 0 {
                Some(ConfigError::ZeroDefaultTimeout)
            } else if c.limits.default_timeout_seconds > c.limits.max_timeout_seconds {
                Some(ConfigError::DefaultTimeoutAboveMax)
            } else {
                None
            },
        }
    }
}

/// The message that reports a configuration error.
pub open spec fn config_error_text(e: ConfigError) -> Seq<char> {
    match e {
        ConfigError::NoTargets => "at least one target must be configured"@,
        ConfigError::EmptyTargetName => "target name must not be empty"@,
        ConfigError::TargetNameHasSlash(n) => "target name must not contain slashes: "@ + n@,
        ConfigError::DuplicateTargetName(n) => "duplicate target name: "@ + n@,
        ConfigError::EmptyHost(n) => "target host must not be empty: "@ + n@,
        ConfigError::EmptyUser(n) => "target user must not be empty: "@ + n@,
        ConfigError::EmptyKeyPath(n) => "target key_path must not be empty: "@ + n@,
        ConfigError::EmptyKnownHostsPath(n) => "target known_hosts_path must not be empty: "@ + n@,
        ConfigError::ZeroDefaultTimeout => "default_timeout_seconds must be positive"@,
        ConfigError::DefaultTimeoutAboveMax => "default_timeout_seconds must be <= max_timeout_seconds"@,
    }
}

impl ConfigError {
    /// The message that reports this error.
    pub fn message(&self) -> (r: String)
        ensures
            r@ == config_error_text(*self),
    {
        match self {
            ConfigError::NoTargets => String::from_str("at least one target must be configured"),
            ConfigError::EmptyTargetName => String::from_str("target name must not be empty"),
            ConfigError::TargetNameHasSlash(n) => String::from_str(
                "target name must not contain slashes: ",
            ).concat(n.as_str()),
            ConfigError::DuplicateTargetName(n) => String::from_str("duplicate target name: ").concat(
                n.as_str(),
            ),
            ConfigError::EmptyHost(n) => String::from_str("target host must not be empty: ").concat(
                n.as_str(),
            ),
            ConfigError::EmptyUser(n) => String::from_str("target user must not be empty: ").concat(
                n.as_str(),
            ),
            ConfigError::EmptyKeyPath(n) => String::from_str(
                "target key_path must not be empty: ",
            ).concat(n.as_str()),
            ConfigError::EmptyKnownHostsPath(n) => String::from_str(
                "target known_hosts_path must not be empty: ",
            ).concat(n.as_str()),
            ConfigError::ZeroDefaultTimeout => String::from_str("default_timeout_seconds must be positive"),
            ConfigError::DefaultTimeoutAboveMax => String::from_str(
                "default_timeout_seconds must be <= max_timeout_seconds",
            ),
        }
    }
}

/// Checks target `t` against the rules, given the targets before it.
#[verifier::loop_isolation(false)]
fn check_target(earlier: &[TargetConfig], t: &TargetConfig) -> (r: Option<ConfigError>)
    ensures
        r == target_problem(earlier@, *t),
{
    if is_blank(t.name.as_str()) {
        return Some(ConfigError::EmptyTargetName);
    }
    if has_char(t.name.as_str(), '/') || has_char(t.name.as_str(), '\\') {
        return Some(ConfigError::TargetNameHasSlash(t.name.clone()));
    }
    let mut j: usize = 0;
    while j < earlier.len()
        invariant
            j <= earlier@.len(),
            forall|k: int| 0 <= k < j ==> #[trigger] earlier@[k].name@ != t.name@,
        decreases earlier@.len() - j,
    {
        if earlier[j].name == t.name {
            assert(earlier@[j as int].name@ == t.name@);
            return Some(ConfigError::DuplicateTargetName(t.name.clone()));
        }
        j = j + 1;
    }
    if is_blank(t.host.as_str()) {
        return Some(ConfigError::EmptyHost(t.name.clone()));
    }
    if is_blank(t.user.as_str()) {
        return Some(ConfigError::EmptyUser(t.name.clone()));
    }
    if t.key_path.as_str().is_empty() {
        return Some(ConfigError::EmptyKeyPath(t.name.clone()));
    }
    if t.known_hosts_path.as_str().is_empty() {
        return Some(ConfigError::EmptyKnownHostsPath(t.name.clone()));
    }
    None
}

impl Config {
    /// Checks the configuration: at least one target; every target with a
    /// non-blank name free of slashes, a name not used before, a non-blank
    /// host and user and non-empty key and known-hosts paths; a positive
    /// default timeout no larger than the maximum. Reports the first problem.
    pub fn validate(&self) -> (r: Result<(), ConfigError>)
        ensures
            match r {
                Ok(()) => config_problem(*self) is None,
                Err(e) => config_problem(*self) == Some(e),
            },
            r is Ok <==> config_ok(*self),
    {
        proof {
            lemma_config_accepted_iff(*self);
        }
        if self.targets.len() == 0 {
            return Err(ConfigError::NoTargets);
        }
        let mut i: usize = 0;
        while i < self.targets.len()
            invariant
                i <= self.targets@.len(),
                targets_problem(self.targets@.take(i as int)) is None,
            decreases self.targets@.len() - i,
        {
            let earlier = vstd::slice::slice_subrange(self.targets.as_slice(), 0, i);
            let problem = check_target(earlier, &self.targets[i]);
            assert(self.targets@.take(i + 1).drop_last() =~= self.targets@.take(i as int));
            assert(earlier@ =~= self.targets@.take(i as int));
            match problem {
                Some(e) => {
                    proof {
                        lemma_targets_problem_prefix(self.targets@, i as int + 1);
                    }
                    return Err(e);
                },
                None => {},
            }
            i = i + 1;
        }
        assert(self.targets@.take(i as int) =~= self.targets@);
        if self.limits.default_timeout_seconds == 0 {
            return Err(ConfigError::ZeroDefaultTimeout);
        }
        if self.limits.default_timeout_seconds > self.limits.max_timeout_seconds {
            return Err(ConfigError::DefaultTimeoutAboveMax);
        }
        Ok(())
    }
}

/// A problem found in a prefix of the targets is the first problem of all
/// of them.
pub proof fn lemma_targets_problem_prefix(ts: Seq<TargetConfig>, n: int)
    requires
        0 <= n <= ts.len(),
        targets_problem(ts.take(n)) is Some,
    ensures
        targets_problem(ts) == targets_problem(ts.take(n)),
    decreases ts.len() - n,
{
    if n < ts.len() {
        assert(ts.take(n + 1).drop_last() =~= ts.take(n));
        lemma_targets_problem_prefix(ts, n + 1);
    } else {
        assert(ts.take(n) =~= ts);
    }
}

/// With no problem among the targets, no target has a problem given the
/// targets before it.
proof fn lemma_targets_each_ok(ts: Seq<TargetConfig>)
    requires
        targets_problem(ts) is None,
    ensures
        forall|i: int| 0 <= i < ts.len() ==> target_problem(ts.take(i), #[trigger] ts[i]) is None,
    decreases ts.len(),
{
    if ts.len() > 0 {
        let rest = ts.drop_last();
        lemma_targets_each_ok(rest);
        assert forall|i: int| 0 <= i < ts.len() implies target_problem(ts.take(i), #[trigger] ts[i]) is None by {
            if i < ts.len() - 1 {
                assert(rest[i] == ts[i]);
                assert(rest.take(i) =~= ts.take(i));
            } else {
                assert(ts.take(i) =~= rest);
            }
        }
    }
}

/// What a configuration that `validate` accepts guarantees: at least one
/// target; every target with a non-blank name free of slashes, a non-blank
/// host and user and non-empty key and known-hosts paths; no two targets
/// with the same name; and a default timeout between 1 and the maximum.
pub proof fn lemma_accepted_config(c: Config)
    requires
        config_problem(c) is None,
    ensures
        c.targets@.len() > 0,
        forall|i: int|
            0 <= i < c.targets@.len() ==> {
                let t = #[trigger] c.targets@[i];
                &&& !blank(t.name@)
                &&& !t.name@.contains('/')
                &&& !t.name@.contains('\\')
                &&& !blank(t.host@)
                &&& !blank(t.user@)
                &&& t.key_path@.len() > 0
                &&& t.known_hosts_path@.len() > 0
            },
        forall|i: int, j: int|
            0 <= i < j < c.targets@.len() ==> (#[trigger] c.targets@[i]).name@ != (#[trigger] c.targets@[j]).name@,
        0 < c.limits.default_timeout_seconds <= c.limits.max_timeout_seconds,
{
    let ts = c.targets@;
    lemma_targets_each_ok(ts);
    assert forall|i: int, j: int| 0 <= i < j < ts.len() implies (#[trigger] ts[i]).name@ != (#[trigger] ts[j]).name@ by {
        assert(target_problem(ts.take(j), ts[j]) is None);
        assert(ts.take(j)[i] == ts[i]);
    }
    assert forall|i: int| 0 <= i < ts.len() implies {
        let t = #[trigger] ts[i];
        &&& !blank(t.name@)
        &&& !t.name@.contains('/')
        &&& !t.name@.contains('\\')
        &&& !blank(t.host@)
        &&& !blank(t.user@)
        &&& t.key_path@.len() > 0
        &&& t.known_hosts_path@.len() > 0
    } by {
        assert(target_problem(ts.take(i), ts[i]) is None);
    }
}

/// The rules on one target, taken alone: a non-blank name with neither `/`
/// nor `\`, a non-blank host and user, non-empty key and known-hosts paths.
pub open spec fn target_fields_ok(t: TargetConfig) -> bool {
    &&& !blank(t.name@)
    &&& !t.name@.contains('/')
    &&& !t.name@.contains('\\')
    &&& !blank(t.host@)
    &&& !blank(t.user@)
    &&& t.key_path@.len() > 0
    &&& t.known_hosts_path@.len() > 0
}

/// The rules on a whole configuration: at least one target, each target
/// meeting the rules on its own, no name used twice, and a default timeout
/// between 1 and the maximum.
pub open spec fn config_ok(c: Config) -> bool {
    &&& c.targets@.len() > 0
    &&& forall|i: int| 0 <= i < c.targets@.len() ==> target_fields_ok(#[trigger] c.targets@[i])
    &&& forall|i: int, j: int|
        0 <= i < j < c.targets@.len() ==> (#[trigger] c.targets@[i]).name@ != (#[trigger] c.targets@[j]).name@
    &&& 0 < c.limits.default_timeout_seconds <= c.limits.max_timeout_seconds
}

proof fn lemma_targets_ok_if(ts: Seq<TargetConfig>)
    requires
        forall|i: int| 0 <= i < ts.len() ==> target_fields_ok(#[trigger] ts[i]),
        forall|i: int, j: int| 0 <= i < j < ts.len() ==> (#[trigger] ts[i]).name@ != (#[trigger] ts[j]).name@,
    ensures
        targets_problem(ts) is None,
    decreases ts.len(),
{
    if ts.len() > 0 {
        let rest = ts.drop_last();
        assert forall|i: int| 0 <= i < rest.len() implies target_fields_ok(#[trigger] rest[i]) by {
            assert(rest[i] == ts[i]);
        }
        assert forall|i: int, j: int| 0 <= i < j < rest.len() implies (#[trigger] rest[i]).name@
            != (#[trigger] rest[j]).name@ by {
            assert(rest[i] == ts[i] && rest[j] == ts[j]);
        }
        lemma_targets_ok_if(rest);
        let t = ts.last();
        assert(target_fields_ok(ts[ts.len() - 1]));
        assert forall|j: int| 0 <= j < rest.len() implies #[trigger] rest[j].name@ != t.name@ by {
            assert(rest[j] == ts[j]);
            assert(ts[j].name@ != ts[ts.len() - 1].name@);
        }
    }
}

/// A configuration is accepted exactly when it has at least one target,
/// every target has a non-blank name containing neither `/` nor `\`, a
/// non-blank host and user and non-empty key and known-hosts paths, no name
/// is used twice, and the default timeout lies between 1 and the maximum.
pub proof fn lemma_config_accepted_iff(c: Config)
    ensures
        config_problem(c) is None <==> config_ok(c),
{
    if config_problem(c) is None {
        lemma_accepted_config(c);
    }
    if config_ok(c) {
        lemma_targets_ok_if(c.targets@);
    }
}

/// Which characters may stand in a target name: anything but `/` and `\`.
/// In particular a name of ASCII letters, digits and `-` meets every rule on
/// names but uniqueness.
pub proof fn lemma_plain_names_allowed(name: Seq<char>)
    requires
        name.len() > 0,
        forall|i: int|
            0 <= i < name.len() ==> {
                let c = #[trigger] name[i];
                ('a' <= c <= 'z') || ('A' <= c <= 'Z') || ('0' <= c <= '9') || c == '-'
            },
    ensures
        !blank(name),
        !name.contains('/'),
        !name.contains('\\'),
{
    assert(!crate::text::is_white_space(name[0]));
    assert(!name.contains('/')) by {
        if name.contains('/') {
            let i = choose|i: int| 0 <= i < name.len() && name[i] == '/';
            assert(name[i] == '/');
        }
    }
    assert(!name.contains('\\')) by {
        if name.contains('\\') {
            let i = choose|i: int| 0 <= i < name.len() && name[i] == '\\';
            assert(name[i] == '\\');
        }
    }
}

} // verus!
