//! Running a command on a configured target: the checks on a request, the
//! ssh invocation that it becomes, and the capped result.

use vstd::prelude::*;
use vstd::utf8::{decode_utf8, decode_utf8_encode_utf8, encode_utf8, valid_utf8};

use crate::config::{LimitConfig, TargetConfig};
use crate::targets::TargetTable;
use crate::text::{decimal, decimal_text};

verus! {

/// What a caller may ask for: a target by name, a command and optionally a
/// timeout in seconds.
#[derive(Debug)]
pub struct SshRunInput {
    pub target: String,
    pub command: String,
    pub timeout_seconds: Option<u64>,
}

/// The outcome of a command that ran.
#[derive(Debug)]
pub struct SshRunOutput {
    pub target: String,
    pub exit_code: Option<i32>,
    pub timed_out: bool,
    pub stdout: String,
    pub stderr: String,
    pub stdout_truncated: bool,
    pub stderr_truncated: bool,
}

/// Why a command was not run, or did not finish. The last two carry the
/// text of the operating system's error.
#[derive(Debug)]
pub enum SshRunError {
    UnknownTarget(String),
    InvalidCommandLength(usize),
    InvalidTimeout(u64),
    Spawn(String),
    Wait(String),
}

/// The short code that names the kind of an error.
pub open spec fn error_code(e: SshRunError) -> Seq<char> {
    match e {
        SshRunError::UnknownTarget(_) => "unknown_target"@,
        SshRunError::InvalidCommandLength(_) => "invalid_command"@,
        SshRunError::InvalidTimeout(_) => "invalid_timeout"@,
        SshRunError::Spawn(_) => "spawn_error"@,
        SshRunError::Wait(_) => "wait_error"@,
    }
}

/// The message that reports an error.
pub open spec fn error_text(e: SshRunError) -> Seq<char> {
    match e {
        SshRunError::UnknownTarget(t) => "unknown target: "@ + t@,
        SshRunError::InvalidCommandLength(n) => "command must contain 1-"@ + decimal(n as nat)
            + " characters"@,
        SshRunError::InvalidTimeout(n) => "timeout_seconds must be between 1 and "@ + decimal(n as nat),
        SshRunError::Spawn(m) => "failed to spawn ssh: "@ + m@,
        SshRunError::Wait(m) => "failed to wait for ssh output: "@ + m@,
    }
}

impl SshRunError {
    /// The short code that names the kind of this error.
    pub fn code(&self) -> (r: &'static str)
        ensures
            r@ == error_code(*self),
    {
        match self {
            SshRunError::UnknownTarget(_) => "unknown_target",
            SshRunError::InvalidCommandLength(_) => "invalid_command",
            SshRunError::InvalidTimeout(_) => "invalid_timeout",
            SshRunError::Spawn(_) => "spawn_error",
            SshRunError::Wait(_) => "wait_error",
        }
    }

    /// The message that reports this error.
    pub fn message(&self) -> (r: String)
        ensures
            r@ == error_text(*self),
    {
        match self {
            SshRunError::UnknownTarget(t) => String::from_str("unknown target: ").concat(t.as_str()),
            SshRunError::InvalidCommandLength(n) => {
                let digits = decimal_text(*n as u64);
                String::from_str("command must contain 1-").concat(digits.as_str()).concat(
                    " characters",
                )
            },
            SshRunError::InvalidTimeout(n) => {
                let digits = decimal_text(*n);
                String::from_str("timeout_seconds must be between 1 and ").concat(digits.as_str())
            },
            SshRunError::Spawn(m) => String::from_str("failed to spawn ssh: ").concat(m.as_str()),
            SshRunError::Wait(m) => String::from_str("failed to wait for ssh output: ").concat(
                m.as_str(),
            ),
        }
    }
}

/// The text that `String::from_utf8_lossy` makes of some bytes: invalid
/// sequences become U+FFFD.
pub uninterp spec fn utf8_lossy(bytes: Seq<u8>) -> Seq<char>;

/// `String::from_utf8_lossy`, made owned. Bytes that are valid UTF-8 come
/// back as the text they encode; each invalid sequence (one byte or more)
/// becomes one U+FFFD, so the text has at most one character per byte and
/// at most three bytes of UTF-8 per byte. Which sequences count as invalid
/// is named, not stated.
#[verifier::external_body]
fn lossy_text(bytes: &[u8]) -> (r: String)
    ensures
        r@ == utf8_lossy(bytes@),
        valid_utf8(bytes@) ==> r@ == decode_utf8(bytes@),
        r@.len() <= bytes@.len(),
        encode_utf8(r@).len() <= 3 * bytes@.len(),
{
    String::from_utf8_lossy(bytes).into_owned()
}

/// How many of `len` bytes are kept under a cap of `max_bytes`.
pub open spec fn kept_len(len: nat, max_bytes: nat) -> nat {
    if len > max_bytes {
        max_bytes
    } else {
        len
    }
}

/// Caps output at `max_bytes` bytes and reads it as text; the flag tells
/// whether anything was cut off.
pub fn trim_output(data: &[u8], max_bytes: usize) -> (r: (String, bool))
    ensures
        r.1 == (data@.len() > max_bytes),
        r.0@ == utf8_lossy(data@.take(kept_len(data@.len(), max_bytes as nat) as int)),
        r.0@.len() <= kept_len(data@.len(), max_bytes as nat),
        encode_utf8(r.0@).len() <= 3 * kept_len(data@.len(), max_bytes as nat),
        valid_utf8(data@.take(kept_len(data@.len(), max_bytes as nat) as int)) ==> r.0@ == decode_utf8(
            data@.take(kept_len(data@.len(), max_bytes as nat) as int),
        ) && encode_utf8(r.0@) == data@.take(kept_len(data@.len(), max_bytes as nat) as int),
        data@.len() > max_bytes ==> r.0@ == utf8_lossy(data@.take(max_bytes as int)),
        data@.len() <= max_bytes ==> r.0@ == utf8_lossy(data@),
{
    let truncated = data.len() > max_bytes;
    let end = if truncated {
        max_bytes
    } else {
        data.len()
    };
    let kept = vstd::slice::slice_subrange(data, 0, end);
    assert(kept@ =~= data@.take(end as int));
    assert(data@.take(data@.len() as int) =~= data@);
    let text = lossy_text(kept);
    proof {
        if valid_utf8(kept@) {
            decode_utf8_encode_utf8(kept@);
        }
    }
    (text, truncated)
}

/// A character that makes the shell read a word other than literally.
pub open spec fn shell_special(c: char) -> bool {
    c == '\n' || c == '\'' || c == '|' || c == '&' || c == ';' || c == '<' || c == '>' || c == '('
        || c == ')' || c == '$' || c == '`' || c == '\\' || c == '"' || c == ' ' || c == '\t'
        || c == '*' || c == '?' || c == '[' || c == '#' || c == '~' || c == '=' || c == '%'
}

/// The text with every single quote written as `'\''`.
pub open spec fn quote_escaped(s: Seq<char>) -> Seq<char>
    decreases s.len(),
{
    if s.len() == 0 {
        Seq::empty()
    } else {
        quote_escaped(s.drop_last()) + if s.last() == '\'' {
            seq!['\'', '\\', '\'', '\'']
        } else {
            seq![s.last()]
        }
    }
}

/// How `shell_words::quote` writes a text: `''` for the empty text, the
/// text itself when it has no special character, and otherwise the text in
/// single quotes with each single quote inside written as `'\''`.
pub open spec fn shell_quoted(s: Seq<char>) -> Seq<char> {
    if s.len() == 0 {
        seq!['\'', '\'']
    } else if forall|i: int| 0 <= i < s.len() ==> !#[trigger] shell_special(s[i]) {
        s
    } else {
        seq!['\''] + quote_escaped(s) + seq!['\'']
    }
}

/// `shell_words::quote`, made owned: quotes a text for a POSIX shell so that
/// the shell reads it back as one literal word.
#[verifier::external_body]
fn shell_quote(s: &str) -> (r: String)
    ensures
        r@ == shell_quoted(s@),
{
    shell_words::quote(s).into_owned()
}

/// The program that runs commands on targets.
pub open spec fn ssh_program() -> Seq<char> {
    "/usr/bin/ssh"@
}

/// The arguments of ssh for running `command` on target `t`: batch mode,
/// only the configured identity and known-hosts file, strict host key
/// checking, no password or keyboard-interactive authentication, no agent
/// or port forwarding, no TTY, the target's keep-alive settings and port,
/// then `user@host` and the command, run by a login bash.
pub open spec fn ssh_args(t: TargetConfig, command: Seq<char>) -> Seq<Seq<char>> {
    seq![
        "-o"@, "BatchMode=yes"@,
        "-o"@, "IdentitiesOnly=yes"@,
        "-o"@, "IdentityFile="@ + t.key_path@,
        "-o"@, "UserKnownHostsFile="@ + t.known_hosts_path@,
        "-o"@, "StrictHostKeyChecking=yes"@,
        "-o"@, "PasswordAuthentication=no"@,
        "-o"@, "KbdInteractiveAuthentication=no"@,
        "-o"@, "ForwardAgent=no"@,
        "-o"@, "ClearAllForwardings=yes"@,
        "-o"@, "RequestTTY=no"@,
        "-o"@, "ConnectTimeout="@ + decimal(t.connect_timeout_seconds as nat),
        "-o"@, "ServerAliveInterval="@ + decimal(t.server_alive_interval_seconds as nat),
        "-o"@, "ServerAliveCountMax="@ + decimal(t.server_alive_count_max as nat),
        "-p"@, decimal(t.port as nat),
        t.user@ + "@"@ + t.host@,
        "bash -lc "@ + shell_quoted(command),
    ]
}

/// The texts of a list of strings.
pub open spec fn texts(v: Seq<String>) -> Seq<Seq<char>> {
    v.map_values(|s: String| s@)
}

/// A process to start: the program, its arguments, and how many seconds it
/// may run before it is killed.
#[derive(Debug)]
pub struct SshInvocation {
    pub program: String,
    pub args: Vec<String>,
    pub timeout_seconds: u64,
}

fn push_arg(args: &mut Vec<String>, a: String)
    ensures
        texts(final(args)@) == texts(old(args)@).push(a@),
{
    args.push(a);
    assert(texts(final(args)@) =~= texts(old(args)@).push(a@));
}

fn push_lit(args: &mut Vec<String>, a: &str)
    ensures
        texts(final(args)@) == texts(old(args)@).push(a@),
{
    push_arg(args, String::from_str(a));
}

fn push_option(args: &mut Vec<String>, value: &str)
    ensures
        texts(final(args)@) == texts(old(args)@).push("-o"@).push(value@),
{
    push_lit(args, "-o");
    push_lit(args, value);
}

fn push_joined(args: &mut Vec<String>, prefix: &str, value: &str)
    ensures
        texts(final(args)@) == texts(old(args)@).push("-o"@).push(prefix@ + value@),
{
    push_lit(args, "-o");
    push_arg(args, String::from_str(prefix).concat(value));
}

/// The arguments of ssh for running `command` on `target`.
fn build_args(target: &TargetConfig, command: &str) -> (r: Vec<String>)
    ensures
        texts(r@) == ssh_args(*target, command@),
{
    let mut args: Vec<String> = Vec::new();
    push_option(&mut args, "BatchMode=yes");
    push_option(&mut args, "IdentitiesOnly=yes");
    push_joined(&mut args, "IdentityFile=", target.key_path.as_str());
    push_joined(&mut args, "UserKnownHostsFile=", target.known_hosts_path.as_str());
    push_option(&mut args, "StrictHostKeyChecking=yes");
    push_option(&mut args, "PasswordAuthentication=no");
    push_option(&mut args, "KbdInteractiveAuthentication=no");
    push_option(&mut args, "ForwardAgent=no");
    push_option(&mut args, "ClearAllForwardings=yes");
    push_option(&mut args, "RequestTTY=no");
    let connect = decimal_text(target.connect_timeout_seconds);
    push_joined(&mut args, "ConnectTimeout=", connect.as_str());
    let interval = decimal_text(target.server_alive_interval_seconds);
    push_joined(&mut args, "ServerAliveInterval=", interval.as_str());
    let count = decimal_text(target.server_alive_count_max);
    push_joined(&mut args, "ServerAliveCountMax=", count.as_str());
    push_lit(&mut args, "-p");
    push_arg(&mut args, decimal_text(target.port as u64));
    let destination = target.user.clone().concat("@").concat(target.host.as_str());
    push_arg(&mut args, destination);
    let quoted = shell_quote(command);
    push_arg(&mut args, String::from_str("bash -lc ").concat(quoted.as_str()));
    assert(texts(args@) =~= ssh_args(*target, command@));
    args
}

/// The timeout that a request asks for, or the configured default.
pub open spec fn requested_timeout(limits: LimitConfig, input: SshRunInput) -> u64 {
    match input.timeout_seconds {
        Some(t) => t,
        None => limits.default_timeout_seconds,
    }
}

/// Whether the command's length in bytes is within 1 and the cap.
pub open spec fn command_len_ok(limits: LimitConfig, command: Seq<char>) -> bool {
    0 < encode_utf8(command).len() <= limits.max_command_chars
}

/// Whether the timeout is within 1 and the cap.
pub open spec fn timeout_ok(limits: LimitConfig, timeout: u64) -> bool {
    0 < timeout <= limits.max_timeout_seconds
}

/// Whether a target of that name is in the table.
pub open spec fn is_known(entries: Seq<TargetConfig>, name: Seq<char>) -> bool {
    exists|i: int| 0 <= i < entries.len() && #[trigger] entries[i].name@ == name
}

/// Checks a request and turns it into the ssh invocation that runs it: the
/// target must be configured, the command must hold 1 to
/// `max_command_chars` bytes, and the timeout (the requested one or the
/// default) must lie between 1 and `max_timeout_seconds`; the first check
/// that fails is reported.
pub fn prepare_ssh_run(limits: &LimitConfig, targets: &TargetTable, input: &SshRunInput) -> (r: Result<
    SshInvocation,
    SshRunError,
>)
    ensures
        !is_known(targets.entries(), input.target@) ==> r == Err::<SshInvocation, SshRunError>(
            SshRunError::UnknownTarget(input.target),
        ),
        is_known(targets.entries(), input.target@) && !command_len_ok(*limits, input.command@) ==> r
            == Err::<SshInvocation, SshRunError>(
            SshRunError::InvalidCommandLength(limits.max_command_chars),
        ),
        is_known(targets.entries(), input.target@) && command_len_ok(*limits, input.command@)
            && !timeout_ok(*limits, requested_timeout(*limits, *input)) ==> r == Err::<
            SshInvocation,
            SshRunError,
        >(SshRunError::InvalidTimeout(limits.max_timeout_seconds)),
        r is Ok <==> is_known(targets.entries(), input.target@) && command_len_ok(
            *limits,
            input.command@,
        ) && timeout_ok(*limits, requested_timeout(*limits, *input)),
        r matches Ok(inv) ==> {
            &&& inv.program@ == ssh_program()
            &&& inv.timeout_seconds == requested_timeout(*limits, *input)
            &&& exists|i: int|
                0 <= i < targets.entries().len() && #[trigger] targets.entries()[i].name@ == input.target@
                    && texts(inv.args@) == ssh_args(targets.entries()[i], input.command@)
            &&& forall|i: int|
                0 <= i < targets.entries().len() && #[trigger] targets.entries()[i].name@ == input.target@
                    ==> texts(inv.args@) == ssh_args(targets.entries()[i], input.command@)
        },
{
    let target = match targets.get(input.target.as_str()) {
        Some(t) => t,
        None => {
            return Err(SshRunError::UnknownTarget(input.target.clone()));
        },
    };
    let len = input.command.as_str().as_bytes().len();
    if len == 0 || len > limits.max_command_chars {
        return Err(SshRunError::InvalidCommandLength(limits.max_command_chars));
    }
    let timeout_seconds = match input.timeout_seconds {
        Some(t) => t,
        None => limits.default_timeout_seconds,
    };
    if timeout_seconds == 0 || timeout_seconds > limits.max_timeout_seconds {
        return Err(SshRunError::InvalidTimeout(limits.max_timeout_seconds));
    }
    let args = build_args(target, input.command.as_str());
    Ok(SshInvocation { program: String::from_str("/usr/bin/ssh"), args, timeout_seconds })
}

/// Assembles the outcome of a command that ran: no exit code when it timed
/// out, and each output stream capped at `max_output_bytes` bytes.
pub fn finish_ssh_run(
    limits: &LimitConfig,
    target: String,
    timed_out: bool,
    status_code: Option<i32>,
    stdout: &[u8],
    stderr: &[u8],
) -> (r: SshRunOutput)
    ensures
        r.target == target,
        r.timed_out == timed_out,
        r.exit_code == (if timed_out {
            None
        } else {
            status_code
        }),
        r.stdout_truncated == (stdout@.len() > limits.max_output_bytes),
        r.stderr_truncated == (stderr@.len() > limits.max_output_bytes),
        r.stdout@ == utf8_lossy(
            stdout@.take(kept_len(stdout@.len(), limits.max_output_bytes as nat) as int),
        ),
        r.stderr@ == utf8_lossy(
            stderr@.take(kept_len(stderr@.len(), limits.max_output_bytes as nat) as int),
        ),
        r.stdout@.len() <= kept_len(stdout@.len(), limits.max_output_bytes as nat),
        r.stderr@.len() <= kept_len(stderr@.len(), limits.max_output_bytes as nat),
        encode_utf8(r.stdout@).len() <= 3 * kept_len(stdout@.len(), limits.max_output_bytes as nat),
        encode_utf8(r.stderr@).len() <= 3 * kept_len(stderr@.len(), limits.max_output_bytes as nat),
        valid_utf8(stdout@.take(kept_len(stdout@.len(), limits.max_output_bytes as nat) as int))
            ==> encode_utf8(r.stdout@) == stdout@.take(
            kept_len(stdout@.len(), limits.max_output_bytes as nat) as int,
        ),
        valid_utf8(stderr@.take(kept_len(stderr@.len(), limits.max_output_bytes as nat) as int))
            ==> encode_utf8(r.stderr@) == stderr@.take(
            kept_len(stderr@.len(), limits.max_output_bytes as nat) as int,
        ),
        stdout@.len() > limits.max_output_bytes ==> r.stdout@ == utf8_lossy(
            stdout@.take(limits.max_output_bytes as int),
        ),
        stdout@.len() <= limits.max_output_bytes ==> r.stdout@ == utf8_lossy(stdout@),
        stderr@.len() > limits.max_output_bytes ==> r.stderr@ == utf8_lossy(
            stderr@.take(limits.max_output_bytes as int),
        ),
        stderr@.len() <= limits.max_output_bytes ==> r.stderr@ == utf8_lossy(stderr@),
{
    let (out, out_cut) = trim_output(stdout, limits.max_output_bytes);
    let (err, err_cut) = trim_output(stderr, limits.max_output_bytes);
    SshRunOutput {
        target,
        exit_code: if timed_out {
            None
        } else {
            status_code
        },
        timed_out,
        stdout: out,
        stderr: err,
        stdout_truncated: out_cut,
        stderr_truncated: err_cut,
    }
}

/// Output is capped: the part of a stream that is kept is its first
/// `min(len, max_bytes)` bytes, so exactly `max_bytes` bytes when it is
/// longer, and it is the whole stream exactly when nothing was cut off.
pub proof fn lemma_output_capped(len: nat, max_bytes: nat)
    ensures
        len > max_bytes ==> kept_len(len, max_bytes) == max_bytes,
        len <= max_bytes ==> kept_len(len, max_bytes) == len,
        kept_len(len, max_bytes) <= max_bytes,
        kept_len(len, max_bytes) <= len,
        (kept_len(len, max_bytes) == len) <==> !(len > max_bytes),
{
}

/// Every ssh invocation runs in batch mode with only the configured
/// identity and known-hosts file and strict host key checking, and disables
/// password and keyboard-interactive authentication, agent forwarding, port
/// forwarding and TTY allocation; it uses the target's keep-alive settings
/// and port, connects to the configured user and host, and runs the command,
/// quoted, under a login bash.
pub proof fn lemma_hardened_args(t: TargetConfig, command: Seq<char>)
    ensures
        ssh_args(t, command).len() == 30,
        ssh_args(t, command).contains("BatchMode=yes"@),
        ssh_args(t, command).contains("IdentitiesOnly=yes"@),
        ssh_args(t, command).contains("StrictHostKeyChecking=yes"@),
        ssh_args(t, command).contains("PasswordAuthentication=no"@),
        ssh_args(t, command).contains("KbdInteractiveAuthentication=no"@),
        ssh_args(t, command).contains("ForwardAgent=no"@),
        ssh_args(t, command).contains("ClearAllForwardings=yes"@),
        ssh_args(t, command).contains("RequestTTY=no"@),
        ssh_args(t, command)[28] == t.user@ + "@"@ + t.host@,
        ssh_args(t, command)[5] == "IdentityFile="@ + t.key_path@,
        ssh_args(t, command)[7] == "UserKnownHostsFile="@ + t.known_hosts_path@,
        ssh_args(t, command)[21] == "ConnectTimeout="@ + decimal(t.connect_timeout_seconds as nat),
        ssh_args(t, command)[23] == "ServerAliveInterval="@ + decimal(t.server_alive_interval_seconds as nat),
        ssh_args(t, command)[25] == "ServerAliveCountMax="@ + decimal(t.server_alive_count_max as nat),
        ssh_args(t, command)[26] == "-p"@,
        ssh_args(t, command)[27] == decimal(t.port as nat),
        ssh_args(t, command)[29] == "bash -lc "@ + shell_quoted(command),
        forall|i: int| 0 <= i < 26 && i % 2 == 0 ==> #[trigger] ssh_args(t, command)[i] == "-o"@,
{
    let a = ssh_args(t, command);
    assert(a[1] == "BatchMode=yes"@);
    assert(a[3] == "IdentitiesOnly=yes"@);
    assert(a[9] == "StrictHostKeyChecking=yes"@);
    assert(a[11] == "PasswordAuthentication=no"@);
    assert(a[13] == "KbdInteractiveAuthentication=no"@);
    assert(a[15] == "ForwardAgent=no"@);
    assert(a[17] == "ClearAllForwardings=yes"@);
    assert(a[19] == "RequestTTY=no"@);
}

} // verus!
