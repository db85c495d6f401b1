//! The local inference server: where it listens, and what is known of its state.
use crate::config::{names_file_in, path_join, AppPaths};
use crate::models::{AppConfig, VlmState};
use crate::text::{
    ascii_lowercase, chars_of, contains_chars, decimal_chars, decimal_digits, extend_chars,
    lower_text, spec_contains, spec_trim, str_trim, string_from_chars, text_eq,
};
use vstd::prelude::*;

verus! {

/// The address used when the configuration leaves the host blank.
pub open spec fn spec_default_vlm_host() -> Seq<char> {
    "127.0.0.1:8080"@
}

/// Why talking to the inference server failed.
#[derive(Debug, Clone, PartialEq, Eq)]
pub enum VlmError {
    InvalidHost(String),
    /// The host is not on this machine; only local servers are used.
    NonLocalHost(String),
    BinaryNotFound,
    Io(String),
    Http(String),
    UnexpectedStatus(u16),
    StartupTimeout,
    ProcessExited(Option<i32>),
    Image(String),
    Serde(String),
    Join(String),
    InvalidResponse(String),
    LoginRequired(String),
}

/// The host and port that `reqwest::Url::parse` reads from a URL: `None` when the text is
/// not a URL, and otherwise the host (`Url::host_str`) and the port, explicit or the
/// scheme's default (`Url::port_or_known_default`).
pub uninterp spec fn spec_url_host_port(url: Seq<char>) -> Option<(Option<Seq<char>>, Option<u16>)>;

/// `reqwest::Url::parse`, read back through `host_str` and `port_or_known_default`.
/// The contract names the result, which the url parser alone decides.
#[verifier::external_body]
pub(crate) fn url_host_port(url: &str) -> (parts: Option<(Option<String>, Option<u16>)>)
    ensures
        match parts {
            None => spec_url_host_port(url@) is None,
            Some((h, p)) => spec_url_host_port(url@) == Some(
                (
                    match h {
                        Some(s) => Some(s@),
                        None => None,
                    },
                    p,
                ),
            ),
        },
{
    match reqwest::Url::parse(url) {
        Ok(parsed) => Some((parsed.host_str().map(|h| h.to_owned()), parsed.port_or_known_default())),
        Err(_) => None,
    }
}

/// The text handed to the URL parser: the input itself when it names a scheme, otherwise
/// the input behind `http://`.
pub open spec fn spec_normalized_host(input: Seq<char>) -> Seq<char> {
    if spec_contains(input, "://"@) {
        input
    } else {
        "http://"@ + input
    }
}

/// The host and port of a `host:port` or URL text, or `InvalidHost` naming the input.
pub open spec fn spec_host_and_port(input: Seq<char>) -> Result<(Seq<char>, u16), Seq<char>> {
    match spec_url_host_port(spec_normalized_host(input)) {
        Some((Some(h), Some(p))) => Ok((h, p)),
        _ => Err(input),
    }
}

/// Reads the host and port of the inference server from `host:port` or a URL.
pub fn parse_host_and_port(input: &str) -> (result: Result<(String, u16), VlmError>)
    ensures
        match spec_host_and_port(input@) {
            Ok((h, p)) => result matches Ok((host, port)) && host@ == h && port == p,
            Err(_) => result matches Err(VlmError::InvalidHost(i)) && i@ == input@,
        },
{
    let chars = chars_of(input);
    let marker = chars_of("://");
    let normalized: String = if contains_chars(chars.as_slice(), marker.as_slice()) {
        input.to_owned()
    } else {
        let mut v = chars_of("http://");
        extend_chars(&mut v, chars.as_slice());
        string_from_chars(v.as_slice())
    };
    match url_host_port(normalized.as_str()) {
        Some((Some(host), Some(port))) => Ok((host, port)),
        _ => Err(VlmError::InvalidHost(input.to_owned())),
    }
}

/// Hosts that name this machine.
pub open spec fn spec_is_local_host(host: Seq<char>) -> bool {
    let h = lower_text(host);
    h == "localhost"@ || h == "127.0.0.1"@ || h == "[::1]"@
}

/// Whether a host names this machine.
pub fn is_local_host(host: &str) -> (local: bool)
    ensures
        local == spec_is_local_host(host@),
{
    let lower = ascii_lowercase(chars_of(host).as_slice());
    let l = string_from_chars(lower.as_slice());
    text_eq(l.as_str(), "localhost") || text_eq(l.as_str(), "127.0.0.1") || text_eq(
        l.as_str(),
        "[::1]",
    )
}

/// The address the configuration names for the server: the configured host, or the
/// default one when it is blank.
pub open spec fn spec_target_host(config: AppConfig) -> Seq<char> {
    if spec_trim(config.vlm_host@).len() == 0 {
        spec_default_vlm_host()
    } else {
        config.vlm_host@
    }
}

/// Where the server of a configuration listens; remote hosts are refused.
pub fn vlm_endpoint(config: &AppConfig) -> (result: Result<(String, u16), VlmError>)
    ensures
        match spec_host_and_port(spec_target_host(*config)) {
            Ok((h, p)) => if spec_is_local_host(h) {
                result matches Ok((host, port)) && host@ == h && port == p
            } else {
                result matches Err(VlmError::NonLocalHost(t)) && t@ == spec_target_host(*config)
            },
            Err(_) => result matches Err(VlmError::InvalidHost(t)) && t@ == spec_target_host(
                *config,
            ),
        },
{
    let target: &str = if str_trim(config.vlm_host.as_str()).is_empty() {
        "127.0.0.1:8080"
    } else {
        config.vlm_host.as_str()
    };
    let (host, port) = match parse_host_and_port(target) {
        Ok(hp) => hp,
        Err(e) => return Err(e),
    };
    if !is_local_host(host.as_str()) {
        return Err(VlmError::NonLocalHost(target.to_owned()));
    }
    Ok((host, port))
}

/// An `i32` as `{:?}` writes it.
pub open spec fn signed_decimal(n: i32) -> Seq<char> {
    if n < 0 {
        seq!['-'] + decimal_digits((-n) as nat)
    } else {
        decimal_digits(n as nat)
    }
}

/// An optional exit code as `{:?}` writes it.
pub open spec fn exit_code_debug(code: Option<i32>) -> Seq<char> {
    match code {
        Some(c) => "Some("@ + signed_decimal(c) + ")"@,
        None => "None"@,
    }
}

/// The message shown for each error.
pub open spec fn spec_vlm_message(e: VlmError) -> Seq<char> {
    match e {
        VlmError::InvalidHost(h) => "invalid VLM host: "@ + h@,
        VlmError::NonLocalHost(h) => "VLM host must be localhost or 127.0.0.1: "@ + h@,
        VlmError::BinaryNotFound => "llama-server binary could not be found"@,
        VlmError::Io(_) => "failed to start or stop llama-server"@,
        VlmError::Http(_) => "VLM health check failed"@,
        VlmError::UnexpectedStatus(code) => "VLM endpoint returned status "@ + decimal_digits(
            code as nat,
        ),
        VlmError::StartupTimeout => "llama-server startup timed out"@,
        VlmError::ProcessExited(code) => "llama-server exited before becoming ready (code: "@
            + exit_code_debug(code) + ")"@,
        VlmError::Image(_) => "image processing failed"@,
        VlmError::Serde(_) => "failed to parse VLM response"@,
        VlmError::Join(_) => "background task failed to join"@,
        VlmError::InvalidResponse(m) => m@,
        VlmError::LoginRequired(m) => m@,
    }
}

fn signed_decimal_chars(n: i32) -> (r: Vec<char>)
    ensures
        r@ == signed_decimal(n),
{
    if n < 0 {
        let magnitude: u64 = if n == i32::MIN {
            2147483648u64
        } else {
            (-n) as u64
        };
        let mut v = chars_of("-");
        proof {
            reveal_strlit("-");
        }
        extend_chars(&mut v, decimal_chars(magnitude).as_slice());
        assert(v@ =~= seq!['-'] + decimal_digits((-n) as nat));
        v
    } else {
        decimal_chars(n as u64)
    }
}

impl VlmError {
    /// The message shown for the error.
    pub fn message(&self) -> (text: String)
        ensures
            text@ == spec_vlm_message(*self),
    {
        let mut v: Vec<char> = Vec::new();
        match self {
            VlmError::InvalidHost(h) => {
                v = chars_of("invalid VLM host: ");
                extend_chars(&mut v, chars_of(h.as_str()).as_slice());
            },
            VlmError::NonLocalHost(h) => {
                v = chars_of("VLM host must be localhost or 127.0.0.1: ");
                extend_chars(&mut v, chars_of(h.as_str()).as_slice());
            },
            VlmError::BinaryNotFound => {
                v = chars_of("llama-server binary could not be found");
            },
            VlmError::Io(_) => {
                v = chars_of("failed to start or stop llama-server");
            },
            VlmError::Http(_) => {
                v = chars_of("VLM health check failed");
            },
            VlmError::UnexpectedStatus(code) => {
                v = chars_of("VLM endpoint returned status ");
                extend_chars(&mut v, decimal_chars(*code as u64).as_slice());
            },
            VlmError::StartupTimeout => {
                v = chars_of("llama-server startup timed out");
            },
            VlmError::ProcessExited(code) => {
                v = chars_of("llama-server exited before becoming ready (code: ");
                match code {
                    Some(c) => {
                        extend_chars(&mut v, chars_of("Some(").as_slice());
                        extend_chars(&mut v, signed_decimal_chars(*c).as_slice());
                        extend_chars(&mut v, chars_of(")").as_slice());
                    },
                    None => {
                        extend_chars(&mut v, chars_of("None").as_slice());
                    },
                }
                extend_chars(&mut v, chars_of(")").as_slice());
            },
            VlmError::Image(_) => {
                v = chars_of("image processing failed");
            },
            VlmError::Serde(_) => {
                v = chars_of("failed to parse VLM response");
            },
            VlmError::Join(_) => {
                v = chars_of("background task failed to join");
            },
            VlmError::InvalidResponse(m) => {
                v = chars_of(m.as_str());
            },
            VlmError::LoginRequired(m) => {
                v = chars_of(m.as_str());
            },
        }
        string_from_chars(v.as_slice())
    }
}

/// `http://host:port`.
pub open spec fn spec_server_url(host: Seq<char>, port: u16) -> Seq<char> {
    "http://"@ + host + ":"@ + decimal_digits(port as nat)
}

/// The base URL of a server.
pub fn server_url(host: &str, port: u16) -> (url: String)
    ensures
        url@ == spec_server_url(host@, port),
{
    let mut v = chars_of("http://");
    extend_chars(&mut v, chars_of(host).as_slice());
    extend_chars(&mut v, chars_of(":").as_slice());
    extend_chars(&mut v, decimal_chars(port as u64).as_slice());
    string_from_chars(v.as_slice())
}

/// `url` followed by `suffix`: the address of one of a server's endpoints.
pub fn endpoint_url(url: &str, suffix: &str) -> (endpoint: String)
    ensures
        endpoint@ == url@ + suffix@,
{
    let mut v = chars_of(url);
    extend_chars(&mut v, chars_of(suffix).as_slice());
    string_from_chars(v.as_slice())
}

/// Where a server answers health checks.
pub fn health_url(server_url: &str) -> (url: String)
    ensures
        url@ == server_url@ + "/health"@,
{
    endpoint_url(server_url, "/health")
}

/// The seconds the server is given to become ready.
pub const DEFAULT_READY_TIMEOUT_SECS: u64 = 30;

/// The milliseconds between two health checks while waiting for the server.
pub const HEALTH_POLL_INTERVAL_MS: u64 = 500;

/// The command line the server is started with.
pub open spec fn spec_llama_server_args(
    model_path: Seq<char>,
    mmproj_path: Seq<char>,
    host: Seq<char>,
    port: u16,
    n_threads: u64,
) -> Seq<Seq<char>> {
    seq![
        "-m"@,
        model_path,
        "--mmproj"@,
        mmproj_path,
        "--host"@,
        host,
        "--port"@,
        decimal_digits(port as nat),
        "-t"@,
        decimal_digits(n_threads as nat),
        "--ctx-size"@,
        "4096"@,
        "--log-disable"@,
    ]
}

/// The arguments the server binary is started with: the model and projector, where to
/// listen, how many threads to use, a 4096-token context, and no log.
pub fn llama_server_args(
    model_path: &str,
    mmproj_path: &str,
    host: &str,
    port: u16,
    n_threads: u64,
) -> (args: Vec<String>)
    ensures
        args@.map_values(|a: String| a@) == spec_llama_server_args(
            model_path@,
            mmproj_path@,
            host@,
            port,
            n_threads,
        ),
{
    let mut args: Vec<String> = Vec::new();
    args.push("-m".to_owned());
    args.push(model_path.to_owned());
    args.push("--mmproj".to_owned());
    args.push(mmproj_path.to_owned());
    args.push("--host".to_owned());
    args.push(host.to_owned());
    args.push("--port".to_owned());
    args.push(string_from_chars(decimal_chars(port as u64).as_slice()));
    args.push("-t".to_owned());
    args.push(string_from_chars(decimal_chars(n_threads).as_slice()));
    args.push("--ctx-size".to_owned());
    args.push("4096".to_owned());
    args.push("--log-disable".to_owned());
    assert(args@.map_values(|a: String| a@) =~= spec_llama_server_args(
        model_path@,
        mmproj_path@,
        host@,
        port,
        n_threads,
    ));
    args
}

/// What starting the server does first: nothing when it already answers; otherwise a
/// process that still runs is stopped, and the binary must have been found.
#[derive(Debug)]
pub enum StartPlan {
    AlreadyRunning,
    Launch { stop_first: bool, binary_path: String },
}

/// Decides how to start the server from the health check, the process check and the
/// binary that was found.
pub fn start_plan(
    healthy: bool,
    process_running: Result<bool, VlmError>,
    binary_path: Option<String>,
) -> (plan: Result<StartPlan, VlmError>)
    ensures
        healthy ==> plan matches Ok(StartPlan::AlreadyRunning),
        !healthy ==> match process_running {
            Err(e) => plan == Err::<StartPlan, VlmError>(e),
            Ok(running) => match binary_path {
                None => plan matches Err(VlmError::BinaryNotFound),
                Some(b) => plan matches Ok(StartPlan::Launch { stop_first, binary_path })
                    && stop_first == running && binary_path == b,
            },
        },
{
    if healthy {
        return Ok(StartPlan::AlreadyRunning);
    }
    let running = match process_running {
        Ok(r) => r,
        Err(e) => return Err(e),
    };
    match binary_path {
        None => Err(VlmError::BinaryNotFound),
        Some(b) => Ok(StartPlan::Launch { stop_first: running, binary_path: b }),
    }
}

/// One look while waiting for the server to become ready.
#[derive(Debug)]
pub enum ReadyStep {
    /// The deadline has passed.
    TimedOut,
    /// The process ended, with this exit code.
    Exited(Option<i32>),
    /// The server answers.
    Ready,
    /// Look again after the poll interval.
    Wait,
}

/// The deadline is checked first, then whether the process ended, then the health check.
pub fn ready_step(past_deadline: bool, exit_status: Option<Option<i32>>, healthy: bool) -> (step: ReadyStep)
    ensures
        past_deadline ==> step is TimedOut,
        !past_deadline && exit_status is Some ==> step == ReadyStep::Exited(exit_status->0),
        !past_deadline && exit_status is None && healthy ==> step is Ready,
        !past_deadline && exit_status is None && !healthy ==> step is Wait,
{
    if past_deadline {
        ReadyStep::TimedOut
    } else {
        match exit_status {
            Some(code) => ReadyStep::Exited(code),
            None => if healthy {
                ReadyStep::Ready
            } else {
                ReadyStep::Wait
            },
        }
    }
}

/// The error that a step ends the wait with, if any.
pub fn ready_error(step: &ReadyStep) -> (error: Option<VlmError>)
    ensures
        step is TimedOut ==> error == Some(VlmError::StartupTimeout),
        step matches ReadyStep::Exited(code) ==> error == Some(VlmError::ProcessExited(*code)),
        step is Ready || step is Wait ==> error is None,
{
    match step {
        ReadyStep::TimedOut => Some(VlmError::StartupTimeout),
        ReadyStep::Exited(code) => Some(VlmError::ProcessExited(*code)),
        ReadyStep::Ready => None,
        ReadyStep::Wait => None,
    }
}

/// A new view of the server state: running flags change only where a new value is given;
/// the last error is always replaced.
pub open spec fn spec_vlm_update(
    state: VlmState,
    server_running: Option<bool>,
    batch_running: Option<bool>,
    last_error: Option<String>,
) -> VlmState {
    VlmState {
        server_running: match server_running {
            Some(v) => v,
            None => state.server_running,
        },
        batch_running: match batch_running {
            Some(v) => v,
            None => state.batch_running,
        },
        last_error,
    }
}

/// Applies an update to the server state.
pub fn update_vlm_state(
    state: &mut VlmState,
    server_running: Option<bool>,
    batch_running: Option<bool>,
    last_error: Option<String>,
)
    ensures
        *final(state) == spec_vlm_update(*old(state), server_running, batch_running, last_error),
{
    match server_running {
        Some(v) => state.server_running = v,
        None => {},
    }
    match batch_running {
        Some(v) => state.batch_running = v,
        None => {},
    }
    state.last_error = last_error;
}

/// What a refresh concludes from the process check and the health check: running when
/// healthy or when the process still runs; the failure message otherwise kept.
pub fn refreshed_status(process_running: Result<bool, String>, healthy: Result<(), String>) -> (status: (
    bool,
    Option<String>,
))
    ensures
        match (process_running, healthy) {
            (Ok(_), Ok(())) => status.0 && status.1 is None,
            (Ok(running), Err(e)) => status.0 == running && status.1 == Some(e),
            (Err(e), _) => !status.0 && status.1 == Some(e),
        },
{
    match (process_running, healthy) {
        (Ok(_), Ok(())) => (true, None),
        (Ok(true), Err(error)) => (true, Some(error)),
        (Ok(false), Err(error)) => (false, Some(error)),
        (Err(error), _) => (false, Some(error)),
    }
}

/// The names under which the server binary may be installed.
pub fn binary_names(windows: bool) -> (names: Vec<&'static str>)
    ensures
        windows ==> names@.map_values(|s: &str| s@) == seq!["llama-server.exe"@, "llama-server"@],
        !windows ==> names@.map_values(|s: &str| s@) == seq!["llama-server"@],
{
    let mut names: Vec<&'static str> = Vec::new();
    if windows {
        names.push("llama-server.exe");
    }
    names.push("llama-server");
    assert(names@.map_values(|s: &str| s@) =~= (if windows {
        seq!["llama-server.exe"@, "llama-server"@]
    } else {
        seq!["llama-server"@]
    }));
    names
}

/// Whether `s` starts with `prefix`.
pub open spec fn starts_with(s: Seq<char>, prefix: Seq<char>) -> bool {
    prefix.len() <= s.len() && s.subrange(0, prefix.len() as int) == prefix
}

/// Whether `s` ends with `suffix`.
pub open spec fn ends_with(s: Seq<char>, suffix: Seq<char>) -> bool {
    suffix.len() <= s.len() && s.subrange(s.len() - suffix.len(), s.len() as int) == suffix
}

fn chars_start_with(s: &[char], prefix: &[char]) -> (r: bool)
    ensures
        r == starts_with(s@, prefix@),
{
    if prefix.len() > s.len() {
        return false;
    }
    let mut i: usize = 0;
    while i < prefix.len()
        invariant
            prefix@.len() <= s@.len(),
            i <= prefix@.len(),
            forall|k: int| 0 <= k < i ==> s@[k] == prefix@[k],
        decreases prefix@.len() - i,
    {
        if s[i] != prefix[i] {
            assert(s@.subrange(0, prefix@.len() as int)[i as int] != prefix@[i as int]);
            return false;
        }
        i = i + 1;
    }
    assert(s@.subrange(0, prefix@.len() as int) =~= prefix@);
    true
}

fn chars_end_with(s: &[char], suffix: &[char]) -> (r: bool)
    ensures
        r == ends_with(s@, suffix@),
{
    if suffix.len() > s.len() {
        return false;
    }
    let sl = s.len();
    let off = s.len() - suffix.len();
    let mut i: usize = 0;
    while i < suffix.len()
        invariant
            sl == s@.len(),
            off + suffix@.len() == s@.len(),
            i <= suffix@.len(),
            forall|k: int| 0 <= k < i ==> s@[off + k] == suffix@[k],
        decreases suffix@.len() - i,
    {
        if s[off + i] != suffix[i] {
            assert(s@.subrange(off as int, s@.len() as int)[i as int] != suffix@[i as int]);
            return false;
        }
        i = i + 1;
    }
    assert(s@.subrange(off as int, s@.len() as int) =~= suffix@);
    true
}

/// A file whose name marks it as the server binary (any name that starts with
/// `llama-server`, in any ASCII case).
pub fn is_server_binary_name(file_name: &str) -> (r: bool)
    ensures
        r == starts_with(lower_text(file_name@), "llama-server"@),
{
    let lower = ascii_lowercase(chars_of(file_name).as_slice());
    chars_start_with(lower.as_slice(), chars_of("llama-server").as_slice())
}

/// A model file: its name ends in `.gguf` (in any ASCII case).
pub open spec fn is_model_file(name: Seq<char>) -> bool {
    ends_with(lower_text(name), ".gguf"@)
}

/// A projector file: a model file whose name mentions `mmproj`.
pub open spec fn is_projector_file(name: Seq<char>) -> bool {
    is_model_file(name) && spec_contains(lower_text(name), "mmproj"@)
}

/// The first position in `names` satisfying `pred`, scanning in order.
pub open spec fn first_where(names: Seq<Seq<char>>, pred: spec_fn(Seq<char>) -> bool) -> Option<int>
    decreases names.len(),
{
    if names.len() == 0 {
        None
    } else {
        match first_where(names.drop_last(), pred) {
            Some(i) => Some(i),
            None => if pred(names.last()) {
                Some(names.len() - 1)
            } else {
                None
            },
        }
    }
}

/// The model and projector chosen among the files of the models directory: the first model
/// file that is not a projector, and the first projector; both must exist.
pub open spec fn spec_model_choice(names: Seq<Seq<char>>) -> Option<(int, int)> {
    match (
        first_where(names, |n: Seq<char>| is_model_file(n) && !is_projector_file(n)),
        first_where(names, |n: Seq<char>| is_projector_file(n)),
    ) {
        (Some(m), Some(p)) => Some((m, p)),
        _ => None,
    }
}

fn classify_model_name(name: &str) -> (kind: (bool, bool))
    ensures
        kind.0 == is_model_file(name@),
        kind.1 == is_projector_file(name@),
{
    let lower = ascii_lowercase(chars_of(name).as_slice());
    let model = chars_end_with(lower.as_slice(), chars_of(".gguf").as_slice());
    let mmproj = contains_chars(lower.as_slice(), chars_of("mmproj").as_slice());
    (model, model && mmproj)
}

/// Chooses the model and projector among file names (the positions of the chosen files).
pub fn select_model_files(file_names: &[String]) -> (choice: Option<(usize, usize)>)
    ensures
        match spec_model_choice(file_names@.map_values(|s: String| s@)) {
            Some((m, p)) => choice == Some((m as usize, p as usize)),
            None => choice is None,
        },
{
    let ghost names = file_names@.map_values(|s: String| s@);
    let ghost mpred = |n: Seq<char>| is_model_file(n) && !is_projector_file(n);
    let ghost ppred = |n: Seq<char>| is_projector_file(n);
    let mut model: Option<usize> = None;
    let mut projector: Option<usize> = None;
    let mut i: usize = 0;
    while i < file_names.len()
        invariant
            i <= file_names@.len(),
            names == file_names@.map_values(|s: String| s@),
            mpred == (|n: Seq<char>| is_model_file(n) && !is_projector_file(n)),
            ppred == (|n: Seq<char>| is_projector_file(n)),
            match first_where(names.take(i as int), mpred) {
                Some(k) => model == Some(k as usize),
                None => model is None,
            },
            match first_where(names.take(i as int), ppred) {
                Some(k) => projector == Some(k as usize),
                None => projector is None,
            },
        decreases file_names@.len() - i,
    {
        assert(names.take(i + 1).drop_last() =~= names.take(i as int));
        assert(names.take(i + 1).last() == file_names@[i as int]@);
        let (is_model, is_projector) = classify_model_name(file_names[i].as_str());
        if is_model {
            if is_projector {
                if projector.is_none() {
                    projector = Some(i);
                }
            } else if model.is_none() {
                model = Some(i);
            }
        }
        i = i + 1;
    }
    assert(names.take(file_names@.len() as int) =~= names);
    match (model, projector) {
        (Some(m), Some(p)) => Some((m, p)),
        _ => None,
    }
}

/// Where the server binary might be found under the data directory, in search order.
pub fn binary_search_roots(paths: &AppPaths) -> (roots: Vec<String>)
    ensures
        roots@.len() == 2,
        names_file_in(roots@[0]@, paths.data_dir@, "binaries"@),
        roots@[1]@ == paths.data_dir@,
{
    proof {
        reveal_strlit("binaries");
        assert("binaries"@.len() == 8);
    }
    let mut roots: Vec<String> = Vec::new();
    roots.push(path_join(paths.data_dir.as_str(), "binaries"));
    roots.push(paths.data_dir.clone());
    roots
}

} // verus!
