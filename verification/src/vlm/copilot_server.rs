//! The Copilot bridge: where it listens, and how its connection state is followed.
use crate::config::{names_file_in, path_join};
use crate::text::{chars_of, decimal_chars, decimal_digits, extend_chars, string_from_chars};
use crate::vlm::server::VlmError;
use vstd::prelude::*;

verus! {

/// `http://127.0.0.1:port`.
pub open spec fn spec_copilot_url(port: u16) -> Seq<char> {
    "http://127.0.0.1:"@ + decimal_digits(port as nat)
}

/// The base URL of the bridge.
pub fn copilot_server_url(port: u16) -> (url: String)
    ensures
        url@ == spec_copilot_url(port),
{
    let mut v = chars_of("http://127.0.0.1:");
    extend_chars(&mut v, decimal_chars(port as u64).as_slice());
    string_from_chars(v.as_slice())
}

/// Where the bridge writes its log: `logs/copilot-server.log` inside the data directory.
pub fn copilot_server_log_path(data_dir: &str) -> (path: String)
    ensures
        exists|logs: Seq<char>|
            crate::config::names_file_in(logs, data_dir@, "logs"@)
                && crate::config::names_file_in(path@, logs, "copilot-server.log"@),
{
    proof {
        reveal_strlit("logs");
        assert("logs"@.len() == 4);
        reveal_strlit("copilot-server.log");
        assert("copilot-server.log"@.len() == 18);
    }
    let logs = path_join(data_dir, "logs");
    let path = path_join(logs.as_str(), "copilot-server.log");
    assert(crate::config::names_file_in(logs@, data_dir@, "logs"@)
        && crate::config::names_file_in(path@, logs@, "copilot-server.log"@));
    path
}

/// The Edge profile the bridge drives: `edge-profile` inside the data directory.
pub fn edge_profile_dir(data_dir: &str) -> (dir: String)
    ensures
        names_file_in(dir@, data_dir@, "edge-profile"@),
{
    proof {
        reveal_strlit("edge-profile");
        assert("edge-profile"@.len() == 12);
    }
    path_join(data_dir, "edge-profile")
}

/// `binaries/copilot_server.js` under a directory, joined one name at a time.
pub open spec fn is_script_under(path: Seq<char>, dir: Seq<char>) -> bool {
    exists|binaries: Seq<char>|
        names_file_in(binaries, dir, "binaries"@) && names_file_in(
            path,
            binaries,
            "copilot_server.js"@,
        )
}

fn script_under(dir: &str) -> (path: String)
    ensures
        is_script_under(path@, dir@),
{
    proof {
        reveal_strlit("binaries");
        assert("binaries"@.len() == 8);
        reveal_strlit("copilot_server.js");
        assert("copilot_server.js"@.len() == 17);
    }
    let binaries = path_join(dir, "binaries");
    let path = path_join(binaries.as_str(), "copilot_server.js");
    assert(names_file_in(binaries@, dir@, "binaries"@) && names_file_in(
        path@,
        binaries@,
        "copilot_server.js"@,
    ));
    path
}

/// The places where the bridge script is looked for, in order: beside the sources the
/// application was built from, in the data directory, among the bundled resources, and
/// beside the executable (each where it is known).
pub fn script_candidates(
    manifest_dir: Option<&str>,
    data_dir: &str,
    resource_dir: Option<&str>,
    exe_dir: Option<&str>,
) -> (candidates: Vec<String>)
    ensures
        ({
            let dirs = (if manifest_dir is Some {
                seq![manifest_dir->0@]
            } else {
                Seq::empty()
            }) + seq![data_dir@] + (if resource_dir is Some {
                seq![resource_dir->0@]
            } else {
                Seq::empty()
            }) + (if exe_dir is Some {
                seq![exe_dir->0@]
            } else {
                Seq::empty()
            });
            &&& candidates@.len() == dirs.len()
            &&& forall|i: int|
                0 <= i < dirs.len() ==> is_script_under(#[trigger] candidates@[i]@, dirs[i])
        }),
{
    let mut candidates: Vec<String> = Vec::new();
    let ghost mut dirs: Seq<Seq<char>> = Seq::empty();
    if let Some(d) = manifest_dir {
        candidates.push(script_under(d));
        proof {
            dirs = dirs.push(d@);
        }
    }
    candidates.push(script_under(data_dir));
    proof {
        dirs = dirs.push(data_dir@);
    }
    if let Some(d) = resource_dir {
        candidates.push(script_under(d));
        proof {
            dirs = dirs.push(d@);
        }
    }
    if let Some(d) = exe_dir {
        candidates.push(script_under(d));
        proof {
            dirs = dirs.push(d@);
        }
    }
    assert(dirs =~= (if manifest_dir is Some {
        seq![manifest_dir->0@]
    } else {
        Seq::empty()
    }) + seq![data_dir@] + (if resource_dir is Some {
        seq![resource_dir->0@]
    } else {
        Seq::empty()
    }) + (if exe_dir is Some {
        seq![exe_dir->0@]
    } else {
        Seq::empty()
    }));
    candidates
}

/// The command line of the bridge: the script, then its port, the browser's debugging
/// port and the browser profile.
pub open spec fn spec_copilot_args(
    script_path: Seq<char>,
    port: u16,
    cdp_port: u16,
    profile_dir: Seq<char>,
) -> Seq<Seq<char>> {
    seq![
        script_path,
        "--port"@,
        decimal_digits(port as nat),
        "--cdp-port"@,
        decimal_digits(cdp_port as nat),
        "--user-data-dir"@,
        profile_dir,
    ]
}

/// The arguments Node.js is started with to run the bridge.
pub fn copilot_server_args(script_path: &str, port: u16, cdp_port: u16, profile_dir: &str) -> (args:
    Vec<String>)
    ensures
        args@.map_values(|a: String| a@) == spec_copilot_args(
            script_path@,
            port,
            cdp_port,
            profile_dir@,
        ),
{
    let mut args: Vec<String> = Vec::new();
    args.push(script_path.to_owned());
    args.push("--port".to_owned());
    args.push(string_from_chars(decimal_chars(port as u64).as_slice()));
    args.push("--cdp-port".to_owned());
    args.push(string_from_chars(decimal_chars(cdp_port as u64).as_slice()));
    args.push("--user-data-dir".to_owned());
    args.push(profile_dir.to_owned());
    assert(args@.map_values(|a: String| a@) =~= spec_copilot_args(
        script_path@,
        port,
        cdp_port,
        profile_dir@,
    ));
    args
}

/// How the bridge is started: not at all when it already answers; otherwise a process
/// that still runs is stopped first, and both Node.js and the script must have been found.
#[derive(Debug)]
pub enum CopilotStartPlan {
    AlreadyRunning,
    Launch { stop_first: bool, node: String, script_path: String },
}

/// Decides how to start the bridge from the health check, the process check, and the
/// Node.js runtime and script that were found.
pub fn copilot_start_plan(
    healthy: bool,
    process_running: Result<bool, VlmError>,
    node: Option<String>,
    script_path: Option<String>,
) -> (plan: Result<CopilotStartPlan, VlmError>)
    ensures
        healthy ==> plan matches Ok(CopilotStartPlan::AlreadyRunning),
        !healthy ==> match process_running {
            Err(e) => plan == Err::<CopilotStartPlan, VlmError>(e),
            Ok(running) => match (node, script_path) {
                (None, _) => plan matches Err(VlmError::InvalidResponse(m)) && m@
                    == "Node.js runtime could not be found"@,
                (Some(_), None) => plan matches Err(VlmError::InvalidResponse(m)) && m@
                    == "copilot_server.js could not be found"@,
                (Some(n), Some(p)) => plan matches Ok(
                    CopilotStartPlan::Launch { stop_first, node, script_path },
                ) && stop_first == running && node == n && script_path == p,
            },
        },
{
    if healthy {
        return Ok(CopilotStartPlan::AlreadyRunning);
    }
    let running = match process_running {
        Ok(r) => r,
        Err(e) => return Err(e),
    };
    match (node, script_path) {
        (None, _) => Err(VlmError::InvalidResponse("Node.js runtime could not be found".to_owned())),
        (Some(_), None) => Err(
            VlmError::InvalidResponse("copilot_server.js could not be found".to_owned()),
        ),
        (Some(n), Some(p)) => Ok(
            CopilotStartPlan::Launch { stop_first: running, node: n, script_path: p },
        ),
    }
}

/// The runtimes tried, in order, when looking for Node.js.
pub fn node_candidates() -> (names: Vec<&'static str>)
    ensures
        names@.map_values(|s: &str| s@) == seq!["node"@, "node.exe"@],
{
    let mut names: Vec<&'static str> = Vec::new();
    names.push("node");
    names.push("node.exe");
    assert(names@.map_values(|s: &str| s@) =~= seq!["node"@, "node.exe"@]);
    names
}

/// What the user is told when Copilot asks them to sign in.
pub const LOGIN_REQUIRED_MESSAGE: &'static str = "Copilot にログインしてください。Edge の画面を確認してください。";

/// The null device that receives the bridge's output when its log cannot be opened.
pub fn null_device_path(windows: bool) -> (path: &'static str)
    ensures
        windows ==> path@ == "NUL"@,
        !windows ==> path@ == "/dev/null"@,
{
    if windows {
        "NUL"
    } else {
        "/dev/null"
    }
}

/// What the bridge was last seen to be.
#[derive(Debug, Clone, Copy, PartialEq, Eq, Structural)]
pub enum ConnectionState {
    Connected,
    LoginRequired,
    Disconnected,
}

/// What the monitor does after a check.
#[derive(Debug, Clone, Copy, PartialEq, Eq, Structural)]
pub enum MonitorAction {
    /// Nothing to report.
    Quiet,
    /// Ask the user to sign in.
    NotifyLoginRequired,
    /// Report the bridge as running.
    ReportConnected,
    /// Report the bridge as stopped, with the failure.
    ReportDisconnected,
}

/// What `serde_json` reads from a status body: `None` when it is not JSON; otherwise the
/// booleans at its `connected` and `loginRequired` keys, each `None` when there is no
/// boolean there.
pub uninterp spec fn spec_status_flags(body: Seq<char>) -> Option<(Option<bool>, Option<bool>)>;

/// `serde_json::from_str` into a `Value`, then `as_bool` at the keys `connected` and
/// `loginRequired` (indexing a `Value` gives `Null` where there is nothing, never a panic);
/// a parse error is passed on as its message.  The contract names the result, which the
/// body alone decides.
#[verifier::external_body]
fn status_flags(body: &str) -> (flags: Result<(Option<bool>, Option<bool>), String>)
    ensures
        match flags {
            Ok(f) => spec_status_flags(body@) == Some(f),
            Err(_) => spec_status_flags(body@) is None,
        },
{
    let value: serde_json::Value = serde_json::from_str(body).map_err(|error| error.to_string())?;
    Ok((value["connected"].as_bool(), value["loginRequired"].as_bool()))
}

/// The status the bridge reports in a body: whether it is connected and whether it asks
/// for a sign-in, when the body is JSON holding both as booleans.
pub open spec fn spec_status_from_body(body: Seq<char>) -> Option<(bool, bool)> {
    match spec_status_flags(body) {
        Some((Some(connected), Some(login_required))) => Some((connected, login_required)),
        _ => None,
    }
}

/// Reads the bridge's status answer: `(connected, login_required)`, or `None` when the body
/// does not hold both flags.
pub fn status_from_body(body: &str) -> (status: Option<(bool, bool)>)
    ensures
        status == spec_status_from_body(body@),
{
    match status_flags(body) {
        Ok((Some(connected), Some(login_required))) => Some((connected, login_required)),
        _ => None,
    }
}

/// The state a status answer shows: sign-in wins over connection; no answer, or an answer
/// that is neither, counts as disconnected.
pub fn classify_status(status: Option<(bool, bool)>) -> (state: ConnectionState)
    ensures
        state == (match status {
            Some((connected, login_required)) => if login_required {
                ConnectionState::LoginRequired
            } else if connected {
                ConnectionState::Connected
            } else {
                ConnectionState::Disconnected
            },
            None => ConnectionState::Disconnected,
        }),
{
    match status {
        Some((connected, login_required)) => if login_required {
            ConnectionState::LoginRequired
        } else if connected {
            ConnectionState::Connected
        } else {
            ConnectionState::Disconnected
        },
        None => ConnectionState::Disconnected,
    }
}

/// The state and report after a status check.
pub open spec fn spec_after_status_check(last: ConnectionState, current: ConnectionState) -> (
    ConnectionState,
    MonitorAction,
) {
    (
        current,
        if current == last {
            MonitorAction::Quiet
        } else {
            match current {
                ConnectionState::LoginRequired => MonitorAction::NotifyLoginRequired,
                ConnectionState::Connected => MonitorAction::ReportConnected,
                ConnectionState::Disconnected => MonitorAction::Quiet,
            }
        },
    )
}

/// The state and report after a failed restart.
pub open spec fn spec_after_failed_restart(last: ConnectionState) -> (ConnectionState, MonitorAction) {
    (
        ConnectionState::Disconnected,
        if last == ConnectionState::Disconnected {
            MonitorAction::Quiet
        } else {
            MonitorAction::ReportDisconnected
        },
    )
}

/// After a status check: a change of state is reported (a sign-in request, or the bridge
/// running again); an unchanged state, or a new disconnection, is not.
pub fn after_status_check(last: ConnectionState, current: ConnectionState) -> (step: (
    ConnectionState,
    MonitorAction,
))
    ensures
        step == spec_after_status_check(last, current),
{
    if current == last {
        (current, MonitorAction::Quiet)
    } else {
        match current {
            ConnectionState::LoginRequired => (current, MonitorAction::NotifyLoginRequired),
            ConnectionState::Connected => (current, MonitorAction::ReportConnected),
            ConnectionState::Disconnected => (current, MonitorAction::Quiet),
        }
    }
}

/// After a failed restart: the bridge is disconnected, and that is reported once, when it
/// was not already known.
pub fn after_failed_restart(last: ConnectionState) -> (step: (ConnectionState, MonitorAction))
    ensures
        step == spec_after_failed_restart(last),
{
    if last == ConnectionState::Disconnected {
        (ConnectionState::Disconnected, MonitorAction::Quiet)
    } else {
        (ConnectionState::Disconnected, MonitorAction::ReportDisconnected)
    }
}

/// What the monitor does on a tick.
#[derive(Debug, Clone, Copy, PartialEq, Eq, Structural)]
pub enum MonitorTick {
    /// A batch is running: leave the bridge alone this time.
    Skip,
    /// Another engine was chosen: the monitor ends.
    Stop,
    /// Check the bridge's health and status.
    Check,
}

/// The monitor stays away while a batch runs and ends once the engine is not Copilot.
pub fn monitor_tick(batch_running: bool, vlm_engine: &str) -> (tick: MonitorTick)
    ensures
        tick == (if batch_running {
            MonitorTick::Skip
        } else if vlm_engine@ != "copilot"@ {
            MonitorTick::Stop
        } else {
            MonitorTick::Check
        }),
{
    if batch_running {
        MonitorTick::Skip
    } else if !crate::text::text_eq(vlm_engine, "copilot") {
        MonitorTick::Stop
    } else {
        MonitorTick::Check
    }
}

/// A state is reported once: checking again and finding the same state reports nothing,
/// and a failed restart is reported once however often it fails.
pub proof fn lemma_state_reported_once(last: ConnectionState, current: ConnectionState)
    ensures
        spec_after_status_check(spec_after_status_check(last, current).0, current).1
            == MonitorAction::Quiet,
        spec_after_failed_restart(spec_after_failed_restart(last).0).1 == MonitorAction::Quiet,
{
}

/// The bridge is used only when setup is complete and the engine is Copilot.
pub fn copilot_enabled(setup_complete: bool, vlm_engine: &str) -> (enabled: bool)
    ensures
        enabled == (setup_complete && vlm_engine@ == "copilot"@),
{
    setup_complete && crate::text::text_eq(vlm_engine, "copilot")
}

} // verus!
