//! First-run setup of the Copilot engine.
use crate::models::AppConfig;
use crate::text::{chars_of, decimal_chars, decimal_digits, extend_chars, string_from_chars};
use vstd::prelude::*;

verus! {

/// What the setup screen shows.
#[derive(Debug, Clone, PartialEq, Eq)]
pub struct SetupStatus {
    pub setup_complete: bool,
    pub engine_ready: bool,
    pub node_available: bool,
    pub copilot_server_available: bool,
    pub edge_debugging_ready: bool,
    pub edge_debugging_url: String,
}

/// `http://127.0.0.1:port/json/version`, where Edge answers when it accepts debugging.
pub open spec fn spec_edge_debugging_url(port: u16) -> Seq<char> {
    "http://127.0.0.1:"@ + decimal_digits(port as nat) + "/json/version"@
}

/// The address at which Edge answers when it accepts debugging.
pub fn edge_debugging_url(port: u16) -> (url: String)
    ensures
        url@ == spec_edge_debugging_url(port),
{
    let mut v = chars_of("http://127.0.0.1:");
    extend_chars(&mut v, decimal_chars(port as u64).as_slice());
    extend_chars(&mut v, chars_of("/json/version").as_slice());
    string_from_chars(v.as_slice())
}

/// The setup status from what was found: the engine is ready when Node.js and the bridge
/// script are both available.
pub fn setup_status(
    setup_complete: bool,
    node_available: bool,
    copilot_server_available: bool,
    edge_debugging_ready: bool,
    edge_cdp_port: u16,
) -> (status: SetupStatus)
    ensures
        status.setup_complete == setup_complete,
        status.engine_ready == (node_available && copilot_server_available),
        status.node_available == node_available,
        status.copilot_server_available == copilot_server_available,
        status.edge_debugging_ready == edge_debugging_ready,
        status.edge_debugging_url@ == spec_edge_debugging_url(edge_cdp_port),
{
    SetupStatus {
        setup_complete,
        engine_ready: node_available && copilot_server_available,
        node_available,
        copilot_server_available,
        edge_debugging_ready,
        edge_debugging_url: edge_debugging_url(edge_cdp_port),
    }
}

/// Marks setup as complete, with Copilot as the engine; nothing else changes.
pub fn mark_setup_complete(config: &mut AppConfig)
    ensures
        final(config).setup_complete,
        final(config).vlm_engine@ == "copilot"@,
        *final(config) == (AppConfig {
            setup_complete: true,
            vlm_engine: final(config).vlm_engine,
            ..*old(config)
        }),
{
    config.setup_complete = true;
    config.vlm_engine = "copilot".to_owned();
}

} // verus!
