pub mod batch;
pub mod copilot_server;
pub mod inference;
pub mod server;
