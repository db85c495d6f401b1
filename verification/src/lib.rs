pub mod diff;
pub mod text;
pub mod models;
pub mod session;
pub mod summary;
pub mod config;
pub mod window_meta;
pub mod dashboard;
pub mod db;
pub mod export;
pub mod scheduler;
pub mod vlm;
pub mod preview;
pub mod history;
pub mod model_manager;
pub mod capture;
pub mod recorder;
pub mod tray;
