//! The figures shown on the dashboard.
use crate::db::StoredCaptureRecord;
use crate::models::{CaptureStats, VlmBatchProgress, VlmState};
use vstd::prelude::*;

verus! {

/// How many recent captures the dashboard lists when no limit is given.
pub const DEFAULT_RECENT_CAPTURE_LIMIT: usize = 8;

/// The dashboard's counters and flags.
#[derive(Debug, Clone, PartialEq, Eq)]
pub struct DashboardStats {
    pub total_captures: u64,
    pub effective_captures: u64,
    pub skipped_captures: u64,
    pub vlm_processed: u64,
    pub scheduler_enabled: bool,
    pub is_recording: bool,
    pub server_running: bool,
    pub batch_running: bool,
    pub next_batch_run_at: Option<String>,
    pub last_capture_at: Option<String>,
    pub last_error: Option<String>,
}

/// Everything the dashboard shows at once.
#[derive(Debug, Clone, PartialEq, Eq)]
pub struct DashboardSnapshot {
    pub stats: DashboardStats,
    pub vlm_progress: VlmBatchProgress,
    pub recent_captures: Vec<StoredCaptureRecord>,
}

/// Combines the recording counters, the inference state and the scheduler into the
/// dashboard's figures; every field comes unchanged from where it is kept.
pub fn merge_dashboard_stats(
    capture_stats: CaptureStats,
    vlm_state: VlmState,
    scheduler_enabled: bool,
    is_recording: bool,
    next_batch_run_at: Option<String>,
    vlm_processed: u64,
) -> (stats: DashboardStats)
    ensures
        stats == (DashboardStats {
            total_captures: capture_stats.total_captures,
            effective_captures: capture_stats.effective_captures,
            skipped_captures: capture_stats.skipped_captures,
            vlm_processed,
            scheduler_enabled,
            is_recording,
            server_running: vlm_state.server_running,
            batch_running: vlm_state.batch_running,
            next_batch_run_at,
            last_capture_at: capture_stats.last_capture_at,
            last_error: vlm_state.last_error,
        }),
{
    DashboardStats {
        total_captures: capture_stats.total_captures,
        effective_captures: capture_stats.effective_captures,
        skipped_captures: capture_stats.skipped_captures,
        vlm_processed,
        scheduler_enabled,
        is_recording,
        server_running: vlm_state.server_running,
        batch_running: vlm_state.batch_running,
        next_batch_run_at,
        last_capture_at: capture_stats.last_capture_at,
        last_error: vlm_state.last_error,
    }
}

/// How many recent captures to list: the requested number, or the default.
pub fn recent_capture_limit(limit: Option<usize>) -> (n: usize)
    ensures
        n == (match limit {
            Some(l) => l,
            None => DEFAULT_RECENT_CAPTURE_LIMIT,
        }),
{
    match limit {
        Some(l) => l,
        None => DEFAULT_RECENT_CAPTURE_LIMIT,
    }
}

} // verus!
