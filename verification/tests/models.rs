use kiroku::dashboard::{merge_dashboard_stats, recent_capture_limit};
use kiroku::models::{CaptureStats, VlmState};
use kiroku::window_meta::{
    get_active_window_metadata, label_from_utf16, window_metadata_from_parts, WindowMetaError,
    WindowMetadata,
};

#[test]
fn merge_dashboard_stats_preserves_runtime_and_vlm_fields() {
    let stats = merge_dashboard_stats(
        CaptureStats {
            total_captures: 12,
            effective_captures: 9,
            skipped_captures: 3,
            last_capture_at: Some("2026-04-01T10:00:00+09:00".to_string()),
        },
        VlmState {
            server_running: true,
            batch_running: false,
            last_error: Some("none".to_string()),
        },
        true,
        true,
        Some("2026-04-01T22:00:00+09:00".to_string()),
        7,
    );

    assert_eq!(stats.total_captures, 12);
    assert_eq!(stats.effective_captures, 9);
    assert_eq!(stats.skipped_captures, 3);
    assert_eq!(stats.vlm_processed, 7);
    assert!(stats.scheduler_enabled);
    assert!(stats.is_recording);
    assert!(stats.server_running);
    assert_eq!(
        stats.next_batch_run_at.as_deref(),
        Some("2026-04-01T22:00:00+09:00")
    );
    assert_eq!(stats.last_error.as_deref(), Some("none"));
}

#[test]
fn unknown_metadata_uses_fallback_labels() {
    let metadata = WindowMetadata::unknown(42);
    assert_eq!(metadata.window_title, "Unknown");
    assert_eq!(metadata.process_name, "Unknown");
    assert_eq!(metadata.process_id, 42);
}

#[test]
fn recent_capture_limit_defaults_to_eight() {
    assert_eq!(recent_capture_limit(None), 8);
    assert_eq!(recent_capture_limit(Some(3)), 3);
}

#[test]
fn window_labels_decode_what_the_platform_wrote() {
    let buffer: Vec<u16> = "Book1.xlsx - Excel\0\0\0".encode_utf16().collect();
    assert_eq!(label_from_utf16(&buffer, 18), "Book1.xlsx - Excel");
    assert_eq!(label_from_utf16(&buffer, 0), "Unknown");
    assert_eq!(label_from_utf16(&[0xD800, 0x41], 2), "\u{FFFD}A");
}

#[test]
fn missing_window_parts_become_unknown() {
    let metadata = window_metadata_from_parts(Some(String::new()), None, 7);
    assert_eq!(metadata.window_title, "Unknown");
    assert_eq!(metadata.process_name, "Unknown");
    let named = window_metadata_from_parts(Some("Inbox".to_string()), Some("outlook.exe".to_string()), 9);
    assert_eq!(named.window_title, "Inbox");
    assert_eq!(named.process_name, "outlook.exe");
    assert_eq!(named.process_id, 9);
}

#[test]
fn window_metadata_is_unsupported_without_a_window_api() {
    assert_eq!(get_active_window_metadata(), Err(WindowMetaError::UnsupportedPlatform));
    assert_eq!(
        WindowMetaError::NoActiveWindow.message(),
        "no active window is available"
    );
    assert_eq!(
        WindowMetaError::UnsupportedPlatform.message(),
        "window metadata is not supported on this platform"
    );
    assert_eq!(WindowMetaError::Windows(-1).message(), "windows api call failed");
}
