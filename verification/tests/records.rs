use kiroku::capture::{
    orphaned_images, capture_artifact_paths, capture_dir_path, metadata_path_for_image, screenshot_file_name,
    screenshot_record, CaptureError,
};
use kiroku::db::{
    build_filtered_query, description_changed, description_edit, normalize_description,
    page_offset, CaptureAppGroup, CaptureDateGroup, DbError, StoredCaptureRecord,
};
use kiroku::history::{history_page, history_record, history_response};
use kiroku::model_manager::{edge_debugging_url, mark_setup_complete, setup_status};
use kiroku::models::{AppConfig, CaptureRecord, CaptureStats};
use kiroku::preview::{clamp_preview_page, empty_preview_payload, preview_record, select_preview_date};
use kiroku::recorder::{
    enrich_record, frame_is_unchanged, observe_frame, record_image_path,
    start_recording_decision, toggle_recording, RecordingToggle,
};
use kiroku::session::compare_dhashes;
use kiroku::tray::{
    tray_click_shows_window, tray_menu_command, tray_menu_items, tray_tooltip, TrayCommand,
    TrayMenuItem,
};
use kiroku::window_meta::WindowMetadata;

fn stored(id: &str, timestamp: &str) -> StoredCaptureRecord {
    StoredCaptureRecord {
        id: id.to_string(),
        timestamp: timestamp.to_string(),
        app: "excel.exe".to_string(),
        window_title: "sheet".to_string(),
        image_path: Some("captures/a.png".to_string()),
        description: Some("説明".to_string()),
        dhash: None,
        vlm_processed: true,
    }
}

#[test]
fn filtered_query_binds_one_parameter_per_placeholder() {
    let apps = vec!["excel.exe".to_string(), "outlook.exe".to_string()];
    let (sql, params) = build_filtered_query(Some("2026-03-30"), None, Some(&apps), true);
    assert!(sql.contains(" AND vlm_processed = 1"));
    assert!(sql.contains(" AND substr(timestamp, 1, 10) >= ?"));
    assert!(sql.contains(" AND app IN (?,?)"));
    assert!(sql.ends_with(" ORDER BY timestamp ASC"));
    assert_eq!(params, vec!["2026-03-30", "excel.exe", "outlook.exe"]);
    assert_eq!(sql.matches('?').count(), params.len());

    let (plain, none) = build_filtered_query(None, None, Some(&[]), false);
    assert!(!plain.contains("app IN"));
    assert!(none.is_empty());
    assert_eq!(plain.matches('?').count(), 0);
}

#[test]
fn description_edits_are_recorded_only_when_they_change_something() {
    assert_eq!(normalize_description(Some("  Excel で月次報告を修正  ")).as_deref(), Some("Excel で月次報告を修正"));
    assert_eq!(normalize_description(Some("   ")), None);
    assert!(description_changed(&None, &Some("a".to_string())));
    assert!(!description_changed(&Some("a".to_string()), &Some("a".to_string())));

    let first = description_edit(Some("Excel で月次報告を修正".to_string()), Some(" Excel で月次報告を提出前確認 "))
        .expect("a changed description is recorded");
    assert_eq!(first.0.as_deref(), Some("Excel で月次報告を修正"));
    assert_eq!(first.1.as_deref(), Some("Excel で月次報告を提出前確認"));
    assert!(description_edit(first.1.clone(), Some("Excel で月次報告を提出前確認")).is_none());
    assert_eq!(description_edit(Some("x".to_string()), Some("  ")), Some((Some("x".to_string()), None)));
}

#[test]
fn pages_count_from_one() {
    assert_eq!(page_offset(1, 50), 0);
    assert_eq!(page_offset(2, 50), 50);
    assert_eq!(page_offset(0, 50), 0);
    assert_eq!(history_page(None), 1);
    assert_eq!(history_page(Some(0)), 1);
    assert_eq!(history_page(Some(4)), 4);
}

#[test]
fn preview_pages_stay_within_the_day() {
    assert_eq!(clamp_preview_page(Some(2), 60), 2);
    assert_eq!(clamp_preview_page(Some(3), 60), 2);
    assert_eq!(clamp_preview_page(Some(0), 60), 1);
    assert_eq!(clamp_preview_page(None, 0), 1);
    assert_eq!(clamp_preview_page(Some(9), 50), 1);
    assert_eq!(clamp_preview_page(Some(2), 51), 2);
}

#[test]
fn preview_date_falls_back_to_the_latest_day() {
    let days = vec![
        CaptureDateGroup { date: "2026-03-31".to_string(), count: 3 },
        CaptureDateGroup { date: "2026-03-30".to_string(), count: 55 },
    ];
    assert_eq!(select_preview_date(Some("2026-03-30".to_string()), &days).as_deref(), Some("2026-03-30"));
    assert_eq!(select_preview_date(Some("  ".to_string()), &days).as_deref(), Some("2026-03-31"));
    assert_eq!(select_preview_date(None, &[]), None);
    let empty = empty_preview_payload(days.clone());
    assert_eq!(empty.selected_date, None);
    assert_eq!((empty.total, empty.page, empty.page_size), (0, 1, 50));
    assert_eq!(empty.available_dates, days);
}

#[test]
fn preview_and_history_records_keep_the_stored_fields() {
    let preview = preview_record(stored("c1", "2026-03-30T09:05:00+09:00"), true);
    assert!(preview.image_exists);
    assert_eq!(preview.description.as_deref(), Some("説明"));
    let mut without_image = stored("c2", "2026-03-30T09:06:00+09:00");
    without_image.image_path = None;
    assert!(!preview_record(without_image, true).image_exists);

    let history = history_record(stored("c3", "2026-03-30T09:07:00+09:00"));
    assert_eq!(history.capture_date, "2026-03-30");
    assert_eq!(history.id, "c3");
    let short = history_record(stored("c4", "2026"));
    assert_eq!(short.capture_date, "2026");

    let response = history_response(
        2,
        1,
        vec![CaptureAppGroup { app: "excel.exe".to_string(), count: 2 }],
        vec![stored("c5", "2026-04-01T10:00:00+09:00"), stored("c6", "2026-04-02T10:00:00+09:00")],
    );
    assert_eq!(response.page_size, 50);
    assert_eq!(response.results.len(), 2);
    assert_eq!(response.results[1].capture_date, "2026-04-02");
}

#[test]
fn capture_files_and_records() {
    assert_eq!(metadata_path_for_image("/tmp/kiroku/sample.png"), "/tmp/kiroku/sample.json");
    assert_eq!(
        capture_artifact_paths("/tmp/kiroku/sample.png"),
        vec!["/tmp/kiroku/sample.json", "/tmp/kiroku/sample.png"]
    );
    assert_eq!(capture_dir_path("/data"), "/data/captures");
    assert_eq!(
        screenshot_file_name("20260330_220000", "a4c6d52d7c49477393ebbb7740c0f590"),
        "screenshot_20260330_220000_a4c6d52d7c49477393ebbb7740c0f590.png"
    );
    let record = screenshot_record("id".to_string(), "2026-03-30T22:00:00+09:00".to_string(), "/x.png".to_string());
    assert_eq!(record.app, "unknown");
    assert_eq!(record.window_title, "unknown");
    assert_eq!(record.image_path.as_deref(), Some("/x.png"));
    assert!(record.dhash.is_none());
}

#[test]
fn capture_and_db_error_messages() {
    assert_eq!(CaptureError::UnsupportedPlatform.message(), "screen capture is unsupported on this platform");
    assert_eq!(CaptureError::NoPrimaryMonitor.message(), "no primary monitor is available");
    assert_eq!(CaptureError::Join("x".to_string()).message(), "capture task failed to join");
    assert_eq!(CaptureError::XCap("x".to_string()).message(), "failed to enumerate or capture monitor");
    assert_eq!(CaptureError::Io("x".to_string()).message(), "failed to read or write capture files");
    assert_eq!(CaptureError::Db("x".to_string()).message(), "failed to query capture records");
    assert_eq!(CaptureError::Image("x".to_string()).message(), "failed to encode screenshot");
    assert_eq!(CaptureError::Serde("x".to_string()).message(), "failed to serialize capture metadata");
    assert_eq!(DbError::Io("x".to_string()).message(), "failed to create database directory");
    assert_eq!(DbError::CaptureNotFound.message(), "capture record was not found");
    assert_eq!(DbError::Sql("x".to_string()).message(), "database operation failed");
}

#[test]
fn capture_counters_balance() {
    let mut stats = CaptureStats::default();
    stats.record_effective("t1".to_string());
    stats.record_skipped("t2".to_string());
    stats.record_skipped("t3".to_string());
    assert_eq!(stats.total_captures, 3);
    assert_eq!(stats.effective_captures, 1);
    assert_eq!(stats.skipped_captures, 2);
    assert_eq!(stats.total_captures, stats.effective_captures + stats.skipped_captures);
    assert_eq!(stats.last_capture_at.as_deref(), Some("t3"));
}

#[test]
fn repeated_frames_are_dropped() {
    let mut previous = None;
    assert!(observe_frame(&mut previous, 0x00ff, 10));
    assert_eq!(previous, Some(0x00ff));
    assert!(!observe_frame(&mut previous, 0x00ff, 10));
    assert!(!observe_frame(&mut previous, 0x01ff, 10));
    assert_eq!(previous, Some(0x00ff));
    assert!(observe_frame(&mut previous, 0xffff_ffff, 10));
    assert_eq!(previous, Some(0xffff_ffff));
    assert!(!frame_is_unchanged(None, 1, 10));
}

#[test]
fn enriched_records_carry_window_and_hash() {
    let record = CaptureRecord {
        id: "id".to_string(),
        timestamp: "t".to_string(),
        app: "unknown".to_string(),
        window_title: "unknown".to_string(),
        image_path: Some("/x.png".to_string()),
        description: None,
        dhash: None,
    };
    let metadata = WindowMetadata {
        window_title: "月次決算.xlsx".to_string(),
        process_name: "excel.exe".to_string(),
        process_id: 7,
    };
    let enriched = enrich_record(record, metadata, 0xff);
    assert_eq!(enriched.dhash.as_deref(), Some("00000000000000ff"));
    assert_eq!(enriched.app, "excel.exe");
    assert_eq!(compare_dhashes(enriched.dhash.as_deref(), Some("00000000000000fe")), Some(1));
    assert_eq!(record_image_path(&enriched), Ok("/x.png".to_string()));
    let mut missing = enriched.clone();
    missing.image_path = None;
    assert_eq!(
        record_image_path(&missing),
        Err("capture record does not contain an image path".to_string())
    );
}

#[test]
fn recording_toggles() {
    assert!(start_recording_decision(false));
    assert!(!start_recording_decision(true));
    assert_eq!(toggle_recording(true), RecordingToggle::Stop);
    assert_eq!(toggle_recording(false), RecordingToggle::Start);
}

#[test]
fn tray_menu_and_tooltips() {
    let items = tray_menu_items();
    assert_eq!(items.len(), 6);
    assert!(matches!(items[0], TrayMenuItem::Entry { id: "show", label: "ウィンドウを表示" }));
    assert!(matches!(items[1], TrayMenuItem::Separator));
    assert_eq!(tray_menu_command("start_recording"), TrayCommand::StartRecording);
    assert_eq!(tray_menu_command("quit"), TrayCommand::Quit);
    assert_eq!(tray_menu_command("other"), TrayCommand::Ignore);
    assert_eq!(tray_tooltip(true), "Kiroku - 記録中");
    assert_eq!(tray_tooltip(false), "Kiroku - 待機中");
    assert!(tray_click_shows_window(true, false, false));
    assert!(tray_click_shows_window(false, true, true));
    assert!(!tray_click_shows_window(false, true, false));
}

#[test]
fn setup_status_and_completion() {
    let status = setup_status(false, true, true, false, 9333);
    assert!(status.engine_ready);
    assert_eq!(status.edge_debugging_url, "http://127.0.0.1:9333/json/version");
    assert!(!setup_status(false, false, true, false, 9333).engine_ready);
    assert_eq!(edge_debugging_url(1), "http://127.0.0.1:1/json/version");
    let mut config = AppConfig { vlm_engine: "llama".to_string(), ..AppConfig::default() };
    mark_setup_complete(&mut config);
    assert!(config.setup_complete);
    assert_eq!(config.vlm_engine, "copilot");
}

#[test]
fn cleanup_removes_only_unreferenced_screenshots() {
    let files = vec![
        "/data/captures/orphaned.png".to_string(),
        "/data/captures/orphaned.json".to_string(),
        "/data/captures/kept.png".to_string(),
        "/data/captures/notes.PNG".to_string(),
    ];
    let referenced = vec!["/data/captures//kept.png".to_string()];
    assert_eq!(orphaned_images(&files, &referenced), vec!["/data/captures/orphaned.png"]);
    assert!(orphaned_images(&[], &referenced).is_empty());
}
