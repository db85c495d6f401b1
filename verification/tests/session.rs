use kiroku::models::{AppConfig, CaptureRecord};
use kiroku::session::{
    assemble_sessions, assemble_sessions_at, centered_offset, collage_cell, collage_file_name,
    collage_grid, compare_dhashes, compose_collage, select_key_frames, session_id_from_stem,
    session_record,
    CollageCell, SessionError,
};
use kiroku::db::DbError;

fn capture(id: &str, timestamp: &str, dhash: Option<&str>) -> CaptureRecord {
    CaptureRecord {
        id: id.to_string(),
        timestamp: timestamp.to_string(),
        app: "excel.exe".to_string(),
        window_title: "sheet".to_string(),
        image_path: Some(format!("captures/{id}.png")),
        description: None,
        dhash: dhash.map(ToOwned::to_owned),
    }
}

#[test]
fn assemble_sessions_splits_by_gap_and_window() {
    let config = AppConfig {
        session_gap_secs: 600,
        session_window_secs: 300,
        ..AppConfig::default()
    };
    let captures = vec![
        capture("a", "2024-01-01T10:00:00+09:00", None),
        capture("b", "2024-01-01T10:04:00+09:00", None),
        capture("c", "2024-01-01T10:12:00+09:00", None),
        capture("d", "2024-01-01T10:30:00+09:00", None),
    ];

    let sessions = assemble_sessions(captures, &config);

    assert_eq!(sessions.len(), 3);
    assert_eq!(sessions[0].len(), 2);
    assert_eq!(sessions[1].len(), 1);
    assert_eq!(sessions[2].len(), 1);
}

#[test]
fn select_key_frames_deduplicates_near_identical_hashes() {
    let captures = vec![
        capture("a", "2024-01-01T10:00:00+09:00", Some("0000000000000000")),
        capture("b", "2024-01-01T10:01:00+09:00", Some("0000000000000001")),
        capture("c", "2024-01-01T10:02:00+09:00", Some("ffffffffffffffff")),
    ];

    let frames = select_key_frames(&captures, 6);

    assert_eq!(frames.len(), 2);
    assert_eq!(frames[0].id, "a");
    assert_eq!(frames[1].id, "c");
}

#[test]
fn open_session_is_kept_until_the_gap_has_passed() {
    let config = AppConfig {
        session_gap_secs: 600,
        session_window_secs: 900,
        ..AppConfig::default()
    };
    let captures = vec![
        capture("a", "2024-01-01T10:00:00+09:00", None),
        capture("b", "2024-01-01T10:05:00+09:00", None),
    ];
    // 2024-01-01T10:05:00+09:00 is 1704071100 seconds after the epoch.
    let soon = (1_704_071_100 + 300, 0);
    let later = (1_704_071_100 + 601, 0);
    assert_eq!(assemble_sessions_at(captures.clone(), &config, soon).len(), 0);
    let closed = assemble_sessions_at(captures, &config, later);
    assert_eq!(closed.len(), 1);
    assert_eq!(closed[0].len(), 2);
}

#[test]
fn unreadable_timestamps_are_left_out_of_sessions() {
    let config = AppConfig {
        session_gap_secs: 600,
        session_window_secs: 900,
        ..AppConfig::default()
    };
    let captures = vec![
        capture("a", "not a time", None),
        capture("b", "2024-01-01T10:00:00+09:00", None),
    ];
    let sessions = assemble_sessions(captures, &config);
    assert_eq!(sessions.len(), 1);
    assert_eq!(sessions[0][0].id, "b");
}

#[test]
fn compare_dhashes_needs_two_readable_hashes() {
    assert_eq!(compare_dhashes(Some("0000000000000000"), Some("ffffffffffffffff")), Some(64));
    assert_eq!(compare_dhashes(Some("00ff"), Some("00fe")), Some(1));
    assert_eq!(compare_dhashes(None, Some("00")), None);
    assert_eq!(compare_dhashes(Some("zz"), Some("00")), None);
}

#[test]
fn key_frames_are_spread_over_a_long_session() {
    let captures: Vec<CaptureRecord> = (0..10u64)
        .map(|i| {
            let hash = format!("{:016x}", if i % 2 == 0 { 0u64 } else { u64::MAX });
            capture(&format!("c{i}"), "2024-01-01T10:00:00+09:00", Some(&hash))
        })
        .collect();
    let frames = select_key_frames(&captures, 4);
    let ids: Vec<&str> = frames.iter().map(|c| c.id.as_str()).collect();
    assert_eq!(ids, vec!["c0", "c2", "c5", "c7"]);
}

#[test]
fn collage_grid_follows_frame_count() {
    assert_eq!(collage_grid(0), (1, 1));
    assert_eq!(collage_grid(1), (1, 1));
    assert_eq!(collage_grid(2), (1, 2));
    assert_eq!(collage_grid(3), (2, 2));
    assert_eq!(collage_grid(4), (2, 2));
    assert_eq!(collage_grid(6), (2, 3));
}

#[test]
fn collage_cells_fill_rows_first() {
    let cell = collage_cell(4, 6);
    assert_eq!(cell, CollageCell { x: 426, y: 480, width: 426, height: 480 });
    let first = collage_cell(0, 2);
    assert_eq!(first, CollageCell { x: 0, y: 0, width: 640, height: 960 });
    assert_eq!(centered_offset(cell, 400, 480), (439, 480));
    assert_eq!(centered_offset(first, 1000, 100), (0, 430));
}

#[test]
fn collage_name_carries_the_session_id() {
    let name = collage_file_name("abc-123");
    assert_eq!(name, "collage_abc-123.png");
    assert_eq!(session_id_from_stem("collage_abc-123").as_deref(), Some("abc-123"));
    assert_eq!(session_id_from_stem("photo_abc"), None);
}

#[test]
fn session_record_spans_first_to_last_capture() {
    let captures = vec![
        capture("a", "2024-01-01T10:00:00+09:00", None),
        capture("b", "2024-01-01T10:04:00+09:00", None),
    ];
    let record = session_record("s1".to_string(), &captures, "sessions/collage_s1.png".to_string(), 2)
        .expect("a session with captures has a record");
    assert_eq!(record.start_time, "2024-01-01T10:00:00+09:00");
    assert_eq!(record.end_time, "2024-01-01T10:04:00+09:00");
    assert_eq!(record.capture_count, 2);
    assert_eq!(record.frame_count, 2);
    assert!(!record.processed);
    assert!(session_record("s2".to_string(), &[], String::new(), 0).is_none());
}

#[test]
fn session_errors_have_messages() {
    assert_eq!(
        SessionError::Db(DbError::CaptureNotFound).message(),
        "database error: capture record was not found"
    );
    assert_eq!(SessionError::Io("disk full".to_string()).message(), "io error: disk full");
    assert_eq!(
        SessionError::Image("bad png".to_string()).message(),
        "image processing error: bad png"
    );
}

fn png_of(width: u32, height: u32, rgba: [u8; 4]) -> Vec<u8> {
    let image = image::RgbaImage::from_pixel(width, height, image::Rgba(rgba));
    let mut bytes = std::io::Cursor::new(Vec::new());
    image::DynamicImage::ImageRgba8(image)
        .write_to(&mut bytes, image::ImageFormat::Png)
        .expect("png should encode");
    bytes.into_inner()
}

fn decode(png: &[u8]) -> image::RgbaImage {
    image::load_from_memory(png).expect("collage should decode").to_rgba8()
}

#[test]
fn empty_collage_is_an_opaque_black_canvas() {
    let png = compose_collage(&Vec::new()).expect("collage should build");
    let canvas = decode(&png);
    assert_eq!(canvas.dimensions(), (1280, 960));
    assert!(canvas.pixels().all(|pixel| pixel.0 == [0, 0, 0, 255]));
}

#[test]
fn unreadable_frames_are_left_out_of_the_collage() {
    let frames = vec![None, Some(b"not a picture".to_vec())];
    let canvas = decode(&compose_collage(&frames).expect("collage should build"));
    assert!(canvas.pixels().all(|pixel| pixel.0 == [0, 0, 0, 255]));
}

#[test]
fn single_frame_is_scaled_into_the_centre() {
    let frames = vec![Some(png_of(2, 2, [255, 0, 0, 255]))];
    let canvas = decode(&compose_collage(&frames).expect("collage should build"));
    // A square picture fills the height (960) and is centred: columns 160 to 1119.
    assert_eq!(canvas.get_pixel(640, 480).0, [255, 0, 0, 255]);
    assert_eq!(canvas.get_pixel(160, 0).0, [255, 0, 0, 255]);
    assert_eq!(canvas.get_pixel(1119, 959).0, [255, 0, 0, 255]);
    assert_eq!(canvas.get_pixel(159, 480).0, [0, 0, 0, 255]);
    assert_eq!(canvas.get_pixel(1120, 480).0, [0, 0, 0, 255]);
}

#[test]
fn two_frames_sit_side_by_side() {
    let frames = vec![Some(png_of(64, 48, [0, 255, 0, 255])), Some(png_of(64, 48, [0, 0, 255, 255]))];
    let canvas = decode(&compose_collage(&frames).expect("collage should build"));
    // Each 640 by 960 cell holds a 640 by 480 picture, centred vertically.
    assert_eq!(canvas.get_pixel(320, 480).0, [0, 255, 0, 255]);
    assert_eq!(canvas.get_pixel(960, 480).0, [0, 0, 255, 255]);
    assert_eq!(canvas.get_pixel(320, 100).0, [0, 0, 0, 255]);
    assert_eq!(canvas.get_pixel(960, 900).0, [0, 0, 0, 255]);
}
