use kiroku::models::CaptureRecord;
use kiroku::vlm::batch::{
    effective_concurrency, estimate_remaining_secs, final_progress, initial_progress,
    server_start_plan, BatchCommand, BatchGate, BatchResult, BatchRun,
};
use kiroku::vlm::copilot_server::{
    after_failed_restart, after_status_check, classify_status, copilot_enabled,
    copilot_server_args, copilot_server_url, copilot_start_plan, monitor_tick, node_candidates,
    null_device_path, script_candidates, status_from_body, ConnectionState, CopilotStartPlan,
    MonitorAction, MonitorTick,
};
use kiroku::vlm::inference::{
    chat_endpoint, check_status, description_from_body, extract_description, fits_vlm_bounds,
    image_data_url, retry_delay_ms, should_retry,
};
use kiroku::vlm::server::{
    binary_names, health_url, is_local_host, is_server_binary_name, llama_server_args,
    ready_error, ready_step, refreshed_status, select_model_files, server_url, start_plan,
    update_vlm_state, ReadyStep, StartPlan, VlmError,
};
use kiroku::models::VlmState;

fn pending(id: &str, image: Option<&str>) -> CaptureRecord {
    CaptureRecord {
        id: id.to_string(),
        timestamp: "2026-04-02T10:00:00+09:00".to_string(),
        app: "excel.exe".to_string(),
        window_title: "sheet".to_string(),
        image_path: image.map(ToOwned::to_owned),
        description: None,
        dhash: None,
    }
}

#[test]
fn estimate_remaining_secs_uses_average_elapsed_time() {
    let remaining = estimate_remaining_secs(&[20, 40], 5, 2);
    assert_eq!(remaining, Some(90));
}

#[test]
fn estimate_remaining_secs_returns_none_without_history() {
    let remaining = estimate_remaining_secs(&[], 5, 2);
    assert_eq!(remaining, None);
}

#[test]
fn estimate_rounds_the_average_down_and_stops_at_zero() {
    assert_eq!(estimate_remaining_secs(&[10, 11], 4, 1), Some(30));
    assert_eq!(estimate_remaining_secs(&[10], 2, 5), Some(0));
}

#[test]
fn batch_run_describes_skips_and_finishes() {
    let mut run = BatchRun::new(
        vec![pending("a", Some("captures/a.png")), pending("b", None), pending("c", Some("captures/c.png"))],
        true,
    );
    match run.next_command(BatchGate::Go) {
        BatchCommand::Describe { progress, id, image_path } => {
            assert_eq!(id, "a");
            assert_eq!(image_path, "captures/a.png");
            assert_eq!(progress.current_id.as_deref(), Some("a"));
            assert_eq!(progress.estimated_remaining_secs, None);
        }
        _ => panic!("the first capture should be described"),
    }
    assert!(run.is_awaiting_outcome());
    assert!(run.record_outcome(Some(20)));
    match run.next_command(BatchGate::Go) {
        BatchCommand::Skip { progress } => {
            assert_eq!(progress.current_id.as_deref(), Some("b"));
            assert_eq!(progress.completed, 1);
            assert_eq!(progress.estimated_remaining_secs, Some(40));
        }
        _ => panic!("a capture without an image is skipped"),
    }
    match run.next_command(BatchGate::Go) {
        BatchCommand::Describe { progress, .. } => {
            assert_eq!(progress.failed, 1);
        }
        _ => panic!("the third capture should be described"),
    }
    assert!(!run.record_outcome(None));
    match run.next_command(BatchGate::Go) {
        BatchCommand::Finish { result, error } => {
            assert_eq!(
                result,
                BatchResult { total: 3, completed: 1, failed: 2, cancelled: false }
            );
            assert!(error.is_none());
        }
        _ => panic!("the batch should finish"),
    }
}

#[test]
fn batch_run_reports_cancellation() {
    let mut run = BatchRun::new(vec![pending("a", Some("a.png")), pending("b", Some("b.png"))], false);
    assert!(run.has_next());
    match run.next_command(BatchGate::Go) {
        BatchCommand::Describe { .. } => {}
        _ => panic!("the first capture should be described"),
    }
    assert!(!run.record_outcome(Some(5)));
    match run.next_command(BatchGate::Stop) {
        BatchCommand::Finish { result, error } => {
            assert_eq!(result, BatchResult { total: 2, completed: 1, failed: 0, cancelled: true });
            assert!(error.is_none());
        }
        _ => panic!("a stop ends the batch"),
    }
    match run.next_command(BatchGate::PauseAborted("VLM batch cancelled while paused".to_string())) {
        BatchCommand::Finish { result, error } => {
            assert!(result.cancelled);
            assert_eq!(error.as_deref(), Some("VLM batch cancelled while paused"));
        }
        _ => panic!("an aborted pause ends the batch"),
    }
}

#[test]
fn empty_batch_finishes_at_once() {
    let mut run = BatchRun::new(Vec::new(), true);
    assert_eq!(initial_progress(0).estimated_remaining_secs, Some(0));
    assert_eq!(initial_progress(4).estimated_remaining_secs, None);
    match run.next_command(BatchGate::Stop) {
        BatchCommand::Finish { result, error } => {
            assert_eq!(result, BatchResult { total: 0, completed: 0, failed: 0, cancelled: false });
            assert!(error.is_none());
        }
        _ => panic!("an empty batch finishes"),
    }
    let done = final_progress(3, 2, 1);
    assert_eq!((done.total, done.completed, done.failed), (3, 2, 1));
    assert_eq!(done.estimated_remaining_secs, Some(0));
    assert!(done.current_id.is_none());
}

#[test]
fn server_start_needs_both_model_files() {
    assert!(matches!(server_start_plan(true, None, None), Ok(None)));
    let missing_model = server_start_plan(false, None, Some("p".to_string())).unwrap_err();
    assert_eq!(
        missing_model.message(),
        "VLM server is not running and model_path was not provided"
    );
    let missing_projector = server_start_plan(false, Some("m".to_string()), None).unwrap_err();
    assert_eq!(
        missing_projector.message(),
        "VLM server is not running and mmproj_path was not provided"
    );
    assert_eq!(
        server_start_plan(false, Some("m".to_string()), Some("p".to_string())).unwrap(),
        Some(("m".to_string(), "p".to_string()))
    );
    assert_eq!(effective_concurrency(Some(0)), 1);
    assert_eq!(effective_concurrency(Some(3)), 3);
    assert_eq!(effective_concurrency(None), 1);
}

#[test]
fn status_changes_are_reported_once() {
    let state = classify_status(Some((false, true)));
    assert_eq!(state, ConnectionState::LoginRequired);
    let (state, action) = after_status_check(ConnectionState::Disconnected, state);
    assert_eq!(action, MonitorAction::NotifyLoginRequired);
    let (_, again) = after_status_check(state, ConnectionState::LoginRequired);
    assert_eq!(again, MonitorAction::Quiet);
    let (state, action) = after_status_check(state, classify_status(Some((true, false))));
    assert_eq!((state, action), (ConnectionState::Connected, MonitorAction::ReportConnected));
    assert_eq!(classify_status(None), ConnectionState::Disconnected);
    assert_eq!(
        after_status_check(ConnectionState::Connected, ConnectionState::Disconnected).1,
        MonitorAction::Quiet
    );
    let (state, action) = after_failed_restart(ConnectionState::Connected);
    assert_eq!((state, action), (ConnectionState::Disconnected, MonitorAction::ReportDisconnected));
    assert_eq!(after_failed_restart(state).1, MonitorAction::Quiet);
}

#[test]
fn monitor_ticks_follow_batch_and_engine() {
    assert_eq!(monitor_tick(true, "llama"), MonitorTick::Skip);
    assert_eq!(monitor_tick(false, "llama"), MonitorTick::Stop);
    assert_eq!(monitor_tick(false, "copilot"), MonitorTick::Check);
    assert!(copilot_enabled(true, "copilot"));
    assert!(!copilot_enabled(false, "copilot"));
}

#[test]
fn copilot_bridge_command_line() {
    assert_eq!(copilot_server_url(18080), "http://127.0.0.1:18080");
    assert_eq!(
        copilot_server_args("/app/copilot_server.js", 18080, 9333, "/data/edge-profile"),
        vec![
            "/app/copilot_server.js",
            "--port",
            "18080",
            "--cdp-port",
            "9333",
            "--user-data-dir",
            "/data/edge-profile",
        ]
    );
    assert_eq!(node_candidates(), vec!["node", "node.exe"]);
    assert_eq!(null_device_path(true), "NUL");
    assert_eq!(null_device_path(false), "/dev/null");
    assert_eq!(
        script_candidates(None, "/data", Some("/res"), None),
        vec!["/data/binaries/copilot_server.js", "/res/binaries/copilot_server.js"]
    );
}

#[test]
fn copilot_start_needs_node_and_script() {
    assert!(matches!(copilot_start_plan(true, Ok(false), None, None), Ok(CopilotStartPlan::AlreadyRunning)));
    let no_node = copilot_start_plan(false, Ok(false), None, Some("s".to_string())).unwrap_err();
    assert_eq!(no_node.message(), "Node.js runtime could not be found");
    let no_script = copilot_start_plan(false, Ok(false), Some("node".to_string()), None).unwrap_err();
    assert_eq!(no_script.message(), "copilot_server.js could not be found");
    match copilot_start_plan(false, Ok(true), Some("node".to_string()), Some("s.js".to_string())) {
        Ok(CopilotStartPlan::Launch { stop_first, node, script_path }) => {
            assert!(stop_first);
            assert_eq!(node, "node");
            assert_eq!(script_path, "s.js");
        }
        _ => panic!("the bridge should be launched"),
    }
    let failed = copilot_start_plan(false, Err(VlmError::Io("busy".to_string())), None, None);
    assert!(matches!(failed, Err(VlmError::Io(_))));
}

#[test]
fn server_command_line_and_start_plan() {
    assert_eq!(
        llama_server_args("m.gguf", "p.gguf", "127.0.0.1", 8080, 4),
        vec![
            "-m", "m.gguf", "--mmproj", "p.gguf", "--host", "127.0.0.1", "--port", "8080", "-t", "4",
            "--ctx-size", "4096", "--log-disable",
        ]
    );
    assert!(matches!(start_plan(true, Ok(true), None), Ok(StartPlan::AlreadyRunning)));
    assert!(matches!(start_plan(false, Ok(false), None), Err(VlmError::BinaryNotFound)));
    match start_plan(false, Ok(true), Some("/bin/llama-server".to_string())) {
        Ok(StartPlan::Launch { stop_first, binary_path }) => {
            assert!(stop_first);
            assert_eq!(binary_path, "/bin/llama-server");
        }
        _ => panic!("the server should be launched"),
    }
    assert_eq!(server_url("127.0.0.1", 8080), "http://127.0.0.1:8080");
    assert_eq!(health_url("http://127.0.0.1:8080"), "http://127.0.0.1:8080/health");
}

#[test]
fn waiting_for_the_server_checks_deadline_exit_and_health_in_order() {
    assert!(matches!(ready_step(true, Some(Some(1)), true), ReadyStep::TimedOut));
    assert!(matches!(ready_step(false, Some(Some(1)), true), ReadyStep::Exited(Some(1))));
    assert!(matches!(ready_step(false, None, true), ReadyStep::Ready));
    assert!(matches!(ready_step(false, None, false), ReadyStep::Wait));
    assert_eq!(ready_error(&ReadyStep::TimedOut), Some(VlmError::StartupTimeout));
    assert_eq!(ready_error(&ReadyStep::Exited(None)), Some(VlmError::ProcessExited(None)));
    assert_eq!(ready_error(&ReadyStep::Ready), None);
}

#[test]
fn vlm_error_messages() {
    assert_eq!(
        VlmError::ProcessExited(Some(-1)).message(),
        "llama-server exited before becoming ready (code: Some(-1))"
    );
    assert_eq!(
        VlmError::ProcessExited(None).message(),
        "llama-server exited before becoming ready (code: None)"
    );
    assert_eq!(VlmError::UnexpectedStatus(503).message(), "VLM endpoint returned status 503");
    assert_eq!(VlmError::BinaryNotFound.message(), "llama-server binary could not be found");
    assert_eq!(VlmError::Http("x".to_string()).message(), "VLM health check failed");
    assert_eq!(VlmError::Serde("x".to_string()).message(), "failed to parse VLM response");
    assert_eq!(VlmError::Image("x".to_string()).message(), "image processing failed");
    assert_eq!(VlmError::Join("x".to_string()).message(), "background task failed to join");
    assert_eq!(VlmError::Io("x".to_string()).message(), "failed to start or stop llama-server");
    assert_eq!(VlmError::StartupTimeout.message(), "llama-server startup timed out");
    assert_eq!(VlmError::InvalidResponse("bad".to_string()).message(), "bad");
    assert_eq!(
        VlmError::NonLocalHost("api.openai.com:443".to_string()).message(),
        "VLM host must be localhost or 127.0.0.1: api.openai.com:443"
    );
}

#[test]
fn local_hosts_are_recognised() {
    assert!(is_local_host("LOCALHOST"));
    assert!(is_local_host("127.0.0.1"));
    assert!(is_local_host("[::1]"));
    assert!(!is_local_host("192.168.0.2"));
}

#[test]
fn server_binaries_and_model_files_are_recognised() {
    assert!(is_server_binary_name("llama-server-x86_64-pc-windows-msvc.exe"));
    assert!(is_server_binary_name("LLAMA-SERVER"));
    assert!(!is_server_binary_name("server-llama"));
    assert_eq!(binary_names(true), vec!["llama-server.exe", "llama-server"]);
    assert_eq!(binary_names(false), vec!["llama-server"]);
    let names = vec![
        "readme.txt".to_string(),
        "qwen2.5-vl-mmproj-f16.gguf".to_string(),
        "qwen2.5-vl-0.5b-instruct.gguf".to_string(),
        "other.GGUF".to_string(),
    ];
    assert_eq!(select_model_files(&names), Some((2, 1)));
    assert_eq!(select_model_files(&names[..2]), None);
}

#[test]
fn server_state_updates() {
    let mut state = VlmState { server_running: false, batch_running: true, last_error: Some("old".to_string()) };
    update_vlm_state(&mut state, Some(true), None, None);
    assert_eq!(state, VlmState { server_running: true, batch_running: true, last_error: None });
    assert_eq!(refreshed_status(Ok(false), Ok(())), (true, None));
    assert_eq!(refreshed_status(Ok(false), Err("down".to_string())), (false, Some("down".to_string())));
    assert_eq!(refreshed_status(Err("gone".to_string()), Ok(())), (false, Some("gone".to_string())));
}

#[test]
fn retries_back_off_and_stop() {
    let http = VlmError::Http("reset".to_string());
    assert!(should_retry(&http));
    assert!(!should_retry(&VlmError::StartupTimeout));
    assert_eq!(retry_delay_ms(0, &http), Some(500));
    assert_eq!(retry_delay_ms(1, &http), Some(1000));
    assert_eq!(retry_delay_ms(2, &http), None);
    assert_eq!(retry_delay_ms(0, &VlmError::BinaryNotFound), None);
}

#[test]
fn descriptions_are_read_from_the_chat_answer() {
    let body = r#"{"choices":[{"message":{"content":"  Excel で売上表を更新している。 "}}]}"#;
    assert_eq!(description_from_body(body).unwrap(), "Excel で売上表を更新している。");
    let blank = r#"{"choices":[{"message":{"content":"   "}}]}"#;
    assert_eq!(
        description_from_body(blank).unwrap_err().message(),
        "VLM response did not contain message content"
    );
    assert!(matches!(description_from_body(r#"{"choices":[]}"#), Err(VlmError::InvalidResponse(_))));
    assert!(matches!(description_from_body("not json"), Err(VlmError::Http(_))));
    assert!(extract_description(None).is_err());
    assert_eq!(check_status(204), Ok(()));
    assert_eq!(check_status(500), Err(VlmError::UnexpectedStatus(500)));
}

#[test]
fn requests_go_to_the_chat_endpoint_with_a_data_url() {
    assert_eq!(chat_endpoint("http://127.0.0.1:8080//"), "http://127.0.0.1:8080/v1/chat/completions");
    assert_eq!(image_data_url(&[0, 1, 2]), "data:image/png;base64,AAEC");
    assert_eq!(image_data_url(&[0xff]), "data:image/png;base64,/w==");
    assert!(fits_vlm_bounds(1280, 720));
    assert!(!fits_vlm_bounds(2560, 1440));
}

fn png_of(width: u32, height: u32) -> Vec<u8> {
    let image = image::DynamicImage::ImageRgba8(image::ImageBuffer::from_pixel(
        width,
        height,
        image::Rgba([0_u8, 0_u8, 0_u8, 255_u8]),
    ));
    let mut out = std::io::Cursor::new(Vec::new());
    image
        .write_to(&mut out, image::ImageFormat::Png)
        .expect("test image should encode");
    out.into_inner()
}

#[test]
fn resize_for_vlm_keeps_image_within_bounds() {
    let png = kiroku::vlm::inference::vlm_png(&png_of(2560, 1440)).expect("image should be prepared");
    let resized = image::load_from_memory(&png).expect("prepared image should decode");
    assert!(resized.width() <= kiroku::vlm::inference::MAX_IMAGE_WIDTH);
    assert!(resized.height() <= kiroku::vlm::inference::MAX_IMAGE_HEIGHT);
    assert_eq!((resized.width(), resized.height()), (1280, 720));
}

#[test]
fn small_images_are_sent_at_their_size_and_garbage_is_refused() {
    let png = kiroku::vlm::inference::vlm_png(&png_of(640, 360)).expect("image should be prepared");
    let same = image::load_from_memory(&png).expect("prepared image should decode");
    assert_eq!((same.width(), same.height()), (640, 360));
    assert!(matches!(
        kiroku::vlm::inference::vlm_png(b"not an image"),
        Err(VlmError::Image(_))
    ));
}

#[test]
fn screenshots_are_read_from_file_bytes() {
    let frame = kiroku::diff::frame_from_image_bytes(&png_of(9, 8)).expect("png should decode");
    assert_eq!((frame.width(), frame.height()), (9, 8));
    assert_eq!(kiroku::diff::compute_dhash(&frame), 0);
    assert!(kiroku::diff::frame_from_image_bytes(&[1, 2, 3]).is_err());
}

#[test]
fn data_urls_encode_every_group_of_bytes() {
    assert_eq!(image_data_url(b"hello"), "data:image/png;base64,aGVsbG8=");
    assert_eq!(image_data_url(b"Man"), "data:image/png;base64,TWFu");
    assert_eq!(image_data_url(&[]), "data:image/png;base64,");
    assert_eq!(image_data_url(&[0xfb, 0xff]), "data:image/png;base64,+/8=");
}

#[test]
fn status_bodies_give_both_flags_or_nothing() {
    assert_eq!(status_from_body(r#"{"connected":true,"loginRequired":false}"#), Some((true, false)));
    assert_eq!(status_from_body(r#"{"connected":false,"loginRequired":true,"extra":1}"#), Some((false, true)));
    assert_eq!(status_from_body(r#"{"connected":true}"#), None);
    assert_eq!(status_from_body(r#"{"connected":"yes","loginRequired":false}"#), None);
    assert_eq!(status_from_body("not json"), None);
}
