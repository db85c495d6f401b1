use kiroku::config::{
    load_or_create_config, migrate_default_prompts, prepare_loaded_config,
    prepare_submitted_config, AppPaths, ConfigError, CONFIG_FILE_NAME,
};
use kiroku::models::{
    default_session_user_prompt, default_system_prompt, default_user_prompt, AppConfig, MaskRule,
};
use kiroku::vlm::server::{parse_host_and_port, vlm_endpoint, VlmError};

#[test]
fn load_or_create_config_writes_default_file() {
    let data_dir = "/tmp/kiroku-default-config";
    let config = load_or_create_config(None, data_dir);

    assert_eq!(config, AppConfig::with_data_dir(data_dir.to_string()));
    assert_eq!(config.capture_interval_secs, 10);
}

#[test]
fn load_config_backfills_empty_data_dir() {
    let data_dir = "/tmp/kiroku-backfill-data-dir";
    // The fields that the stored file names; serde fills the rest from the defaults.
    let stored = AppConfig {
        capture_interval_secs: 30,
        dhash_threshold: 10,
        auto_delete_images: true,
        scheduler_enabled: true,
        setup_complete: false,
        vlm_host: "127.0.0.1:8080".to_string(),
        vlm_max_tokens: 256,
        data_dir: String::new(),
        ..AppConfig::default()
    };

    let config = load_or_create_config(Some(stored), data_dir);

    assert_eq!(config.data_dir, data_dir);
    assert_eq!(config.capture_interval_secs, 10);
    assert_eq!(
        config.batch_times,
        vec!["12:00".to_string(), "17:30".to_string()]
    );
}

#[test]
fn remote_vlm_host_is_rejected_before_persisting() {
    let config = AppConfig {
        vlm_host: "api.openai.com:443".to_string(),
        data_dir: "/tmp/kiroku-reject-remote-vlm".to_string(),
        ..AppConfig::default()
    };

    let error = vlm_endpoint(&config).expect_err("remote VLM host should fail");
    assert!(
        error.message().contains("localhost"),
        "error should explain the localhost-only restriction"
    );
}

#[test]
fn parse_host_and_port_accepts_plain_host() {
    let parsed = parse_host_and_port("127.0.0.1:8080").expect("host should parse");
    assert_eq!(parsed, ("127.0.0.1".to_string(), 8080));
}

#[test]
fn host_parsing_uses_scheme_defaults_and_rejects_garbage() {
    assert_eq!(
        parse_host_and_port("http://localhost").expect("default port should apply"),
        ("localhost".to_string(), 80)
    );
    let error = parse_host_and_port("http://").expect_err("missing host should fail");
    assert!(matches!(error, VlmError::InvalidHost(ref h) if h == "http://"));
    assert_eq!(error.message(), "invalid VLM host: http://");
}

#[test]
fn blank_host_uses_the_local_default() {
    let config = AppConfig {
        vlm_host: "   ".to_string(),
        ..AppConfig::default()
    };
    assert_eq!(vlm_endpoint(&config).expect("default host is local"), ("127.0.0.1".to_string(), 8080));
}

#[test]
fn app_paths_are_inside_the_data_directory() {
    let paths = AppPaths::new("/var/kiroku".to_string());
    assert_eq!(paths.config_path, format!("/var/kiroku/{CONFIG_FILE_NAME}"));
    assert_eq!(paths.db_path, "/var/kiroku/kiroku.db");
    assert_eq!(paths.resource_dir, None);
    let with_resources = paths.with_resource_dir(Some("/opt/kiroku".to_string()));
    assert_eq!(with_resources.resource_dir.as_deref(), Some("/opt/kiroku"));
    assert_eq!(with_resources.data_dir, "/var/kiroku");
}

#[test]
fn migration_replaces_retired_defaults_and_keeps_custom_values() {
    let mut config = AppConfig {
        capture_interval_secs: 30,
        batch_times: Vec::new(),
        system_prompt: "   ".to_string(),
        user_prompt: "custom".to_string(),
        session_user_prompt: String::new(),
        ..AppConfig::default()
    };
    migrate_default_prompts(&mut config);
    assert_eq!(config.capture_interval_secs, 10);
    assert_eq!(config.batch_times, vec!["12:00".to_string(), "17:30".to_string()]);
    assert_eq!(config.system_prompt, default_system_prompt());
    assert_eq!(config.user_prompt, "custom");
    assert_eq!(config.session_user_prompt, default_session_user_prompt());

    let once = config.clone();
    migrate_default_prompts(&mut config);
    assert_eq!(config, once);
}

#[test]
fn retired_user_prompt_is_replaced() {
    let mut config = AppConfig {
        capture_interval_secs: 45,
        user_prompt: [
            "このスクリーンショットに写っている業務操作を1から3文で説明してください。",
            "必ず次の観点を含めてください: 使用中のアプリケーション、実行している操作、表示されているデータや対象。",
            "出力は自然な日本語の文章のみとし、箇条書きやJSONは使わないでください。",
        ]
        .concat(),
        ..AppConfig::default()
    };
    migrate_default_prompts(&mut config);
    assert_eq!(config.user_prompt, default_user_prompt());
    assert_eq!(config.capture_interval_secs, 45);
}

#[test]
fn loading_keeps_a_chosen_data_directory_and_forces_copilot() {
    let mut config = AppConfig {
        data_dir: "D:/records".to_string(),
        vlm_engine: "llama".to_string(),
        mask_rules: vec![MaskRule::default()],
        ..AppConfig::default()
    };
    prepare_loaded_config(&mut config, "/tmp/unused");
    assert_eq!(config.data_dir, "D:/records");
    assert_eq!(config.vlm_engine, "copilot");
    assert_eq!(config.mask_rules.len(), 1);
}

#[test]
fn submitted_configuration_fills_a_blank_data_directory() {
    let mut config = AppConfig {
        data_dir: " ".to_string(),
        vlm_engine: "other".to_string(),
        dhash_threshold: 7,
        ..AppConfig::default()
    };
    prepare_submitted_config(&mut config, "/home/user/kiroku");
    assert_eq!(config.data_dir, "/home/user/kiroku");
    assert_eq!(config.vlm_engine, "copilot");
    assert_eq!(config.dhash_threshold, 7);
}

#[test]
fn ensure_data_dir_reports_whether_it_filled_the_directory() {
    let mut config = AppConfig::default();
    assert!(config.ensure_data_dir("/data"));
    assert_eq!(config.data_dir, "/data");
    assert!(!config.ensure_data_dir("/other"));
    assert_eq!(config.data_dir, "/data");
}

#[test]
fn config_errors_have_messages() {
    assert_eq!(
        ConfigError::Serde("eof".to_string()).message(),
        "failed to parse config file"
    );
    assert_eq!(
        ConfigError::Vlm(VlmError::InvalidHost("x".to_string())).message(),
        "invalid VLM host: x"
    );
    assert_eq!(
        ConfigError::PathResolution("no dir".to_string()).message(),
        "failed to resolve app local data directory"
    );
    assert_eq!(ConfigError::Io("denied".to_string()).message(), "failed to read or write config file");
}

#[test]
fn default_mask_rule_masks_literally() {
    let rule = MaskRule::default();
    assert_eq!(rule.pattern, "");
    assert_eq!(rule.replacement, "[MASKED]");
    assert!(!rule.is_regex);
}

#[test]
fn loading_moves_the_old_debugging_port() {
    let mut stored = AppConfig::with_data_dir("/data".to_string());
    stored.edge_cdp_port = 9222;
    assert_eq!(load_or_create_config(Some(stored.clone()), "/default").edge_cdp_port, 9333);
    stored.edge_cdp_port = 9400;
    assert_eq!(load_or_create_config(Some(stored), "/default").edge_cdp_port, 9400);
}

#[test]
fn default_prompts_are_not_blank_and_survive_migration() {
    assert!(!default_system_prompt().trim().is_empty());
    assert!(!default_user_prompt().trim().is_empty());
    assert!(!default_session_user_prompt().trim().is_empty());
    let mut config = AppConfig::with_data_dir("/data".to_string());
    config.user_prompt = "   ".to_string();
    migrate_default_prompts(&mut config);
    assert_eq!(config.user_prompt, default_user_prompt());
    assert_eq!(config.system_prompt, default_system_prompt());
}
