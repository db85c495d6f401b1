use kiroku::db::StoredCaptureRecord;
use kiroku::export::{
    apply_mask_rules, contains_binary_like_payload, csv_bom, csv_file_bytes, csv_header,
    export_csv_file, export_file_name,
    export_mask_rules, export_row, export_rows, validate_filter, validate_text_for_export,
    ExportError, ExportFilter,
};
use kiroku::models::MaskRule;

fn stored(id: &str, timestamp: &str, app: &str, title: &str, description: Option<&str>) -> StoredCaptureRecord {
    StoredCaptureRecord {
        id: id.to_string(),
        timestamp: timestamp.to_string(),
        app: app.to_string(),
        window_title: title.to_string(),
        image_path: None,
        description: description.map(ToOwned::to_owned),
        dhash: None,
        vlm_processed: description.is_some(),
    }
}

fn rules() -> Vec<MaskRule> {
    vec![
        MaskRule {
            pattern: "株式会社A".to_string(),
            replacement: "[取引先]".to_string(),
            is_regex: false,
        },
        MaskRule {
            pattern: r"\b\d{3},\d{3}\b".to_string(),
            replacement: "[金額]".to_string(),
            is_regex: true,
        },
    ]
}

#[test]
fn export_rows_write_empty_description_as_blank() {
    let records = vec![
        stored("capture-a", "2026-04-01T09:00:00+09:00", "excel.exe", "売上.xlsx", Some("Excel で売上表を確認している。")),
        stored("capture-b", "2026-04-02T10:00:00+09:00", "outlook.exe", "受信トレイ", None),
    ];
    let rows = export_rows(&records, &[]).expect("rows should be prepared");
    assert_eq!(rows.len(), 2);
    assert_eq!(rows[0][3], "Excel で売上表を確認している。");
    assert_eq!(
        rows[1],
        vec!["2026-04-02T10:00:00+09:00", "outlook.exe", "受信トレイ", ""]
    );
    assert_eq!(csv_header(), vec!["timestamp", "app", "window_title", "description"]);
    assert_eq!(csv_bom(), vec![0xEF, 0xBB, 0xBF]);
}

#[test]
fn export_rows_reject_binary_like_descriptions() {
    let records = vec![
        stored("capture-a", "2026-04-01T09:00:00+09:00", "excel.exe", "売上.xlsx", Some("data:image/png;base64,AAAA")),
        stored("capture-b", "2026-04-02T10:00:00+09:00", "outlook.exe", "受信トレイ", None),
    ];
    let error = export_rows(&records, &[]).expect_err("binary-like descriptions should be rejected");
    assert!(
        matches!(error, ExportError::UnsafeDescription { ref capture_id } if capture_id == "capture-a"),
        "unsafe descriptions should point back to the capture id"
    );
    assert_eq!(
        error.message(),
        "capture capture-a contains unsupported binary-like data in description"
    );
}

#[test]
fn export_rows_apply_literal_and_regex_mask_rules() {
    let record = stored(
        "capture-a",
        "2026-04-01T09:00:00+09:00",
        "excel.exe",
        "株式会社A 御中",
        Some("Excel で株式会社Aの売上 120,000 円を確認している。"),
    );
    let row = export_row(&record, &rules()).expect("masked row should be prepared");
    assert_eq!(row[2], "[取引先] 御中");
    assert_eq!(row[3], "Excel で[取引先]の売上 [金額] 円を確認している。");
    assert!(!row[3].contains("120,000"));
}

#[test]
fn invalid_regex_mask_rule_is_reported() {
    let bad = vec![MaskRule {
        pattern: "(unclosed".to_string(),
        replacement: "x".to_string(),
        is_regex: true,
    }];
    let error = apply_mask_rules("text", &bad).expect_err("an invalid pattern should fail");
    match error {
        ExportError::InvalidMaskRule { ref pattern, .. } => assert_eq!(pattern, "(unclosed"),
        other => panic!("unexpected error: {other:?}"),
    }
    assert!(error.message().starts_with("mask rule pattern is invalid: (unclosed ("));
}

#[test]
fn empty_literal_rules_change_nothing() {
    let empty = vec![MaskRule::default()];
    assert_eq!(apply_mask_rules("keep me", &empty).unwrap(), "keep me");
    assert_eq!(apply_mask_rules("keep me", &[]).unwrap(), "keep me");
}

#[test]
fn binary_like_payloads_are_detected() {
    assert!(contains_binary_like_payload("data:image/png;base64,AAAA"));
    assert!(contains_binary_like_payload(&"A".repeat(256)));
    assert!(!contains_binary_like_payload(&"A".repeat(255)));
    assert!(!contains_binary_like_payload("Excel で売上表を確認している。"));
    assert_eq!(validate_text_for_export("id-1", "   "), Ok(()));
    assert_eq!(
        validate_text_for_export("id-1", " data:image/jpeg;base64,xx "),
        Err(ExportError::UnsafeDescription { capture_id: "id-1".to_string() })
    );
}

#[test]
fn export_filter_dates_must_be_iso() {
    assert_eq!(validate_filter(&ExportFilter::default()), Ok(()));
    let good = ExportFilter {
        start_date: Some("2026-04-01".to_string()),
        end_date: Some("2026-04-30".to_string()),
        ..ExportFilter::default()
    };
    assert_eq!(validate_filter(&good), Ok(()));
    let bad = ExportFilter {
        end_date: Some("2026/04/30".to_string()),
        ..ExportFilter::default()
    };
    assert_eq!(validate_filter(&bad), Err(ExportError::InvalidDate));
    assert_eq!(ExportError::InvalidDate.message(), "date must use YYYY-MM-DD format");
}

#[test]
fn export_error_messages() {
    assert_eq!(ExportError::Db("x".to_string()).message(), "failed to read export data");
    assert_eq!(ExportError::Io("x".to_string()).message(), "failed to create export file");
    assert_eq!(ExportError::Csv("x".to_string()).message(), "failed to write CSV file");
    assert_eq!(
        ExportError::InvalidSavePath.message(),
        "save dialog returned a non-filesystem path"
    );
    assert_eq!(
        ExportError::InvalidMaskRule { pattern: "p".to_string(), reason: "r".to_string() }.message(),
        "mask rule pattern is invalid: p (r)"
    );
}

#[test]
fn export_options_and_file_name() {
    assert_eq!(export_mask_rules(true, rules()).len(), 2);
    assert!(export_mask_rules(false, rules()).is_empty());
    assert_eq!(export_file_name("20260402"), "kiroku_export_20260402.csv");
}

#[test]
fn export_to_csv_writes_bom_and_empty_description_as_blank() {
    let records = vec![
        stored("capture-a", "2026-04-01T09:00:00+09:00", "excel.exe", "売上.xlsx", Some("Excel で売上表を確認している。")),
        stored("capture-b", "2026-04-02T10:00:00+09:00", "outlook.exe", "受信トレイ", None),
    ];
    let (bytes, count) = export_csv_file(&records, &[]).expect("export should succeed");
    assert_eq!(count, 2);
    assert!(bytes.starts_with(&[0xEF, 0xBB, 0xBF]));
    let text = String::from_utf8(bytes[3..].to_vec()).expect("csv should be utf-8");
    assert!(text.contains("timestamp,app,window_title,description"));
    assert!(text.contains("Excel で売上表を確認している。"));
    assert!(text.contains("2026-04-02T10:00:00+09:00,outlook.exe,受信トレイ,"));
    assert_eq!(text.lines().count(), 3);
}

#[test]
fn csv_fields_with_commas_and_quotes_are_quoted() {
    let bytes = csv_file_bytes(&[vec!["a,b".to_string(), "say \"hi\"".to_string(), "x".to_string(), "".to_string()]]);
    let text = String::from_utf8(bytes[3..].to_vec()).expect("csv should be utf-8");
    assert_eq!(text, "timestamp,app,window_title,description\n\"a,b\",\"say \"\"hi\"\"\",x,\n");
}

#[test]
fn export_to_csv_rejects_binary_like_descriptions() {
    let records = vec![
        stored("capture-a", "2026-04-01T09:00:00+09:00", "excel.exe", "売上.xlsx", Some("data:image/png;base64,AAAA")),
        stored("capture-b", "2026-04-02T10:00:00+09:00", "outlook.exe", "受信トレイ", None),
    ];
    let error = export_csv_file(&records, &[]).expect_err("binary-like descriptions should be rejected");
    assert!(
        matches!(error, ExportError::UnsafeDescription { capture_id } if capture_id == "capture-a"),
        "unsafe descriptions should point back to the capture id"
    );
}

#[test]
fn export_to_csv_applies_literal_and_regex_mask_rules() {
    let records = vec![
        stored("capture-a", "2026-04-01T09:00:00+09:00", "excel.exe", "売上.xlsx", Some("Excel で株式会社Aの売上 120,000 円を確認している。")),
        stored("capture-b", "2026-04-02T10:00:00+09:00", "outlook.exe", "受信トレイ", None),
    ];
    let (bytes, count) = export_csv_file(&records, &rules()).expect("masked export should succeed");
    assert_eq!(count, 2);
    let contents = String::from_utf8(bytes[3..].to_vec()).expect("csv should be utf-8");
    assert!(contents.contains("[取引先]"));
    assert!(contents.contains("[金額]"));
    assert!(!contents.contains("株式会社A"));
}
