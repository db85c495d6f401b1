use kiroku::summary::{
    batch_type_for_hour, daily_record_prompt, daily_window_start, format_time_hhmm,
    hourly_summary_prompt, pending_summary_periods, period_label, period_type,
    next_summary_step, previous_hour_period, source_ids_json, summary_lines, summary_reply,
    BatchType, SummaryReply, SummaryStep, TimedText,
};
use kiroku::models::{default_daily_record_prompt, default_hourly_summary_prompt};
use kiroku::vlm::server::VlmError;

fn timed(start: &str, end: &str, text: &str) -> TimedText {
    TimedText { start: start.to_string(), end: end.to_string(), text: text.to_string() }
}

#[test]
fn times_are_shown_in_the_offset_they_carry() {
    assert_eq!(format_time_hhmm("2026-04-02T10:05:00+09:00"), "10:05");
    assert_eq!(format_time_hhmm("2026-04-02T01:05:00Z"), "01:05");
    assert_eq!(format_time_hhmm("yesterday"), "yesterday");
}

#[test]
fn summary_lines_are_joined_by_line_breaks() {
    let items = vec![
        timed("2026-04-02T10:00:00+09:00", "2026-04-02T10:15:00+09:00", "Excel で集計"),
        timed("2026-04-02T10:20:00+09:00", "2026-04-02T10:40:00+09:00", ""),
    ];
    assert_eq!(
        summary_lines(&items),
        "- 10:00〜10:15: Excel で集計\n- 10:20〜10:40: "
    );
    assert_eq!(summary_lines(&[]), "");
}

#[test]
fn hourly_prompt_fills_every_placeholder() {
    let items = vec![timed("2026-04-02T10:00:00+09:00", "2026-04-02T10:15:00+09:00", "メール確認")];
    let prompt = hourly_summary_prompt(&default_hourly_summary_prompt(), "10:00", "11:00", &items);
    assert!(prompt.starts_with("10:00 から 11:00 までの業務セッションの記録です。\n- 10:00〜10:15: メール確認\n"));
    assert!(!prompt.contains("{start_time}"));
    assert!(!prompt.contains("{sessions}"));
    assert_eq!(
        hourly_summary_prompt("{start_time}-{end_time} {start_time}", "09:00", "10:00", &[]),
        "09:00-10:00 09:00"
    );
}

#[test]
fn daily_prompt_names_the_date_and_half_day() {
    let items = vec![timed("2026-04-02T09:00:00+09:00", "2026-04-02T10:00:00+09:00", "決算作業")];
    let prompt = daily_record_prompt(
        &default_daily_record_prompt(),
        "2026-04-02",
        period_label(BatchType::Morning),
        &items,
    );
    assert!(prompt.starts_with("2026-04-02 の午前の業務要約です。\n- 09:00〜10:00: 決算作業\n"));
}

#[test]
fn batch_type_and_period_names_follow_the_hour() {
    assert_eq!(batch_type_for_hour(12), BatchType::Morning);
    assert_eq!(batch_type_for_hour(13), BatchType::Afternoon);
    assert_eq!(period_type(BatchType::Morning), "morning");
    assert_eq!(period_type(BatchType::Afternoon), "afternoon");
    assert_eq!(period_label(BatchType::Afternoon), "午後");
    assert_eq!(daily_window_start(1_000, BatchType::Morning), 1_000);
    assert_eq!(daily_window_start(1_000, BatchType::Afternoon), 1_000 + 12 * 3600);
    assert_eq!(previous_hour_period(7_200), (3_600, 7_200));
}

#[test]
fn pending_periods_cover_the_day_without_gaps() {
    let day = 1_775_055_600;
    let periods = pending_summary_periods(day, day + 3 * 3600, day + 3 * 3600 + 125);
    assert_eq!(
        periods,
        vec![
            (day, day + 3600),
            (day + 3600, day + 7200),
            (day + 7200, day + 10_800),
            (day + 10_800, day + 10_925),
        ]
    );
    assert_eq!(pending_summary_periods(day, day, day), vec![]);
    assert_eq!(pending_summary_periods(day, day, day + 10), vec![(day, day + 10)]);
}

#[test]
fn replies_are_sorted() {
    assert!(matches!(summary_reply(Ok("要約".to_string())), SummaryReply::Text(ref t) if t == "要約"));
    assert!(matches!(
        summary_reply(Err(VlmError::LoginRequired("ログインしてください".to_string()))),
        SummaryReply::LoginRequired(ref m) if m == "ログインしてください"
    ));
    assert!(matches!(
        summary_reply(Err(VlmError::StartupTimeout)),
        SummaryReply::Failed(ref m) if m == "llama-server startup timed out"
    ));
}

#[test]
fn source_ids_are_stored_as_a_json_list() {
    assert_eq!(
        source_ids_json(&["a".to_string(), "b\"c".to_string()]).unwrap(),
        r#"["a","b\"c"]"#
    );
    assert_eq!(source_ids_json(&[]).unwrap(), "[]");
}

#[test]
fn summary_steps_skip_covered_and_empty_periods() {
    assert_eq!(next_summary_step(false, None, None), SummaryStep::Skip);
    assert_eq!(next_summary_step(true, None, None), SummaryStep::CheckExisting);
    assert_eq!(next_summary_step(true, Some(true), None), SummaryStep::Skip);
    assert_eq!(next_summary_step(true, Some(false), None), SummaryStep::LoadSources);
    assert_eq!(next_summary_step(true, Some(false), Some(0)), SummaryStep::Skip);
    assert_eq!(next_summary_step(true, Some(false), Some(3)), SummaryStep::Ask);
}
