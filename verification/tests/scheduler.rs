use chrono::{Local, TimeZone};
use kiroku::models::AppConfig;
use kiroku::scheduler::{
    candidate_requests, effective_batch_times, hourly_tick, next_run_at, scheduled_batch_needed,
    seconds_until, HourlyTick,
};

fn local_ts(y: i32, mo: u32, d: u32, h: u32, mi: u32) -> i64 {
    Local
        .with_ymd_and_hms(y, mo, d, h, mi, 0)
        .single()
        .expect("time should resolve")
        .timestamp()
}

fn local_of(ts: i64) -> chrono::DateTime<Local> {
    Local.timestamp_opt(ts, 0).single().expect("instant should resolve")
}

#[test]
fn next_run_at_returns_none_when_scheduler_is_disabled() {
    let config = AppConfig {
        scheduler_enabled: false,
        ..AppConfig::default()
    };

    let now = local_ts(2026, 4, 2, 12, 0);

    assert!(next_run_at(now, &config).is_none());
}

#[test]
fn next_run_at_rolls_to_next_day_after_last_batch_time() {
    let config = AppConfig {
        batch_times: vec!["17:45".to_string()],
        ..AppConfig::default()
    };

    let now = local_ts(2026, 4, 2, 23, 15);

    let next = local_of(next_run_at(now, &config).expect("next run should be calculated"));

    assert_eq!(next.date_naive().to_string(), "2026-04-03");
    assert_eq!(next.format("%H:%M").to_string(), "17:45");
}

#[test]
fn next_run_at_uses_nearest_future_batch_time_before_noon() {
    let config = AppConfig {
        batch_times: vec!["12:00".to_string(), "17:45".to_string()],
        ..AppConfig::default()
    };

    let now = local_ts(2026, 4, 2, 11, 0);

    let next = local_of(next_run_at(now, &config).expect("next run should be calculated"));

    assert_eq!(next.date_naive().to_string(), "2026-04-02");
    assert_eq!(next.format("%H:%M").to_string(), "12:00");
}

#[test]
fn next_run_at_uses_evening_batch_time_after_noon() {
    let config = AppConfig {
        batch_times: vec!["12:00".to_string(), "17:45".to_string()],
        ..AppConfig::default()
    };

    let now = local_ts(2026, 4, 2, 13, 0);

    let next = local_of(next_run_at(now, &config).expect("next run should be calculated"));

    assert_eq!(next.date_naive().to_string(), "2026-04-02");
    assert_eq!(next.format("%H:%M").to_string(), "17:45");
}

#[test]
fn next_run_at_rolls_to_next_day_noon_after_all_batch_times() {
    let config = AppConfig {
        batch_times: vec!["12:00".to_string(), "17:45".to_string()],
        ..AppConfig::default()
    };

    let now = local_ts(2026, 4, 2, 18, 0);

    let next = local_of(next_run_at(now, &config).expect("next run should be calculated"));

    assert_eq!(next.date_naive().to_string(), "2026-04-03");
    assert_eq!(next.format("%H:%M").to_string(), "12:00");
}

#[test]
fn unreadable_batch_times_fall_back_to_the_built_in_schedule() {
    let config = AppConfig {
        batch_times: vec!["noon".to_string(), "25:00".to_string()],
        ..AppConfig::default()
    };
    assert_eq!(effective_batch_times(&config), vec![12 * 3600, 17 * 3600 + 45 * 60]);

    let next = local_of(
        next_run_at(local_ts(2026, 4, 2, 12, 30), &config).expect("next run should be calculated"),
    );
    assert_eq!(next.format("%H:%M").to_string(), "17:45");
}

#[test]
fn next_run_is_always_after_now() {
    let config = AppConfig {
        batch_times: vec!["12:00".to_string()],
        ..AppConfig::default()
    };
    let now = local_ts(2026, 4, 2, 12, 0);
    let next = next_run_at(now, &config).expect("next run should be calculated");
    assert!(next > now);
    assert_eq!(local_of(next).date_naive().to_string(), "2026-04-03");
}

#[test]
fn hourly_summariser_waits_for_batches_and_copilot() {
    assert_eq!(hourly_tick(true, true, "copilot"), HourlyTick::Postpone);
    assert_eq!(hourly_tick(false, true, "copilot"), HourlyTick::Summarize);
    assert_eq!(hourly_tick(false, false, "copilot"), HourlyTick::Idle);
    assert_eq!(hourly_tick(false, true, "llama"), HourlyTick::Idle);
}

#[test]
fn scheduled_batches_need_pending_captures() {
    assert!(scheduled_batch_needed(3));
    assert!(!scheduled_batch_needed(0));
    assert_eq!(seconds_until(100, 40), 60);
    assert_eq!(seconds_until(40, 100), 0);
}

#[test]
fn candidates_are_each_time_today_then_tomorrow() {
    assert_eq!(
        candidate_requests(738_000, &[43_200, 63_900]),
        vec![(738_000, 43_200), (738_001, 43_200), (738_000, 63_900), (738_001, 63_900)]
    );
    assert!(candidate_requests(5, &[]).is_empty());
}
