//! When the next description batch should run.
use crate::models::{strings_view, AppConfig};
use vstd::prelude::*;

verus! {

/// The batch times used when a configuration names none that can be read.
pub open spec fn spec_fallback_batch_times() -> Seq<Seq<char>> {
    seq!["12:00"@, "17:45"@]
}

/// The time of day, in seconds after midnight, that
/// `NaiveTime::parse_from_str(s, "%H:%M")` reads from `s`.
pub uninterp spec fn spec_parse_batch_time(s: Seq<char>) -> Option<u32>;

/// `chrono::NaiveTime::parse_from_str` with the format `%H:%M`, read as seconds after
/// midnight (`Timelike::num_seconds_from_midnight`).  The contract names the result and
/// keeps the documented range of a time of day.
#[verifier::external_body]
pub(crate) fn parse_batch_time(s: &str) -> (secs: Option<u32>)
    ensures
        secs == spec_parse_batch_time(s@),
        secs matches Some(x) ==> x < 86400,
{
    chrono::NaiveTime::parse_from_str(s, "%H:%M").ok().map(
        |t| chrono::Timelike::num_seconds_from_midnight(&t),
    )
}

/// The readable times among `times`, in order.
pub open spec fn parsed_times(times: Seq<Seq<char>>) -> Seq<u32>
    decreases times.len(),
{
    if times.len() == 0 {
        Seq::empty()
    } else {
        let rest = parsed_times(times.drop_last());
        match spec_parse_batch_time(times.last()) {
            Some(t) => rest.push(t),
            None => rest,
        }
    }
}

/// The times at which batches run: the configured ones that can be read, or the fallback
/// times when none is configured or none can be read.
pub open spec fn spec_effective_batch_times(config: AppConfig) -> Seq<u32> {
    let configured = strings_view(config.batch_times@);
    if configured.len() == 0 {
        parsed_times(spec_fallback_batch_times())
    } else if parsed_times(configured).len() == 0 {
        parsed_times(spec_fallback_batch_times())
    } else {
        parsed_times(configured)
    }
}

fn parse_times(times: &[&str]) -> (parsed: Vec<u32>)
    ensures
        parsed@ == parsed_times(times@.map_values(|s: &str| s@)),
        forall|k: int| 0 <= k < parsed@.len() ==> parsed@[k] < 86400,
{
    let ghost tv = times@.map_values(|s: &str| s@);
    let mut parsed: Vec<u32> = Vec::new();
    let mut i: usize = 0;
    while i < times.len()
        invariant
            i <= times@.len(),
            tv == times@.map_values(|s: &str| s@),
            parsed@ == parsed_times(tv.take(i as int)),
            forall|k: int| 0 <= k < parsed@.len() ==> parsed@[k] < 86400,
        decreases times@.len() - i,
    {
        assert(tv.take(i + 1).drop_last() =~= tv.take(i as int));
        assert(tv.take(i + 1).last() == times@[i as int]@);
        match parse_batch_time(times[i]) {
            Some(t) => parsed.push(t),
            None => {},
        }
        i = i + 1;
    }
    assert(tv.take(times@.len() as int) =~= tv);
    parsed
}

fn parse_owned_times(times: &[String]) -> (parsed: Vec<u32>)
    ensures
        parsed@ == parsed_times(strings_view(times@)),
        forall|k: int| 0 <= k < parsed@.len() ==> parsed@[k] < 86400,
{
    let ghost tv = strings_view(times@);
    let mut parsed: Vec<u32> = Vec::new();
    let mut i: usize = 0;
    while i < times.len()
        invariant
            i <= times@.len(),
            tv == strings_view(times@),
            parsed@ == parsed_times(tv.take(i as int)),
            forall|k: int| 0 <= k < parsed@.len() ==> parsed@[k] < 86400,
        decreases times@.len() - i,
    {
        assert(tv.take(i + 1).drop_last() =~= tv.take(i as int));
        assert(tv.take(i + 1).last() == times@[i as int]@);
        match parse_batch_time(times[i].as_str()) {
            Some(t) => parsed.push(t),
            None => {},
        }
        i = i + 1;
    }
    assert(tv.take(times@.len() as int) =~= tv);
    parsed
}

fn fallback_times() -> (parsed: Vec<u32>)
    ensures
        parsed@ == parsed_times(spec_fallback_batch_times()),
        forall|k: int| 0 <= k < parsed@.len() ==> parsed@[k] < 86400,
{
    let names: [&str; 2] = ["12:00", "17:45"];
    let r = parse_times(names.as_slice());
    assert(names@.map_values(|s: &str| s@) =~= spec_fallback_batch_times());
    r
}

/// The times of day (seconds after midnight) at which batches run.
pub fn effective_batch_times(config: &AppConfig) -> (times: Vec<u32>)
    ensures
        times@ == spec_effective_batch_times(*config),
        forall|k: int| 0 <= k < times@.len() ==> times@[k] < 86400,
{
    if config.batch_times.len() == 0 {
        return fallback_times();
    }
    let configured = parse_owned_times(config.batch_times.as_slice());
    if configured.len() == 0 {
        fallback_times()
    } else {
        configured
    }
}

/// The earliest candidate strictly after `now`, if any.
pub open spec fn spec_earliest_after(now: i64, candidates: Seq<Option<i64>>) -> Option<i64>
    decreases candidates.len(),
{
    if candidates.len() == 0 {
        None
    } else {
        let rest = spec_earliest_after(now, candidates.drop_last());
        match candidates.last() {
            Some(c) => if c > now {
                match rest {
                    Some(r) => if r <= c {
                        Some(r)
                    } else {
                        Some(c)
                    },
                    None => Some(c),
                }
            } else {
                rest
            },
            None => rest,
        }
    }
}

/// A candidate that lies after `now`.
pub open spec fn after_now(now: i64, candidate: Option<i64>) -> bool {
    match candidate {
        Some(c) => c > now,
        None => false,
    }
}

/// The earliest candidate after `now` is one of the candidates, lies after `now`, and no
/// candidate after `now` comes before it; there is none exactly when no candidate lies
/// after `now`.
pub proof fn lemma_earliest_after(now: i64, candidates: Seq<Option<i64>>)
    ensures
        match spec_earliest_after(now, candidates) {
            Some(r) => r > now && candidates.contains(Some(r)) && forall|k: int|
                0 <= k < candidates.len() && #[trigger] after_now(now, candidates[k]) ==> r
                    <= candidates[k]->0,
            None => forall|k: int|
                0 <= k < candidates.len() ==> !#[trigger] after_now(now, candidates[k]),
        },
    decreases candidates.len(),
{
    if candidates.len() > 0 {
        let p = candidates.drop_last();
        lemma_earliest_after(now, p);
        assert forall|k: int| 0 <= k < p.len() implies candidates[k] == p[k] by {}
        match spec_earliest_after(now, p) {
            Some(r) => {
                let j = choose|j: int| 0 <= j < p.len() && p[j] == Some(r);
                assert(candidates[j] == Some(r));
            },
            None => {},
        }
        match spec_earliest_after(now, candidates) {
            Some(r) => {
                if candidates.last() == Some(r) {
                    assert(candidates[candidates.len() - 1] == Some(r));
                }
            },
            None => {},
        }
    }
}

/// Picks the earliest candidate strictly after `now`.
pub fn earliest_after(now: i64, candidates: &[Option<i64>]) -> (next: Option<i64>)
    ensures
        next == spec_earliest_after(now, candidates@),
{
    let mut best: Option<i64> = None;
    let mut i: usize = 0;
    while i < candidates.len()
        invariant
            i <= candidates@.len(),
            best == spec_earliest_after(now, candidates@.take(i as int)),
        decreases candidates@.len() - i,
    {
        assert(candidates@.take(i + 1).drop_last() =~= candidates@.take(i as int));
        match candidates[i] {
            Some(c) => {
                if c > now {
                    best = match best {
                        Some(r) => if r <= c {
                            Some(r)
                        } else {
                            Some(c)
                        },
                        None => Some(c),
                    };
                }
            },
            None => {},
        }
        i = i + 1;
    }
    assert(candidates@.take(candidates@.len() as int) =~= candidates@);
    best
}

/// The local calendar day (days from the common era, as
/// `NaiveDate::num_days_from_ce`) of an instant given in seconds since the epoch.  It depends
/// on the machine's time zone, so nothing is promised of it but the range of dates that
/// chrono documents (years -262143 to 262142, fewer than 100 million days either way).
#[verifier::external_body]
pub(crate) fn local_day_of(epoch_secs: i64) -> (day: Option<i32>)
    ensures
        day matches Some(d) ==> -100_000_000 < d < 100_000_000,
{
    match chrono::TimeZone::timestamp_opt(&chrono::Local, epoch_secs, 0) {
        chrono::LocalResult::Single(dt) => Some(chrono::Datelike::num_days_from_ce(&dt.date_naive())),
        chrono::LocalResult::Ambiguous(dt, _) => Some(chrono::Datelike::num_days_from_ce(&dt.date_naive())),
        chrono::LocalResult::None => None,
    }
}

/// The instant (seconds since the epoch) at which the local clock shows the given day and
/// time of day: the earlier one when the time occurs twice, none when it is skipped.
/// It depends on the machine's time zone, so nothing is promised of it.
#[verifier::external_body]
pub(crate) fn local_instant(day: i32, secs_of_day: u32) -> (instant: Option<i64>)
{
    let date = chrono::NaiveDate::from_num_days_from_ce_opt(day)?;
    let time = chrono::NaiveTime::from_num_seconds_from_midnight_opt(secs_of_day, 0)?;
    match chrono::TimeZone::from_local_datetime(&chrono::Local, &date.and_time(time)) {
        chrono::LocalResult::Single(value) => Some(value.timestamp()),
        chrono::LocalResult::Ambiguous(earliest, _) => Some(earliest.timestamp()),
        chrono::LocalResult::None => None,
    }
}

/// The local (day, time of day) pairs at which a batch may run next: for each batch time in
/// order, that time today and that time tomorrow.
pub open spec fn spec_candidate_requests(today: int, times: Seq<u32>) -> Seq<(int, u32)>
    decreases times.len(),
{
    if times.len() == 0 {
        Seq::empty()
    } else {
        spec_candidate_requests(today, times.drop_last()) + seq![
            (today, times.last()),
            (today + 1, times.last()),
        ]
    }
}

/// The local days and times of day for which the next batch is looked up: each batch time
/// today, then the same time tomorrow.
pub fn candidate_requests(today: i32, times: &[u32]) -> (requests: Vec<(i32, u32)>)
    requires
        today < i32::MAX,
    ensures
        requests@.len() == 2 * times@.len(),
        requests@.map_values(|r: (i32, u32)| (r.0 as int, r.1)) == spec_candidate_requests(
            today as int,
            times@,
        ),
{
    let mut requests: Vec<(i32, u32)> = Vec::new();
    let mut i: usize = 0;
    while i < times.len()
        invariant
            i <= times@.len(),
            today < i32::MAX,
            requests@.len() == 2 * i,
            requests@.map_values(|r: (i32, u32)| (r.0 as int, r.1)) == spec_candidate_requests(
                today as int,
                times@.take(i as int),
            ),
        decreases times@.len() - i,
    {
        proof {
            assert(times@.take(i + 1).drop_last() =~= times@.take(i as int));
        }
        requests.push((today, times[i]));
        requests.push((today + 1, times[i]));
        proof {
            assert(requests@.map_values(|r: (i32, u32)| (r.0 as int, r.1)) =~= spec_candidate_requests(
                today as int,
                times@.take(i + 1),
            ));
        }
        i = i + 1;
    }
    assert(times@.take(times@.len() as int) =~= times@);
    requests
}

/// Holds of `day` when it is what `local_day_of` gives for `now`: which day that is depends
/// on the time zone, so nothing more is said of it.
pub closed spec fn is_local_day(now: i64, day: Option<i32>) -> bool {
    call_ensures(local_day_of, (now,), day)
}

/// Holds of `instant` when it is what `local_instant` gives for the local `day` and time
/// of day `secs`: which instant that is, if any, depends on the time zone, so nothing more
/// is said of it.
pub closed spec fn is_local_instant(day: i32, secs: u32, instant: Option<i64>) -> bool {
    call_ensures(local_instant, (day, secs), instant)
}

/// When the next batch runs after `now` (seconds since the epoch): the earliest of the
/// local instants of the candidate requests (each batch time today and tomorrow, today
/// being `now`'s local day) that lies after `now`; never when the scheduler is off.  Which
/// instant each request stands for depends on the time zone, so the contract ties each
/// candidate to its request through `is_local_instant`, and says that the result is a
/// candidate after `now` that no other candidate after `now` precedes.
pub fn next_run_at(now: i64, config: &AppConfig) -> (next: Option<i64>)
    ensures
        !config.scheduler_enabled ==> next is None,
        config.scheduler_enabled ==> exists|today: Option<i32>|
            #![trigger is_local_day(now, today)]
            is_local_day(now, today) && match today {
                None => next is None,
                Some(d) => exists|candidates: Seq<Option<i64>>|
                    #![trigger spec_earliest_after(now, candidates)]
                    {
                        let requests = spec_candidate_requests(
                            d as int,
                            spec_effective_batch_times(*config),
                        );
                        &&& candidates.len() == requests.len()
                        &&& forall|i: int|
                            0 <= i < candidates.len() ==> #[trigger] is_local_instant(
                                requests[i].0 as i32,
                                requests[i].1,
                                candidates[i],
                            )
                        &&& next == spec_earliest_after(now, candidates)
                        &&& match next {
                            Some(t) => t > now && candidates.contains(Some(t)) && forall|k: int|
                                0 <= k < candidates.len() && #[trigger] after_now(now, candidates[k])
                                    ==> t <= candidates[k]->0,
                            None => forall|k: int|
                                0 <= k < candidates.len() ==> !#[trigger] after_now(now, candidates[k]),
                        }
                    },
            },
        next matches Some(t) ==> t > now,
{
    if !config.scheduler_enabled {
        return None;
    }
    let times = effective_batch_times(config);
    let day = local_day_of(now);
    assert(is_local_day(now, day));
    let today = match day {
        Some(d) => d,
        None => {
            return None;
        },
    };
    let requests = candidate_requests(today, times.as_slice());
    let ghost spec_requests = spec_candidate_requests(today as int, times@);
    assert(requests@.len() == spec_requests.len()) by {
        assert(requests@.map_values(|r: (i32, u32)| (r.0 as int, r.1)).len() == requests@.len());
    }
    let mut candidates: Vec<Option<i64>> = Vec::new();
    let mut i: usize = 0;
    while i < requests.len()
        invariant
            i <= requests@.len(),
            candidates@.len() == i,
            requests@.len() == spec_requests.len(),
            requests@.map_values(|r: (i32, u32)| (r.0 as int, r.1)) == spec_requests,
            forall|j: int|
                0 <= j < i ==> #[trigger] is_local_instant(
                    spec_requests[j].0 as i32,
                    spec_requests[j].1,
                    candidates@[j],
                ),
        decreases requests@.len() - i,
    {
        let (day, secs) = requests[i];
        let instant = local_instant(day, secs);
        proof {
            assert(requests@.map_values(|r: (i32, u32)| (r.0 as int, r.1))[i as int] == (
            day as int, secs));
            assert(spec_requests[i as int].0 as i32 == day);
            assert(is_local_instant(day, secs, instant));
        }
        let ghost before = candidates@;
        candidates.push(instant);
        proof {
            assert forall|j: int| 0 <= j < i + 1 implies #[trigger] is_local_instant(
                spec_requests[j].0 as i32,
                spec_requests[j].1,
                candidates@[j],
            ) by {
                if j < i {
                    assert(candidates@[j] == before[j]);
                }
            }
        }
        i = i + 1;
    }
    let next = earliest_after(now, candidates.as_slice());
    proof {
        lemma_earliest_after(now, candidates@);
        assert(times@ == spec_effective_batch_times(*config));
    }
    next
}

/// What the hourly summariser does when it wakes.
#[derive(Debug, Clone, Copy, PartialEq, Eq, Structural)]
pub enum HourlyTick {
    /// A batch is running: look again in a minute.
    Postpone,
    /// Summarise the hour that just ended.
    Summarize,
    /// Copilot is not in use: wait for the next hour.
    Idle,
}

/// The summariser waits for a running batch, and summarises only once setup is complete
/// with Copilot as the engine.
pub fn hourly_tick(batch_running: bool, setup_complete: bool, vlm_engine: &str) -> (tick: HourlyTick)
    ensures
        tick == (if batch_running {
            HourlyTick::Postpone
        } else if setup_complete && vlm_engine@ == "copilot"@ {
            HourlyTick::Summarize
        } else {
            HourlyTick::Idle
        }),
{
    if batch_running {
        HourlyTick::Postpone
    } else if crate::vlm::copilot_server::copilot_enabled(setup_complete, vlm_engine) {
        HourlyTick::Summarize
    } else {
        HourlyTick::Idle
    }
}

/// The seconds the summariser waits between two summaries.
pub const HOURLY_SUMMARY_INTERVAL_SECS: u64 = 3600;

/// The error a scheduled batch reports when another batch is already running.
pub const BATCH_ALREADY_RUNNING: &'static str = "VLM バッチはすでに実行中です";

/// A scheduled run starts a batch only when some captures still lack a description.
pub fn scheduled_batch_needed(unprocessed: u64) -> (needed: bool)
    ensures
        needed == (unprocessed > 0),
{
    unprocessed > 0
}

/// The seconds from `now` until `next`, none when `next` has passed (both in seconds since
/// the epoch).
pub fn seconds_until(next: i64, now: i64) -> (secs: u64)
    ensures
        secs == (if next > now {
            next - now
        } else {
            0
        }),
{
    if next > now {
        (next as i128 - now as i128) as u64
    } else {
        0
    }
}

} // verus!
