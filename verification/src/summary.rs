//! Hourly summaries and daily records: which periods are summarised, what the assistant is
//! asked, and how its reply is taken.
use crate::models::opt_view;
use crate::text::{chars_of, extend_chars, replace_all, replace_all_chars, string_from_chars};
use crate::vlm::server::{spec_vlm_message, VlmError};
use vstd::prelude::*;

verus! {

/// The `%H:%M` that chrono writes for an RFC 3339 timestamp, read in the offset the
/// timestamp carries; `None` when the text is not RFC 3339.
pub uninterp spec fn spec_rfc3339_hhmm(text: Seq<char>) -> Option<Seq<char>>;

/// `chrono::DateTime::parse_from_rfc3339`, then `format("%H:%M")`.  The contract names the
/// result, which depends on the text alone.
#[verifier::external_body]
fn rfc3339_hhmm(text: &str) -> (hhmm: Option<String>)
    ensures
        opt_view(hhmm) == spec_rfc3339_hhmm(text@),
{
    match chrono::DateTime::parse_from_rfc3339(text) {
        Ok(time) => Some(time.format("%H:%M").to_string()),
        Err(_) => None,
    }
}

/// The time of day of a timestamp, or the timestamp itself when it cannot be read.
pub open spec fn spec_format_time_hhmm(ts: Seq<char>) -> Seq<char> {
    match spec_rfc3339_hhmm(ts) {
        Some(hhmm) => hhmm,
        None => ts,
    }
}

/// `HH:MM` of an RFC 3339 timestamp; other text is kept as it is.
pub fn format_time_hhmm(ts: &str) -> (r: String)
    ensures
        r@ == spec_format_time_hhmm(ts@),
{
    match rfc3339_hhmm(ts) {
        Some(hhmm) => hhmm,
        None => ts.to_owned(),
    }
}

/// A piece of text that covers a span of time: a session's description, or an hourly
/// summary.
#[derive(Debug, Clone, PartialEq, Eq)]
pub struct TimedText {
    pub start: String,
    pub end: String,
    pub text: String,
}

/// `- HH:MM〜HH:MM: text`.
pub open spec fn spec_summary_line(item: TimedText) -> Seq<char> {
    "- "@ + spec_format_time_hhmm(item.start@) + "〜"@ + spec_format_time_hhmm(item.end@) + ": "@
        + item.text@
}

/// The lines of a list of timed texts.
pub open spec fn lines_of(items: Seq<TimedText>) -> Seq<Seq<char>> {
    items.map_values(|item: TimedText| spec_summary_line(item))
}

/// Lines joined by line breaks, with none after the last.
pub open spec fn joined_lines(lines: Seq<Seq<char>>) -> Seq<char>
    decreases lines.len(),
{
    if lines.len() == 0 {
        Seq::empty()
    } else if lines.len() == 1 {
        lines[0]
    } else {
        joined_lines(lines.drop_last()) + seq!['\n'] + lines.last()
    }
}

/// One line per timed text, in order.
pub fn summary_lines(items: &[TimedText]) -> (text: String)
    ensures
        text@ == joined_lines(lines_of(items@)),
{
    let mut out: Vec<char> = Vec::new();
    let mut i: usize = 0;
    while i < items.len()
        invariant
            i <= items@.len(),
            out@ == joined_lines(lines_of(items@.take(i as int))),
        decreases items@.len() - i,
    {
        let item = &items[i];
        let ghost before = lines_of(items@.take(i as int));
        if i > 0 {
            out.push('\n');
        }
        extend_chars(&mut out, chars_of("- ").as_slice());
        extend_chars(&mut out, chars_of(format_time_hhmm(item.start.as_str()).as_str()).as_slice());
        extend_chars(&mut out, chars_of("〜").as_slice());
        extend_chars(&mut out, chars_of(format_time_hhmm(item.end.as_str()).as_str()).as_slice());
        extend_chars(&mut out, chars_of(": ").as_slice());
        extend_chars(&mut out, chars_of(item.text.as_str()).as_slice());
        proof {
            let after = lines_of(items@.take(i + 1));
            assert(after =~= before.push(spec_summary_line(items@[i as int])));
            assert(after.drop_last() =~= before);
            if i == 0 {
                assert(before.len() == 0);
                assert(out@ =~= spec_summary_line(items@[0]));
            } else {
                assert(out@ =~= joined_lines(before) + seq!['\n'] + spec_summary_line(
                    items@[i as int],
                ));
            }
        }
        i = i + 1;
    }
    assert(items@.take(items@.len() as int) =~= items@);
    string_from_chars(out.as_slice())
}

/// The hourly prompt: the template with its start, end and sessions filled in.
pub open spec fn spec_hourly_prompt(
    template: Seq<char>,
    start_hhmm: Seq<char>,
    end_hhmm: Seq<char>,
    sessions: Seq<char>,
) -> Seq<char> {
    replace_all(
        replace_all(replace_all(template, "{start_time}"@, start_hhmm), "{end_time}"@, end_hhmm),
        "{sessions}"@,
        sessions,
    )
}

/// What the assistant is asked to summarise an hour: the configured template, with the
/// period's start and end times and one line per session.
pub fn hourly_summary_prompt(
    template: &str,
    start_hhmm: &str,
    end_hhmm: &str,
    sessions: &[TimedText],
) -> (prompt: String)
    ensures
        prompt@ == spec_hourly_prompt(
            template@,
            start_hhmm@,
            end_hhmm@,
            joined_lines(lines_of(sessions@)),
        ),
{
    proof {
        reveal_strlit("{start_time}");
        reveal_strlit("{end_time}");
        reveal_strlit("{sessions}");
    }
    let lines = summary_lines(sessions);
    let step1 = replace_all_chars(
        chars_of(template).as_slice(),
        chars_of("{start_time}").as_slice(),
        chars_of(start_hhmm).as_slice(),
    );
    let step2 = replace_all_chars(
        step1.as_slice(),
        chars_of("{end_time}").as_slice(),
        chars_of(end_hhmm).as_slice(),
    );
    let step3 = replace_all_chars(
        step2.as_slice(),
        chars_of("{sessions}").as_slice(),
        chars_of(lines.as_str()).as_slice(),
    );
    string_from_chars(step3.as_slice())
}

/// The daily prompt: the template with its date, half of the day and summaries filled in.
pub open spec fn spec_daily_prompt(
    template: Seq<char>,
    date: Seq<char>,
    period_label: Seq<char>,
    summaries: Seq<char>,
) -> Seq<char> {
    replace_all(
        replace_all(replace_all(template, "{date}"@, date), "{period}"@, period_label),
        "{summaries}"@,
        summaries,
    )
}

/// What the assistant is asked for a daily record: the configured template, with the date,
/// the half of the day and one line per hourly summary.
pub fn daily_record_prompt(
    template: &str,
    date: &str,
    period_label: &str,
    summaries: &[TimedText],
) -> (prompt: String)
    ensures
        prompt@ == spec_daily_prompt(
            template@,
            date@,
            period_label@,
            joined_lines(lines_of(summaries@)),
        ),
{
    proof {
        reveal_strlit("{date}");
        reveal_strlit("{period}");
        reveal_strlit("{summaries}");
    }
    let lines = summary_lines(summaries);
    let step1 = replace_all_chars(
        chars_of(template).as_slice(),
        chars_of("{date}").as_slice(),
        chars_of(date).as_slice(),
    );
    let step2 = replace_all_chars(
        step1.as_slice(),
        chars_of("{period}").as_slice(),
        chars_of(period_label).as_slice(),
    );
    let step3 = replace_all_chars(
        step2.as_slice(),
        chars_of("{summaries}").as_slice(),
        chars_of(lines.as_str()).as_slice(),
    );
    string_from_chars(step3.as_slice())
}

/// The half of the day a scheduled batch closes.
#[derive(Debug, Clone, Copy, PartialEq, Eq, Structural)]
pub enum BatchType {
    Morning,
    Afternoon,
}

/// Batches before one in the afternoon close the morning; later ones the afternoon.
pub fn batch_type_for_hour(hour: u32) -> (batch_type: BatchType)
    ensures
        batch_type == (if hour < 13 {
            BatchType::Morning
        } else {
            BatchType::Afternoon
        }),
{
    if hour < 13 {
        BatchType::Morning
    } else {
        BatchType::Afternoon
    }
}

/// The period type stored with a daily record.
pub fn period_type(batch_type: BatchType) -> (name: &'static str)
    ensures
        name@ == (match batch_type {
            BatchType::Morning => "morning"@,
            BatchType::Afternoon => "afternoon"@,
        }),
{
    match batch_type {
        BatchType::Morning => "morning",
        BatchType::Afternoon => "afternoon",
    }
}

/// The period's name in the prompt.
pub fn period_label(batch_type: BatchType) -> (label: &'static str)
    ensures
        label@ == (match batch_type {
            BatchType::Morning => "午前"@,
            BatchType::Afternoon => "午後"@,
        }),
{
    match batch_type {
        BatchType::Morning => "午前",
        BatchType::Afternoon => "午後",
    }
}

/// Seconds in an hour.
pub const HOUR_SECS: i64 = 3600;

/// Where the hourly summaries that a daily record draws on begin: the start of the day for
/// the morning, twelve hours later for the afternoon (seconds since the epoch).
pub fn daily_window_start(day_start: i64, batch_type: BatchType) -> (since: i64)
    requires
        day_start <= i64::MAX - 12 * 3600,
    ensures
        since == (match batch_type {
            BatchType::Morning => day_start as int,
            BatchType::Afternoon => day_start + 12 * 3600,
        }),
{
    match batch_type {
        BatchType::Morning => day_start,
        BatchType::Afternoon => day_start + 12 * HOUR_SECS,
    }
}

/// The hour before the current one, which the hourly summariser closes.
pub fn previous_hour_period(current_hour: i64) -> (period: (i64, i64))
    requires
        current_hour >= i64::MIN + 3600,
    ensures
        period.0 == current_hour - 3600,
        period.1 == current_hour,
{
    (current_hour - HOUR_SECS, current_hour)
}

/// Whole hours from `start`, each an hour long, for as long as they begin before
/// `current_hour`.
pub open spec fn hour_periods(start: int, current_hour: int) -> Seq<(int, int)>
    decreases current_hour - start + 3600,
{
    if start < current_hour {
        seq![(start, start + 3600)] + hour_periods(start + 3600, current_hour)
    } else {
        Seq::empty()
    }
}

/// The periods still to be summarised today: the hours from the start of the day up to the
/// current hour, then the part of the current hour that has passed.
pub open spec fn pending_periods(day_start: int, current_hour: int, now: int) -> Seq<(int, int)> {
    hour_periods(day_start, current_hour) + if now > current_hour {
        seq![(current_hour, now)]
    } else {
        Seq::empty()
    }
}

/// Pairs of machine integers as pairs of integers.
pub open spec fn periods_view(v: Seq<(i64, i64)>) -> Seq<(int, int)> {
    v.map_values(|p: (i64, i64)| (p.0 as int, p.1 as int))
}

proof fn lemma_hour_periods_unfold(start: int, current_hour: int)
    requires
        start < current_hour,
    ensures
        hour_periods(start, current_hour) == seq![(start, start + 3600)] + hour_periods(
            start + 3600,
            current_hour,
        ),
{
}

/// The periods that are summarised when a scheduled batch runs, in order.
pub fn pending_summary_periods(day_start: i64, current_hour: i64, now: i64) -> (periods: Vec<
    (i64, i64),
>)
    requires
        current_hour <= i64::MAX - 3600,
    ensures
        periods_view(periods@) == pending_periods(day_start as int, current_hour as int, now as int),
{
    let mut periods: Vec<(i64, i64)> = Vec::new();
    let mut start = day_start;
    while start < current_hour
        invariant
            current_hour <= i64::MAX - 3600,
            day_start <= start || start == day_start,
            periods_view(periods@) + hour_periods(start as int, current_hour as int) == hour_periods(
                day_start as int,
                current_hour as int,
            ),
        decreases current_hour - start + 3600,
    {
        let end = start + HOUR_SECS;
        let ghost before = periods_view(periods@);
        proof {
            lemma_hour_periods_unfold(start as int, current_hour as int);
        }
        periods.push((start, end));
        assert(periods_view(periods@) =~= before.push((start as int, end as int)));
        assert(before + hour_periods(start as int, current_hour as int) =~= periods_view(periods@)
            + hour_periods(end as int, current_hour as int));
        start = end;
    }
    assert(hour_periods(start as int, current_hour as int) =~= Seq::<(int, int)>::empty());
    let ghost hours = periods_view(periods@);
    assert(hours =~= hour_periods(day_start as int, current_hour as int));
    if now > current_hour {
        periods.push((current_hour, now));
        assert(periods_view(periods@) =~= hours.push((current_hour as int, now as int)));
    }
    assert(periods_view(periods@) =~= pending_periods(
        day_start as int,
        current_hour as int,
        now as int,
    ));
    periods
}

/// When the current hour lies a whole number of hours after the start of the day, the
/// pending periods leave no gap and do not overlap: each is non-empty, the first begins at
/// the start of the day, each begins where the one before ended, and the last ends at
/// `now` once the current hour has begun.
pub proof fn lemma_pending_periods_tile(day_start: int, current_hour: int, now: int)
    requires
        day_start < now,
        day_start <= current_hour <= now,
        (current_hour - day_start) % 3600 == 0,
    ensures
        ({
            let p = pending_periods(day_start, current_hour, now);
            &&& forall|i: int| 0 <= i < p.len() ==> #[trigger] p[i].0 < p[i].1
            &&& forall|i: int| 0 <= i < p.len() - 1 ==> #[trigger] p[i].1 == p[i + 1].0
            &&& p.len() > 0 ==> p[0].0 == day_start
            &&& now > current_hour ==> p.len() > 0 && p[p.len() - 1].1 == now
        }),
{
    lemma_hour_periods_tile(day_start, current_hour);
    let h = hour_periods(day_start, current_hour);
    let p = pending_periods(day_start, current_hour, now);
    if now > current_hour {
        assert(p =~= h.push((current_hour, now)));
        if h.len() > 0 {
            let n = h.len() as int;
            let last = h[n - 1];
            assert(last.0 == day_start + 3600 * (n - 1));
            let k = (current_hour - day_start) / 3600;
            assert(current_hour - day_start == 3600 * k);
            assert(k == n) by (nonlinear_arith)
                requires
                    3600 * (n - 1) < 3600 * k,
                    3600 * k <= 3600 * (n - 1) + 3600,
            ;
            assert(last.1 == current_hour);
        }
        assert forall|i: int| 0 <= i < p.len() - 1 implies #[trigger] p[i].1 == p[i + 1].0 by {
            if i + 1 < h.len() {
                assert(h[i].1 == h[i + 1].0);
            } else {
                assert(i == h.len() - 1);
                assert(h[i].1 == current_hour);
            }
        }
    } else {
        assert(p =~= h);
    }
}

proof fn lemma_hour_periods_tile(start: int, current_hour: int)
    ensures
        ({
            let h = hour_periods(start, current_hour);
            &&& forall|i: int| 0 <= i < h.len() ==> #[trigger] h[i].0 < h[i].1
            &&& forall|i: int| 0 <= i < h.len() ==> #[trigger] h[i].1 == h[i].0 + 3600
            &&& forall|i: int| 0 <= i < h.len() ==> #[trigger] h[i].0 == start + 3600 * i
            &&& forall|i: int| 0 <= i < h.len() - 1 ==> #[trigger] h[i].1 == h[i + 1].0
            &&& h.len() > 0 ==> h[0].0 == start && h[h.len() - 1].0 < current_hour
                && current_hour <= h[h.len() - 1].1
        }),
    decreases current_hour - start + 3600,
{
    if start < current_hour {
        lemma_hour_periods_tile(start + 3600, current_hour);
        let rest = hour_periods(start + 3600, current_hour);
        let h = hour_periods(start, current_hour);
        assert(h =~= seq![(start, start + 3600)] + rest);
        assert forall|i: int| 0 < i < h.len() implies #[trigger] h[i] == rest[i - 1] by {}
        assert forall|i: int| 0 <= i < h.len() implies #[trigger] h[i].0 == start + 3600 * i by {
            if i > 0 {
                assert(h[i] == rest[i - 1]);
                assert(rest[i - 1].0 == start + 3600 + 3600 * (i - 1));
            }
        }
        assert forall|i: int| 0 <= i < h.len() - 1 implies #[trigger] h[i].1 == h[i + 1].0 by {
            assert(h[i + 1] == rest[i]);
            if i > 0 {
                assert(h[i] == rest[i - 1]);
            }
        }
        if rest.len() == 0 {
            assert(start + 3600 >= current_hour);
        }
    }
}

/// The next step in writing an hourly summary or a half-day record.
#[derive(Debug, Clone, Copy, PartialEq, Eq, Structural)]
pub enum SummaryStep {
    /// Look whether one has already been written for the period.
    CheckExisting,
    /// Read the sessions or summaries it is to be made from.
    LoadSources,
    /// Write nothing.
    Skip,
    /// Ask the assistant for it and store the answer.
    Ask,
}

/// The step that follows what is known so far: whether the period holds any time at all,
/// whether something was already written for it (once looked up), and how many sources
/// there are (once read).  An empty period, one that is already covered, or one without
/// sources is skipped; otherwise the lookups come first and the request last.
pub open spec fn spec_next_summary_step(
    period_has_time: bool,
    already_written: Option<bool>,
    sources: Option<usize>,
) -> SummaryStep {
    if !period_has_time {
        SummaryStep::Skip
    } else {
        match already_written {
            None => SummaryStep::CheckExisting,
            Some(true) => SummaryStep::Skip,
            Some(false) => match sources {
                None => SummaryStep::LoadSources,
                Some(n) => if n == 0 {
                    SummaryStep::Skip
                } else {
                    SummaryStep::Ask
                },
            },
        }
    }
}

/// Decides the next step in writing a summary or record.
pub fn next_summary_step(
    period_has_time: bool,
    already_written: Option<bool>,
    sources: Option<usize>,
) -> (step: SummaryStep)
    ensures
        step == spec_next_summary_step(period_has_time, already_written, sources),
        step == SummaryStep::Ask ==> period_has_time && already_written == Some(false) && (
        sources matches Some(n) && n > 0),
{
    if !period_has_time {
        return SummaryStep::Skip;
    }
    match already_written {
        None => SummaryStep::CheckExisting,
        Some(true) => SummaryStep::Skip,
        Some(false) => match sources {
            None => SummaryStep::LoadSources,
            Some(n) => if n == 0 {
                SummaryStep::Skip
            } else {
                SummaryStep::Ask
            },
        },
    }
}

/// What became of a request for a summary.
#[derive(Debug)]
pub enum SummaryReply {
    /// The summary to store.
    Text(String),
    /// The user must sign in to Copilot; the message is shown and returned as the error.
    LoginRequired(String),
    /// Any other failure, with its message.
    Failed(String),
}

/// Sorts the assistant's reply: a text is stored, a sign-in request is passed to the user,
/// and any other error ends the summary with its message.
pub fn summary_reply(reply: Result<String, VlmError>) -> (sorted: SummaryReply)
    ensures
        match reply {
            Ok(text) => sorted == SummaryReply::Text(text),
            Err(VlmError::LoginRequired(m)) => sorted == SummaryReply::LoginRequired(m),
            Err(e) => sorted matches SummaryReply::Failed(m) && m@ == spec_vlm_message(e),
        },
{
    match reply {
        Ok(text) => SummaryReply::Text(text),
        Err(VlmError::LoginRequired(m)) => SummaryReply::LoginRequired(m),
        Err(e) => SummaryReply::Failed(e.message()),
    }
}

/// The JSON text that `serde_json` writes for a list of strings.
pub uninterp spec fn spec_json_string_list(items: Seq<Seq<char>>) -> Seq<char>;

/// The texts of a list of strings.
pub open spec fn texts(items: Seq<String>) -> Seq<Seq<char>> {
    items.map_values(|s: String| s@)
}

/// `serde_json::to_string` on a list of strings, which the crate writes as a JSON array.
/// The contract names the text, which depends on the strings alone, and says that it is
/// always written: the crate fails only when the writer fails (an in-memory buffer never
/// does), when a `Serialize` impl fails (that of `str` does not) or on a map with keys
/// that are not strings (there is none).
#[verifier::external_body]
fn json_string_list(items: &[String]) -> (json: Result<String, String>)
    ensures
        json is Ok,
        json matches Ok(s) ==> s@ == spec_json_string_list(texts(items@)),
{
    serde_json::to_string(items).map_err(|error| error.to_string())
}

/// The JSON list of the ids a summary or record was made from, as stored beside it; it is
/// always written.
pub fn source_ids_json(ids: &[String]) -> (json: Result<String, String>)
    ensures
        json is Ok,
        json matches Ok(s) ==> s@ == spec_json_string_list(texts(ids@)),
{
    json_string_list(ids)
}

} // verus!
