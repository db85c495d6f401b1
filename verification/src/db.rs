//! Records read from the capture database, and the pure parts of the queries over it.
use crate::models::opt_view;
use crate::text::{chars_of, extend_chars, spec_trim, str_trim, string_from_chars};
use vstd::prelude::*;

verus! {

/// Why a database operation failed.
#[derive(Debug, Clone, PartialEq, Eq)]
pub enum DbError {
    Io(String),
    Sql(String),
    CaptureNotFound,
}

/// The message shown for each database error.
pub open spec fn spec_db_message(e: DbError) -> Seq<char> {
    match e {
        DbError::Io(_) => "failed to create database directory"@,
        DbError::Sql(_) => "database operation failed"@,
        DbError::CaptureNotFound => "capture record was not found"@,
    }
}

impl DbError {
    /// The message shown for the error.
    pub fn message(&self) -> (text: String)
        ensures
            text@ == spec_db_message(*self),
    {
        match self {
            DbError::Io(_) => "failed to create database directory".to_owned(),
            DbError::Sql(_) => "database operation failed".to_owned(),
            DbError::CaptureNotFound => "capture record was not found".to_owned(),
        }
    }
}

/// A capture as stored, with whether it has been described.
#[derive(Debug, Clone, PartialEq, Eq)]
pub struct StoredCaptureRecord {
    pub id: String,
    pub timestamp: String,
    pub app: String,
    pub window_title: String,
    pub image_path: Option<String>,
    pub description: Option<String>,
    pub dhash: Option<String>,
    pub vlm_processed: bool,
}

/// How many captures were taken on one day.
#[derive(Debug, Clone, PartialEq, Eq)]
pub struct CaptureDateGroup {
    pub date: String,
    pub count: u64,
}

/// How many captures show one application.
#[derive(Debug, Clone, PartialEq, Eq)]
pub struct CaptureAppGroup {
    pub app: String,
    pub count: u64,
}

/// A work session: a run of captures summed up by one collage.
#[derive(Debug, Clone, PartialEq, Eq)]
pub struct SessionRecord {
    pub id: String,
    pub start_time: String,
    pub end_time: String,
    pub collage_path: Option<String>,
    pub description: Option<String>,
    pub processed: bool,
    pub capture_count: i64,
    pub frame_count: i64,
}

/// One manual edit of a description.
#[derive(Debug, Clone, PartialEq, Eq)]
pub struct DescriptionHistoryRecord {
    pub capture_id: String,
    pub previous_description: Option<String>,
    pub new_description: Option<String>,
    pub edited_at: String,
}

/// The description that an edit stores: the trimmed text, or nothing when it is blank.
pub open spec fn spec_normalized_description(description: Option<Seq<char>>) -> Option<Seq<char>> {
    match description {
        Some(d) => if spec_trim(d).len() == 0 {
            None
        } else {
            Some(spec_trim(d))
        },
        None => None,
    }
}

/// Normalizes an edited description.
pub fn normalize_description(description: Option<&str>) -> (normalized: Option<String>)
    ensures
        opt_view(normalized) == spec_normalized_description(
            match description {
                Some(d) => Some(d@),
                None => None,
            },
        ),
{
    match description {
        Some(d) => {
            let t = str_trim(d);
            if t.is_empty() {
                None
            } else {
                Some(t.to_owned())
            }
        },
        None => None,
    }
}

/// Whether an edit changes the stored description (only then is it recorded).
pub fn description_changed(previous: &Option<String>, next: &Option<String>) -> (changed: bool)
    ensures
        changed == (opt_view(*previous) != opt_view(*next)),
{
    match (previous, next) {
        (Some(p), Some(n)) => {
            let same = crate::text::text_eq(p.as_str(), n.as_str());
            !same
        },
        (None, None) => false,
        _ => true,
    }
}

/// The history entry an edit records, as (previous, new) descriptions: none when the
/// normalized request equals the stored description.
pub open spec fn spec_description_edit(
    previous: Option<Seq<char>>,
    requested: Option<Seq<char>>,
) -> Option<(Option<Seq<char>>, Option<Seq<char>>)> {
    let next = spec_normalized_description(requested);
    if previous == next {
        None
    } else {
        Some((previous, next))
    }
}

/// The description stored after an edit.
pub open spec fn spec_stored_after_edit(
    previous: Option<Seq<char>>,
    requested: Option<Seq<char>>,
) -> Option<Seq<char>> {
    match spec_description_edit(previous, requested) {
        Some((_, next)) => next,
        None => previous,
    }
}

/// Decides what an edit of a description records: the (previous, new) pair when the
/// normalized request differs from the stored description, nothing otherwise.
pub fn description_edit(previous: Option<String>, requested: Option<&str>) -> (edit: Option<
    (Option<String>, Option<String>),
>)
    ensures
        match spec_description_edit(
            opt_view(previous),
            match requested {
                Some(d) => Some(d@),
                None => None,
            },
        ) {
            None => edit is None,
            Some((p, n)) => edit matches Some((ep, en)) && ep == previous && opt_view(en) == n
                && opt_view(ep) == p,
        },
{
    let next = normalize_description(requested);
    if description_changed(&previous, &next) {
        Some((previous, next))
    } else {
        None
    }
}

/// Saving the same description again records nothing: after an edit, the stored
/// description is the normalized request, and the same request finds nothing to change.
pub proof fn lemma_repeated_edit_records_nothing(
    previous: Option<Seq<char>>,
    requested: Option<Seq<char>>,
)
    ensures
        spec_stored_after_edit(previous, requested) == spec_normalized_description(requested),
        spec_description_edit(spec_stored_after_edit(previous, requested), requested) is None,
{
}

/// The number of rows skipped before a page.
pub open spec fn spec_page_offset(page: u64, page_size: u64) -> int {
    (if page == 0 {
        0
    } else {
        page - 1
    }) * page_size
}

/// The offset of a page (pages count from one; page zero is read as page one).
pub fn page_offset(page: u64, page_size: u64) -> (offset: u64)
    requires
        spec_page_offset(page, page_size) <= u64::MAX,
    ensures
        offset == spec_page_offset(page, page_size),
{
    page.saturating_sub(1) * page_size
}

/// The columns of a stored capture, as selected from the database.
pub open spec fn spec_select_base() -> Seq<char> {
    "SELECT id, timestamp, app, "@ + "window_title, image_path, "@ + "description, dhash, "@
        + "vlm_processed\n         "@ + "FROM captures\n         "@ + "WHERE 1 = 1"@
}

/// The condition on the first day of a range.
pub open spec fn spec_start_clause() -> Seq<char> {
    " AND substr(timestamp, "@ + "1, 10) >= ?"@
}

/// The condition on the last day of a range.
pub open spec fn spec_end_clause() -> Seq<char> {
    " AND substr(timestamp, "@ + "1, 10) <= ?"@
}

fn select_base_chars() -> (sql: Vec<char>)
    ensures
        sql@ == spec_select_base(),
{
    let mut sql = chars_of("SELECT id, timestamp, app, ");
    extend_chars(&mut sql, chars_of("window_title, image_path, ").as_slice());
    extend_chars(&mut sql, chars_of("description, dhash, ").as_slice());
    extend_chars(&mut sql, chars_of("vlm_processed\n         ").as_slice());
    extend_chars(&mut sql, chars_of("FROM captures\n         ").as_slice());
    extend_chars(&mut sql, chars_of("WHERE 1 = 1").as_slice());
    sql
}

fn push_date_clause(sql: &mut Vec<char>, start: bool)
    ensures
        start ==> final(sql)@ == old(sql)@ + spec_start_clause(),
        !start ==> final(sql)@ == old(sql)@ + spec_end_clause(),
{
    extend_chars(sql, chars_of(" AND substr(timestamp, ").as_slice());
    if start {
        extend_chars(sql, chars_of("1, 10) >= ?").as_slice());
    } else {
        extend_chars(sql, chars_of("1, 10) <= ?").as_slice());
    }
}

/// `n` placeholders joined by commas.
pub open spec fn spec_placeholders(n: nat) -> Seq<char>
    decreases n,
{
    if n == 0 {
        Seq::empty()
    } else if n == 1 {
        seq!['?']
    } else {
        spec_placeholders((n - 1) as nat) + seq![',', '?']
    }
}

/// The statement and parameters that select stored captures by processed state, date range
/// and application, oldest first.
pub open spec fn spec_filtered_query(
    start_date: Option<Seq<char>>,
    end_date: Option<Seq<char>>,
    apps: Option<Seq<Seq<char>>>,
    only_processed: bool,
) -> (Seq<char>, Seq<Seq<char>>) {
    let s0 = spec_select_base();
    let s1 = if only_processed {
        s0 + " AND vlm_processed = 1"@
    } else {
        s0
    };
    let (s2, p2) = match start_date {
        Some(d) => (s1 + spec_start_clause(), seq![d]),
        None => (s1, Seq::empty()),
    };
    let (s3, p3) = match end_date {
        Some(d) => (s2 + spec_end_clause(), p2.push(d)),
        None => (s2, p2),
    };
    let (s4, p4) = match apps {
        Some(a) => if a.len() > 0 {
            (s3 + " AND app IN ("@ + spec_placeholders(a.len()) + ")"@, p3 + a)
        } else {
            (s3, p3)
        },
        None => (s3, p3),
    };
    (s4 + " ORDER BY timestamp ASC"@, p4)
}

fn push_placeholders(sql: &mut Vec<char>, n: usize)
    requires
        n > 0,
    ensures
        final(sql)@ == old(sql)@ + spec_placeholders(n as nat),
{
    sql.push('?');
    let mut i: usize = 1;
    assert(old(sql)@.push('?') =~= old(sql)@ + spec_placeholders(1));
    while i < n
        invariant
            1 <= i <= n,
            sql@ == old(sql)@ + spec_placeholders(i as nat),
        decreases n - i,
    {
        sql.push(',');
        sql.push('?');
        i = i + 1;
        assert(sql@ =~= old(sql)@ + spec_placeholders(i as nat));
    }
}

/// Builds the statement and parameters that `query_captures_filtered` runs.
pub fn build_filtered_query(
    start_date: Option<&str>,
    end_date: Option<&str>,
    apps: Option<&[String]>,
    only_processed: bool,
) -> (query: (String, Vec<String>))
    ensures
        query.0@ == spec_filtered_query(
            match start_date {
                Some(d) => Some(d@),
                None => None,
            },
            match end_date {
                Some(d) => Some(d@),
                None => None,
            },
            match apps {
                Some(a) => Some(a@.map_values(|s: String| s@)),
                None => None,
            },
            only_processed,
        ).0,
        query.1@.map_values(|s: String| s@) == spec_filtered_query(
            match start_date {
                Some(d) => Some(d@),
                None => None,
            },
            match end_date {
                Some(d) => Some(d@),
                None => None,
            },
            match apps {
                Some(a) => Some(a@.map_values(|s: String| s@)),
                None => None,
            },
            only_processed,
        ).1,
{
    let ghost sd = match start_date {
        Some(d) => Some(d@),
        None => None,
    };
    let ghost ed = match end_date {
        Some(d) => Some(d@),
        None => None,
    };
    let ghost ap = match apps {
        Some(a) => Some(a@.map_values(|s: String| s@)),
        None => None,
    };
    let mut sql = select_base_chars();
    let mut params: Vec<String> = Vec::new();
    let ghost s0 = spec_select_base();
    assert(sql@ == s0);
    if only_processed {
        let part = chars_of(" AND vlm_processed = 1");
        extend_chars(&mut sql, part.as_slice());
    }
    let ghost s1 = if only_processed {
        s0 + " AND vlm_processed = 1"@
    } else {
        s0
    };
    assert(sql@ == s1);
    match start_date {
        Some(d) => {
            push_date_clause(&mut sql, true);
            params.push(d.to_owned());
        },
        None => {},
    }
    let ghost s2 = match sd {
        Some(d) => s1 + spec_start_clause(),
        None => s1,
    };
    assert(sql@ == s2);
    match end_date {
        Some(d) => {
            push_date_clause(&mut sql, false);
            params.push(d.to_owned());
        },
        None => {},
    }
    let ghost s3 = match ed {
        Some(d) => s2 + spec_end_clause(),
        None => s2,
    };
    assert(sql@ == s3);
    let ghost p3 = params@.map_values(|s: String| s@);
    match apps {
        Some(a) => {
            if a.len() > 0 {
                let open = chars_of(" AND app IN (");
                extend_chars(&mut sql, open.as_slice());
                push_placeholders(&mut sql, a.len());
                let ghost before = sql@;
                sql.push(')');
                assert(sql@ =~= before + ")"@) by {
                    reveal_strlit(")");
                }
                assert(sql@ =~= s3 + " AND app IN ("@ + spec_placeholders(a@.len()) + ")"@);
                let mut i: usize = 0;
                while i < a.len()
                    invariant
                        i <= a@.len(),
                        params@.map_values(|s: String| s@) == p3 + a@.map_values(
                            |s: String| s@,
                        ).take(i as int),
                    decreases a@.len() - i,
                {
                    let ghost prev = params@.map_values(|s: String| s@);
                    params.push(a[i].clone());
                    i = i + 1;
                    assert(params@.map_values(|s: String| s@) =~= prev.push(a@[i - 1]@));
                    assert(a@.map_values(|s: String| s@).take(i as int) =~= a@.map_values(
                        |s: String| s@,
                    ).take(i - 1).push(a@[i - 1]@));
                }
                assert(a@.map_values(|s: String| s@).take(a@.len() as int) =~= a@.map_values(
                    |s: String| s@,
                ));
            }
        },
        None => {},
    }
    let ghost s4 = match ap {
        Some(a) => if a.len() > 0 {
            s3 + " AND app IN ("@ + spec_placeholders(a.len()) + ")"@
        } else {
            s3
        },
        None => s3,
    };
    assert(sql@ == s4);
    let tail = chars_of(" ORDER BY timestamp ASC");
    extend_chars(&mut sql, tail.as_slice());
    assert(sql@ == spec_filtered_query(sd, ed, ap, only_processed).0);
    let text = string_from_chars(sql.as_slice());
    assert(params@.map_values(|s: String| s@) =~= spec_filtered_query(
        match start_date {
            Some(d) => Some(d@),
            None => None,
        },
        match end_date {
            Some(d) => Some(d@),
            None => None,
        },
        match apps {
            Some(a) => Some(a@.map_values(|s: String| s@)),
            None => None,
        },
        only_processed,
    ).1);
    (text, params)
}

/// How many `?` placeholders a statement holds.
pub open spec fn count_placeholders(sql: Seq<char>) -> nat
    decreases sql.len(),
{
    if sql.len() == 0 {
        0
    } else {
        count_placeholders(sql.drop_last()) + if sql.last() == '?' {
            1nat
        } else {
            0nat
        }
    }
}

proof fn lemma_count_add(a: Seq<char>, b: Seq<char>)
    ensures
        count_placeholders(a + b) == count_placeholders(a) + count_placeholders(b),
    decreases b.len(),
{
    if b.len() > 0 {
        lemma_count_add(a, b.drop_last());
        assert((a + b).drop_last() =~= a + b.drop_last());
    } else {
        assert(a + b =~= a);
    }
}

proof fn lemma_count_placeholder_list(n: nat)
    ensures
        count_placeholders(spec_placeholders(n)) == n,
    decreases n,
{
    reveal_with_fuel(count_placeholders, 3);
    if n == 1 {
        assert(seq!['?'].drop_last() =~= Seq::<char>::empty());
        assert(count_placeholders(seq!['?']) == 1);
    } else if n > 1 {
        lemma_count_placeholder_list((n - 1) as nat);
        lemma_count_add(spec_placeholders((n - 1) as nat), seq![',', '?']);
        assert(seq![',', '?'].drop_last() =~= seq![',']);
        assert(seq![','].drop_last() =~= Seq::<char>::empty());
        assert(count_placeholders(seq![',', '?']) == 1);
    }
}

proof fn lemma_count_base()
    ensures
        count_placeholders(spec_select_base()) == 0,
{
    reveal_strlit("SELECT id, timestamp, app, ");
    reveal_strlit("window_title, image_path, ");
    reveal_strlit("description, dhash, ");
    reveal_strlit("vlm_processed\n         ");
    reveal_strlit("FROM captures\n         ");
    reveal_strlit("WHERE 1 = 1");
    reveal_with_fuel(count_placeholders, 30);
    let a = "SELECT id, timestamp, app, "@;
    let b = "window_title, image_path, "@;
    let c = "description, dhash, "@;
    let d = "vlm_processed\n         "@;
    let e = "FROM captures\n         "@;
    let f = "WHERE 1 = 1"@;
    assert(count_placeholders(a) == 0);
    assert(count_placeholders(b) == 0);
    assert(count_placeholders(c) == 0);
    assert(count_placeholders(d) == 0);
    assert(count_placeholders(e) == 0);
    assert(count_placeholders(f) == 0);
    lemma_count_add(a, b);
    lemma_count_add(a + b, c);
    lemma_count_add(a + b + c, d);
    lemma_count_add(a + b + c + d, e);
    lemma_count_add(a + b + c + d + e, f);
}

proof fn lemma_count_clauses()
    ensures
        count_placeholders(spec_start_clause()) == 1,
        count_placeholders(spec_end_clause()) == 1,
        count_placeholders(" AND vlm_processed = 1"@) == 0,
        count_placeholders(" AND app IN ("@) == 0,
        count_placeholders(")"@) == 0,
        count_placeholders(" ORDER BY timestamp ASC"@) == 0,
{
    reveal_strlit(" AND substr(timestamp, ");
    reveal_strlit("1, 10) >= ?");
    reveal_strlit("1, 10) <= ?");
    reveal_strlit(" AND vlm_processed = 1");
    reveal_strlit(" AND app IN (");
    reveal_strlit(")");
    reveal_strlit(" ORDER BY timestamp ASC");
    reveal_with_fuel(count_placeholders, 30);
    assert(count_placeholders(" AND substr(timestamp, "@) == 0);
    assert(count_placeholders("1, 10) >= ?"@) == 1);
    assert(count_placeholders("1, 10) <= ?"@) == 1);
    lemma_count_add(" AND substr(timestamp, "@, "1, 10) >= ?"@);
    lemma_count_add(" AND substr(timestamp, "@, "1, 10) <= ?"@);
    assert(count_placeholders(" AND vlm_processed = 1"@) == 0);
    assert(count_placeholders(" AND app IN ("@) == 0);
    assert(count_placeholders(")"@) == 0);
    assert(count_placeholders(" ORDER BY timestamp ASC"@) == 0);
}

/// Whether text `a` sorts at or before text `b` in the order SQLite compares text with its
/// default `BINARY` collation: byte by byte in UTF-8, which is the order of code points,
/// a text before any longer text it begins.
pub open spec fn text_le(a: Seq<char>, b: Seq<char>) -> bool
    decreases a.len(),
{
    if a.len() == 0 {
        true
    } else if b.len() == 0 {
        false
    } else if a[0] != b[0] {
        (a[0] as u32) < (b[0] as u32)
    } else {
        text_le(a.drop_first(), b.drop_first())
    }
}

/// What an SQL condition on a capture's day (the first ten characters of its timestamp)
/// says, for the day and the value bound to its placeholder: the condition
/// ` AND substr(timestamp, 1, 10) <op> ?` compares the day, on the left, with the value by
/// the comparison `<op>`; `None` for a text that is no such condition.
pub open spec fn day_condition_holds(clause: Seq<char>, day: Seq<char>, bound: Seq<char>) -> Option<
    bool,
> {
    let left = " AND substr(timestamp, 1, 10) "@;
    if clause == left + ">= ?"@ {
        Some(text_le(bound, day))
    } else if clause == left + "<= ?"@ {
        Some(text_le(day, bound))
    } else if clause == left + "> ?"@ {
        Some(!text_le(day, bound))
    } else if clause == left + "< ?"@ {
        Some(!text_le(bound, day))
    } else if clause == left + "= ?"@ {
        Some(day == bound)
    } else {
        None
    }
}

/// A query over a date range selects the captures whose day lies in the range, ends
/// included: its statement holds, before any other placeholder, a condition bound to the
/// first day that holds exactly when the capture's day is not before it, followed by one
/// bound to the last day that holds exactly when the capture's day is not after it.
pub proof fn lemma_date_range_bounds_the_day(
    start_date: Seq<char>,
    end_date: Seq<char>,
    apps: Option<Seq<Seq<char>>>,
    only_processed: bool,
    day: Seq<char>,
)
    ensures
        ({
            let (sql, params) = spec_filtered_query(Some(start_date), Some(end_date), apps, only_processed);
            exists|head: Seq<char>, first: Seq<char>, second: Seq<char>, tail: Seq<char>|
                #![trigger head + first + second + tail]
                {
                    &&& sql == head + first + second + tail
                    &&& count_placeholders(head) == 0
                    &&& count_placeholders(first) == 1
                    &&& params.len() >= 2
                    &&& params[0] == start_date
                    &&& params[1] == end_date
                    &&& day_condition_holds(first, day, params[0]) == Some(text_le(start_date, day))
                    &&& day_condition_holds(second, day, params[1]) == Some(text_le(day, end_date))
                }
        }),
{
    lemma_count_base();
    lemma_count_clauses();
    reveal_strlit(" AND substr(timestamp, ");
    reveal_strlit("1, 10) >= ?");
    reveal_strlit("1, 10) <= ?");
    reveal_strlit(" AND substr(timestamp, 1, 10) ");
    reveal_strlit(">= ?");
    reveal_strlit("<= ?");
    reveal_strlit("> ?");
    reveal_strlit("< ?");
    reveal_strlit("= ?");
    reveal_strlit(" AND vlm_processed = 1");
    let left = " AND substr(timestamp, 1, 10) "@;
    assert(spec_start_clause() =~= left + ">= ?"@);
    assert(spec_end_clause() =~= left + "<= ?"@);
    assert(spec_end_clause() != left + ">= ?"@) by {
        assert(spec_end_clause()[30] != (left + ">= ?"@)[30]);
    }
    let s0 = spec_select_base();
    let head = if only_processed {
        s0 + " AND vlm_processed = 1"@
    } else {
        s0
    };
    lemma_count_add(s0, " AND vlm_processed = 1"@);
    let (sql, params) = spec_filtered_query(Some(start_date), Some(end_date), apps, only_processed);
    let s3 = head + spec_start_clause() + spec_end_clause();
    let (s4, p4) = match apps {
        Some(a) => if a.len() > 0 {
            (s3 + " AND app IN ("@ + spec_placeholders(a.len()) + ")"@, seq![start_date, end_date] + a)
        } else {
            (s3, seq![start_date, end_date])
        },
        None => (s3, seq![start_date, end_date]),
    };
    let tail = s4.subrange(s3.len() as int, s4.len() as int) + " ORDER BY timestamp ASC"@;
    assert(sql =~= head + spec_start_clause() + spec_end_clause() + tail);
    assert(params =~= p4);
}

/// Every parameter of a filtered query has its placeholder: the statement holds exactly as
/// many `?` as there are parameters, so the database binds each value to its own place.
pub proof fn lemma_filtered_query_binds_every_parameter(
    start_date: Option<Seq<char>>,
    end_date: Option<Seq<char>>,
    apps: Option<Seq<Seq<char>>>,
    only_processed: bool,
)
    ensures
        count_placeholders(spec_filtered_query(start_date, end_date, apps, only_processed).0)
            == spec_filtered_query(start_date, end_date, apps, only_processed).1.len(),
{
    lemma_count_base();
    lemma_count_clauses();
    let s0 = spec_select_base();
    let s1 = if only_processed {
        s0 + " AND vlm_processed = 1"@
    } else {
        s0
    };
    lemma_count_add(s0, " AND vlm_processed = 1"@);
    assert(count_placeholders(s1) == 0);
    let (s2, p2) = match start_date {
        Some(d) => (s1 + spec_start_clause(), seq![d]),
        None => (s1, Seq::<Seq<char>>::empty()),
    };
    lemma_count_add(s1, spec_start_clause());
    assert(count_placeholders(s2) == p2.len());
    let (s3, p3) = match end_date {
        Some(d) => (s2 + spec_end_clause(), p2.push(d)),
        None => (s2, p2),
    };
    lemma_count_add(s2, spec_end_clause());
    assert(count_placeholders(s3) == p3.len());
    let (s4, p4) = match apps {
        Some(a) => if a.len() > 0 {
            (s3 + " AND app IN ("@ + spec_placeholders(a.len()) + ")"@, p3 + a)
        } else {
            (s3, p3)
        },
        None => (s3, p3),
    };
    match apps {
        Some(a) => if a.len() > 0 {
            lemma_count_placeholder_list(a.len());
            lemma_count_add(s3, " AND app IN ("@);
            lemma_count_add(s3 + " AND app IN ("@, spec_placeholders(a.len()));
            lemma_count_add(s3 + " AND app IN ("@ + spec_placeholders(a.len()), ")"@);
        },
        None => {},
    }
    assert(count_placeholders(s4) == p4.len());
    lemma_count_add(s4, " ORDER BY timestamp ASC"@);
}

} // verus!
