//! Grouping captures into work sessions and choosing the frames that represent them.
use crate::diff::{
    encode_png, frame_from_image_bytes, hamming_distance, resize_within, spec_decoded_rgba,
    spec_hamming, spec_pasted_rows, spec_png, spec_resized_within, RgbaFrame,
};
use crate::db::{spec_db_message, DbError, SessionRecord};
use crate::models::{opt_view, AppConfig, CaptureRecord};
use crate::text::{chars_of, extend_chars, parse_hex_u64, spec_parse_hex_u64, string_from_chars};
use vstd::prelude::*;

verus! {

// ---------------------------------------------------------------------------
// Hash comparison
// ---------------------------------------------------------------------------
/// The Hamming distance of two hexadecimal hashes, when both are present and readable.
pub open spec fn spec_compare_dhashes(left: Option<Seq<char>>, right: Option<Seq<char>>) -> Option<
    nat,
> {
    match (left, right) {
        (Some(l), Some(r)) => match (spec_parse_hex_u64(l), spec_parse_hex_u64(r)) {
            (Some(a), Some(b)) => Some(spec_hamming(a, b)),
            _ => None,
        },
        _ => None,
    }
}

/// Compares two stored hashes.
pub fn compare_dhashes(left: Option<&str>, right: Option<&str>) -> (distance: Option<u32>)
    ensures
        match spec_compare_dhashes(
            match left {
                Some(l) => Some(l@),
                None => None,
            },
            match right {
                Some(r) => Some(r@),
                None => None,
            },
        ) {
            Some(d) => distance matches Some(x) && x == d,
            None => distance is None,
        },
{
    let left = match left {
        Some(l) => l,
        None => return None,
    };
    let right = match right {
        Some(r) => r,
        None => return None,
    };
    let left = match parse_hex_u64(left) {
        Some(v) => v,
        None => return None,
    };
    let right = match parse_hex_u64(right) {
        Some(v) => v,
        None => return None,
    };
    Some(hamming_distance(left, right))
}

fn compare_record_dhashes(left: &CaptureRecord, right: &CaptureRecord) -> (distance: Option<u32>)
    ensures
        match spec_compare_dhashes(opt_view(left.dhash), opt_view(right.dhash)) {
            Some(d) => distance matches Some(x) && x == d,
            None => distance is None,
        },
{
    let l: Option<&str> = match &left.dhash {
        Some(s) => Some(s.as_str()),
        None => None,
    };
    let r: Option<&str> = match &right.dhash {
        Some(s) => Some(s.as_str()),
        None => None,
    };
    compare_dhashes(l, r)
}

// ---------------------------------------------------------------------------
// Key frames
// ---------------------------------------------------------------------------
/// Two captures whose hashes are both readable and differ in at most five bits.
pub open spec fn near_duplicate(a: CaptureRecord, b: CaptureRecord) -> bool {
    match spec_compare_dhashes(opt_view(a.dhash), opt_view(b.dhash)) {
        Some(d) => d <= 5,
        None => false,
    }
}

/// Positions of the captures that survive de-duplication: the first capture, then every
/// capture that is not a near duplicate of the last one kept.
pub open spec fn dedup_indices(c: Seq<CaptureRecord>) -> Seq<int>
    decreases c.len(),
{
    if c.len() == 0 {
        Seq::empty()
    } else if c.len() == 1 {
        seq![0int]
    } else {
        let prev = dedup_indices(c.drop_last());
        if near_duplicate(c[prev.last()], c.last()) {
            prev
        } else {
            prev.push(c.len() - 1)
        }
    }
}

/// The largest number of frames a selection may hold.
pub open spec fn frame_budget(max_frames: u32) -> nat {
    if max_frames == 0 {
        1
    } else {
        max_frames as nat
    }
}

/// Positions of the key frames: the de-duplicated captures, or, when there are more of them
/// than the budget allows, that many of them picked at even spacing.
pub open spec fn key_frame_indices(c: Seq<CaptureRecord>, max_frames: u32) -> Seq<int> {
    let d = dedup_indices(c);
    let m = frame_budget(max_frames);
    if d.len() <= m {
        d
    } else {
        Seq::new(m, |i: int| d[i * d.len() / m as int])
    }
}

/// De-duplicated positions are strictly increasing, start at zero and stay in range.
pub proof fn lemma_dedup_indices_shape(c: Seq<CaptureRecord>)
    ensures
        dedup_indices(c).len() <= c.len(),
        c.len() > 0 ==> dedup_indices(c).len() > 0 && dedup_indices(c)[0] == 0,
        forall|k: int|
            0 <= k < dedup_indices(c).len() ==> 0 <= #[trigger] dedup_indices(c)[k] < c.len(),
        forall|k: int, l: int|
            0 <= k < l < dedup_indices(c).len() ==> dedup_indices(c)[k] < dedup_indices(c)[l],
    decreases c.len(),
{
    if c.len() > 1 {
        lemma_dedup_indices_shape(c.drop_last());
    }
}

/// Consecutive de-duplicated captures are never near duplicates of each other.
pub proof fn lemma_dedup_no_adjacent_near_duplicates(c: Seq<CaptureRecord>)
    ensures
        forall|k: int|
            0 <= k < dedup_indices(c).len() - 1 ==> !near_duplicate(
                c[dedup_indices(c)[k]],
                #[trigger] c[dedup_indices(c)[k + 1]],
            ),
    decreases c.len(),
{
    if c.len() > 1 {
        let p = c.drop_last();
        lemma_dedup_no_adjacent_near_duplicates(p);
        lemma_dedup_indices_shape(p);
        let d = dedup_indices(c);
        let dp = dedup_indices(p);
        assert forall|k: int| 0 <= k < d.len() - 1 implies !near_duplicate(
            c[d[k]],
            #[trigger] c[d[k + 1]],
        ) by {
            assert(d[k] == dp[k]);
            if k + 1 < dp.len() {
                assert(d[k + 1] == dp[k + 1]);
                assert(c[dp[k]] == p[dp[k]]);
                assert(c[dp[k + 1]] == p[dp[k + 1]]);
            } else {
                assert(k == dp.len() - 1);
                assert(c[dp.last()] == p[dp.last()]);
            }
        }
    }
}

proof fn lemma_even_spacing(i: int, t: int, m: int)
    requires
        0 <= i,
        i + 1 < m,
        m < t,
    ensures
        i * t / m < (i + 1) * t / m,
        0 <= i * t / m,
        (i + 1) * t / m < t,
{
    assert((i + 1) * t == i * t + t) by (nonlinear_arith);
    assert(i * t / m + 1 <= (i * t + m) / m) by (nonlinear_arith)
        requires
            0 <= i,
            0 < m,
            m < t,
    ;
    assert((i * t + m) / m <= (i * t + t) / m) by (nonlinear_arith)
        requires
            0 <= i,
            0 < m,
            m < t,
    ;
    assert(0 <= i * t / m) by (nonlinear_arith)
        requires
            0 <= i,
            0 < m,
            m < t,
    ;
    assert((i + 1) * t / m < t) by (nonlinear_arith)
        requires
            i + 1 < m,
            0 < m,
            m < t,
            0 <= i,
    ;
}

/// The selection holds at most the frame budget, starts with the first capture, and lists
/// captures in their original order without repeats.
pub proof fn lemma_key_frames_shape(c: Seq<CaptureRecord>, max_frames: u32)
    ensures
        key_frame_indices(c, max_frames).len() <= frame_budget(max_frames),
        key_frame_indices(c, max_frames).len() <= c.len(),
        c.len() > 0 ==> key_frame_indices(c, max_frames).len() > 0 && key_frame_indices(
            c,
            max_frames,
        )[0] == 0,
        forall|k: int|
            0 <= k < key_frame_indices(c, max_frames).len() ==> 0 <= #[trigger] key_frame_indices(
                c,
                max_frames,
            )[k] < c.len(),
        forall|k: int, l: int|
            0 <= k < l < key_frame_indices(c, max_frames).len() ==> key_frame_indices(
                c,
                max_frames,
            )[k] < key_frame_indices(c, max_frames)[l],
{
    lemma_dedup_indices_shape(c);
    let d = dedup_indices(c);
    let m = frame_budget(max_frames) as int;
    let t = d.len() as int;
    if t > m {
        let s = key_frame_indices(c, max_frames);
        assert(s.len() == m);
        assert forall|k: int| 0 <= k < m implies 0 <= #[trigger] (k * t / m) < t by {
            if k + 1 < m {
                lemma_even_spacing(k, t, m);
            } else {
                assert(k * t / m < t) by (nonlinear_arith)
                    requires
                        0 <= k < m,
                        m < t,
                ;
                assert(0 <= k * t / m) by (nonlinear_arith)
                    requires
                        0 <= k < m,
                        m < t,
                ;
            }
        }
        assert forall|k: int| 0 <= k < s.len() implies 0 <= #[trigger] s[k] < c.len() by {
            assert(0 <= k * t / m < t);
        }
        assert forall|k: int, l: int| 0 <= k < l < s.len() implies s[k] < s[l] by {
            lemma_spacing_monotone(k, l, t, m);
            assert(0 <= k * t / m < t);
            assert(0 <= l * t / m < t);
        }
        if c.len() > 0 {
            assert(0 * t / m == 0);
        }
    }
}

proof fn lemma_spacing_monotone(k: int, l: int, t: int, m: int)
    requires
        0 <= k < l < m,
        m < t,
    ensures
        k * t / m < l * t / m,
    decreases l - k,
{
    if l == k + 1 {
        lemma_even_spacing(k, t, m);
    } else {
        lemma_spacing_monotone(k, l - 1, t, m);
        lemma_even_spacing(l - 1, t, m);
    }
}

/// When the de-duplicated captures fit in the budget, no two consecutive key frames are
/// near duplicates.
pub proof fn lemma_key_frames_deduplicated(c: Seq<CaptureRecord>, max_frames: u32)
    requires
        dedup_indices(c).len() <= frame_budget(max_frames),
    ensures
        forall|k: int|
            0 <= k < key_frame_indices(c, max_frames).len() - 1 ==> !near_duplicate(
                c[key_frame_indices(c, max_frames)[k]],
                #[trigger] c[key_frame_indices(c, max_frames)[k + 1]],
            ),
{
    lemma_dedup_no_adjacent_near_duplicates(c);
}

/// Chooses the captures that represent a session.
pub fn select_key_frames(captures: &[CaptureRecord], max_frames: u32) -> (frames: Vec<
    &CaptureRecord,
>)
    ensures
        frames@.len() == key_frame_indices(captures@, max_frames).len(),
        forall|k: int|
            0 <= k < frames@.len() ==> *#[trigger] frames@[k] == captures@[key_frame_indices(
                captures@,
                max_frames,
            )[k]],
{
    let ghost c = captures@;
    let n = captures.len();
    let mut deduped: Vec<usize> = Vec::new();
    if n == 0 {
        assert(key_frame_indices(c, max_frames) =~= Seq::<int>::empty());
        return Vec::new();
    }
    deduped.push(0);
    assert(c.take(1).len() == 1);
    let mut i: usize = 1;
    while i < n
        invariant
            1 <= i <= n,
            n == c.len(),
            captures@ == c,
            deduped@.len() == dedup_indices(c.take(i as int)).len(),
            forall|k: int|
                0 <= k < deduped@.len() ==> deduped@[k] as int == #[trigger] dedup_indices(
                    c.take(i as int),
                )[k],
        decreases n - i,
    {
        proof {
            lemma_dedup_indices_shape(c.take(i as int));
            assert(c.take(i + 1).drop_last() =~= c.take(i as int));
        }
        assert(deduped@.len() > 0);
        let ghost lk = deduped@.len() - 1;
        assert(deduped@[lk] as int == dedup_indices(c.take(i as int))[lk]);
        assert(0 <= dedup_indices(c.take(i as int))[lk] < i);
        let last = deduped[deduped.len() - 1];
        assert(c.take(i + 1)[last as int] == c[last as int]);
        let skip = match compare_record_dhashes(&captures[last], &captures[i]) {
            Some(d) => d <= 5,
            None => false,
        };
        proof {
            let t = c.take(i + 1);
            let prev = dedup_indices(c.take(i as int));
            assert(prev.last() == last as int);
            assert(t[prev.last()] == c[last as int]);
            assert(t.last() == c[i as int]);
            assert(skip == near_duplicate(t[prev.last()], t.last()));
            assert(dedup_indices(t) == (if near_duplicate(t[prev.last()], t.last()) {
                prev
            } else {
                prev.push(t.len() - 1)
            }));
        }
        if !skip {
            deduped.push(i);
        }
        i = i + 1;
    }
    assert(c.take(n as int) =~= c);
    proof {
        lemma_dedup_indices_shape(c);
    }
    let total = deduped.len();
    let m: usize = if max_frames == 0 {
        1
    } else {
        max_frames as usize
    };
    let mut frames: Vec<&CaptureRecord> = Vec::new();
    if total <= m {
        let mut k: usize = 0;
        while k < total
            invariant
                k <= total,
                total == deduped@.len(),
                total <= m,
                m == frame_budget(max_frames),
                captures@ == c,
                deduped@.len() == dedup_indices(c).len(),
                forall|j: int|
                    0 <= j < deduped@.len() ==> deduped@[j] as int == #[trigger] dedup_indices(
                        c,
                    )[j],
                forall|j: int|
                    0 <= j < dedup_indices(c).len() ==> 0 <= #[trigger] dedup_indices(c)[j]
                        < c.len(),
                frames@.len() == k,
                forall|j: int|
                    0 <= j < k ==> *#[trigger] frames@[j] == c[key_frame_indices(c, max_frames)[j]],
            decreases total - k,
        {
            assert(deduped@[k as int] as int == dedup_indices(c)[k as int]);
            frames.push(&captures[deduped[k]]);
            k = k + 1;
        }
    } else {
        let mut k: usize = 0;
        while k < m
            invariant
                k <= m,
                total == deduped@.len(),
                total > m,
                m == frame_budget(max_frames),
                m <= u32::MAX,
                total <= c.len(),
                total <= usize::MAX,
                captures@ == c,
                deduped@.len() == dedup_indices(c).len(),
                forall|j: int|
                    0 <= j < deduped@.len() ==> deduped@[j] as int == #[trigger] dedup_indices(
                        c,
                    )[j],
                forall|j: int|
                    0 <= j < dedup_indices(c).len() ==> 0 <= #[trigger] dedup_indices(c)[j]
                        < c.len(),
                frames@.len() == k,
                forall|j: int|
                    0 <= j < k ==> *#[trigger] frames@[j] == c[key_frame_indices(c, max_frames)[j]],
            decreases m - k,
        {
            assert((k as int) * (total as int) <= u128::MAX) by (nonlinear_arith)
                requires
                    k < m,
                    m <= u32::MAX,
                    total <= u64::MAX,
            ;
            let prod: u128 = (k as u128) * (total as u128);
            let pos: u128 = prod / (m as u128);
            assert(pos < total) by (nonlinear_arith)
                requires
                    pos == (k as int) * (total as int) / (m as int),
                    k < m,
                    m < total,
            ;
            let pos = pos as usize;
            assert(deduped@[pos as int] as int == dedup_indices(c)[pos as int]);
            frames.push(&captures[deduped[pos]]);
            k = k + 1;
        }
    }
    frames
}

// ---------------------------------------------------------------------------
// Session assembly
// ---------------------------------------------------------------------------
/// The instant that `DateTime::parse_from_rfc3339` reads from a timestamp, as whole seconds
/// since the Unix epoch and the nanoseconds past them.
pub uninterp spec fn spec_rfc3339_instant(text: Seq<char>) -> Option<(i64, u32)>;

/// `chrono::DateTime::parse_from_rfc3339`, read as seconds since the epoch
/// (`DateTime::timestamp`) and the nanoseconds past them (`timestamp_subsec_nanos`).
/// The contract names the result and keeps the documented bound on the nanoseconds
/// (a leap second reaches past one billion).
#[verifier::external_body]
pub(crate) fn parse_rfc3339_instant(text: &str) -> (instant: Option<(i64, u32)>)
    ensures
        instant == spec_rfc3339_instant(text@),
        instant matches Some(t) ==> t.1 < 2_000_000_000,
{
    chrono::DateTime::parse_from_rfc3339(text).ok().map(
        |dt| (dt.timestamp(), dt.timestamp_subsec_nanos()),
    )
}

/// `SystemTime::UNIX_EPOCH.elapsed()`: how far the system clock is past the Unix epoch
/// (`Ok`) or, for a clock set before it, how far before (`Err`, read from the error's
/// `duration`), each as whole seconds and the nanoseconds past them.  Nothing is promised
/// of the clock, but the documented range of `subsec_nanos`.
#[verifier::external_body]
fn clock_since_epoch() -> (offset: Result<(u64, u32), (u64, u32)>)
    ensures
        match offset {
            Ok((_, nanos)) => nanos < 1_000_000_000,
            Err((_, nanos)) => nanos < 1_000_000_000,
        },
{
    match std::time::SystemTime::UNIX_EPOCH.elapsed() {
        Ok(after) => Ok((after.as_secs(), after.subsec_nanos())),
        Err(error) => Err((error.duration().as_secs(), error.duration().subsec_nanos())),
    }
}

/// The current time by the system clock, as seconds since the epoch and the nanoseconds
/// past them; a clock set before the epoch gives a negative instant.
pub(crate) fn current_instant() -> (now: (i64, u32))
    ensures
        now.1 < 1_000_000_000,
{
    let offset = clock_since_epoch();
    match offset {
        Ok((secs, nanos)) => if secs <= i64::MAX as u64 {
            (secs as i64, nanos)
        } else {
            (i64::MAX, nanos)
        },
        Err((secs, nanos)) => if nanos == 0 {
            if secs <= i64::MAX as u64 {
                (0 - (secs as i64), 0)
            } else {
                (i64::MIN, 0)
            }
        } else if secs < i64::MAX as u64 {
            (0 - (secs as i64) - 1, 1_000_000_000 - nanos)
        } else {
            (i64::MIN, 1_000_000_000 - nanos)
        },
    }
}

/// Nanoseconds since the epoch.
pub open spec fn instant_nanos(t: (i64, u32)) -> int {
    t.0 * 1_000_000_000 + t.1
}

/// The whole seconds from `earlier` to `later`, truncated towards zero
/// (what `TimeDelta::num_seconds` gives for `later - earlier`).
pub open spec fn whole_seconds_between(later: (i64, u32), earlier: (i64, u32)) -> int {
    let d = instant_nanos(later) - instant_nanos(earlier);
    if d >= 0 {
        d / 1_000_000_000
    } else {
        -((-d) / 1_000_000_000)
    }
}

/// Computes `whole_seconds_between`.
pub fn seconds_between(later: (i64, u32), earlier: (i64, u32)) -> (secs: i128)
    requires
        later.1 < 2_000_000_000,
        earlier.1 < 2_000_000_000,
    ensures
        secs == whole_seconds_between(later, earlier),
{
    let d: i128 = ((later.0 as i128) - (earlier.0 as i128)) * 1_000_000_000 + ((later.1 as i128)
        - (earlier.1 as i128));
    if d >= 0 {
        d / 1_000_000_000
    } else {
        -((-d) / 1_000_000_000)
    }
}

/// The gap limit of a configuration, as the comparison reads it.
pub open spec fn gap_limit(config: AppConfig) -> int {
    (config.session_gap_secs as i64) as int
}

/// The window limit of a configuration, as the comparison reads it.
pub open spec fn window_limit(config: AppConfig) -> int {
    (config.session_window_secs as i64) as int
}

/// Where the assembly stands after some captures: the finished sessions, the open one,
/// and the instants at which the open session started and last grew.
pub ghost struct Assembly {
    pub closed: Seq<Seq<CaptureRecord>>,
    pub current: Seq<CaptureRecord>,
    pub start: (i64, u32),
    pub prev: (i64, u32),
}

/// One capture joins the assembly: captures whose timestamp cannot be read are dropped;
/// a capture more than the gap after the previous one, or more than the window after the
/// session's start, opens a new session.
pub open spec fn assembly_step(st: Assembly, capture: CaptureRecord, config: AppConfig) -> Assembly {
    match spec_rfc3339_instant(capture.timestamp@) {
        None => st,
        Some(t) => if st.current.len() == 0 {
            Assembly { closed: st.closed, current: seq![capture], start: t, prev: t }
        } else if whole_seconds_between(t, st.prev) > gap_limit(config) || whole_seconds_between(
            t,
            st.start,
        ) > window_limit(config) {
            Assembly { closed: st.closed.push(st.current), current: seq![capture], start: t, prev: t }
        } else {
            Assembly { closed: st.closed, current: st.current.push(capture), start: st.start, prev: t }
        },
    }
}

/// The assembly after all of `c`, in order.
pub open spec fn assembly_of(c: Seq<CaptureRecord>, config: AppConfig) -> Assembly
    decreases c.len(),
{
    if c.len() == 0 {
        Assembly { closed: Seq::empty(), current: Seq::empty(), start: (0, 0), prev: (0, 0) }
    } else {
        assembly_step(assembly_of(c.drop_last(), config), c.last(), config)
    }
}

/// The sessions of `c` at instant `now`: the finished ones, and the open one when its last
/// capture is more than the gap before `now`.
pub open spec fn spec_assemble_sessions(
    c: Seq<CaptureRecord>,
    config: AppConfig,
    now: (i64, u32),
) -> Seq<Seq<CaptureRecord>> {
    let st = assembly_of(c, config);
    if st.current.len() == 0 {
        st.closed
    } else if whole_seconds_between(now, st.prev) > gap_limit(config) {
        st.closed.push(st.current)
    } else {
        st.closed
    }
}

/// Every finished session of an assembly holds at least one capture.
pub proof fn lemma_assembly_sessions_nonempty(c: Seq<CaptureRecord>, config: AppConfig)
    ensures
        forall|k: int|
            0 <= k < assembly_of(c, config).closed.len() ==> #[trigger] assembly_of(
                c,
                config,
            ).closed[k].len() > 0,
    decreases c.len(),
{
    if c.len() > 0 {
        lemma_assembly_sessions_nonempty(c.drop_last(), config);
        let st = assembly_of(c.drop_last(), config);
        assert forall|k: int|
            0 <= k < assembly_of(c, config).closed.len() implies #[trigger] assembly_of(
            c,
            config,
        ).closed[k].len() > 0 by {
            if k < st.closed.len() {
                assert(assembly_of(c, config).closed[k] == st.closed[k]);
            }
        }
    }
}

/// The instant a capture was taken, when its timestamp can be read.
pub open spec fn capture_instant(c: CaptureRecord) -> (i64, u32) {
    spec_rfc3339_instant(c.timestamp@).unwrap()
}

/// A session as assembly builds it: not empty, every timestamp readable, each capture at
/// most the gap after the one before it, and each at most the window after the first.
pub open spec fn session_respects_limits(s: Seq<CaptureRecord>, config: AppConfig) -> bool {
    &&& s.len() > 0
    &&& forall|i: int| 0 <= i < s.len() ==> (#[trigger] spec_rfc3339_instant(s[i].timestamp@)) is Some
    &&& forall|i: int|
        0 < i < s.len() ==> whole_seconds_between(
            capture_instant(#[trigger] s[i]),
            capture_instant(s[i - 1]),
        ) <= gap_limit(config)
    &&& forall|i: int|
        0 < i < s.len() ==> whole_seconds_between(capture_instant(#[trigger] s[i]), capture_instant(s[0]))
            <= window_limit(config)
}

/// What holds of an assembly at every step: every finished session respects the limits,
/// and so does the open one, whose start and last instants are those of its first and
/// last captures.
pub open spec fn assembly_respects_limits(st: Assembly, config: AppConfig) -> bool {
    &&& forall|k: int| 0 <= k < st.closed.len() ==> session_respects_limits(#[trigger] st.closed[k], config)
    &&& st.current.len() > 0 ==> {
        &&& session_respects_limits(st.current, config)
        &&& st.start == capture_instant(st.current[0])
        &&& st.prev == capture_instant(st.current.last())
    }
}

proof fn lemma_assembly_respects_limits(c: Seq<CaptureRecord>, config: AppConfig)
    ensures
        assembly_respects_limits(assembly_of(c, config), config),
    decreases c.len(),
{
    if c.len() > 0 {
        lemma_assembly_respects_limits(c.drop_last(), config);
        let st = assembly_of(c.drop_last(), config);
        let capture = c.last();
        let next = assembly_of(c, config);
        assert(next == assembly_step(st, capture, config));
        match spec_rfc3339_instant(capture.timestamp@) {
            None => {},
            Some(t) => {
                let single = seq![capture];
                assert(session_respects_limits(single, config)) by {
                    assert forall|i: int| 0 <= i < single.len() implies (#[trigger] spec_rfc3339_instant(
                        single[i].timestamp@,
                    )) is Some by {
                        assert(single[i] == capture);
                    }
                }
                if st.current.len() == 0 {
                } else if whole_seconds_between(t, st.prev) > gap_limit(config) || whole_seconds_between(
                    t,
                    st.start,
                ) > window_limit(config) {
                    assert forall|k: int| 0 <= k < next.closed.len() implies session_respects_limits(
                        #[trigger] next.closed[k],
                        config,
                    ) by {
                        if k < st.closed.len() {
                            assert(next.closed[k] == st.closed[k]);
                        } else {
                            assert(next.closed[k] == st.current);
                        }
                    }
                } else {
                    let cur = st.current;
                    let grown = cur.push(capture);
                    assert(next.current == grown);
                    assert forall|i: int| 0 <= i < grown.len() implies (#[trigger] spec_rfc3339_instant(
                        grown[i].timestamp@,
                    )) is Some by {
                        if i < cur.len() {
                            assert(grown[i] == cur[i]);
                        }
                    }
                    assert forall|i: int| 0 < i < grown.len() implies whole_seconds_between(
                        capture_instant(#[trigger] grown[i]),
                        capture_instant(grown[i - 1]),
                    ) <= gap_limit(config) by {
                        if i < cur.len() {
                            assert(grown[i] == cur[i]);
                            assert(grown[i - 1] == cur[i - 1]);
                        } else {
                            assert(grown[i] == capture);
                            assert(grown[i - 1] == cur.last());
                        }
                    }
                    assert forall|i: int| 0 < i < grown.len() implies whole_seconds_between(
                        capture_instant(#[trigger] grown[i]),
                        capture_instant(grown[0]),
                    ) <= window_limit(config) by {
                        assert(grown[0] == cur[0]);
                        if i < cur.len() {
                            assert(grown[i] == cur[i]);
                        } else {
                            assert(grown[i] == capture);
                        }
                    }
                    assert(grown.last() == capture);
                }
            },
        }
    }
}

/// Sessions keep to the configured limits: every session is non-empty, every capture in it
/// has a readable timestamp, each capture follows the one before it by at most the gap,
/// and each lies at most the window after the session's first capture.
pub proof fn lemma_sessions_respect_limits(c: Seq<CaptureRecord>, config: AppConfig, now: (i64, u32))
    ensures
        forall|k: int|
            0 <= k < spec_assemble_sessions(c, config, now).len() ==> session_respects_limits(
                #[trigger] spec_assemble_sessions(c, config, now)[k],
                config,
            ),
{
    lemma_assembly_respects_limits(c, config);
    let st = assembly_of(c, config);
    let out = spec_assemble_sessions(c, config, now);
    assert forall|k: int| 0 <= k < out.len() implies session_respects_limits(#[trigger] out[k], config) by {
        if k < st.closed.len() {
            assert(out[k] == st.closed[k]);
        } else {
            assert(out[k] == st.current);
        }
    }
}

/// The captures whose timestamp can be read, in order.
pub open spec fn readable_captures(c: Seq<CaptureRecord>) -> Seq<CaptureRecord>
    decreases c.len(),
{
    if c.len() == 0 {
        Seq::empty()
    } else if spec_rfc3339_instant(c.last().timestamp@) is Some {
        readable_captures(c.drop_last()).push(c.last())
    } else {
        readable_captures(c.drop_last())
    }
}

/// Sessions laid end to end.
pub open spec fn flatten_sessions(ss: Seq<Seq<CaptureRecord>>) -> Seq<CaptureRecord>
    decreases ss.len(),
{
    if ss.len() == 0 {
        Seq::empty()
    } else {
        flatten_sessions(ss.drop_last()) + ss.last()
    }
}

/// The session still open at `now`: the last one, when its last capture is not yet more
/// than the gap before `now`.
pub open spec fn spec_open_session(c: Seq<CaptureRecord>, config: AppConfig, now: (i64, u32)) -> Seq<
    CaptureRecord,
> {
    let st = assembly_of(c, config);
    if st.current.len() > 0 && !(whole_seconds_between(now, st.prev) > gap_limit(config)) {
        st.current
    } else {
        Seq::empty()
    }
}

proof fn lemma_assembly_keeps_order(c: Seq<CaptureRecord>, config: AppConfig)
    ensures
        flatten_sessions(assembly_of(c, config).closed) + assembly_of(c, config).current
            == readable_captures(c),
    decreases c.len(),
{
    if c.len() > 0 {
        lemma_assembly_keeps_order(c.drop_last(), config);
        let st = assembly_of(c.drop_last(), config);
        let capture = c.last();
        let next = assembly_of(c, config);
        match spec_rfc3339_instant(capture.timestamp@) {
            None => {},
            Some(t) => {
                if st.current.len() == 0 {
                    assert(flatten_sessions(next.closed) + next.current =~= (flatten_sessions(
                        st.closed,
                    ) + st.current).push(capture));
                } else if whole_seconds_between(t, st.prev) > gap_limit(config) || whole_seconds_between(
                    t,
                    st.start,
                ) > window_limit(config) {
                    assert(next.closed.drop_last() =~= st.closed);
                    assert(flatten_sessions(next.closed) + next.current =~= (flatten_sessions(
                        st.closed,
                    ) + st.current).push(capture));
                } else {
                    assert(flatten_sessions(next.closed) + next.current =~= (flatten_sessions(
                        st.closed,
                    ) + st.current).push(capture));
                }
            },
        }
    }
}

/// Assembly keeps every capture whose timestamp can be read, once and in order: the
/// sessions laid end to end, followed by the session still open, are exactly those
/// captures.
pub proof fn lemma_sessions_keep_order(c: Seq<CaptureRecord>, config: AppConfig, now: (i64, u32))
    ensures
        flatten_sessions(spec_assemble_sessions(c, config, now)) + spec_open_session(c, config, now)
            == readable_captures(c),
{
    lemma_assembly_keeps_order(c, config);
    let st = assembly_of(c, config);
    if st.current.len() > 0 && whole_seconds_between(now, st.prev) > gap_limit(config) {
        let out = st.closed.push(st.current);
        assert(out.drop_last() =~= st.closed);
        assert(flatten_sessions(out) + Seq::<CaptureRecord>::empty() =~= flatten_sessions(st.closed)
            + st.current);
    } else if st.current.len() == 0 {
        assert(st.closed + Seq::<Seq<CaptureRecord>>::empty() =~= st.closed);
        assert(flatten_sessions(st.closed) + Seq::<CaptureRecord>::empty() =~= flatten_sessions(
            st.closed,
        ) + st.current);
    }
}

/// Why a session ended where the next one begins: the next one's first capture comes more
/// than the gap after the earlier session's last capture, or more than the window after
/// its first.
pub open spec fn split_by_limits(
    earlier: Seq<CaptureRecord>,
    later: Seq<CaptureRecord>,
    config: AppConfig,
) -> bool {
    ||| whole_seconds_between(capture_instant(later[0]), capture_instant(earlier.last()))
        > gap_limit(config)
    ||| whole_seconds_between(capture_instant(later[0]), capture_instant(earlier[0]))
        > window_limit(config)
}

/// What holds of an assembly at every step: sessions are only ever closed for a reason,
/// and nothing is closed before a session has been opened.
pub open spec fn assembly_is_maximal(st: Assembly, config: AppConfig) -> bool {
    &&& st.current.len() == 0 ==> st.closed.len() == 0
    &&& forall|k: int|
        0 <= k < st.closed.len() - 1 ==> split_by_limits(
            #[trigger] st.closed[k],
            st.closed[k + 1],
            config,
        )
    &&& st.closed.len() > 0 ==> split_by_limits(st.closed.last(), st.current, config)
}

proof fn lemma_assembly_is_maximal(c: Seq<CaptureRecord>, config: AppConfig)
    ensures
        assembly_is_maximal(assembly_of(c, config), config),
    decreases c.len(),
{
    if c.len() > 0 {
        lemma_assembly_is_maximal(c.drop_last(), config);
        lemma_assembly_respects_limits(c.drop_last(), config);
        let st = assembly_of(c.drop_last(), config);
        let capture = c.last();
        let next = assembly_of(c, config);
        assert(next == assembly_step(st, capture, config));
        match spec_rfc3339_instant(capture.timestamp@) {
            None => {},
            Some(t) => {
                assert(capture_instant(capture) == t);
                if st.current.len() == 0 {
                } else if whole_seconds_between(t, st.prev) > gap_limit(config) || whole_seconds_between(
                    t,
                    st.start,
                ) > window_limit(config) {
                    assert(next.current[0] == capture);
                    assert(split_by_limits(st.current, next.current, config));
                    assert forall|k: int| 0 <= k < next.closed.len() - 1 implies split_by_limits(
                        #[trigger] next.closed[k],
                        next.closed[k + 1],
                        config,
                    ) by {
                        assert(next.closed[k] == st.closed[k]);
                        if k + 1 < st.closed.len() {
                            assert(next.closed[k + 1] == st.closed[k + 1]);
                        } else {
                            assert(next.closed[k + 1] == st.current);
                        }
                    }
                } else {
                    assert(next.current[0] == st.current[0]);
                }
            },
        }
    }
}

/// Sessions are as long as the limits allow: of any two sessions in a row, the later one
/// begins with a capture that could not have joined the earlier one, being more than the
/// gap after its last capture or more than the window after its first; the same holds
/// between the last finished session and the one still open.
pub proof fn lemma_sessions_are_maximal(c: Seq<CaptureRecord>, config: AppConfig, now: (i64, u32))
    ensures
        forall|k: int|
            0 <= k < spec_assemble_sessions(c, config, now).len() - 1 ==> split_by_limits(
                #[trigger] spec_assemble_sessions(c, config, now)[k],
                spec_assemble_sessions(c, config, now)[k + 1],
                config,
            ),
        spec_open_session(c, config, now).len() > 0 && spec_assemble_sessions(c, config, now).len()
            > 0 ==> split_by_limits(
            spec_assemble_sessions(c, config, now).last(),
            spec_open_session(c, config, now),
            config,
        ),
{
    lemma_assembly_is_maximal(c, config);
    let st = assembly_of(c, config);
    let out = spec_assemble_sessions(c, config, now);
    assert forall|k: int| 0 <= k < out.len() - 1 implies split_by_limits(
        #[trigger] out[k],
        out[k + 1],
        config,
    ) by {
        assert(out[k] == st.closed[k]);
        if k + 1 < st.closed.len() {
            assert(out[k + 1] == st.closed[k + 1]);
        } else {
            assert(out[k + 1] == st.current);
        }
    }
}

/// Groups captures into sessions, judging at instant `now` whether the last one is finished.
pub fn assemble_sessions_at(captures: Vec<CaptureRecord>, config: &AppConfig, now: (i64, u32)) -> (sessions: Vec<
    Vec<CaptureRecord>,
>)
    requires
        now.1 < 2_000_000_000,
    ensures
        sessions@.map_values(|s: Vec<CaptureRecord>| s@) == spec_assemble_sessions(
            captures@,
            *config,
            now,
        ),
{
    let ghost c = captures@;
    let gap: i128 = (config.session_gap_secs as i64) as i128;
    let window: i128 = (config.session_window_secs as i64) as i128;
    let mut sessions: Vec<Vec<CaptureRecord>> = Vec::new();
    let mut current: Vec<CaptureRecord> = Vec::new();
    let mut start: (i64, u32) = (0, 0);
    let mut prev: (i64, u32) = (0, 0);
    for capture in it: captures.into_iter()
        invariant
            it.seq() == c,
            gap == gap_limit(*config),
            window == window_limit(*config),
            sessions@.map_values(|s: Vec<CaptureRecord>| s@) == assembly_of(
                c.take(it.index() as int),
                *config,
            ).closed,
            current@ == assembly_of(c.take(it.index() as int), *config).current,
            current@.len() > 0 ==> start == assembly_of(c.take(it.index() as int), *config).start
                && prev == assembly_of(c.take(it.index() as int), *config).prev,
            current@.len() > 0 ==> start.1 < 2_000_000_000 && prev.1 < 2_000_000_000,
    {
        let ghost i = it.index();
        proof {
            assert(c.take(i + 1).drop_last() =~= c.take(i as int));
            assert(c.take(i + 1).last() == capture);
        }
        let ghost before = assembly_of(c.take(i as int), *config);
        let parsed = parse_rfc3339_instant(capture.timestamp.as_str());
        match parsed {
            None => {},
            Some(t) => {
                if current.len() == 0 {
                    current.push(capture);
                    start = t;
                    prev = t;
                    assert(current@ =~= seq![c[i as int]]);
                } else {
                    let gap_secs = seconds_between(t, prev);
                    let window_secs = seconds_between(t, start);
                    if gap_secs > gap || window_secs > window {
                        let ghost closed_before = sessions@.map_values(
                            |s: Vec<CaptureRecord>| s@,
                        );
                        let finished = current;
                        sessions.push(finished);
                        current = Vec::new();
                        current.push(capture);
                        start = t;
                        prev = t;
                        assert(current@ =~= seq![c[i as int]]);
                        assert(sessions@.map_values(|s: Vec<CaptureRecord>| s@) =~= closed_before.push(
                            before.current,
                        ));
                    } else {
                        current.push(capture);
                        prev = t;
                    }
                }
            },
        }
    }
    assert(c.take(c.len() as int) =~= c);
    if current.len() == 0 {
        return sessions;
    }
    let age = seconds_between(now, prev);
    if age > gap {
        let ghost closed_before = sessions@.map_values(|s: Vec<CaptureRecord>| s@);
        let ghost cur_view = current@;
        sessions.push(current);
        assert(sessions@.map_values(|s: Vec<CaptureRecord>| s@) =~= closed_before.push(cur_view));
    }
    sessions
}

/// Groups captures into sessions, judged at the current time.
pub fn assemble_sessions(captures: Vec<CaptureRecord>, config: &AppConfig) -> (sessions: Vec<
    Vec<CaptureRecord>,
>)
    ensures
        exists|now: (i64, u32)|
            now.1 < 2_000_000_000 && sessions@.map_values(|s: Vec<CaptureRecord>| s@)
                == spec_assemble_sessions(captures@, *config, now),
{
    let now = current_instant();
    assemble_sessions_at(captures, config, now)
}

// ---------------------------------------------------------------------------
// Collages
// ---------------------------------------------------------------------------
/// The width of a collage, in pixels.
pub const COLLAGE_WIDTH: u32 = 1280;

/// The height of a collage, in pixels.
pub const COLLAGE_HEIGHT: u32 = 960;

/// Rows and columns of the grid for `frames` pictures: one cell for one, two side by
/// side, a square of four for three or four, and two rows of three beyond.
pub open spec fn spec_collage_grid(frames: nat) -> (u32, u32) {
    if frames <= 1 {
        (1, 1)
    } else if frames == 2 {
        (1, 2)
    } else if frames <= 4 {
        (2, 2)
    } else {
        (2, 3)
    }
}

/// The grid has a cell for every picture of a collage of up to six, fills its rows before
/// opening another (no row is left empty), and never has more rows than columns: so every
/// picture of such a collage has a cell on the canvas.
pub proof fn lemma_collage_grid_fits(frames: nat)
    requires
        1 <= frames <= 6,
    ensures
        spec_collage_grid(frames).0 * spec_collage_grid(frames).1 >= frames,
        spec_collage_grid(frames).0 * spec_collage_grid(frames).1 - frames
            < spec_collage_grid(frames).1,
        1 <= spec_collage_grid(frames).0 <= spec_collage_grid(frames).1,
        forall|index: nat|
            index < frames ==> #[trigger] (index / (spec_collage_grid(frames).1 as nat))
                < spec_collage_grid(frames).0,
{
    let (rows, cols) = spec_collage_grid(frames);
    assert forall|index: nat| index < frames implies #[trigger] (index / (cols as nat)) < rows by {
        assert(index / (cols as nat) < rows as nat) by (nonlinear_arith)
            requires
                index < frames,
                frames <= rows * cols,
                cols >= 1,
        ;
    }
}

/// The grid that a collage of `frames` pictures uses.
pub fn collage_grid(frames: usize) -> (grid: (u32, u32))
    ensures
        grid == spec_collage_grid(frames as nat),
{
    if frames <= 1 {
        (1, 1)
    } else if frames == 2 {
        (1, 2)
    } else if frames <= 4 {
        (2, 2)
    } else {
        (2, 3)
    }
}

/// Where one picture of a collage goes.
#[derive(Debug, Clone, Copy, PartialEq, Eq, Structural)]
pub struct CollageCell {
    pub x: u32,
    pub y: u32,
    pub width: u32,
    pub height: u32,
}

/// The cell of picture `index` among `frames`: the grid is filled row by row, and the cells
/// share the canvas equally (rounded down).
pub open spec fn spec_collage_cell(index: nat, frames: nat) -> CollageCell {
    let (rows, cols) = spec_collage_grid(frames);
    let width = 1280u32 / cols;
    let height = 960u32 / rows;
    CollageCell {
        x: ((index % (cols as nat)) * (width as nat)) as u32,
        y: ((index / (cols as nat)) * (height as nat)) as u32,
        width,
        height,
    }
}

/// The cell of picture `index` in a collage of `frames` pictures.  The row is not bounded:
/// a picture beyond the grid gets a cell below the canvas.
pub fn collage_cell(index: u32, frames: usize) -> (cell: CollageCell)
    requires
        index as nat / spec_collage_grid(frames as nat).1 as nat * 960 <= u32::MAX,
    ensures
        cell == spec_collage_cell(index as nat, frames as nat),
{
    let (rows, cols) = collage_grid(frames);
    let width = COLLAGE_WIDTH / cols;
    let height = COLLAGE_HEIGHT / rows;
    let row = index / cols;
    let col = index % cols;
    assert(col * width <= 1280) by (nonlinear_arith)
        requires
            col < cols,
            cols >= 1,
            width == 1280int / (cols as int),
    ;
    assert(row * height <= row * 960) by (nonlinear_arith)
        requires
            height <= 960,
    ;
    CollageCell { x: col * width, y: row * height, width, height }
}

/// Where a picture of the given size is placed inside its cell: centred, and at the cell's
/// corner along a side where it is not smaller than the cell.
pub fn centered_offset(cell: CollageCell, picture_width: u32, picture_height: u32) -> (offset: (
    u32,
    u32,
))
    requires
        cell.x + cell.width / 2 <= u32::MAX,
        cell.y + cell.height / 2 <= u32::MAX,
    ensures
        offset.0 == cell.x + (if picture_width <= cell.width {
            (cell.width - picture_width) / 2
        } else {
            0
        }),
        offset.1 == cell.y + (if picture_height <= cell.height {
            (cell.height - picture_height) / 2
        } else {
            0
        }),
{
    let dx = cell.width.saturating_sub(picture_width) / 2;
    let dy = cell.height.saturating_sub(picture_height) / 2;
    (cell.x + dx, cell.y + dy)
}

/// The message of the image crate's error for a picture that does not fit where it is
/// pasted (`ImageError::Parameter` of kind `DimensionMismatch`, which `copy_from` gives).
/// Nothing is stated of the text.
#[verifier::external_body]
fn dimension_mismatch() -> (message: String) {
    image::error::ImageError::Parameter(
        image::error::ParameterError::from_kind(image::error::ParameterErrorKind::DimensionMismatch),
    ).to_string()
}

/// The bytes of a collage before any picture is placed: every pixel opaque black.
pub open spec fn spec_blank_collage() -> Seq<u8> {
    Seq::new(1280 * 960 * 4, |i: int| if i % 4 == 3 { 255u8 } else { 0u8 })
}

/// The bytes of a key frame's file, when it could be read.
pub open spec fn spec_frame_bytes(frame: Option<Vec<u8>>) -> Option<Seq<u8>> {
    match frame {
        Some(bytes) => Some(bytes@),
        None => None,
    }
}

/// The collage after picture `index` of `count` is placed on `canvas`: a file that is
/// missing or not a readable picture leaves the canvas as it is; otherwise the picture is
/// shrunk to fit its cell, keeping its aspect ratio, and pasted centred in the cell.
/// `None` when the shrunk picture does not fit on the canvas there, which is always so for
/// a picture beyond the cells of the grid: its cell would lie below the canvas.
pub open spec fn spec_place(canvas: Seq<u8>, frame: Option<Seq<u8>>, index: nat, count: nat) -> Option<
    Seq<u8>,
> {
    match frame {
        None => Some(canvas),
        Some(bytes) => match spec_decoded_rgba(bytes) {
            None => Some(canvas),
            Some((w, h, px)) => if px.len() != w as int * h as int * 4 {
                Some(canvas)
            } else if index / (spec_collage_grid(count).1 as nat) >= spec_collage_grid(count).0 {
                None
            } else {
                let cell = spec_collage_cell(index, count);
                let (rw, rh, rpx) = spec_resized_within(w, h, px, cell.width, cell.height);
                let x = cell.x + (if rw <= cell.width {
                    (cell.width - rw) / 2
                } else {
                    0
                });
                let y = cell.y + (if rh <= cell.height {
                    (cell.height - rh) / 2
                } else {
                    0
                });
                if x + rw <= 1280 && y + rh <= 960 {
                    Some(spec_pasted_rows(canvas, 1280, rpx, rw as nat, rh as nat, x as nat, y as nat, 960))
                } else {
                    None
                }
            },
        },
    }
}

/// The collage after the first `placed` of `frames` are placed, in order; `None` once one
/// of them did not fit.
pub open spec fn spec_collage_canvas(frames: Seq<Option<Seq<u8>>>, placed: nat) -> Option<Seq<u8>>
    decreases placed,
{
    if placed == 0 {
        Some(spec_blank_collage())
    } else {
        match spec_collage_canvas(frames, (placed - 1) as nat) {
            None => None,
            Some(canvas) => spec_place(canvas, frames[placed - 1], (placed - 1) as nat, frames.len()),
        }
    }
}

/// Once a picture does not fit, the collage stays unfinished whatever follows.
proof fn lemma_collage_stays_failed(frames: Seq<Option<Seq<u8>>>, from: nat, to: nat)
    requires
        from <= to,
        spec_collage_canvas(frames, from) is None,
    ensures
        spec_collage_canvas(frames, to) is None,
    decreases to - from,
{
    if from < to {
        lemma_collage_stays_failed(frames, from, (to - 1) as nat);
    }
}

/// Every cell within the rows of a collage's grid lies within the canvas's width, and is
/// at least one pixel in each direction.
proof fn lemma_cell_bounds(index: nat, count: nat)
    requires
        index < count,
        index / (spec_collage_grid(count).1 as nat) < spec_collage_grid(count).0,
    ensures
        spec_collage_cell(index, count).x + spec_collage_cell(index, count).width <= 1280,
        spec_collage_cell(index, count).y + spec_collage_cell(index, count).height / 2 <= u32::MAX,
        spec_collage_cell(index, count).width >= 1,
        spec_collage_cell(index, count).height >= 1,
{
    let (rows, cols) = spec_collage_grid(count);
    let c = index % (cols as nat);
    let r = index / (cols as nat);
    if rows == 1 {
        assert(960u32 / rows == 960) by (nonlinear_arith)
            requires
                rows == 1,
        ;
        assert(r == 0);
    } else {
        assert(960u32 / rows == 480) by (nonlinear_arith)
            requires
                rows == 2,
        ;
        assert(r * 480 <= 480) by (nonlinear_arith)
            requires
                r < 2,
        ;
    }
    if cols == 1 {
        assert(1280u32 / cols == 1280) by (nonlinear_arith)
            requires
                cols == 1,
        ;
    } else if cols == 2 {
        assert(1280u32 / cols == 640) by (nonlinear_arith)
            requires
                cols == 2,
        ;
    } else {
        assert(1280u32 / cols == 426) by (nonlinear_arith)
            requires
                cols == 3,
        ;
    }
    assert(c * ((1280u32 / cols) as nat) <= 1280 - (1280u32 / cols)) by (nonlinear_arith)
        requires
            c < cols,
            cols == 1 ==> 1280u32 / cols == 1280,
            cols == 2 ==> 1280u32 / cols == 640,
            cols == 3 ==> 1280u32 / cols == 426,
            1 <= cols <= 3,
    ;
}

/// The PNG of the collage for key frames given by the bytes of their files (`None` for one
/// that could not be read): a 1280 by 960 opaque black canvas on which each readable
/// picture is shrunk into its cell of the grid and centred there, in order.  Fails when a
/// picture does not fit where it goes, or when the collage cannot be written as PNG.
pub fn compose_collage(frames: &Vec<Option<Vec<u8>>>) -> (png: Result<Vec<u8>, SessionError>)
    ensures
        match spec_collage_canvas(
            frames@.map_values(|f: Option<Vec<u8>>| spec_frame_bytes(f)),
            frames@.len(),
        ) {
            None => png matches Err(SessionError::Image(_)),
            Some(canvas) => match spec_png(1280, 960, canvas) {
                Some(bytes) => png matches Ok(b) && b@ == bytes,
                None => png matches Err(SessionError::Image(_)),
            },
        },
{
    let ghost model = frames@.map_values(|f: Option<Vec<u8>>| spec_frame_bytes(f));
    let mut canvas = RgbaFrame::filled(COLLAGE_WIDTH, COLLAGE_HEIGHT, [0u8, 0u8, 0u8, 255u8]);
    proof {
        assert(canvas.spec_pixels() =~= spec_blank_collage());
    }
    let count = frames.len();
    let mut index: usize = 0;
    while index < count
        invariant
            index <= count,
            count == frames@.len(),
            model == frames@.map_values(|f: Option<Vec<u8>>| spec_frame_bytes(f)),
            canvas.wf(),
            canvas.spec_width() == 1280,
            canvas.spec_height() == 960,
            spec_collage_canvas(model, index as nat) == Some(canvas.spec_pixels()),
        decreases count - index,
    {
        assert(model[index as int] == spec_frame_bytes(frames@[index as int]));
        match &frames[index] {
            None => {},
            Some(bytes) => match frame_from_image_bytes(bytes.as_slice()) {
                Err(_) => {},
                Ok(picture) => {
                    let (rows, cols) = collage_grid(count);
                    if index / (cols as usize) >= rows as usize {
                        proof {
                            lemma_collage_stays_failed(model, (index + 1) as nat, count as nat);
                        }
                        return Err(SessionError::Image(dimension_mismatch()));
                    }
                    assert(index < 6) by (nonlinear_arith)
                        requires
                            (index as int) / (cols as int) < rows,
                            1 <= cols <= 3,
                            rows <= 2,
                    ;
                    proof {
                        lemma_cell_bounds(index as nat, count as nat);
                    }
                    let cell = collage_cell(index as u32, count);
                    let (w, h, px) = resize_within(&picture, cell.width, cell.height);
                    let resized = RgbaFrame::new(w, h, px).unwrap();
                    let (x, y) = centered_offset(cell, resized.width(), resized.height());
                    match canvas.paste(&resized, x, y) {
                        Some(next) => {
                            canvas = next;
                        },
                        None => {
                            proof {
                                lemma_collage_stays_failed(model, (index + 1) as nat, count as nat);
                            }
                            return Err(SessionError::Image(dimension_mismatch()));
                        },
                    }
                },
            },
        }
        index = index + 1;
    }
    match encode_png(&canvas) {
        Ok(bytes) => Ok(bytes),
        Err(message) => Err(SessionError::Image(message)),
    }
}

/// `collage_<session id>.png`.
pub open spec fn spec_collage_file_name(session_id: Seq<char>) -> Seq<char> {
    "collage_"@ + session_id + ".png"@
}

/// The file name of a session's collage.
pub fn collage_file_name(session_id: &str) -> (name: String)
    ensures
        name@ == spec_collage_file_name(session_id@),
{
    let mut v = chars_of("collage_");
    extend_chars(&mut v, chars_of(session_id).as_slice());
    extend_chars(&mut v, chars_of(".png").as_slice());
    string_from_chars(v.as_slice())
}

/// The session id a collage's file stem carries: what follows `collage_`.
pub open spec fn spec_session_id_from_stem(stem: Seq<char>) -> Option<Seq<char>> {
    let prefix = "collage_"@;
    if stem.len() >= prefix.len() && stem.subrange(0, prefix.len() as int) == prefix {
        Some(stem.subrange(prefix.len() as int, stem.len() as int))
    } else {
        None
    }
}

/// The session id in a collage's file stem, if the stem is a collage's.
pub fn session_id_from_stem(stem: &str) -> (id: Option<String>)
    ensures
        opt_view(id) == spec_session_id_from_stem(stem@),
{
    proof {
        reveal_strlit("collage_");
    }
    let s = chars_of(stem);
    let prefix = chars_of("collage_");
    if s.len() < prefix.len() {
        return None;
    }
    let mut i: usize = 0;
    while i < prefix.len()
        invariant
            s@ == stem@,
            prefix@ == "collage_"@,
            prefix@.len() <= s@.len(),
            i <= prefix@.len(),
            forall|k: int| 0 <= k < i ==> s@[k] == prefix@[k],
        decreases prefix@.len() - i,
    {
        if s[i] != prefix[i] {
            assert(s@.subrange(0, prefix@.len() as int)[i as int] != prefix@[i as int]);
            return None;
        }
        i = i + 1;
    }
    assert(s@.subrange(0, prefix@.len() as int) =~= prefix@);
    let mut rest: Vec<char> = Vec::new();
    let mut j: usize = prefix.len();
    while j < s.len()
        invariant
            prefix@.len() <= j <= s@.len(),
            rest@ == s@.subrange(prefix@.len() as int, j as int),
        decreases s@.len() - j,
    {
        rest.push(s[j]);
        j = j + 1;
        assert(rest@ =~= s@.subrange(prefix@.len() as int, j as int));
    }
    Some(string_from_chars(rest.as_slice()))
}

/// The id written into a collage's name is read back from its stem.
pub proof fn lemma_collage_id_roundtrip(session_id: Seq<char>)
    ensures
        spec_session_id_from_stem("collage_"@ + session_id) == Some(session_id),
{
    reveal_strlit("collage_");
    let stem = "collage_"@ + session_id;
    assert(stem.subrange(0, 8) =~= "collage_"@);
    assert(stem.subrange(8, stem.len() as int) =~= session_id);
}

/// The record of a new session: it runs from its first capture to its last, shows
/// `frame_count` pictures in its collage, and has no description yet.  `None` for a
/// session without captures.
pub fn session_record(
    id: String,
    captures: &[CaptureRecord],
    collage_path: String,
    frame_count: usize,
) -> (record: Option<SessionRecord>)
    requires
        captures@.len() <= i64::MAX,
        frame_count <= i64::MAX,
    ensures
        captures@.len() == 0 ==> record is None,
        captures@.len() > 0 ==> (record matches Some(r) && r.id == id && r.start_time@
            == captures@[0].timestamp@ && r.end_time@ == captures@.last().timestamp@
            && r.collage_path == Some(collage_path) && r.description is None && !r.processed
            && r.capture_count == captures@.len() && r.frame_count == frame_count),
{
    if captures.len() == 0 {
        return None;
    }
    let first = captures[0].timestamp.clone();
    let last = captures[captures.len() - 1].timestamp.clone();
    Some(
        SessionRecord {
            id,
            start_time: first,
            end_time: last,
            collage_path: Some(collage_path),
            description: None,
            processed: false,
            capture_count: captures.len() as i64,
            frame_count: frame_count as i64,
        },
    )
}

/// Why sessions could not be built.
#[derive(Debug, Clone, PartialEq, Eq)]
pub enum SessionError {
    Db(DbError),
    /// An image could not be read or written; the text is the image library's message.
    Image(String),
    /// A file could not be written; the text is the system's message.
    Io(String),
}

/// The message shown for each session error.
pub open spec fn spec_session_message(e: SessionError) -> Seq<char> {
    match e {
        SessionError::Db(d) => "database error: "@ + spec_db_message(d),
        SessionError::Image(m) => "image processing error: "@ + m@,
        SessionError::Io(m) => "io error: "@ + m@,
    }
}

impl SessionError {
    /// The message shown for the error.
    pub fn message(&self) -> (text: String)
        ensures
            text@ == spec_session_message(*self),
    {
        let mut v: Vec<char>;
        match self {
            SessionError::Db(d) => {
                v = chars_of("database error: ");
                extend_chars(&mut v, chars_of(d.message().as_str()).as_slice());
            },
            SessionError::Image(m) => {
                v = chars_of("image processing error: ");
                extend_chars(&mut v, chars_of(m.as_str()).as_slice());
            },
            SessionError::Io(m) => {
                v = chars_of("io error: ");
                extend_chars(&mut v, chars_of(m.as_str()).as_slice());
            },
        }
        string_from_chars(v.as_slice())
    }
}

} // verus!
