//! Searching past captures.
use crate::db::{CaptureAppGroup, StoredCaptureRecord};
use crate::text::{chars_of, string_from_chars};
use vstd::prelude::*;

verus! {

/// How many results one search page shows.
pub const HISTORY_PAGE_SIZE: u64 = 50;

/// A search over past captures.
#[derive(Debug, Clone, Default, PartialEq, Eq)]
pub struct SearchCapturesRequest {
    pub query: Option<String>,
    pub app_filter: Option<Vec<String>>,
    pub date_from: Option<String>,
    pub date_to: Option<String>,
    pub page: Option<u64>,
}

/// A capture as search results show it.
#[derive(Debug, Clone, PartialEq, Eq)]
pub struct HistoryCaptureRecord {
    pub id: String,
    pub timestamp: String,
    pub capture_date: String,
    pub app: String,
    pub window_title: String,
    pub description: Option<String>,
    pub vlm_processed: bool,
}

/// One page of search results.
#[derive(Debug, Clone, PartialEq, Eq)]
pub struct HistorySearchResponse {
    pub total: u64,
    pub page: u64,
    pub page_size: u64,
    pub apps: Vec<CaptureAppGroup>,
    pub results: Vec<HistoryCaptureRecord>,
}

/// The page a search shows: the requested one, or the first when none (or page zero) is
/// requested.
pub fn history_page(page: Option<u64>) -> (shown: u64)
    ensures
        shown == (match page {
            Some(p) => if p < 1 {
                1
            } else {
                p
            },
            None => 1,
        }),
{
    match page {
        Some(p) => if p < 1 {
            1
        } else {
            p
        },
        None => 1,
    }
}

/// The first ten characters of a timestamp: its date.
pub open spec fn spec_capture_date(timestamp: Seq<char>) -> Seq<char> {
    if timestamp.len() <= 10 {
        timestamp
    } else {
        timestamp.take(10)
    }
}

/// A stored capture as search results show it.
pub fn history_record(record: StoredCaptureRecord) -> (result: HistoryCaptureRecord)
    ensures
        result.capture_date@ == spec_capture_date(record.timestamp@),
        result.id == record.id,
        result.timestamp == record.timestamp,
        result.app == record.app,
        result.window_title == record.window_title,
        result.description == record.description,
        result.vlm_processed == record.vlm_processed,
{
    let chars = chars_of(record.timestamp.as_str());
    let n: usize = if chars.len() < 10 {
        chars.len()
    } else {
        10
    };
    let mut date: Vec<char> = Vec::new();
    let mut i: usize = 0;
    while i < n
        invariant
            n <= chars@.len(),
            i <= n,
            date@ == chars@.take(i as int),
        decreases n - i,
    {
        date.push(chars[i]);
        i = i + 1;
        assert(date@ =~= chars@.take(i as int));
    }
    assert(chars@.len() <= 10 ==> chars@.take(n as int) =~= chars@);
    let capture_date = string_from_chars(date.as_slice());
    HistoryCaptureRecord {
        id: record.id,
        timestamp: record.timestamp,
        capture_date,
        app: record.app,
        window_title: record.window_title,
        description: record.description,
        vlm_processed: record.vlm_processed,
    }
}

/// The response to a search: the matching total, the page shown with its size, the
/// applications to filter by, and the page's captures in order.
pub fn history_response(
    total: u64,
    page: u64,
    apps: Vec<CaptureAppGroup>,
    records: Vec<StoredCaptureRecord>,
) -> (response: HistorySearchResponse)
    ensures
        response.total == total,
        response.page == page,
        response.page_size == HISTORY_PAGE_SIZE,
        response.apps == apps,
        response.results@.len() == records@.len(),
        forall|i: int|
            0 <= i < records@.len() ==> {
                let r = #[trigger] response.results@[i];
                let s = records@[i];
                &&& r.capture_date@ == spec_capture_date(s.timestamp@)
                &&& r.id == s.id
                &&& r.timestamp == s.timestamp
                &&& r.app == s.app
                &&& r.window_title == s.window_title
                &&& r.description == s.description
                &&& r.vlm_processed == s.vlm_processed
            },
{
    let mut results: Vec<HistoryCaptureRecord> = Vec::new();
    let ghost all = records@;
    for record in it: records.into_iter()
        invariant
            it.seq() == all,
            results@.len() == it.index(),
            forall|i: int|
                0 <= i < it.index() ==> {
                    let r = #[trigger] results@[i];
                    let s = all[i];
                    &&& r.capture_date@ == spec_capture_date(s.timestamp@)
                    &&& r.id == s.id
                    &&& r.timestamp == s.timestamp
                    &&& r.app == s.app
                    &&& r.window_title == s.window_title
                    &&& r.description == s.description
                    &&& r.vlm_processed == s.vlm_processed
                },
    {
        results.push(history_record(record));
    }
    HistorySearchResponse { total, page, page_size: HISTORY_PAGE_SIZE, apps, results }
}

} // verus!
