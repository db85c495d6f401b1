//! Paging through the captures of one day.
use crate::db::{CaptureDateGroup, StoredCaptureRecord};
use crate::models::opt_view;
use crate::text::{spec_trim, str_trim};
use vstd::prelude::*;

verus! {

/// How many captures one preview page shows.
pub const PREVIEW_PAGE_SIZE: u64 = 50;

/// A capture as the preview shows it.
#[derive(Debug, Clone, PartialEq, Eq)]
pub struct PreviewCaptureRecord {
    pub id: String,
    pub timestamp: String,
    pub app: String,
    pub window_title: String,
    pub image_path: Option<String>,
    pub image_exists: bool,
    pub description: Option<String>,
    pub dhash: Option<String>,
    pub vlm_processed: bool,
}

/// One page of the preview.
#[derive(Debug, Clone, PartialEq, Eq)]
pub struct PreviewPagePayload {
    pub selected_date: Option<String>,
    pub available_dates: Vec<CaptureDateGroup>,
    pub total: u64,
    pub page: u64,
    pub page_size: u64,
    pub records: Vec<PreviewCaptureRecord>,
}

/// A stored capture as the preview shows it, given whether its image is still on disk.
pub fn preview_record(record: StoredCaptureRecord, image_exists: bool) -> (preview: PreviewCaptureRecord)
    ensures
        preview == (PreviewCaptureRecord {
            id: record.id,
            timestamp: record.timestamp,
            app: record.app,
            window_title: record.window_title,
            image_path: record.image_path,
            image_exists: record.image_path is Some && image_exists,
            description: record.description,
            dhash: record.dhash,
            vlm_processed: record.vlm_processed,
        }),
{
    let image_exists = record.image_path.is_some() && image_exists;
    PreviewCaptureRecord {
        id: record.id,
        timestamp: record.timestamp,
        app: record.app,
        window_title: record.window_title,
        image_path: record.image_path,
        image_exists,
        description: record.description,
        dhash: record.dhash,
        vlm_processed: record.vlm_processed,
    }
}

/// The day to show: the requested one unless it is blank, otherwise the first day with
/// captures (the most recent, as the days are listed newest first).
pub open spec fn spec_selected_date(date: Option<Seq<char>>, available: Seq<CaptureDateGroup>) -> Option<
    Seq<char>,
> {
    match date {
        Some(d) => if spec_trim(d).len() > 0 {
            Some(d)
        } else if available.len() > 0 {
            Some(available[0].date@)
        } else {
            None
        },
        None => if available.len() > 0 {
            Some(available[0].date@)
        } else {
            None
        },
    }
}

/// Chooses the day to show.
pub fn select_preview_date(date: Option<String>, available: &[CaptureDateGroup]) -> (selected: Option<
    String,
>)
    ensures
        opt_view(selected) == spec_selected_date(opt_view(date), available@),
{
    match date {
        Some(d) => {
            if !str_trim(d.as_str()).is_empty() {
                return Some(d);
            }
        },
        None => {},
    }
    if available.len() > 0 {
        Some(available[0].date.clone())
    } else {
        None
    }
}

/// The last page for a number of captures (there is always a first page).
pub open spec fn spec_max_page(total: u64) -> int {
    if total == 0 {
        1
    } else {
        (total - 1) / (PREVIEW_PAGE_SIZE as int) + 1
    }
}

/// The page actually shown: the requested one (the first when none is given), kept between
/// the first and the last page.
pub open spec fn spec_clamped_page(page: Option<u64>, total: u64) -> int {
    let requested: int = match page {
        Some(p) => if p < 1 {
            1
        } else {
            p as int
        },
        None => 1,
    };
    if requested > spec_max_page(total) {
        spec_max_page(total)
    } else {
        requested
    }
}

/// Chooses the page to show.
pub fn clamp_preview_page(page: Option<u64>, total: u64) -> (shown: u64)
    ensures
        shown == spec_clamped_page(page, total),
{
    let max_page: u64 = if total == 0 {
        1
    } else {
        ((total - 1) / PREVIEW_PAGE_SIZE) + 1
    };
    let requested: u64 = match page {
        Some(p) => if p < 1 {
            1
        } else {
            p
        },
        None => 1,
    };
    if requested > max_page {
        max_page
    } else {
        requested
    }
}

/// The page shown always exists: it is at least the first, and its first capture lies
/// within the day's captures whenever there are any.
pub proof fn lemma_clamped_page_in_range(page: Option<u64>, total: u64)
    ensures
        1 <= spec_clamped_page(page, total) <= spec_max_page(total),
        total > 0 ==> (spec_clamped_page(page, total) - 1) * (PREVIEW_PAGE_SIZE as int) < total,
{
    let p = spec_clamped_page(page, total);
    if total > 0 {
        assert((p - 1) * 50 < total) by (nonlinear_arith)
            requires
                1 <= p <= (total - 1) / 50 + 1,
                total > 0,
        ;
    }
}

/// The page shown when no day has captures.
pub fn empty_preview_payload(available_dates: Vec<CaptureDateGroup>) -> (payload: PreviewPagePayload)
    ensures
        payload.selected_date is None,
        payload.available_dates == available_dates,
        payload.total == 0,
        payload.page == 1,
        payload.page_size == PREVIEW_PAGE_SIZE,
        payload.records@.len() == 0,
{
    PreviewPagePayload {
        selected_date: None,
        available_dates,
        total: 0,
        page: 1,
        page_size: PREVIEW_PAGE_SIZE,
        records: Vec::new(),
    }
}

} // verus!
