//! What the recording loop decides about each screenshot.
use crate::diff::{has_significant_change, lemma_no_change_against_itself, spec_hamming};
use crate::models::CaptureRecord;
use crate::session::{near_duplicate, spec_compare_dhashes};
use crate::models::opt_view;
use crate::text::{format_hex_016, hex_fixed, lemma_hex_roundtrip, spec_parse_hex_u64};
use crate::window_meta::WindowMetadata;
use vstd::prelude::*;

verus! {

/// A screenshot is dropped when there is a previous hash and the new one does not differ
/// from it in at least `threshold` bits.
pub open spec fn spec_is_unchanged(previous: Option<u64>, hash: u64, threshold: u32) -> bool {
    match previous {
        Some(p) => !(spec_hamming(p, hash) >= threshold),
        None => false,
    }
}

/// Whether a new screenshot shows nothing new.
pub fn frame_is_unchanged(previous: Option<u64>, hash: u64, threshold: u32) -> (unchanged: bool)
    ensures
        unchanged == spec_is_unchanged(previous, hash, threshold),
{
    match previous {
        Some(p) => !has_significant_change(p, hash, threshold),
        None => false,
    }
}

/// Looks at a new screenshot's hash: the screenshot is kept unless it shows nothing new,
/// and a kept screenshot's hash becomes the one the next is compared with.
pub fn observe_frame(previous: &mut Option<u64>, hash: u64, threshold: u32) -> (kept: bool)
    ensures
        kept == !spec_is_unchanged(*old(previous), hash, threshold),
        kept ==> *final(previous) == Some(hash),
        !kept ==> *final(previous) == *old(previous),
{
    let unchanged = frame_is_unchanged(*previous, hash, threshold);
    if !unchanged {
        *previous = Some(hash);
    }
    !unchanged
}

/// Once a screenshot is kept, the same picture right after it is dropped (with a positive
/// threshold), and the hash compared against stays the kept one.
pub proof fn lemma_repeat_frame_dropped(previous: Option<u64>, hash: u64, threshold: u32)
    requires
        threshold > 0,
        !spec_is_unchanged(previous, hash, threshold),
    ensures
        spec_is_unchanged(Some(hash), hash, threshold),
{
    lemma_no_change_against_itself(hash, threshold);
}

/// The record completed with the window it shows and its hash (sixteen hexadecimal digits).
pub fn enrich_record(record: CaptureRecord, metadata: WindowMetadata, dhash: u64) -> (enriched: CaptureRecord)
    ensures
        enriched.app == metadata.process_name,
        enriched.window_title == metadata.window_title,
        enriched.dhash matches Some(h) && h@ == hex_fixed(dhash as nat, 16),
        enriched.id == record.id,
        enriched.timestamp == record.timestamp,
        enriched.image_path == record.image_path,
        enriched.description == record.description,
{
    let mut record = record;
    record.app = metadata.process_name;
    record.window_title = metadata.window_title;
    record.dhash = Some(format_hex_016(dhash));
    record
}

/// The hash that `enrich_record` stores is read back as the same hash, so two enriched
/// captures are near duplicates exactly when their hashes differ in at most five bits.
pub proof fn lemma_enriched_hashes_compare(a: CaptureRecord, b: CaptureRecord, ha: u64, hb: u64)
    requires
        a.dhash matches Some(s) && s@ == hex_fixed(ha as nat, 16),
        b.dhash matches Some(s) && s@ == hex_fixed(hb as nat, 16),
    ensures
        spec_compare_dhashes(opt_view(a.dhash), opt_view(b.dhash)) == Some(spec_hamming(ha, hb)),
        near_duplicate(a, b) <==> spec_hamming(ha, hb) <= 5,
{
    lemma_hex_roundtrip(ha);
    lemma_hex_roundtrip(hb);
}

/// The image path of a record, or the reason it has none.
pub fn record_image_path(record: &CaptureRecord) -> (path: Result<String, String>)
    ensures
        match record.image_path {
            Some(p) => path matches Ok(q) && q@ == p@,
            None => path matches Err(m) && m@ == "capture record does not contain an image path"@,
        },
{
    match &record.image_path {
        Some(p) => Ok(p.clone()),
        None => Err("capture record does not contain an image path".to_owned()),
    }
}

/// What starting the recorder does: it starts only when it is not already recording, and
/// reports whether it started.
pub fn start_recording_decision(is_recording: bool) -> (start: bool)
    ensures
        start == !is_recording,
{
    !is_recording
}

/// What the recording shortcut does.
#[derive(Debug, Clone, Copy, PartialEq, Eq, Structural)]
pub enum RecordingToggle {
    Start,
    Stop,
}

/// The shortcut stops a running recording and starts a stopped one.
pub fn toggle_recording(is_recording: bool) -> (toggle: RecordingToggle)
    ensures
        toggle == (if is_recording {
            RecordingToggle::Stop
        } else {
            RecordingToggle::Start
        }),
{
    if is_recording {
        RecordingToggle::Stop
    } else {
        RecordingToggle::Start
    }
}

} // verus!
