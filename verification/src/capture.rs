//! Screenshots and the records made of them.
use crate::config::{names_file_in, path_join};
use crate::models::{opt_view, strings_view, CaptureRecord, CaptureStats};
use crate::text::{chars_of, extend_chars, string_from_chars};
use vstd::prelude::*;

verus! {

/// The directory, inside the data directory, that holds screenshots.
pub const CAPTURE_DIR_NAME: &'static str = "captures";

/// A screenshot just taken.
#[derive(Debug)]
pub struct CapturedFrame {
    pub record: CaptureRecord,
    pub width: u32,
    pub height: u32,
    pub elapsed: std::time::Duration,
}

/// What a storage cleanup removed.
#[derive(Debug, Clone, Default, PartialEq, Eq)]
pub struct CleanupReport {
    pub orphaned_images_deleted: usize,
    pub processed_images_deleted: usize,
}

/// Why taking or storing a screenshot failed.
#[derive(Debug, Clone, PartialEq, Eq)]
pub enum CaptureError {
    UnsupportedPlatform,
    NoPrimaryMonitor,
    XCap(String),
    Io(String),
    Db(String),
    Image(String),
    Serde(String),
    Join(String),
}

/// The message shown for each capture error.
pub open spec fn spec_capture_message(e: CaptureError) -> Seq<char> {
    match e {
        CaptureError::UnsupportedPlatform => "screen capture is unsupported on this platform"@,
        CaptureError::NoPrimaryMonitor => "no primary monitor is available"@,
        CaptureError::XCap(_) => "failed to enumerate or capture monitor"@,
        CaptureError::Io(_) => "failed to read or write capture files"@,
        CaptureError::Db(_) => "failed to query capture records"@,
        CaptureError::Image(_) => "failed to encode screenshot"@,
        CaptureError::Serde(_) => "failed to serialize capture metadata"@,
        CaptureError::Join(_) => "capture task failed to join"@,
    }
}

impl CaptureError {
    /// The message shown for the error.
    pub fn message(&self) -> (text: String)
        ensures
            text@ == spec_capture_message(*self),
    {
        match self {
            CaptureError::UnsupportedPlatform => "screen capture is unsupported on this platform".to_owned(),
            CaptureError::NoPrimaryMonitor => "no primary monitor is available".to_owned(),
            CaptureError::XCap(_) => "failed to enumerate or capture monitor".to_owned(),
            CaptureError::Io(_) => "failed to read or write capture files".to_owned(),
            CaptureError::Db(_) => "failed to query capture records".to_owned(),
            CaptureError::Image(_) => "failed to encode screenshot".to_owned(),
            CaptureError::Serde(_) => "failed to serialize capture metadata".to_owned(),
            CaptureError::Join(_) => "capture task failed to join".to_owned(),
        }
    }
}

/// The path that `Path::with_extension` gives: `path` with the extension of its file name
/// replaced by `extension`.
pub uninterp spec fn spec_with_extension(path: Seq<char>, extension: Seq<char>) -> Seq<char>;

/// `Path::with_extension`, read back with `to_string_lossy`.  The contract names the
/// result, which depends on the two texts alone.  The documentation says that the call
/// panics when the extension holds a path separator, so one that holds `/` or `\\` is
/// left out.
#[verifier::external_body]
fn path_with_extension(path: &str, extension: &str) -> (changed: String)
    requires
        forall|i: int| 0 <= i < extension@.len() ==> extension@[i] != '/' && extension@[i] != '\\',
    ensures
        changed@ == spec_with_extension(path@, extension@),
{
    std::path::Path::new(path).with_extension(extension).to_string_lossy().into_owned()
}

/// The metadata file kept beside a screenshot: the same name with the extension `json`.
pub fn metadata_path_for_image(image_path: &str) -> (path: String)
    ensures
        path@ == spec_with_extension(image_path@, "json"@),
{
    proof {
        reveal_strlit("json");
    }
    path_with_extension(image_path, "json")
}

/// The files that make up a capture on disk, in the order they are removed: the metadata
/// first, then the screenshot.
pub fn capture_artifact_paths(image_path: &str) -> (paths: Vec<String>)
    ensures
        paths@.len() == 2,
        paths@[0]@ == spec_with_extension(image_path@, "json"@),
        paths@[1]@ == image_path@,
{
    let mut paths: Vec<String> = Vec::new();
    paths.push(metadata_path_for_image(image_path));
    paths.push(image_path.to_owned());
    paths
}

/// The extension that `Path::extension` reads from a path (as UTF-8), if any.
pub uninterp spec fn spec_path_extension(path: Seq<char>) -> Option<Seq<char>>;

/// `Path::extension`, read back with `to_str`.  The contract names the result, which the
/// text of the path alone decides.
#[verifier::external_body]
fn path_extension(path: &str) -> (extension: Option<String>)
    ensures
        opt_view(extension) == spec_path_extension(path@),
{
    std::path::Path::new(path).extension().and_then(|e| e.to_str()).map(|e| e.to_owned())
}

/// Whether `Path`'s equality, which compares paths component by component, holds.
pub uninterp spec fn spec_same_path(a: Seq<char>, b: Seq<char>) -> bool;

/// `Path::eq`.  The contract names the result, which the two texts alone decide.
#[verifier::external_body]
fn same_path(a: &str, b: &str) -> (same: bool)
    ensures
        same == spec_same_path(a@, b@),
{
    std::path::Path::new(a) == std::path::Path::new(b)
}

/// A file of the capture directory that no record refers to: a PNG screenshot whose path
/// is none of the referenced ones.
pub open spec fn is_orphaned_image(file: Seq<char>, referenced: Seq<Seq<char>>) -> bool {
    &&& spec_path_extension(file) == Some("png"@)
    &&& forall|j: int| 0 <= j < referenced.len() ==> !spec_same_path(file, #[trigger] referenced[j])
}

fn is_referenced(file: &str, referenced: &[String]) -> (found: bool)
    ensures
        found == exists|j: int|
            0 <= j < referenced@.len() && spec_same_path(file@, #[trigger] referenced@[j]@),
{
    let mut j: usize = 0;
    while j < referenced.len()
        invariant
            j <= referenced@.len(),
            forall|k: int| 0 <= k < j ==> !spec_same_path(file@, #[trigger] referenced@[k]@),
        decreases referenced@.len() - j,
    {
        if same_path(file, referenced[j].as_str()) {
            return true;
        }
        j = j + 1;
    }
    false
}

/// The files among `files` (the files of the capture directory, in the order listed) that
/// a cleanup removes: the screenshots that no record refers to.
pub fn orphaned_images(files: &[String], referenced: &[String]) -> (orphans: Vec<String>)
    ensures
        strings_view(orphans@) == strings_view(files@).filter(
            |f: Seq<char>| is_orphaned_image(f, strings_view(referenced@)),
        ),
{
    let ghost pred = |f: Seq<char>| is_orphaned_image(f, strings_view(referenced@));
    let mut orphans: Vec<String> = Vec::new();
    let mut i: usize = 0;
    while i < files.len()
        invariant
            i <= files@.len(),
            pred == (|f: Seq<char>| is_orphaned_image(f, strings_view(referenced@))),
            strings_view(orphans@) == strings_view(files@).take(i as int).filter(pred),
        decreases files@.len() - i,
    {
        let ghost before = strings_view(files@).take(i as int);
        assert(strings_view(files@).take(i + 1) =~= before.push(files@[i as int]@));
        proof {
            before.lemma_filter_push(files@[i as int]@, pred);
        }
        let png = match path_extension(files[i].as_str()) {
            Some(e) => crate::text::text_eq(e.as_str(), "png"),
            None => false,
        };
        let referenced_here = is_referenced(files[i].as_str(), referenced);
        proof {
            let f = files@[i as int]@;
            assert(strings_view(referenced@).len() == referenced@.len());
            assert forall|j: int| 0 <= j < referenced@.len() implies strings_view(referenced@)[j]
                == referenced@[j]@ by {}
            if !referenced_here {
                assert forall|j: int| 0 <= j < strings_view(referenced@).len() implies !spec_same_path(
                    f,
                    #[trigger] strings_view(referenced@)[j],
                ) by {
                    assert(strings_view(referenced@)[j] == referenced@[j]@);
                }
            } else {
                let j = choose|j: int|
                    0 <= j < referenced@.len() && spec_same_path(f, #[trigger] referenced@[j]@);
                assert(strings_view(referenced@)[j] == referenced@[j]@);
            }
        }
        if png && !referenced_here {
            orphans.push(files[i].clone());
            assert(strings_view(orphans@) =~= strings_view(orphans@).drop_last().push(files@[i as int]@));
        }
        i = i + 1;
    }
    assert(strings_view(files@).take(files@.len() as int) =~= strings_view(files@));
    orphans
}

/// Where screenshots are written under a base directory.
pub fn capture_dir_path(base_dir: &str) -> (dir: String)
    ensures
        names_file_in(dir@, base_dir@, CAPTURE_DIR_NAME@),
{
    proof {
        reveal_strlit("captures");
        assert("captures"@.len() == 8);
    }
    path_join(base_dir, CAPTURE_DIR_NAME)
}

/// `screenshot_<stamp>_<id>.png`.
pub open spec fn spec_screenshot_file_name(stamp: Seq<char>, id: Seq<char>) -> Seq<char> {
    "screenshot_"@ + stamp + "_"@ + id + ".png"@
}

/// The file name of a screenshot taken at `stamp` (local `%Y%m%d_%H%M%S`), with the capture
/// id in its simple form.
pub fn screenshot_file_name(stamp: &str, id: &str) -> (name: String)
    ensures
        name@ == spec_screenshot_file_name(stamp@, id@),
{
    let mut v = chars_of("screenshot_");
    extend_chars(&mut v, chars_of(stamp).as_slice());
    extend_chars(&mut v, chars_of("_").as_slice());
    extend_chars(&mut v, chars_of(id).as_slice());
    extend_chars(&mut v, chars_of(".png").as_slice());
    string_from_chars(v.as_slice())
}

/// The record of a fresh screenshot: the window is not known yet, and there is neither a
/// description nor a hash.
pub fn screenshot_record(id: String, timestamp: String, image_path: String) -> (record: CaptureRecord)
    ensures
        record.id == id,
        record.timestamp == timestamp,
        record.app@ == "unknown"@,
        record.window_title@ == "unknown"@,
        record.image_path == Some(image_path),
        record.description is None,
        record.dhash is None,
{
    CaptureRecord {
        id,
        timestamp,
        app: "unknown".to_owned(),
        window_title: "unknown".to_owned(),
        image_path: Some(image_path),
        description: None,
        dhash: None,
    }
}

impl CaptureStats {
    /// Counts a screenshot that was kept.
    pub fn record_effective(&mut self, timestamp: String)
        requires
            old(self).total_captures < u64::MAX,
            old(self).effective_captures < u64::MAX,
        ensures
            final(self).total_captures == old(self).total_captures + 1,
            final(self).effective_captures == old(self).effective_captures + 1,
            final(self).skipped_captures == old(self).skipped_captures,
            final(self).last_capture_at == Some(timestamp),
    {
        self.total_captures = self.total_captures + 1;
        self.effective_captures = self.effective_captures + 1;
        self.last_capture_at = Some(timestamp);
    }

    /// Counts a screenshot that was dropped as unchanged.
    pub fn record_skipped(&mut self, timestamp: String)
        requires
            old(self).total_captures < u64::MAX,
            old(self).skipped_captures < u64::MAX,
        ensures
            final(self).total_captures == old(self).total_captures + 1,
            final(self).skipped_captures == old(self).skipped_captures + 1,
            final(self).effective_captures == old(self).effective_captures,
            final(self).last_capture_at == Some(timestamp),
    {
        self.total_captures = self.total_captures + 1;
        self.skipped_captures = self.skipped_captures + 1;
        self.last_capture_at = Some(timestamp);
    }
}

/// Every screenshot counted is either kept or dropped: counting keeps the total equal to
/// the kept plus the dropped ones.
pub proof fn lemma_counts_balance(before: CaptureStats, after: CaptureStats, kept: bool)
    requires
        before.total_captures == before.effective_captures + before.skipped_captures,
        kept ==> after.total_captures == before.total_captures + 1 && after.effective_captures
            == before.effective_captures + 1 && after.skipped_captures == before.skipped_captures,
        !kept ==> after.total_captures == before.total_captures + 1 && after.skipped_captures
            == before.skipped_captures + 1 && after.effective_captures == before.effective_captures,
    ensures
        after.total_captures == after.effective_captures + after.skipped_captures,
{
}

} // verus!
