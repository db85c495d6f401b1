//! Checks and transformations applied to captures before they are written out as CSV.
use crate::db::{CaptureAppGroup, StoredCaptureRecord};
use crate::models::{strings_view, MaskRule};
use crate::text::{
    ascii_lowercase, chars_of, lower_text, contains_chars, extend_chars, replace_all, replace_all_chars,
    spec_contains, spec_trim, str_trim, string_from_chars,
};
use vstd::prelude::*;

verus! {

/// Which captures to export, and whether to mask them.
#[derive(Debug, Clone, Default, PartialEq, Eq)]
pub struct ExportFilter {
    pub start_date: Option<String>,
    pub end_date: Option<String>,
    pub apps: Option<Vec<String>>,
    pub only_processed: bool,
    pub apply_masking: bool,
}

/// How many captures an export would write.
#[derive(Debug, Clone, PartialEq, Eq)]
pub struct ExportPreview {
    pub count: usize,
}

/// What an export wrote, and where.
#[derive(Debug, Clone, PartialEq, Eq)]
pub struct ExportResult {
    pub count: usize,
    pub path: String,
}

/// The choices offered before an export.
#[derive(Debug, Clone, PartialEq, Eq)]
pub struct ExportOptions {
    pub apps: Vec<CaptureAppGroup>,
}

/// Why an export failed.
#[derive(Debug, Clone, PartialEq, Eq)]
pub enum ExportError {
    InvalidDate,
    Db(String),
    UnsafeDescription { capture_id: String },
    InvalidMaskRule { pattern: String, reason: String },
    Io(String),
    Csv(String),
    InvalidSavePath,
}

/// The message shown for each export error.
pub open spec fn spec_export_message(e: ExportError) -> Seq<char> {
    match e {
        ExportError::InvalidDate => "date must use YYYY-MM-DD format"@,
        ExportError::Db(_) => "failed to read export data"@,
        ExportError::UnsafeDescription { capture_id } => "capture "@ + capture_id@
            + " contains unsupported binary-like data in description"@,
        ExportError::InvalidMaskRule { pattern, reason } => "mask rule pattern is invalid: "@
            + pattern@ + " ("@ + reason@ + ")"@,
        ExportError::Io(_) => "failed to create export file"@,
        ExportError::Csv(_) => "failed to write CSV file"@,
        ExportError::InvalidSavePath => "save dialog returned a non-filesystem path"@,
    }
}

impl ExportError {
    /// The message shown for the error.
    pub fn message(&self) -> (text: String)
        ensures
            text@ == spec_export_message(*self),
    {
        match self {
            ExportError::InvalidDate => "date must use YYYY-MM-DD format".to_owned(),
            ExportError::Db(_) => "failed to read export data".to_owned(),
            ExportError::UnsafeDescription { capture_id } => {
                let mut v = chars_of("capture ");
                let id = chars_of(capture_id.as_str());
                extend_chars(&mut v, id.as_slice());
                let tail = chars_of(" contains unsupported binary-like data in description");
                extend_chars(&mut v, tail.as_slice());
                string_from_chars(v.as_slice())
            },
            ExportError::InvalidMaskRule { pattern, reason } => {
                let mut v = chars_of("mask rule pattern is invalid: ");
                let p = chars_of(pattern.as_str());
                extend_chars(&mut v, p.as_slice());
                let open = chars_of(" (");
                extend_chars(&mut v, open.as_slice());
                let r = chars_of(reason.as_str());
                extend_chars(&mut v, r.as_slice());
                let close = chars_of(")");
                extend_chars(&mut v, close.as_slice());
                string_from_chars(v.as_slice())
            },
            ExportError::Io(_) => "failed to create export file".to_owned(),
            ExportError::Csv(_) => "failed to write CSV file".to_owned(),
            ExportError::InvalidSavePath => "save dialog returned a non-filesystem path".to_owned(),
        }
    }
}

// ---------------------------------------------------------------------------
// Dates
// ---------------------------------------------------------------------------
/// Whether `NaiveDate::parse_from_str(s, "%Y-%m-%d")` accepts `s`.
pub uninterp spec fn spec_is_iso_date(s: Seq<char>) -> bool;

/// `chrono::NaiveDate::parse_from_str` with the format `%Y-%m-%d`; the contract names
/// whether it succeeds.
#[verifier::external_body]
pub(crate) fn is_iso_date(s: &str) -> (ok: bool)
    ensures
        ok == spec_is_iso_date(s@),
{
    chrono::NaiveDate::parse_from_str(s, "%Y-%m-%d").is_ok()
}

/// Both bounds of a filter, where given, are dates in `YYYY-MM-DD` form.
pub open spec fn spec_filter_dates_valid(filter: ExportFilter) -> bool {
    &&& (filter.start_date matches Some(d) ==> spec_is_iso_date(d@))
    &&& (filter.end_date matches Some(d) ==> spec_is_iso_date(d@))
}

/// Rejects a filter whose dates are not in `YYYY-MM-DD` form.
pub fn validate_filter(filter: &ExportFilter) -> (result: Result<(), ExportError>)
    ensures
        result is Ok <==> spec_filter_dates_valid(*filter),
        result matches Err(e) ==> e == ExportError::InvalidDate,
{
    match &filter.start_date {
        Some(d) => {
            if !is_iso_date(d.as_str()) {
                return Err(ExportError::InvalidDate);
            }
        },
        None => {},
    }
    match &filter.end_date {
        Some(d) => {
            if !is_iso_date(d.as_str()) {
                return Err(ExportError::InvalidDate);
            }
        },
        None => {},
    }
    Ok(())
}

// ---------------------------------------------------------------------------
// Binary-looking payloads
// ---------------------------------------------------------------------------
/// Characters that can make up base64 text.
pub open spec fn is_base64ish(c: char) -> bool {
    ('a' <= c && c <= 'z') || ('A' <= c && c <= 'Z') || ('0' <= c && c <= '9') || c == '+' || c
        == '/' || c == '=' || c == '-'
}

/// The length of the run of base64-like characters that ends just before position `i`.
pub open spec fn run_before(t: Seq<char>, i: int) -> nat
    decreases i,
{
    if i <= 0 {
        0
    } else if is_base64ish(t[i - 1]) {
        run_before(t, i - 1) + 1
    } else {
        0
    }
}

/// The length of a base64-like run that marks text as an embedded payload.
pub const BASE64_RUN_LIMIT: usize = 256;

/// Text that looks like an embedded image or other encoded data: it mentions a data URL
/// or base64 marker (in any ASCII case), or holds at least 256 base64-like characters in a
/// row.
pub open spec fn spec_binary_like(t: Seq<char>) -> bool {
    let lower = lower_text(t);
    spec_contains(lower, "data:image"@) || spec_contains(lower, "base64,"@) || exists|i: int|
        0 <= i <= t.len() && run_before(t, i) >= BASE64_RUN_LIMIT
}

/// A run of `k` base64-like characters ending before `i` is exactly a window of `k`
/// base64-like characters there.
pub proof fn lemma_run_before_window(t: Seq<char>, i: int, k: nat)
    requires
        0 <= k <= i <= t.len(),
    ensures
        run_before(t, i) >= k <==> forall|j: int| i - k <= j < i ==> is_base64ish(#[trigger] t[j]),
    decreases k,
{
    if k > 0 {
        lemma_run_before_window(t, i - 1, (k - 1) as nat);
    }
}

fn is_base64ish_char(c: char) -> (r: bool)
    ensures
        r == is_base64ish(c),
{
    ('a' <= c && c <= 'z') || ('A' <= c && c <= 'Z') || ('0' <= c && c <= '9') || c == '+' || c
        == '/' || c == '=' || c == '-'
}

/// Whether a text looks like an embedded payload rather than prose.
pub fn contains_binary_like_payload(text: &str) -> (found: bool)
    ensures
        found == spec_binary_like(text@),
{
    let chars = chars_of(text);
    let lower = ascii_lowercase(chars.as_slice());
    let data_image = chars_of("data:image");
    let base64_marker = chars_of("base64,");
    if contains_chars(lower.as_slice(), data_image.as_slice()) || contains_chars(
        lower.as_slice(),
        base64_marker.as_slice(),
    ) {
        return true;
    }
    let ghost t = text@;
    let n = chars.len();
    let mut run: usize = 0;
    let mut i: usize = 0;
    while i < n
        invariant
            chars@ == t,
            t == text@,
            !spec_contains(lower_text(t), "data:image"@),
            !spec_contains(lower_text(t), "base64,"@),
            n == t.len(),
            i <= n,
            run == run_before(t, i as int),
            forall|j: int| 0 <= j <= i ==> run_before(t, j) < BASE64_RUN_LIMIT,
        decreases n - i,
    {
        if is_base64ish_char(chars[i]) {
            run = run + 1;
            if run >= BASE64_RUN_LIMIT {
                assert(run_before(t, i + 1) >= BASE64_RUN_LIMIT);
                return true;
            }
        } else {
            run = 0;
        }
        i = i + 1;
    }
    false
}

/// Whether an exported text is refused: it is not blank once trimmed, and the trimmed text
/// looks like an embedded payload.
pub open spec fn spec_text_refused(text: Seq<char>) -> bool {
    spec_trim(text).len() > 0 && spec_binary_like(spec_trim(text))
}

/// Refuses a text that looks like an embedded payload, naming the capture it came from.
pub fn validate_text_for_export(capture_id: &str, text: &str) -> (result: Result<(), ExportError>)
    ensures
        result is Err <==> spec_text_refused(text@),
        result matches Err(e) ==> e matches ExportError::UnsafeDescription { capture_id: id }
            && id@ == capture_id@,
{
    let trimmed = str_trim(text);
    if trimmed.is_empty() {
        return Ok(());
    }
    if contains_binary_like_payload(trimmed) {
        return Err(ExportError::UnsafeDescription { capture_id: capture_id.to_owned() });
    }
    Ok(())
}

// ---------------------------------------------------------------------------
// Masking
// ---------------------------------------------------------------------------
/// What `Regex::new(pattern)` followed by `replace_all(text, replacement)` gives: the new
/// text, or the compile error's message.
pub uninterp spec fn spec_regex_replace_all(
    pattern: Seq<char>,
    text: Seq<char>,
    replacement: Seq<char>,
) -> Result<Seq<char>, Seq<char>>;

/// `regex::Regex::new` and `Regex::replace_all`: compiles the pattern and replaces every
/// match.  The contract names the result, which the regex crate alone decides.
#[verifier::external_body]
pub(crate) fn regex_replace_all(pattern: &str, text: &str, replacement: &str) -> (result: Result<
    String,
    String,
>)
    ensures
        match result {
            Ok(s) => spec_regex_replace_all(pattern@, text@, replacement@) == Ok::<
                Seq<char>,
                Seq<char>,
            >(s@),
            Err(e) => spec_regex_replace_all(pattern@, text@, replacement@) == Err::<
                Seq<char>,
                Seq<char>,
            >(e@),
        },
{
    match regex::Regex::new(pattern) {
        Ok(re) => Ok(re.replace_all(text, replacement).into_owned()),
        Err(error) => Err(error.to_string()),
    }
}

/// The text that a rule puts in place of what it matches.
pub open spec fn mask_replacement(rule: MaskRule) -> Seq<char> {
    if rule.replacement@.len() == 0 {
        "[MASKED]"@
    } else {
        rule.replacement@
    }
}

/// One rule applied to a text: blank patterns do nothing; a regular expression replaces
/// its matches (or fails with the pattern and the reason); a literal pattern replaces its
/// occurrences.
pub open spec fn spec_apply_rule(text: Seq<char>, rule: MaskRule) -> Result<
    Seq<char>,
    (Seq<char>, Seq<char>),
> {
    let pattern = spec_trim(rule.pattern@);
    if pattern.len() == 0 {
        Ok(text)
    } else if rule.is_regex {
        match spec_regex_replace_all(pattern, text, mask_replacement(rule)) {
            Ok(t) => Ok(t),
            Err(reason) => Err((pattern, reason)),
        }
    } else {
        Ok(replace_all(text, pattern, mask_replacement(rule)))
    }
}

/// The rules applied in order; the first failing rule stops the masking.
pub open spec fn spec_mask_rules(text: Seq<char>, rules: Seq<MaskRule>) -> Result<
    Seq<char>,
    (Seq<char>, Seq<char>),
>
    decreases rules.len(),
{
    if rules.len() == 0 {
        Ok(text)
    } else {
        match spec_mask_rules(text, rules.drop_last()) {
            Ok(t) => spec_apply_rule(t, rules.last()),
            Err(e) => Err(e),
        }
    }
}

/// Applying no rules leaves the text as it is.
pub proof fn lemma_no_rules_no_change(text: Seq<char>)
    ensures
        spec_mask_rules(text, Seq::empty()) == Ok::<Seq<char>, (Seq<char>, Seq<char>)>(text),
{
}

/// Applies the mask rules to a text.
pub fn apply_mask_rules(text: &str, mask_rules: &[MaskRule]) -> (result: Result<
    String,
    ExportError,
>)
    ensures
        match spec_mask_rules(text@, mask_rules@) {
            Ok(t) => result matches Ok(s) && s@ == t,
            Err((p, r)) => result matches Err(ExportError::InvalidMaskRule { pattern, reason })
                && pattern@ == p && reason@ == r,
        },
{
    let mut masked: String = text.to_owned();
    let mut i: usize = 0;
    while i < mask_rules.len()
        invariant
            i <= mask_rules@.len(),
            spec_mask_rules(text@, mask_rules@.take(i as int)) == Ok::<
                Seq<char>,
                (Seq<char>, Seq<char>),
            >(masked@),
        decreases mask_rules@.len() - i,
    {
        let rule = &mask_rules[i];
        proof {
            assert(mask_rules@.take(i + 1).drop_last() =~= mask_rules@.take(i as int));
            assert(mask_rules@.take(i + 1).last() == *rule);
        }
        let pattern = str_trim(rule.pattern.as_str());
        if !pattern.is_empty() {
            let replacement: &str = if rule.replacement.as_str().is_empty() {
                "[MASKED]"
            } else {
                rule.replacement.as_str()
            };
            assert(replacement@ == mask_replacement(*rule));
            if rule.is_regex {
                match regex_replace_all(pattern, masked.as_str(), replacement) {
                    Ok(next) => {
                        masked = next;
                    },
                    Err(reason) => {
                        proof {
                            lemma_mask_error_persists(text@, mask_rules@, i as int + 1);
                            assert(mask_rules@.take(mask_rules@.len() as int) =~= mask_rules@);
                        }
                        return Err(
                            ExportError::InvalidMaskRule { pattern: pattern.to_owned(), reason },
                        );
                    },
                }
            } else {
                let t = chars_of(masked.as_str());
                let p = chars_of(pattern);
                let r = chars_of(replacement);
                let next = replace_all_chars(t.as_slice(), p.as_slice(), r.as_slice());
                masked = string_from_chars(next.as_slice());
            }
        }
        i = i + 1;
    }
    assert(mask_rules@.take(mask_rules@.len() as int) =~= mask_rules@);
    Ok(masked)
}

proof fn lemma_mask_error_persists(text: Seq<char>, rules: Seq<MaskRule>, k: int)
    requires
        0 <= k <= rules.len(),
        spec_mask_rules(text, rules.take(k)) is Err,
    ensures
        spec_mask_rules(text, rules) == spec_mask_rules(text, rules.take(k)),
    decreases rules.len() - k,
{
    if k < rules.len() {
        assert(rules.take(k + 1).drop_last() =~= rules.take(k));
        lemma_mask_error_persists(text, rules, k + 1);
    } else {
        assert(rules.take(k) =~= rules);
    }
}

// ---------------------------------------------------------------------------
// Rows
// ---------------------------------------------------------------------------
/// The header line of an export.
pub open spec fn spec_csv_header() -> Seq<Seq<char>> {
    seq!["timestamp"@, "app"@, "window_title"@, "description"@]
}

/// The header of an export file.
pub fn csv_header() -> (header: Vec<String>)
    ensures
        header@.map_values(|s: String| s@) == spec_csv_header(),
{
    let mut header: Vec<String> = Vec::new();
    header.push("timestamp".to_owned());
    header.push("app".to_owned());
    header.push("window_title".to_owned());
    header.push("description".to_owned());
    assert(header@.map_values(|s: String| s@) =~= spec_csv_header());
    header
}

/// Why a capture cannot be exported: a mask rule that fails (with its pattern and the
/// reason), or a title or description that looks like an embedded payload.
pub ghost enum RowRefusal {
    Mask(Seq<char>, Seq<char>),
    Unsafe,
}

/// The row written for a capture: its timestamp and application, then its masked window
/// title and masked description (blank when it has none).  Masking failures come first,
/// title before description; then a title or description that looks like an embedded
/// payload is refused.
pub open spec fn spec_export_row(record: StoredCaptureRecord, rules: Seq<MaskRule>) -> Result<
    Seq<Seq<char>>,
    RowRefusal,
> {
    let description = match record.description {
        Some(d) => d@,
        None => Seq::empty(),
    };
    match spec_mask_rules(record.window_title@, rules) {
        Err((p, r)) => Err(RowRefusal::Mask(p, r)),
        Ok(title) => match spec_mask_rules(description, rules) {
            Err((p, r)) => Err(RowRefusal::Mask(p, r)),
            Ok(desc) => if spec_text_refused(title) || spec_text_refused(desc) {
                Err(RowRefusal::Unsafe)
            } else {
                Ok(seq![record.timestamp@, record.app@, title, desc])
            },
        },
    }
}

/// The error that reports a refusal of the capture with id `id`.
pub open spec fn reports_refusal(e: ExportError, refusal: RowRefusal, id: Seq<char>) -> bool {
    match refusal {
        RowRefusal::Mask(p, r) => e matches ExportError::InvalidMaskRule { pattern, reason }
            && pattern@ == p && reason@ == r,
        RowRefusal::Unsafe => e matches ExportError::UnsafeDescription { capture_id }
            && capture_id@ == id,
    }
}

/// Prepares the row that an export writes for one capture.
pub fn export_row(record: &StoredCaptureRecord, mask_rules: &[MaskRule]) -> (row: Result<
    Vec<String>,
    ExportError,
>)
    ensures
        match spec_export_row(*record, mask_rules@) {
            Ok(fields) => row matches Ok(r) && strings_view(r@) == fields,
            Err(refusal) => row matches Err(e) && reports_refusal(e, refusal, record.id@),
        },
{
    let window_title = match apply_mask_rules(record.window_title.as_str(), mask_rules) {
        Ok(t) => t,
        Err(e) => return Err(e),
    };
    let empty = String::new();
    let description_source: &str = match &record.description {
        Some(d) => d.as_str(),
        None => empty.as_str(),
    };
    let description = match apply_mask_rules(description_source, mask_rules) {
        Ok(d) => d,
        Err(e) => return Err(e),
    };
    match validate_text_for_export(record.id.as_str(), window_title.as_str()) {
        Ok(()) => {},
        Err(e) => return Err(e),
    }
    match validate_text_for_export(record.id.as_str(), description.as_str()) {
        Ok(()) => {},
        Err(e) => return Err(e),
    }
    let mut row: Vec<String> = Vec::new();
    row.push(record.timestamp.clone());
    row.push(record.app.clone());
    let ghost t = window_title@;
    let ghost d = description@;
    row.push(window_title);
    row.push(description);
    assert(strings_view(row@) =~= seq![record.timestamp@, record.app@, t, d]);
    Ok(row)
}

/// The byte order mark that starts an export file, so that spreadsheet programs read it
/// as UTF-8.
pub fn csv_bom() -> (bom: Vec<u8>)
    ensures
        bom@ == seq![0xEFu8, 0xBBu8, 0xBFu8],
{
    let mut bom: Vec<u8> = Vec::new();
    bom.push(0xEF);
    bom.push(0xBB);
    bom.push(0xBF);
    assert(bom@ =~= seq![0xEFu8, 0xBBu8, 0xBFu8]);
    bom
}

/// The rows of an export, one per capture and in order, or the error of the first capture
/// that cannot be written.
pub fn export_rows(records: &[StoredCaptureRecord], mask_rules: &[MaskRule]) -> (rows: Result<
    Vec<Vec<String>>,
    ExportError,
>)
    ensures
        rows is Ok <==> forall|i: int|
            0 <= i < records@.len() ==> #[trigger] spec_export_row(records@[i], mask_rules@) is Ok,
        rows matches Ok(r) ==> r@.len() == records@.len() && forall|i: int|
            0 <= i < records@.len() ==> spec_export_row(records@[i], mask_rules@) == Ok::<
                Seq<Seq<char>>,
                RowRefusal,
            >(strings_view(#[trigger] r@[i]@)),
        rows matches Err(e) ==> exists|k: int|
            #![trigger records@[k]]
            0 <= k < records@.len() && (forall|i: int|
                0 <= i < k ==> #[trigger] spec_export_row(records@[i], mask_rules@) is Ok)
                && (spec_export_row(records@[k], mask_rules@) matches Err(refusal)
                && reports_refusal(e, refusal, records@[k].id@)),
{
    let mut out: Vec<Vec<String>> = Vec::new();
    let mut i: usize = 0;
    while i < records.len()
        invariant
            i <= records@.len(),
            out@.len() == i,
            forall|j: int|
                0 <= j < i ==> spec_export_row(records@[j], mask_rules@) == Ok::<
                    Seq<Seq<char>>,
                    RowRefusal,
                >(strings_view(#[trigger] out@[j]@)),
        decreases records@.len() - i,
    {
        match export_row(&records[i], mask_rules) {
            Ok(row) => {
                out.push(row);
            },
            Err(e) => {
                assert forall|j: int| 0 <= j < i implies #[trigger] spec_export_row(
                    records@[j],
                    mask_rules@,
                ) is Ok by {
                    assert(spec_export_row(records@[j], mask_rules@) == Ok::<
                        Seq<Seq<char>>,
                        RowRefusal,
                    >(strings_view(out@[j]@)));
                }
                return Err(e);
            },
        }
        i = i + 1;
    }
    assert forall|j: int| 0 <= j < records@.len() implies #[trigger] spec_export_row(
        records@[j],
        mask_rules@,
    ) is Ok by {
        assert(spec_export_row(records@[j], mask_rules@) == Ok::<Seq<Seq<char>>, RowRefusal>(
            strings_view(out@[j]@),
        ));
    }
    Ok(out)
}

/// The mask rules an export applies: the configured ones when masking is asked for, and
/// none otherwise.
pub fn export_mask_rules(apply_masking: bool, configured: Vec<MaskRule>) -> (rules: Vec<MaskRule>)
    ensures
        apply_masking ==> rules == configured,
        !apply_masking ==> rules@.len() == 0,
{
    if apply_masking {
        configured
    } else {
        Vec::new()
    }
}

/// `kiroku_export_<date>.csv`, the name the save dialog proposes (the date as `%Y%m%d`).
pub fn export_file_name(date_stamp: &str) -> (name: String)
    ensures
        name@ == "kiroku_export_"@ + date_stamp@ + ".csv"@,
{
    let mut v = chars_of("kiroku_export_");
    extend_chars(&mut v, chars_of(date_stamp).as_slice());
    extend_chars(&mut v, chars_of(".csv").as_slice());
    string_from_chars(v.as_slice())
}

/// The bytes that a `csv::Writer` with its default settings writes for one record.
pub uninterp spec fn spec_csv_record(fields: Seq<Seq<char>>) -> Seq<u8>;

/// `csv::Writer::from_writer` into memory, `write_record` of one record, then
/// `into_inner`.  The contract names the bytes, which the fields alone decide, and says
/// that they are always written: the writer fails only on a record whose length differs
/// from an earlier record's (there is none) or when its output fails (memory does not).
#[verifier::external_body]
fn csv_record(fields: &[String]) -> (bytes: Result<Vec<u8>, String>)
    ensures
        bytes is Ok,
        bytes matches Ok(b) ==> b@ == spec_csv_record(strings_view(fields@)),
{
    let mut writer = csv::Writer::from_writer(Vec::new());
    writer.write_record(fields).map_err(|error| error.to_string())?;
    writer.into_inner().map_err(|error| error.to_string())
}

/// The records of some rows, one after the other.  The csv writer keeps nothing from one
/// record to the next but the length of the first, so a table of rows of one length is
/// written as its records in turn.
pub open spec fn spec_csv_records(rows: Seq<Seq<Seq<char>>>) -> Seq<u8>
    decreases rows.len(),
{
    if rows.len() == 0 {
        Seq::empty()
    } else {
        spec_csv_records(rows.drop_last()) + spec_csv_record(rows.last())
    }
}

/// The texts of each row.
pub open spec fn rows_view(rows: Seq<Vec<String>>) -> Seq<Seq<Seq<char>>> {
    rows.map_values(|r: Vec<String>| strings_view(r@))
}

/// An export file: the UTF-8 byte order mark, the header record, then one record per row.
pub open spec fn spec_csv_file(rows: Seq<Seq<Seq<char>>>) -> Seq<u8> {
    seq![0xEFu8, 0xBBu8, 0xBFu8] + spec_csv_record(spec_csv_header()) + spec_csv_records(rows)
}

/// The bytes of an export file holding the given rows.
pub fn csv_file_bytes(rows: &[Vec<String>]) -> (bytes: Vec<u8>)
    ensures
        bytes@ == spec_csv_file(rows_view(rows@)),
{
    let mut bytes = csv_bom();
    let header = csv_header();
    let mut head = csv_record(header.as_slice()).unwrap();
    assert(strings_view(header@) == spec_csv_header());
    bytes.append(&mut head);
    let ghost start = bytes@;
    let mut i: usize = 0;
    while i < rows.len()
        invariant
            i <= rows@.len(),
            start == seq![0xEFu8, 0xBBu8, 0xBFu8] + spec_csv_record(spec_csv_header()),
            bytes@ == start + spec_csv_records(rows_view(rows@).take(i as int)),
        decreases rows@.len() - i,
    {
        let mut record = csv_record(rows[i].as_slice()).unwrap();
        proof {
            let v = rows_view(rows@);
            assert(v.take(i + 1).drop_last() =~= v.take(i as int));
            assert(v.take(i + 1).last() == strings_view(rows@[i as int]@));
        }
        bytes.append(&mut record);
        assert(bytes@ =~= start + spec_csv_records(rows_view(rows@).take(i + 1)));
        i = i + 1;
    }
    assert(rows_view(rows@).take(rows@.len() as int) =~= rows_view(rows@));
    bytes
}

/// The export file for some captures: one row per capture, in order, masked by the rules;
/// the file and the number of captures in it, or the error of the first capture that
/// cannot be written.
pub fn export_csv_file(records: &[StoredCaptureRecord], mask_rules: &[MaskRule]) -> (file: Result<
    (Vec<u8>, usize),
    ExportError,
>)
    ensures
        file is Ok <==> forall|i: int|
            0 <= i < records@.len() ==> #[trigger] spec_export_row(records@[i], mask_rules@) is Ok,
        file matches Ok((bytes, count)) ==> count == records@.len() && exists|rows: Seq<
            Seq<Seq<char>>,
        >|
            rows.len() == records@.len() && (forall|i: int|
                0 <= i < records@.len() ==> spec_export_row(records@[i], mask_rules@) == Ok::<
                    Seq<Seq<char>>,
                    RowRefusal,
                >(#[trigger] rows[i])) && bytes@ == spec_csv_file(rows),
        file matches Err(e) ==> exists|k: int|
            #![trigger records@[k]]
            0 <= k < records@.len() && (forall|i: int|
                0 <= i < k ==> #[trigger] spec_export_row(records@[i], mask_rules@) is Ok)
                && (spec_export_row(records@[k], mask_rules@) matches Err(refusal)
                && reports_refusal(e, refusal, records@[k].id@)),
{
    let rows = export_rows(records, mask_rules)?;
    let bytes = csv_file_bytes(rows.as_slice());
    let count = rows.len();
    proof {
        let v = rows_view(rows@);
        assert forall|i: int| 0 <= i < records@.len() implies spec_export_row(
            records@[i],
            mask_rules@,
        ) == Ok::<Seq<Seq<char>>, RowRefusal>(#[trigger] v[i]) by {
            assert(spec_export_row(records@[i], mask_rules@) == Ok::<Seq<Seq<char>>, RowRefusal>(
                strings_view(rows@[i]@),
            ));
        }
    }
    Ok((bytes, count))
}

} // verus!
