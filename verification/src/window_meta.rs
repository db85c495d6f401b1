//! Which window the user is working in.
use vstd::prelude::*;

verus! {

/// The foreground window and the process that owns it.
#[derive(Debug, Clone, Default, PartialEq, Eq)]
pub struct WindowMetadata {
    pub window_title: String,
    pub process_name: String,
    pub process_id: u32,
}

/// The label used when a title or a process name cannot be read.
pub open spec fn spec_unknown_label() -> Seq<char> {
    "Unknown"@
}

impl WindowMetadata {
    /// Metadata for a window about which nothing could be read.
    pub fn unknown(process_id: u32) -> (metadata: Self)
        ensures
            metadata.window_title@ == spec_unknown_label(),
            metadata.process_name@ == spec_unknown_label(),
            metadata.process_id == process_id,
    {
        WindowMetadata {
            window_title: "Unknown".to_owned(),
            process_name: "Unknown".to_owned(),
            process_id,
        }
    }
}

/// Why the foreground window could not be described.
#[derive(Debug, Clone, PartialEq, Eq)]
pub enum WindowMetaError {
    NoActiveWindow,
    UnsupportedPlatform,
    /// A Windows API call failed with this `HRESULT`.
    Windows(i32),
}

impl WindowMetaError {
    /// The message shown for the error.
    pub fn message(&self) -> (text: String)
        ensures
            self matches WindowMetaError::NoActiveWindow ==> text@ == "no active window is available"@,
            self matches WindowMetaError::UnsupportedPlatform ==> text@
                == "window metadata is not supported on this platform"@,
            self matches WindowMetaError::Windows(_) ==> text@ == "windows api call failed"@,
    {
        match self {
            WindowMetaError::NoActiveWindow => "no active window is available".to_owned(),
            WindowMetaError::UnsupportedPlatform => "window metadata is not supported on this platform".to_owned(),
            WindowMetaError::Windows(_) => "windows api call failed".to_owned(),
        }
    }
}

/// The text that `String::from_utf16_lossy` decodes from UTF-16 code units (unpaired
/// surrogates become U+FFFD).
pub uninterp spec fn spec_utf16_lossy(units: Seq<u16>) -> Seq<char>;

/// `String::from_utf16_lossy`.  The contract names the text, which the units alone decide.
#[verifier::external_body]
fn utf16_lossy(units: &[u16]) -> (text: String)
    ensures
        text@ == spec_utf16_lossy(units@),
{
    String::from_utf16_lossy(units)
}

/// A label read from a buffer that the platform filled with `len` UTF-16 units: the decoded
/// units, or "Unknown" when the platform wrote none.
pub fn label_from_utf16(buffer: &[u16], len: i32) -> (label: String)
    requires
        len <= buffer@.len(),
    ensures
        len > 0 ==> label@ == spec_utf16_lossy(buffer@.take(len as int)),
        len <= 0 ==> label@ == spec_unknown_label(),
{
    if len > 0 {
        let n = len as usize;
        let mut units: Vec<u16> = Vec::new();
        let mut i: usize = 0;
        while i < n
            invariant
                n <= buffer@.len(),
                i <= n,
                units@ == buffer@.take(i as int),
            decreases n - i,
        {
            units.push(buffer[i]);
            i = i + 1;
            assert(units@ =~= buffer@.take(i as int));
        }
        utf16_lossy(units.as_slice())
    } else {
        "Unknown".to_owned()
    }
}

/// Describes a window from what the operating system returned: a title or process name that
/// could not be read (or was empty) is reported as "Unknown".
pub fn window_metadata_from_parts(
    window_title: Option<String>,
    process_name: Option<String>,
    process_id: u32,
) -> (metadata: WindowMetadata)
    ensures
        metadata.window_title@ == (match window_title {
            Some(t) => if t@.len() > 0 {
                t@
            } else {
                spec_unknown_label()
            },
            None => spec_unknown_label(),
        }),
        metadata.process_name@ == (match process_name {
            Some(p) => p@,
            None => spec_unknown_label(),
        }),
        metadata.process_id == process_id,
{
    let window_title = match window_title {
        Some(t) => if t.as_str().is_empty() {
            "Unknown".to_owned()
        } else {
            t
        },
        None => "Unknown".to_owned(),
    };
    let process_name = match process_name {
        Some(p) => p,
        None => "Unknown".to_owned(),
    };
    WindowMetadata { window_title, process_name, process_id }
}

/// The foreground window as this library can see it: it holds no platform code, so this
/// is the answer of a build without a window API, always `UnsupportedPlatform`.  On
/// Windows the application queries the foreground window through the platform API itself
/// and describes what it finds with `window_metadata_from_parts`.
pub fn get_active_window_metadata() -> (result: Result<WindowMetadata, WindowMetaError>)
    ensures
        result == Err::<WindowMetadata, WindowMetaError>(WindowMetaError::UnsupportedPlatform),
{
    Err(WindowMetaError::UnsupportedPlatform)
}

} // verus!
