//! Decisions taken while asking the server to describe a screenshot.
use crate::models::opt_view;
use crate::text::{chars_of, extend_chars, spec_trim, str_trim, string_from_chars};
use crate::vlm::server::VlmError;
use vstd::prelude::*;

verus! {

/// The largest image width sent to the server.
pub const MAX_IMAGE_WIDTH: u32 = 1280;

/// The largest image height sent to the server.
pub const MAX_IMAGE_HEIGHT: u32 = 720;

/// How many times a request is tried.
pub const MAX_RETRIES: usize = 3;

/// The pause before the first retry, in milliseconds.
pub const INITIAL_BACKOFF_MS: u64 = 500;

/// The seconds a description request may take.
pub const REQUEST_TIMEOUT_SECS: u64 = 60;

/// The instructions sent with every screenshot.
pub const SYSTEM_PROMPT: &'static str = "あなたは業務PC画面の分析アシスタントです。スクリーンショットを見て、実行中の業務と操作内容を日本語で簡潔に記述してください。アプリケーション名、操作内容、表示データの種類を含めてください。";

/// The request sent with every screenshot.
pub const USER_PROMPT: &'static str = "この画面スクリーンショットに写っている業務操作を説明してください。1-3文で簡潔に記述してください。";

/// The character of the standard base64 alphabet for a six-bit value: `A`-`Z`, `a`-`z`,
/// `0`-`9`, `+` and `/`.
pub open spec fn base64_digit(v: int) -> char {
    if v < 26 {
        ('A' as int + v) as char
    } else if v < 52 {
        ('a' as int + (v - 26)) as char
    } else if v < 62 {
        ('0' as int + (v - 52)) as char
    } else if v == 62 {
        '+'
    } else {
        '/'
    }
}

/// The standard base64 text (RFC 4648, with padding) of some bytes: each group of three
/// bytes becomes four characters of six bits each, and a last group of one or two bytes
/// is filled with zero bits and padded with `=` to four characters.
pub open spec fn spec_base64_standard(bytes: Seq<u8>) -> Seq<char>
    decreases bytes.len(),
{
    if bytes.len() == 0 {
        Seq::empty()
    } else if bytes.len() == 1 {
        let a = bytes[0] as int;
        seq![base64_digit(a / 4), base64_digit((a % 4) * 16), '=', '=']
    } else if bytes.len() == 2 {
        let a = bytes[0] as int;
        let b = bytes[1] as int;
        seq![base64_digit(a / 4), base64_digit((a % 4) * 16 + b / 16), base64_digit((b % 16) * 4), '=']
    } else {
        let a = bytes[0] as int;
        let b = bytes[1] as int;
        let c = bytes[2] as int;
        seq![
            base64_digit(a / 4),
            base64_digit((a % 4) * 16 + b / 16),
            base64_digit((b % 16) * 4 + c / 64),
            base64_digit(c % 64),
        ] + spec_base64_standard(bytes.subrange(3, bytes.len() as int))
    }
}

/// `base64::engine::general_purpose::STANDARD.encode`: the standard alphabet with padding,
/// as the crate documents it.
#[verifier::external_body]
fn base64_standard(bytes: &[u8]) -> (text: String)
    ensures
        text@ == spec_base64_standard(bytes@),
{
    base64::Engine::encode(&base64::engine::general_purpose::STANDARD, bytes)
}

/// The data URL under which a PNG screenshot is sent.
pub fn image_data_url(png: &[u8]) -> (url: String)
    ensures
        url@ == "data:image/png;base64,"@ + spec_base64_standard(png@),
{
    let mut v = chars_of("data:image/png;base64,");
    extend_chars(&mut v, chars_of(base64_standard(png).as_str()).as_slice());
    string_from_chars(v.as_slice())
}

/// What `serde_json` reads at `choices[0].message.content` of a response body: `None` when
/// the body is not JSON, `Some(None)` when that place holds no string.
pub uninterp spec fn spec_chat_content(body: Seq<char>) -> Option<Option<Seq<char>>>;

/// Parses a response body with `serde_json::from_str` and reads the string at
/// `choices[0].message.content`; a parse error is passed on as its message.  The contract
/// names the result, which the body alone decides.
#[verifier::external_body]
fn chat_content(body: &str) -> (content: Result<Option<String>, String>)
    ensures
        match content {
            Ok(c) => spec_chat_content(body@) == Some(opt_view(c)),
            Err(_) => spec_chat_content(body@) is None,
        },
{
    match serde_json::from_str::<serde_json::Value>(body) {
        Ok(value) => Ok(value["choices"][0]["message"]["content"].as_str().map(str::to_owned)),
        Err(error) => Err(error.to_string()),
    }
}

/// The description in a successful response body: an unreadable body is a transport
/// failure (and may be retried); otherwise the message content, trimmed and not empty.
pub fn description_from_body(body: &str) -> (result: Result<String, VlmError>)
    ensures
        match spec_chat_content(body@) {
            None => result matches Err(VlmError::Http(_)),
            Some(Some(c)) => if spec_trim(c).len() > 0 {
                result matches Ok(d) && d@ == spec_trim(c)
            } else {
                result matches Err(VlmError::InvalidResponse(m)) && m@
                    == "VLM response did not contain message content"@
            },
            Some(None) => result matches Err(VlmError::InvalidResponse(m)) && m@
                == "VLM response did not contain message content"@,
        },
{
    match chat_content(body) {
        Err(message) => Err(VlmError::Http(message)),
        Ok(content) => match content {
            Some(c) => extract_description(Some(c.as_str())),
            None => extract_description(None),
        },
    }
}

/// A response status outside 2xx ends the request with that status.
pub fn check_status(status: u16) -> (result: Result<(), VlmError>)
    ensures
        200 <= status < 300 ==> result is Ok,
        !(200 <= status < 300) ==> result == Err::<(), VlmError>(VlmError::UnexpectedStatus(status)),
{
    if 200 <= status && status < 300 {
        Ok(())
    } else {
        Err(VlmError::UnexpectedStatus(status))
    }
}

/// The size of the picture that `image::load_from_memory` reads from some bytes; `None`
/// when they are not a picture the crate can read.
pub uninterp spec fn spec_image_size(bytes: Seq<u8>) -> Option<(u32, u32)>;

/// `image::load_from_memory`, read back as `dimensions`; a decoding error is passed on as
/// its message.  The contract names the size, which the bytes alone decide.
#[verifier::external_body]
fn image_size(bytes: &[u8]) -> (size: Result<(u32, u32), String>)
    ensures
        match size {
            Ok(s) => spec_image_size(bytes@) == Some(s),
            Err(_) => spec_image_size(bytes@) is None,
        },
{
    match image::load_from_memory(bytes) {
        Ok(image) => Ok(image::GenericImageView::dimensions(&image)),
        Err(error) => Err(error.to_string()),
    }
}

/// The PNG that the image crate writes for the picture it reads from some bytes, kept as
/// it was decoded (colour type included); `None` when it cannot read or write it.
pub uninterp spec fn spec_image_png(bytes: Seq<u8>) -> Option<Seq<u8>>;

/// `image::load_from_memory`, then `DynamicImage::write_to` with `ImageFormat::Png` into
/// memory; an error is passed on as its message.  The contract names the result, which the
/// bytes alone decide.
#[verifier::external_body]
fn image_png(bytes: &[u8]) -> (png: Result<Vec<u8>, String>)
    ensures
        match png {
            Ok(p) => spec_image_png(bytes@) == Some(p@),
            Err(_) => spec_image_png(bytes@) is None,
        },
{
    let image = image::load_from_memory(bytes).map_err(|error| error.to_string())?;
    let mut output = std::io::Cursor::new(Vec::new());
    image.write_to(&mut output, image::ImageFormat::Png).map_err(|error| error.to_string())?;
    Ok(output.into_inner())
}

/// The size and the PNG that the image crate gives for the picture it reads from some
/// bytes, shrunk or grown (keeping its aspect ratio and colour type, with a Lanczos
/// filter) to the largest size that fits the bounds; `None` when it cannot read or write it.
pub uninterp spec fn spec_resized_image_png(bytes: Seq<u8>, max_width: u32, max_height: u32) -> Option<
    (u32, u32, Seq<u8>),
>;

/// `image::load_from_memory`, `DynamicImage::resize` with `FilterType::Lanczos3`, then
/// `write_to` as PNG into memory; an error is passed on as its message.  The contract names
/// the result, which the bytes and the bounds alone decide, and says that the picture fits
/// bounds of at least one pixel, as the crate documents for `resize`.
#[verifier::external_body]
fn resized_image_png(bytes: &[u8], max_width: u32, max_height: u32) -> (png: Result<
    (u32, u32, Vec<u8>),
    String,
>)
    ensures
        match png {
            Ok((w, h, p)) => spec_resized_image_png(bytes@, max_width, max_height) == Some(
                (w, h, p@),
            ) && (max_width >= 1 && max_height >= 1 ==> w <= max_width && h <= max_height),
            Err(_) => spec_resized_image_png(bytes@, max_width, max_height) is None,
        },
{
    let image = image::load_from_memory(bytes).map_err(|error| error.to_string())?;
    let resized = image.resize(max_width, max_height, image::imageops::FilterType::Lanczos3);
    let (width, height) = image::GenericImageView::dimensions(&resized);
    let mut output = std::io::Cursor::new(Vec::new());
    resized.write_to(&mut output, image::ImageFormat::Png).map_err(|error| error.to_string())?;
    Ok((width, height, output.into_inner()))
}

/// The size of the picture sent for a screenshot file: its own when it fits the bounds,
/// and otherwise the size it is shrunk to; `None` when the file cannot be read or written.
pub open spec fn spec_vlm_size(bytes: Seq<u8>) -> Option<(u32, u32)> {
    match spec_image_size(bytes) {
        None => None,
        Some((w, h)) => if w <= MAX_IMAGE_WIDTH && h <= MAX_IMAGE_HEIGHT {
            Some((w, h))
        } else {
            match spec_resized_image_png(bytes, MAX_IMAGE_WIDTH, MAX_IMAGE_HEIGHT) {
                Some((w2, h2, _)) => Some((w2, h2)),
                None => None,
            }
        },
    }
}

/// The PNG sent for a screenshot file: the picture as it is when it fits the bounds, and
/// otherwise shrunk to fit them; `None` when the file cannot be read or written.
pub open spec fn spec_vlm_png(bytes: Seq<u8>) -> Option<Seq<u8>> {
    match spec_image_size(bytes) {
        None => None,
        Some((w, h)) => if w <= MAX_IMAGE_WIDTH && h <= MAX_IMAGE_HEIGHT {
            spec_image_png(bytes)
        } else {
            match spec_resized_image_png(bytes, MAX_IMAGE_WIDTH, MAX_IMAGE_HEIGHT) {
                Some((_, _, p)) => Some(p),
                None => None,
            }
        },
    }
}

/// Prepares the bytes of a screenshot file for the server: decoded, shrunk to the bounds
/// when it is larger, and written as PNG.  Whatever is sent fits within the bounds.
pub fn vlm_png(image_bytes: &[u8]) -> (png: Result<Vec<u8>, VlmError>)
    ensures
        match spec_vlm_png(image_bytes@) {
            Some(b) => png matches Ok(p) && p@ == b,
            None => png matches Err(VlmError::Image(_)),
        },
        png is Ok ==> (spec_vlm_size(image_bytes@) matches Some((w, h)) && w <= MAX_IMAGE_WIDTH
            && h <= MAX_IMAGE_HEIGHT),
{
    let (width, height) = match image_size(image_bytes) {
        Ok(size) => size,
        Err(message) => return Err(VlmError::Image(message)),
    };
    if fits_vlm_bounds(width, height) {
        match image_png(image_bytes) {
            Ok(bytes) => Ok(bytes),
            Err(message) => Err(VlmError::Image(message)),
        }
    } else {
        match resized_image_png(image_bytes, MAX_IMAGE_WIDTH, MAX_IMAGE_HEIGHT) {
            Ok((_, _, bytes)) => Ok(bytes),
            Err(message) => Err(VlmError::Image(message)),
        }
    }
}

/// Whether an image can be sent as it is, without shrinking.
pub fn fits_vlm_bounds(width: u32, height: u32) -> (fits: bool)
    ensures
        fits == (width <= MAX_IMAGE_WIDTH && height <= MAX_IMAGE_HEIGHT),
{
    width <= MAX_IMAGE_WIDTH && height <= MAX_IMAGE_HEIGHT
}

/// Failures worth another try: transport errors, unexpected statuses and unusable answers.
pub open spec fn spec_should_retry(error: VlmError) -> bool {
    error matches VlmError::Http(_) || error matches VlmError::UnexpectedStatus(_)
        || error matches VlmError::InvalidResponse(_)
}

/// Whether a failure is worth another try.
pub fn should_retry(error: &VlmError) -> (retry: bool)
    ensures
        retry == spec_should_retry(*error),
{
    match error {
        VlmError::Http(_) => true,
        VlmError::UnexpectedStatus(_) => true,
        VlmError::InvalidResponse(_) => true,
        _ => false,
    }
}

/// Two to the power `n`.
pub open spec fn pow2_nat(n: nat) -> nat
    decreases n,
{
    if n == 0 {
        1
    } else {
        2 * pow2_nat((n - 1) as nat)
    }
}

/// The pause after failed attempt number `attempt` (counting from zero) when the failure
/// allows another try: 500 ms, doubling each time; none after the last attempt.
pub open spec fn spec_retry_delay(attempt: usize, retryable: bool) -> Option<u64> {
    if attempt + 1 < MAX_RETRIES && retryable {
        Some((INITIAL_BACKOFF_MS * pow2_nat(attempt as nat)) as u64)
    } else {
        None
    }
}

/// How long to wait before trying again after a failed attempt, or `None` to give up.
pub fn retry_delay_ms(attempt: usize, error: &VlmError) -> (delay: Option<u64>)
    ensures
        delay == spec_retry_delay(attempt, spec_should_retry(*error)),
        delay matches Some(d) ==> d <= 1000,
{
    if attempt < MAX_RETRIES - 1 && should_retry(error) {
        let backoff: u64 = if attempt == 0 {
            500
        } else {
            1000
        };
        assert(pow2_nat(0) == 1 && pow2_nat(1) == 2) by {
            reveal_with_fuel(pow2_nat, 2);
        }
        Some(backoff)
    } else {
        None
    }
}

/// The description read from the server's answer: its message content, trimmed, or an
/// error when there is no content or only white space.
pub fn extract_description(content: Option<&str>) -> (result: Result<String, VlmError>)
    ensures
        match content {
            Some(c) => if spec_trim(c@).len() > 0 {
                result matches Ok(d) && d@ == spec_trim(c@)
            } else {
                result matches Err(VlmError::InvalidResponse(m)) && m@
                    == "VLM response did not contain message content"@
            },
            None => result matches Err(VlmError::InvalidResponse(m)) && m@
                == "VLM response did not contain message content"@,
        },
{
    match content {
        Some(c) => {
            let t = str_trim(c);
            if t.is_empty() {
                Err(
                    VlmError::InvalidResponse(
                        "VLM response did not contain message content".to_owned(),
                    ),
                )
            } else {
                Ok(t.to_owned())
            }
        },
        None => Err(
            VlmError::InvalidResponse("VLM response did not contain message content".to_owned()),
        ),
    }
}

/// `base` with any trailing slashes removed, as `str::trim_end_matches('/')`.
pub open spec fn trim_trailing_slashes(base: Seq<char>) -> Seq<char>
    decreases base.len(),
{
    if base.len() > 0 && base.last() == '/' {
        trim_trailing_slashes(base.drop_last())
    } else {
        base
    }
}

/// The chat completion endpoint of a server.
pub fn chat_endpoint(server_url: &str) -> (endpoint: String)
    ensures
        endpoint@ == trim_trailing_slashes(server_url@) + "/v1/chat/completions"@,
{
    let chars = crate::text::chars_of(server_url);
    let mut end = chars.len();
    assert(chars@.take(end as int) =~= chars@);
    while end > 0 && chars[end - 1] == '/'
        invariant
            end <= chars@.len(),
            chars@ == server_url@,
            trim_trailing_slashes(chars@.take(end as int)) == trim_trailing_slashes(server_url@),
        decreases end,
    {
        assert(chars@.take(end as int).drop_last() =~= chars@.take(end - 1));
        end = end - 1;
    }
    assert(chars@ == server_url@);
    proof {
        if end > chars@.len() {
        }
        assert(chars@.take(chars@.len() as int) =~= chars@);
    }
    let mut v: Vec<char> = Vec::new();
    let mut i: usize = 0;
    while i < end
        invariant
            i <= end <= chars@.len(),
            v@ == chars@.take(i as int),
        decreases end - i,
    {
        v.push(chars[i]);
        i = i + 1;
        assert(v@ =~= chars@.take(i as int));
    }
    crate::text::extend_chars(&mut v, crate::text::chars_of("/v1/chat/completions").as_slice());
    crate::text::string_from_chars(v.as_slice())
}

} // verus!
