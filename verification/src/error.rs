//! What can go wrong, and how it is told.

use crate::number::{decimal, i32_text, signed_decimal, u64_text};
use vstd::prelude::*;

verus! {

/// Why an operation failed. What a library outside this crate reports is held as its text.
#[derive(Debug)]
pub enum WallpaperError {
    Message(String),
    /// A server answered with another status than success.
    Status { url: String, status: u16 },
    /// A server refused a wallpaper.
    DownloadStatus { resolution: String, status: u16 },
    /// The transfer of a wallpaper broke off.
    Download { resolution: String, source: String },
    /// A wallpaper is smaller than allowed.
    MinResolution { width: u32, height: u32, min_width: u32, min_height: u32 },
    MetadataParse,
    MissingImageUrl,
    /// A program exited with a failure.
    CommandFailed { what: String, code: i32, stderr: String },
    Canceled,
    Io(String),
    Request { timeout: bool, text: String },
    Plist(String),
    Db(String),
    Json(String),
}

/// The value of a `WallpaperError`.
#[verifier::ext_equal]
pub enum ErrorView {
    Message(Seq<char>),
    Status { url: Seq<char>, status: u16 },
    DownloadStatus { resolution: Seq<char>, status: u16 },
    Download { resolution: Seq<char>, source: Seq<char> },
    MinResolution { width: u32, height: u32, min_width: u32, min_height: u32 },
    MetadataParse,
    MissingImageUrl,
    CommandFailed { what: Seq<char>, code: i32, stderr: Seq<char> },
    Canceled,
    Io(Seq<char>),
    Request { timeout: bool, text: Seq<char> },
    Plist(Seq<char>),
    Db(Seq<char>),
    Json(Seq<char>),
}

impl View for WallpaperError {
    type V = ErrorView;

    open spec fn view(&self) -> ErrorView {
        match *self {
            WallpaperError::Message(text) => ErrorView::Message(text@),
            WallpaperError::Status { url, status } => ErrorView::Status { url: url@, status },
            WallpaperError::DownloadStatus { resolution, status } => ErrorView::DownloadStatus {
                resolution: resolution@,
                status,
            },
            WallpaperError::Download { resolution, source } => ErrorView::Download {
                resolution: resolution@,
                source: source@,
            },
            WallpaperError::MinResolution { width, height, min_width, min_height } =>
                ErrorView::MinResolution { width, height, min_width, min_height },
            WallpaperError::MetadataParse => ErrorView::MetadataParse,
            WallpaperError::MissingImageUrl => ErrorView::MissingImageUrl,
            WallpaperError::CommandFailed { what, code, stderr } => ErrorView::CommandFailed {
                what: what@,
                code,
                stderr: stderr@,
            },
            WallpaperError::Canceled => ErrorView::Canceled,
            WallpaperError::Io(text) => ErrorView::Io(text@),
            WallpaperError::Request { timeout, text } => ErrorView::Request {
                timeout,
                text: text@,
            },
            WallpaperError::Plist(text) => ErrorView::Plist(text@),
            WallpaperError::Db(text) => ErrorView::Db(text@),
            WallpaperError::Json(text) => ErrorView::Json(text@),
        }
    }
}

/// The text in which an error is told.
pub open spec fn error_text(e: ErrorView) -> Seq<char> {
    match e {
        ErrorView::Message(text) => text,
        ErrorView::Status { url, status } => "Unexpected status "@ + decimal(status as nat)
            + " from "@ + url,
        ErrorView::DownloadStatus { resolution, status } => "Failed to download wallpaper at "@
            + resolution + ": HTTP "@ + decimal(status as nat),
        ErrorView::Download { resolution, source } => "Failed to download wallpaper at "@
            + resolution,
        ErrorView::MinResolution { width, height, min_width, min_height } => "Downloaded image "@
            + decimal(width as nat) + "x"@ + decimal(height as nat) + " below minimum "@ + decimal(
            min_width as nat,
        ) + "x"@ + decimal(min_height as nat),
        ErrorView::MetadataParse => "Could not parse Bing metadata response."@,
        ErrorView::MissingImageUrl => "Bing response did not include an image URL."@,
        ErrorView::CommandFailed { what, code, stderr } => what + " failed (exit "@
            + signed_decimal(code as int) + "). "@ + stderr,
        ErrorView::Canceled => "Canceled by user"@,
        ErrorView::Io(text) => text,
        ErrorView::Request { timeout, text } => text,
        ErrorView::Plist(text) => text,
        ErrorView::Db(text) => text,
        ErrorView::Json(text) => text,
    }
}

impl WallpaperError {
    /// The text in which the error is told.
    pub fn message(&self) -> (r: String)
        ensures
            r@ == error_text(self@),
    {
        match self {
            WallpaperError::Message(text) => text.clone(),
            WallpaperError::Status { url, status } => {
                let mut out = "Unexpected status ".to_string();
                out.append(u64_text(*status as u64).as_str());
                out.append(" from ");
                out.append(url.as_str());
                out
            },
            WallpaperError::DownloadStatus { resolution, status } => {
                let mut out = "Failed to download wallpaper at ".to_string();
                out.append(resolution.as_str());
                out.append(": HTTP ");
                out.append(u64_text(*status as u64).as_str());
                out
            },
            WallpaperError::Download { resolution, source: _ } => {
                let mut out = "Failed to download wallpaper at ".to_string();
                out.append(resolution.as_str());
                out
            },
            WallpaperError::MinResolution { width, height, min_width, min_height } => {
                let mut out = "Downloaded image ".to_string();
                out.append(u64_text(*width as u64).as_str());
                out.append("x");
                out.append(u64_text(*height as u64).as_str());
                out.append(" below minimum ");
                out.append(u64_text(*min_width as u64).as_str());
                out.append("x");
                out.append(u64_text(*min_height as u64).as_str());
                out
            },
            WallpaperError::MetadataParse => "Could not parse Bing metadata response.".to_string(),
            WallpaperError::MissingImageUrl => {
                "Bing response did not include an image URL.".to_string()
            },
            WallpaperError::CommandFailed { what, code, stderr } => {
                let mut out = what.clone();
                out.append(" failed (exit ");
                out.append(i32_text(*code).as_str());
                out.append("). ");
                out.append(stderr.as_str());
                out
            },
            WallpaperError::Canceled => "Canceled by user".to_string(),
            WallpaperError::Io(text) => text.clone(),
            WallpaperError::Request { timeout: _, text } => text.clone(),
            WallpaperError::Plist(text) => text.clone(),
            WallpaperError::Db(text) => text.clone(),
            WallpaperError::Json(text) => text.clone(),
        }
    }
}

/// An error that consists of its text.
pub fn failure(text: &str) -> (r: WallpaperError)
    ensures
        r@ == ErrorView::Message(text@),
{
    WallpaperError::Message(text.to_string())
}

/// What a server's answer means: `None` for success.
pub open spec fn status_error(status: u16, url: Seq<char>) -> Option<ErrorView> {
    if status == 429 {
        Some(
            ErrorView::Message(
                "Rate limited by "@ + url + " (HTTP 429). Please retry later."@,
            ),
        )
    } else if status != 200 {
        Some(ErrorView::Status { url, status })
    } else {
        None
    }
}

/// Accepts the status 200 of an answer and no other.
pub fn ensure_http_success(status: u16, url: &str) -> (r: Result<(), WallpaperError>)
    ensures
        match r {
            Ok(_) => status_error(status, url@) is None,
            Err(e) => status_error(status, url@) == Some(e@),
        },
{
    if status == 429 {
        let mut text = "Rate limited by ".to_string();
        text.append(url);
        text.append(" (HTTP 429). Please retry later.");
        return Err(WallpaperError::Message(text));
    }
    if status != 200 {
        return Err(WallpaperError::Status { url: url.to_string(), status });
    }
    Ok(())
}

/// What a program's end means: `None` for success. A program that a signal ended counts as
/// exited with 1.
pub open spec fn exit_error(
    what: Seq<char>,
    success: bool,
    code: Option<i32>,
    stderr: Seq<char>,
) -> Option<ErrorView> {
    if success {
        None
    } else {
        Some(
            ErrorView::CommandFailed {
                what,
                code: match code {
                    Some(c) => c,
                    None => 1,
                },
                stderr: crate::text::stripped(stderr),
            },
        )
    }
}

/// Accepts a program's success and turns its failure into an error.
pub fn ensure_exit_success(
    what: &str,
    success: bool,
    code: Option<i32>,
    stderr: &str,
) -> (r: Result<(), WallpaperError>)
    ensures
        match r {
            Ok(_) => exit_error(what@, success, code, stderr@) is None,
            Err(e) => exit_error(what@, success, code, stderr@) == Some(e@),
        },
{
    if success {
        return Ok(());
    }
    Err(
        WallpaperError::CommandFailed {
            what: what.to_string(),
            code: match code {
                Some(c) => c,
                None => 1,
            },
            stderr: crate::text::trim(stderr),
        },
    )
}

/// An answer is a success by the status 200 and by no other; being asked to wait is told apart.
pub proof fn only_200_is_a_success(status: u16, url: Seq<char>)
    ensures
        status_error(status, url) is None <==> status == 200,
        status == 429 ==> (status_error(status, url) matches Some(ErrorView::Message(_))),
        status != 200 && status != 429 ==> (status_error(status, url) matches Some(
            ErrorView::Status { url: u, status: s },
        ) && u == url && s == status),
{
}

/// A program that did not succeed is told by its name, by the number that it ended with, and by
/// what it wrote.
pub proof fn failing_program_is_told(
    what: Seq<char>,
    success: bool,
    code: Option<i32>,
    stderr: Seq<char>,
)
    ensures
        success ==> exit_error(what, success, code, stderr) is None,
        !success ==> (exit_error(what, success, code, stderr) matches Some(
            ErrorView::CommandFailed { what: w, code: c, stderr: s },
        ) && w == what && s == crate::text::stripped(stderr) && (code matches Some(n) ==> c == n)),
{
}

} // verus!
