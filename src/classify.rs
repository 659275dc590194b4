//! Classification of transfer failures into short, actionable messages, and
//! the error type of the library.

use vstd::prelude::*;
use crate::decimal::{decimal, decimal_string};

verus! {

/// What the transport layer reports about a failed request: which of its
/// failure kinds apply, and its own description of the failure.
#[derive(Debug)]
pub struct TransportFailure {
    pub is_timeout: bool,
    pub is_connect: bool,
    pub is_request: bool,
    pub detail: String,
}

/// The failures of the library's operations.
#[derive(Debug)]
pub enum DownloadError {
    /// No download has the given identifier.
    NotFound,
    /// The operation does not apply to the download's current state.
    InvalidState,
    /// The destination lacks room: both figures are in mebibytes.
    InsufficientSpace { required_mb: u64, available_mb: u64 },
    /// The request could not be made; the message that says why.
    Network(String),
    /// The server answered with a status that is not accepted.
    Http(u16),
    /// Writing the transferred bytes failed; the underlying message.
    Stream(String),
}

/// The standard reason phrase of HTTP status `code`, where it has one.
pub uninterp spec fn canonical_reason_of(code: u16) -> Option<Seq<char>>;

/// Relies on http's `StatusCode::from_u16`, which accepts the codes 100 to
/// 999, and `StatusCode::canonical_reason`: the standard reason phrase of
/// the status, where it has one.
#[verifier::external_body]
fn canonical_reason(code: u16) -> (r: Option<&'static str>)
    ensures
        match r {
            Some(p) => canonical_reason_of(code) == Some(p@),
            None => canonical_reason_of(code) is None,
        },
        code < 100 || code > 999 ==> r is None,
{
    match reqwest::StatusCode::from_u16(code) {
        Ok(status) => status.canonical_reason(),
        Err(_) => None,
    }
}

pub open spec fn opt_str_view(o: Option<&str>) -> Option<Seq<char>> {
    match o {
        Some(s) => Some(s@),
        None => None,
    }
}

/// A status as a server line writes it: the code, then its reason phrase.
pub open spec fn status_line(code: u16, reason: Option<Seq<char>>) -> Seq<char> {
    decimal(code as nat) + " "@ + match reason {
        Some(p) => p,
        None => "<unknown status code>"@,
    }
}

/// The message for a server answer with status `code`, whose reason phrase
/// is `reason`.
pub open spec fn http_error_message_text(code: u16, reason: Option<Seq<char>>) -> Seq<char> {
    if code == 401 || code == 403 {
        "Authentication failed. Check your auth token in settings."@
    } else if code == 404 {
        "File not found on server. The download link may have expired."@
    } else if code == 429 {
        "Too many requests. Please wait a moment and try again."@
    } else if 500 <= code <= 599 {
        "Server error. Please try again later."@
    } else {
        "Server returned error "@ + status_line(code, reason) + ". Please try again."@
    }
}

pub open spec fn http_error_text(code: u16) -> Seq<char> {
    http_error_message_text(code, canonical_reason_of(code))
}

pub open spec fn network_error_text(is_timeout: bool, is_connect: bool, is_request: bool, detail: Seq<char>) -> Seq<char> {
    if is_timeout {
        "Connection timed out. Check your internet connection and try again."@
    } else if is_connect {
        "Could not connect to server. Check your internet connection and try again."@
    } else if is_request {
        "Network request failed. Check your internet connection and try again."@
    } else {
        "Network error: "@ + detail + ". Check your connection and try again."@
    }
}

pub open spec fn space_error_text(required_mb: u64, available_mb: u64) -> Seq<char> {
    "Insufficient disk space: Need "@ + decimal(required_mb as nat) + " MB but only "@
        + decimal(available_mb as nat) + " MB available. Please free up space and try again."@
}

impl TransportFailure {
    pub open spec fn text(&self) -> Seq<char> {
        network_error_text(self.is_timeout, self.is_connect, self.is_request, self.detail@)
    }
}

impl DownloadError {
    /// The message that a user is shown for this error.
    pub open spec fn text(&self) -> Seq<char> {
        match self {
            DownloadError::NotFound => "Download not found"@,
            DownloadError::InvalidState => "Download is not in a failed state"@,
            DownloadError::InsufficientSpace { required_mb, available_mb } =>
                space_error_text(*required_mb, *available_mb),
            DownloadError::Network(m) => m@,
            DownloadError::Http(code) => http_error_text(*code),
            DownloadError::Stream(m) => m@,
        }
    }

    /// The message that a user is shown for this error.
    pub fn message(&self) -> (r: String)
        ensures
            r@ == self.text(),
    {
        match self {
            DownloadError::NotFound => String::from_str("Download not found"),
            DownloadError::InvalidState => String::from_str("Download is not in a failed state"),
            DownloadError::InsufficientSpace { required_mb, available_mb } => {
                let mut s = String::from_str("Insufficient disk space: Need ");
                s.append(decimal_string(*required_mb).as_str());
                s.append(" MB but only ");
                s.append(decimal_string(*available_mb).as_str());
                s.append(" MB available. Please free up space and try again.");
                s
            },
            DownloadError::Network(m) => m.clone(),
            DownloadError::Http(code) => format_http_error(*code),
            DownloadError::Stream(m) => m.clone(),
        }
    }
}

/// The message for a server answer with status `code`, whose standard reason
/// phrase is `reason`.
pub fn http_error_message(code: u16, reason: Option<&str>) -> (r: String)
    ensures
        r@ == http_error_message_text(code, opt_str_view(reason)),
{
    if code == 401 || code == 403 {
        String::from_str("Authentication failed. Check your auth token in settings.")
    } else if code == 404 {
        String::from_str("File not found on server. The download link may have expired.")
    } else if code == 429 {
        String::from_str("Too many requests. Please wait a moment and try again.")
    } else if 500 <= code && code <= 599 {
        String::from_str("Server error. Please try again later.")
    } else {
        let mut s = String::from_str("Server returned error ");
        s.append(decimal_string(code as u64).as_str());
        s.append(" ");
        match reason {
            Some(p) => s.append(p),
            None => s.append("<unknown status code>"),
        }
        s.append(". Please try again.");
        s
    }
}

/// The message for a server answer with status `code`.
pub fn format_http_error(code: u16) -> (r: String)
    ensures
        r@ == http_error_text(code),
{
    http_error_message(code, canonical_reason(code))
}

/// The message for a request that failed in the transport layer.
pub fn format_network_error(error: &TransportFailure) -> (r: String)
    ensures
        r@ == error.text(),
{
    if error.is_timeout {
        String::from_str("Connection timed out. Check your internet connection and try again.")
    } else if error.is_connect {
        String::from_str("Could not connect to server. Check your internet connection and try again.")
    } else if error.is_request {
        String::from_str("Network request failed. Check your internet connection and try again.")
    } else {
        let mut s = String::from_str("Network error: ");
        s.append(error.detail.as_str());
        s.append(". Check your connection and try again.");
        s
    }
}

} // verus!
