//! The request that describes a download and the status record that tracks it.

use vstd::prelude::*;

verus! {

/// What a caller asks to download: where from, under which file name, and how
/// many bytes it is declared to hold.
#[derive(Debug, Clone)]
pub struct DownloadRequest {
    pub url: String,
    pub filename: String,
    pub size: u64,
}

/// The lifecycle state of one download.
#[derive(Debug, Clone, Copy, PartialEq, Eq, Structural)]
pub enum DownloadState {
    Queued,
    Downloading,
    Paused,
    Completed,
    Failed,
    Cancelled,
}

/// The observable state of one download.
#[derive(Debug, Clone)]
pub struct DownloadStatus {
    pub id: String,
    pub filename: String,
    pub url: String,
    pub state: DownloadState,
    pub downloaded_bytes: u64,
    pub total_bytes: u64,
    pub speed_bps: u64,
    pub error: Option<String>,
}

/// A request seen as plain values.
pub struct RequestView {
    pub url: Seq<char>,
    pub filename: Seq<char>,
    pub size: u64,
}

/// A status record seen as plain values.
pub struct StatusView {
    pub id: Seq<char>,
    pub filename: Seq<char>,
    pub url: Seq<char>,
    pub state: DownloadState,
    pub downloaded_bytes: u64,
    pub total_bytes: u64,
    pub speed_bps: u64,
    pub error: Option<Seq<char>>,
}

impl View for DownloadRequest {
    type V = RequestView;

    open spec fn view(&self) -> RequestView {
        RequestView { url: self.url@, filename: self.filename@, size: self.size }
    }
}

pub open spec fn opt_view(o: Option<String>) -> Option<Seq<char>> {
    match o {
        Some(s) => Some(s@),
        None => None,
    }
}

impl View for DownloadStatus {
    type V = StatusView;

    open spec fn view(&self) -> StatusView {
        StatusView {
            id: self.id@,
            filename: self.filename@,
            url: self.url@,
            state: self.state,
            downloaded_bytes: self.downloaded_bytes,
            total_bytes: self.total_bytes,
            speed_bps: self.speed_bps,
            error: opt_view(self.error),
        }
    }
}

/// The record of a fresh download: queued, nothing transferred yet.
pub open spec fn queued_status(id: Seq<char>, req: RequestView) -> StatusView {
    StatusView {
        id: id,
        filename: req.filename,
        url: req.url,
        state: DownloadState::Queued,
        downloaded_bytes: 0,
        total_bytes: req.size,
        speed_bps: 0,
        error: None,
    }
}

pub fn clone_opt_string(o: &Option<String>) -> (r: Option<String>)
    ensures
        opt_view(r) == opt_view(*o),
{
    match o {
        Some(s) => Some(s.clone()),
        None => None,
    }
}

impl DownloadRequest {
    /// A copy of this request.
    pub fn duplicate(&self) -> (r: DownloadRequest)
        ensures
            r@ == self@,
    {
        DownloadRequest { url: self.url.clone(), filename: self.filename.clone(), size: self.size }
    }
}

impl DownloadStatus {
    /// A record of a fresh download with identifier `id`.
    pub fn queued(id: String, request: &DownloadRequest) -> (r: DownloadStatus)
        ensures
            r@ == queued_status(id@, request@),
    {
        DownloadStatus {
            id,
            filename: request.filename.clone(),
            url: request.url.clone(),
            state: DownloadState::Queued,
            downloaded_bytes: 0,
            total_bytes: request.size,
            speed_bps: 0,
            error: None,
        }
    }

    /// A point-in-time copy of this record.
    pub fn snapshot(&self) -> (r: DownloadStatus)
        ensures
            r@ == self@,
    {
        DownloadStatus {
            id: self.id.clone(),
            filename: self.filename.clone(),
            url: self.url.clone(),
            state: self.state,
            downloaded_bytes: self.downloaded_bytes,
            total_bytes: self.total_bytes,
            speed_bps: self.speed_bps,
            error: clone_opt_string(&self.error),
        }
    }
}

} // verus!
