//! The registry of downloads: it owns every download's request and status
//! record, and applies the commands of its callers and the reports of running
//! transfers to them according to the lifecycle state machine.

use vstd::prelude::*;
use crate::classify::{space_error_text, DownloadError};
use crate::status::{
    clone_opt_string, opt_view, queued_status, DownloadRequest, DownloadState, DownloadStatus,
    RequestView, StatusView,
};
use crate::transfer::{check_disk_space, preflight, TransferOutcome};

verus! {

/// One download as the registry sees it: its request, its status record,
/// whether a cancellation signal is armed for its transfer, and whether that
/// transfer is still running.
pub struct EntryView {
    pub request: RequestView,
    pub status: StatusView,
    pub signal_armed: bool,
    pub running: bool,
}

/// The registry as plain values.
pub struct ManagerView {
    pub entries: Seq<EntryView>,
    pub download_path: Seq<char>,
    pub max_concurrent: usize,
    pub active_count: usize,
    pub server_url: Seq<char>,
    pub auth_token: Option<Seq<char>>,
}

/// What the caller of `start_download` is to do next.
#[derive(Debug)]
pub enum StartOutcome {
    /// The download is already in flight: nothing to do.
    AlreadyActive,
    /// Run a transfer with this plan, bound to a fresh cancellation signal.
    Spawn(TransferPlan),
}

/// Where a transfer reads from and writes to.
#[derive(Debug)]
pub struct TransferPlan {
    pub url: String,
    pub directory: String,
    pub filename: String,
}

/// What the caller of `pause_download` or `cancel_download` is to do next.
#[derive(Debug, Clone, Copy, PartialEq, Eq, Structural)]
pub enum StopAction {
    /// Fire the transfer's cancellation signal and wait for the transfer to end.
    SignalTask,
    /// No signal is armed: nothing to do.
    Nothing,
}

struct DownloadTask {
    request: DownloadRequest,
    status: DownloadStatus,
    signal_armed: bool,
    running: bool,
}

impl View for DownloadTask {
    type V = EntryView;

    closed spec fn view(&self) -> EntryView {
        EntryView {
            request: self.request@,
            status: self.status@,
            signal_armed: self.signal_armed,
            running: self.running,
        }
    }
}

/// The registry of all downloads of a process.
pub struct DownloadManager {
    downloads: Vec<DownloadTask>,
    download_path: String,
    max_concurrent: usize,
    active_count: usize,
    server_url: String,
    auth_token: Option<String>,
}

impl View for DownloadManager {
    type V = ManagerView;

    closed spec fn view(&self) -> ManagerView {
        ManagerView {
            entries: self.downloads@.map_values(|t: DownloadTask| t@),
            download_path: self.download_path@,
            max_concurrent: self.max_concurrent,
            active_count: self.active_count,
            server_url: self.server_url@,
            auth_token: opt_view(self.auth_token),
        }
    }
}

/// No two entries share an identifier.
pub open spec fn ids_unique(entries: Seq<EntryView>) -> bool {
    forall|i: int, j: int|
        0 <= i < entries.len() && 0 <= j < entries.len() && i != j ==> entries[i].status.id
            != entries[j].status.id
}

/// How many entries have a transfer running.
pub open spec fn count_running(entries: Seq<EntryView>) -> nat
    decreases entries.len(),
{
    if entries.len() == 0 {
        0
    } else {
        count_running(entries.drop_last()) + if entries.last().running {
            1nat
        } else {
            0nat
        }
    }
}

/// An entry carries an error exactly when it failed, and has a signal armed
/// only while it is in flight.
pub open spec fn entry_consistent(e: EntryView) -> bool {
    &&& (e.status.error is Some <==> e.status.state == DownloadState::Failed)
    &&& (e.signal_armed ==> e.status.state == DownloadState::Downloading)
}

pub open spec fn manager_wf(m: ManagerView) -> bool {
    &&& m.entries.len() <= usize::MAX
    &&& ids_unique(m.entries)
    &&& m.active_count == count_running(m.entries)
    &&& forall|i: int| 0 <= i < m.entries.len() ==> entry_consistent(#[trigger] m.entries[i])
}

/// The position of the entry with identifier `id`, if there is one.
pub open spec fn position(m: ManagerView, id: Seq<char>) -> Option<int> {
    if exists|i: int| 0 <= i < m.entries.len() && m.entries[i].status.id == id {
        Some(choose|i: int| 0 <= i < m.entries.len() && m.entries[i].status.id == id)
    } else {
        None
    }
}

pub open spec fn running_delta(before: bool, after: bool) -> int {
    (if after { 1int } else { 0int }) - (if before { 1int } else { 0int })
}

/// `m` with entry `i` replaced by `e`, the count of running transfers kept.
pub open spec fn replace_entry(m: ManagerView, i: int, e: EntryView) -> ManagerView {
    ManagerView {
        entries: m.entries.update(i, e),
        active_count: (m.active_count + running_delta(m.entries[i].running, e.running)) as usize,
        ..m
    }
}

/// A fresh entry for `req` under identifier `id`.
pub open spec fn fresh_entry(id: Seq<char>, req: RequestView) -> EntryView {
    EntryView { request: req, status: queued_status(id, req), signal_armed: false, running: false }
}

/// The registry after `req` was added under identifier `id`: an entry of the
/// same identifier is replaced.
pub open spec fn after_insert(m: ManagerView, id: Seq<char>, req: RequestView) -> ManagerView {
    match position(m, id) {
        Some(i) => replace_entry(m, i, fresh_entry(id, req)),
        None => ManagerView { entries: m.entries.push(fresh_entry(id, req)), ..m },
    }
}

/// The registry after a start of entry `i`, when the destination reports
/// `free_kb` kibibytes free.
pub open spec fn after_start(m: ManagerView, i: int, free_kb: Option<u64>) -> ManagerView {
    let e = m.entries[i];
    if e.status.state == DownloadState::Downloading {
        m
    } else {
        match preflight(e.request.size, free_kb) {
            Some((req_mb, avail_mb)) => replace_entry(
                m,
                i,
                EntryView {
                    status: StatusView {
                        state: DownloadState::Failed,
                        error: Some(space_error_text(req_mb, avail_mb)),
                        ..e.status
                    },
                    ..e
                },
            ),
            None => replace_entry(
                m,
                i,
                EntryView {
                    status: StatusView { state: DownloadState::Downloading, error: None, ..e.status },
                    signal_armed: true,
                    running: true,
                    ..e
                },
            ),
        }
    }
}

/// The result of a start of entry `i` in `m`.
pub open spec fn start_result(
    m: ManagerView,
    i: int,
    free_kb: Option<u64>,
    r: Result<StartOutcome, DownloadError>,
) -> bool {
    let e = m.entries[i];
    if e.status.state == DownloadState::Downloading {
        r matches Ok(StartOutcome::AlreadyActive)
    } else {
        match preflight(e.request.size, free_kb) {
            Some((req_mb, avail_mb)) => r == Err::<StartOutcome, DownloadError>(
                DownloadError::InsufficientSpace { required_mb: req_mb, available_mb: avail_mb },
            ),
            None => (r matches Ok(StartOutcome::Spawn(plan)) && plan.url@ == e.request.url
                && plan.filename@ == e.request.filename && plan.directory@ == m.download_path),
        }
    }
}

/// The registry after a pause of entry `i`: the signal is taken, and a
/// download in flight becomes paused.
pub open spec fn after_pause(m: ManagerView, i: int) -> ManagerView {
    let e = m.entries[i];
    let state = if e.status.state == DownloadState::Downloading {
        DownloadState::Paused
    } else {
        e.status.state
    };
    replace_entry(
        m,
        i,
        EntryView { status: StatusView { state, ..e.status }, signal_armed: false, ..e },
    )
}

/// The registry after a cancel of entry `i`: the signal is taken and the
/// download is cancelled, whatever its state, without an error.
pub open spec fn after_cancel(m: ManagerView, i: int) -> ManagerView {
    let e = m.entries[i];
    replace_entry(
        m,
        i,
        EntryView {
            status: StatusView { state: DownloadState::Cancelled, error: None, ..e.status },
            signal_armed: false,
            ..e
        },
    )
}

/// What pausing or cancelling entry `i` asks of the caller.
pub open spec fn stop_action(m: ManagerView, i: int) -> StopAction {
    if m.entries[i].signal_armed {
        StopAction::SignalTask
    } else {
        StopAction::Nothing
    }
}

/// The status record after its transfer ended with `outcome`: a cancelled
/// download stays cancelled; otherwise a finished transfer completes the
/// download and a failure fails it; a stopped transfer leaves the state to
/// whoever stopped it.
pub open spec fn written_back(st: StatusView, outcome: TransferOutcome) -> StatusView {
    match outcome {
        TransferOutcome::Finished => if st.state == DownloadState::Cancelled {
            st
        } else {
            StatusView { state: DownloadState::Completed, error: None, ..st }
        },
        TransferOutcome::Stopped => st,
        TransferOutcome::Failed(err) => if st.state == DownloadState::Cancelled {
            st
        } else {
            StatusView { state: DownloadState::Failed, error: Some(err.text()), ..st }
        },
    }
}

/// The registry after the transfer of entry `i` ended with `outcome`.
pub open spec fn after_finish(m: ManagerView, i: int, outcome: TransferOutcome) -> ManagerView {
    let e = m.entries[i];
    replace_entry(
        m,
        i,
        EntryView {
            status: written_back(e.status, outcome),
            signal_armed: false,
            running: false,
            ..e
        },
    )
}

/// The registry after entry `i` was reset for a retry: queued again, with its
/// error cleared and its progress at zero.
pub open spec fn after_retry_reset(m: ManagerView, i: int) -> ManagerView {
    let e = m.entries[i];
    replace_entry(
        m,
        i,
        EntryView {
            status: StatusView {
                state: DownloadState::Queued,
                error: None,
                downloaded_bytes: 0,
                ..e.status
            },
            ..e
        },
    )
}

/// The registry after the transfer of entry `i` published its progress.
pub open spec fn after_progress(m: ManagerView, i: int, downloaded: u64, speed_bps: u64) -> ManagerView {
    let e = m.entries[i];
    replace_entry(
        m,
        i,
        EntryView {
            status: StatusView { downloaded_bytes: downloaded, speed_bps, ..e.status },
            ..e
        },
    )
}

/// The registry after the transfer of entry `i` detected that it resumes at
/// `offset`: the offset becomes the progress shown.
pub open spec fn after_resume_offset(m: ManagerView, i: int, offset: u64) -> ManagerView {
    let e = m.entries[i];
    replace_entry(m, i, EntryView { status: StatusView { downloaded_bytes: offset, ..e.status }, ..e })
}

proof fn lemma_count_update(s: Seq<EntryView>, i: int, e: EntryView)
    requires
        0 <= i < s.len(),
    ensures
        count_running(s.update(i, e)) == count_running(s) + running_delta(s[i].running, e.running),
    decreases s.len(),
{
    let t = s.update(i, e);
    if i == s.len() - 1 {
        assert(t.drop_last() =~= s.drop_last());
    } else {
        lemma_count_update(s.drop_last(), i, e);
        assert(t.drop_last() =~= s.drop_last().update(i, e));
    }
}

proof fn lemma_count_bound(s: Seq<EntryView>)
    ensures
        count_running(s) <= s.len(),
    decreases s.len(),
{
    if s.len() > 0 {
        lemma_count_bound(s.drop_last());
    }
}

/// Replacing an entry by one of the same identifier keeps the registry well formed.
proof fn lemma_replace_wf(m: ManagerView, i: int, e: EntryView)
    requires
        manager_wf(m),
        0 <= i < m.entries.len(),
        e.status.id == m.entries[i].status.id,
        entry_consistent(e),
    ensures
        manager_wf(replace_entry(m, i, e)),
        replace_entry(m, i, e).active_count == m.active_count + running_delta(
            m.entries[i].running,
            e.running,
        ),
        position(replace_entry(m, i, e), e.status.id) == Some(i),
{
    lemma_count_update(m.entries, i, e);
    lemma_count_bound(m.entries.update(i, e));
    let n = replace_entry(m, i, e);
    assert(n.entries[i].status.id == e.status.id);
    assert forall|a: int, b: int|
        0 <= a < n.entries.len() && 0 <= b < n.entries.len() && a != b implies n.entries[a].status.id
        != n.entries[b].status.id by {
        assert(n.entries[a].status.id == m.entries[a].status.id);
        assert(n.entries[b].status.id == m.entries[b].status.id);
    }
    assert forall|k: int| 0 <= k < n.entries.len() implies entry_consistent(#[trigger] n.entries[k]) by {
        if k != i {
            assert(n.entries[k] == m.entries[k]);
        }
    }
    lemma_position_unique(n, e.status.id, i);
}

/// In a registry without duplicate identifiers, the position of an identifier
/// is the one index that holds it.
proof fn lemma_position_unique(m: ManagerView, id: Seq<char>, i: int)
    requires
        ids_unique(m.entries),
        0 <= i < m.entries.len(),
        m.entries[i].status.id == id,
    ensures
        position(m, id) == Some(i),
{
    assert(exists|k: int| 0 <= k < m.entries.len() && m.entries[k].status.id == id);
    let j = choose|k: int| 0 <= k < m.entries.len() && m.entries[k].status.id == id;
    assert(i == j);
}

/// Relies on uuid's `Uuid::new_v4`, a random identifier, and on its `Display`,
/// which writes the hyphenated form of 36 characters.
#[verifier::external_body]
fn new_download_id() -> (r: String)
    ensures
        r@.len() == 36,
{
    uuid::Uuid::new_v4().to_string()
}

impl DownloadManager {
    pub open spec fn wf(&self) -> bool {
        manager_wf(self@)
    }

    /// An empty registry that writes into `download_path`.
    pub fn new(
        download_path: String,
        max_concurrent: usize,
        server_url: String,
        auth_token: Option<String>,
    ) -> (r: DownloadManager)
        ensures
            r.wf(),
            r@ == (ManagerView {
                entries: Seq::empty(),
                download_path: download_path@,
                max_concurrent,
                active_count: 0,
                server_url: server_url@,
                auth_token: opt_view(auth_token),
            }),
    {
        let r = DownloadManager {
            downloads: Vec::new(),
            download_path,
            max_concurrent,
            active_count: 0,
            server_url,
            auth_token,
        };
        proof {
            assert(r@.entries =~= Seq::<EntryView>::empty());
        }
        r
    }

    /// Replaces the server address and the token sent to it.
    pub fn set_server_config(&mut self, server_url: String, auth_token: Option<String>)
        requires
            old(self).wf(),
        ensures
            final(self).wf(),
            final(self)@ == (ManagerView {
                server_url: server_url@,
                auth_token: opt_view(auth_token),
                ..old(self)@
            }),
    {
        self.server_url = server_url;
        self.auth_token = auth_token;
    }

    /// Sets the admission ceiling for transfers started from now on.
    pub fn set_max_concurrent(&mut self, count: usize)
        requires
            old(self).wf(),
        ensures
            final(self).wf(),
            final(self)@ == (ManagerView { max_concurrent: count, ..old(self)@ }),
    {
        self.max_concurrent = count;
    }

    /// The position of the download with identifier `id`.
    fn find(&self, id: &String) -> (r: Option<usize>)
        requires
            self.wf(),
        ensures
            match r {
                Some(i) => position(self@, id@) == Some(i as int) && i < self@.entries.len(),
                None => position(self@, id@) is None,
            },
    {
        let mut k: usize = 0;
        while k < self.downloads.len()
            invariant
                self.wf(),
                k <= self.downloads@.len(),
                self@.entries.len() == self.downloads@.len(),
                forall|j: int| 0 <= j < k ==> self@.entries[j].status.id != id@,
            decreases self.downloads@.len() - k,
        {
            if self.downloads[k].status.id == *id {
                proof {
                    lemma_position_unique(self@, id@, k as int);
                }
                return Some(k);
            }
            k = k + 1;
        }
        None
    }

    /// A fresh download for `request` under identifier `id`; a download that
    /// already has that identifier is replaced. Returns the identifier.
    pub fn insert_download(&mut self, id: String, request: DownloadRequest) -> (r: String)
        requires
            old(self).wf(),
        ensures
            final(self).wf(),
            r@ == id@,
            final(self)@ == after_insert(old(self)@, id@, request@),
    {
        let status = DownloadStatus::queued(id.clone(), &request);
        let task = DownloadTask { request, status, signal_armed: false, running: false };
        match self.find(&id) {
            Some(i) => {
                let was_running = self.downloads[i].running;
                proof {
                    lemma_replace_wf(self@, i as int, task@);
                }
                self.downloads.set(i, task);
                if was_running {
                    self.active_count = self.active_count - 1;
                }
                proof {
                    assert(self@.entries =~= old(self)@.entries.update(i as int, fresh_entry(id@, request@)));
                }
            },
            None => {
                proof {
                    let e = fresh_entry(id@, request@);
                    let s = old(self)@.entries;
                    assert(s.push(e).drop_last() =~= s);
                    assert forall|a: int, b: int|
                        0 <= a < s.push(e).len() && 0 <= b < s.push(e).len() && a != b implies s.push(e)[a].status.id
                        != s.push(e)[b].status.id by {
                        if a < s.len() && b < s.len() {
                        } else if a == s.len() {
                            assert(s[b].status.id != id@);
                        } else {
                            assert(s[a].status.id != id@);
                        }
                    }
                }
                self.downloads.push(task);
                // the length that `len` returns is a `usize`, which bounds the entries
                let _ = self.downloads.len();
                proof {
                    assert(self@.entries =~= old(self)@.entries.push(fresh_entry(id@, request@)));
                }
            },
        }
        id
    }

    /// The number of characters of the longest identifier.
    fn longest_id(&self) -> (r: usize)
        requires
            self.wf(),
        ensures
            forall|k: int| 0 <= k < self@.entries.len() ==> self@.entries[k].status.id.len() <= r,
    {
        let mut r: usize = 0;
        let mut k: usize = 0;
        while k < self.downloads.len()
            invariant
                k <= self.downloads@.len(),
                self@.entries.len() == self.downloads@.len(),
                forall|j: int| 0 <= j < k ==> self@.entries[j].status.id.len() <= r,
            decreases self.downloads@.len() - k,
        {
            let len = self.downloads[k].status.id.as_str().unicode_len();
            if len > r {
                r = len;
            }
            k = k + 1;
        }
        r
    }

    /// Adds a download for `request` under a fresh identifier, and returns
    /// that identifier. The identifier is a random one; in the unlikely case
    /// that it is taken, it is lengthened with `-` until it is longer than
    /// every identifier in use. The download is queued with nothing
    /// transferred.
    pub fn add_download(&mut self, request: DownloadRequest) -> (r: Result<String, DownloadError>)
        requires
            old(self).wf(),
        ensures
            final(self).wf(),
            r matches Ok(id) && id@.len() >= 36 && position(old(self)@, id@) is None
                && final(self)@ == (ManagerView {
                entries: old(self)@.entries.push(fresh_entry(id@, request@)),
                ..old(self)@
            }),
    {
        let mut id = new_download_id();
        if self.find(&id).is_some() {
            let longest = self.longest_id();
            while id.as_str().unicode_len() <= longest
                invariant
                    id@.len() >= 36,
                    id@.len() <= longest + 1 || id@.len() == 36,
                decreases longest + 1 - id@.len(),
            {
                proof {
                    reveal_strlit("-");
                }
                id.append("-");
            }
            proof {
                assert forall|k: int| 0 <= k < self@.entries.len() implies self@.entries[k].status.id != id@ by {
                    assert(self@.entries[k].status.id.len() <= longest);
                }
            }
        }
        Ok(self.insert_download(id, request))
    }

    /// Starts entry `i`, whose identifier the caller has looked up.
    fn start_at(&mut self, i: usize, disk_free_kb: Option<u64>) -> (r: Result<StartOutcome, DownloadError>)
        requires
            old(self).wf(),
            i < old(self)@.entries.len(),
        ensures
            final(self).wf(),
            final(self)@ == after_start(old(self)@, i as int, disk_free_kb),
            start_result(old(self)@, i as int, disk_free_kb, r),
    {
        if self.downloads[i].status.state == DownloadState::Downloading {
            return Ok(StartOutcome::AlreadyActive);
        }
        let ghost e = self@.entries[i as int];
        match check_disk_space(self.downloads[i].request.size, disk_free_kb) {
            Err(err) => {
                let msg = err.message();
                let ghost ne = EntryView {
                    status: StatusView { state: DownloadState::Failed, error: Some(msg@), ..e.status },
                    ..e
                };
                proof {
                    lemma_replace_wf(self@, i as int, ne);
                }
                self.downloads[i].status.state = DownloadState::Failed;
                self.downloads[i].status.error = Some(msg);
                proof {
                    assert(self@.entries =~= old(self)@.entries.update(i as int, ne));
                }
                Err(err)
            },
            Ok(()) => {
                let was_running = self.downloads[i].running;
                let ghost ne = EntryView {
                    status: StatusView { state: DownloadState::Downloading, error: None, ..e.status },
                    signal_armed: true,
                    running: true,
                    ..e
                };
                proof {
                    lemma_replace_wf(self@, i as int, ne);
                }
                self.downloads[i].status.state = DownloadState::Downloading;
                self.downloads[i].status.error = None;
                self.downloads[i].signal_armed = true;
                self.downloads[i].running = true;
                if !was_running {
                    self.active_count = self.active_count + 1;
                }
                proof {
                    assert(self@.entries =~= old(self)@.entries.update(i as int, ne));
                }
                let plan = TransferPlan {
                    url: self.downloads[i].request.url.clone(),
                    directory: self.download_path.clone(),
                    filename: self.downloads[i].request.filename.clone(),
                };
                Ok(StartOutcome::Spawn(plan))
            },
        }
    }

    /// Starts the download `download_id`. `disk_free_kb` is the free space of
    /// the destination volume in kibibytes, or `None` where it is unknown.
    /// A download already in flight is left as it is. When the destination
    /// lacks room the download fails and no transfer is asked for; otherwise
    /// it is marked in flight, with its signal armed, and the caller is to
    /// run the transfer that the returned plan describes.
    pub fn start_download(&mut self, download_id: &str, disk_free_kb: Option<u64>) -> (r: Result<StartOutcome, DownloadError>)
        requires
            old(self).wf(),
        ensures
            final(self).wf(),
            match position(old(self)@, download_id@) {
                None => (r matches Err(DownloadError::NotFound)) && final(self)@ == old(self)@,
                Some(i) => final(self)@ == after_start(old(self)@, i, disk_free_kb)
                    && start_result(old(self)@, i, disk_free_kb, r),
            },
    {
        let id = String::from_str(download_id);
        match self.find(&id) {
            None => Err(DownloadError::NotFound),
            Some(i) => self.start_at(i, disk_free_kb),
        }
    }

    /// Resumes the download `download_id`: the same as starting it, since a
    /// transfer picks up from the bytes already on disk by itself.
    pub fn resume_download(&mut self, download_id: &str, disk_free_kb: Option<u64>) -> (r: Result<StartOutcome, DownloadError>)
        requires
            old(self).wf(),
        ensures
            final(self).wf(),
            match position(old(self)@, download_id@) {
                None => (r matches Err(DownloadError::NotFound)) && final(self)@ == old(self)@,
                Some(i) => final(self)@ == after_start(old(self)@, i, disk_free_kb)
                    && start_result(old(self)@, i, disk_free_kb, r),
            },
    {
        self.start_download(download_id, disk_free_kb)
    }

    /// Pauses the download `download_id`: takes its cancellation signal, and
    /// marks it paused if it was in flight. Where the result asks for it, the
    /// caller fires the signal and waits for the transfer to end.
    pub fn pause_download(&mut self, download_id: &str) -> (r: Result<StopAction, DownloadError>)
        requires
            old(self).wf(),
        ensures
            final(self).wf(),
            match position(old(self)@, download_id@) {
                None => (r matches Err(DownloadError::NotFound)) && final(self)@ == old(self)@,
                Some(i) => final(self)@ == after_pause(old(self)@, i)
                    && r == Ok::<StopAction, DownloadError>(stop_action(old(self)@, i)),
            },
    {
        let id = String::from_str(download_id);
        match self.find(&id) {
            None => Err(DownloadError::NotFound),
            Some(i) => {
                let ghost e = self@.entries[i as int];
                let action = if self.downloads[i].signal_armed {
                    StopAction::SignalTask
                } else {
                    StopAction::Nothing
                };
                let state = if self.downloads[i].status.state == DownloadState::Downloading {
                    DownloadState::Paused
                } else {
                    self.downloads[i].status.state
                };
                let ghost ne = EntryView { status: StatusView { state, ..e.status }, signal_armed: false, ..e };
                proof {
                    lemma_replace_wf(self@, i as int, ne);
                }
                self.downloads[i].status.state = state;
                self.downloads[i].signal_armed = false;
                proof {
                    assert(self@.entries =~= old(self)@.entries.update(i as int, ne));
                }
                Ok(action)
            },
        }
    }

    /// Cancels the download `download_id`: marks it cancelled before anything
    /// else, then takes its cancellation signal. Where the result asks for it,
    /// the caller fires the signal and waits for the transfer to end.
    pub fn cancel_download(&mut self, download_id: &str) -> (r: Result<StopAction, DownloadError>)
        requires
            old(self).wf(),
        ensures
            final(self).wf(),
            match position(old(self)@, download_id@) {
                None => (r matches Err(DownloadError::NotFound)) && final(self)@ == old(self)@,
                Some(i) => final(self)@ == after_cancel(old(self)@, i)
                    && r == Ok::<StopAction, DownloadError>(stop_action(old(self)@, i)),
            },
    {
        let id = String::from_str(download_id);
        match self.find(&id) {
            None => Err(DownloadError::NotFound),
            Some(i) => {
                let ghost e = self@.entries[i as int];
                let ghost ne = EntryView {
                    status: StatusView { state: DownloadState::Cancelled, error: None, ..e.status },
                    signal_armed: false,
                    ..e
                };
                proof {
                    lemma_replace_wf(self@, i as int, ne);
                }
                self.downloads[i].status.state = DownloadState::Cancelled;
                self.downloads[i].status.error = None;
                let action = if self.downloads[i].signal_armed {
                    StopAction::SignalTask
                } else {
                    StopAction::Nothing
                };
                self.downloads[i].signal_armed = false;
                proof {
                    assert(self@.entries =~= old(self)@.entries.update(i as int, ne));
                }
                Ok(action)
            },
        }
    }

    /// Retries the failed download `download_id`: clears its error, sets its
    /// progress back to zero and queues it, then starts it as
    /// `start_download` does. The bytes already on disk are kept.
    pub fn retry_download(&mut self, download_id: &str, disk_free_kb: Option<u64>) -> (r: Result<StartOutcome, DownloadError>)
        requires
            old(self).wf(),
        ensures
            final(self).wf(),
            match position(old(self)@, download_id@) {
                None => (r matches Err(DownloadError::NotFound)) && final(self)@ == old(self)@,
                Some(i) => if old(self)@.entries[i].status.state != DownloadState::Failed {
                    (r matches Err(DownloadError::InvalidState)) && final(self)@ == old(self)@
                } else {
                    final(self)@ == after_start(after_retry_reset(old(self)@, i), i, disk_free_kb)
                        && start_result(after_retry_reset(old(self)@, i), i, disk_free_kb, r)
                },
            },
    {
        let id = String::from_str(download_id);
        match self.find(&id) {
            None => Err(DownloadError::NotFound),
            Some(i) => {
                if self.downloads[i].status.state != DownloadState::Failed {
                    return Err(DownloadError::InvalidState);
                }
                let ghost e = self@.entries[i as int];
                let ghost ne = EntryView {
                    status: StatusView {
                        state: DownloadState::Queued,
                        error: None,
                        downloaded_bytes: 0,
                        ..e.status
                    },
                    ..e
                };
                proof {
                    lemma_replace_wf(self@, i as int, ne);
                }
                self.downloads[i].status.error = None;
                self.downloads[i].status.downloaded_bytes = 0;
                self.downloads[i].status.state = DownloadState::Queued;
                proof {
                    assert(self@.entries =~= old(self)@.entries.update(i as int, ne));
                }
                self.start_at(i, disk_free_kb)
            },
        }
    }

    /// A point-in-time copy of every status record, in the order the
    /// downloads were added.
    pub fn get_all_downloads(&self) -> (r: Vec<DownloadStatus>)
        requires
            self.wf(),
        ensures
            r@.len() == self@.entries.len(),
            forall|k: int| 0 <= k < r@.len() ==> r@[k]@ == self@.entries[k].status,
    {
        let mut statuses: Vec<DownloadStatus> = Vec::new();
        let mut k: usize = 0;
        while k < self.downloads.len()
            invariant
                k <= self.downloads@.len(),
                self@.entries.len() == self.downloads@.len(),
                statuses@.len() == k,
                forall|j: int| 0 <= j < k ==> statuses@[j]@ == self@.entries[j].status,
            decreases self.downloads@.len() - k,
        {
            statuses.push(self.downloads[k].status.snapshot());
            k = k + 1;
        }
        statuses
    }

    /// Applies the end of the transfer of `download_id`: a finished transfer
    /// completes the download, a failed one fails it unless it was cancelled,
    /// a stopped one leaves its state as it is. The transfer no longer runs.
    pub fn finish_transfer(&mut self, download_id: &str, outcome: TransferOutcome) -> (r: Result<(), DownloadError>)
        requires
            old(self).wf(),
        ensures
            final(self).wf(),
            match position(old(self)@, download_id@) {
                None => (r matches Err(DownloadError::NotFound)) && final(self)@ == old(self)@,
                Some(i) => final(self)@ == after_finish(old(self)@, i, outcome) && r is Ok,
            },
    {
        let id = String::from_str(download_id);
        match self.find(&id) {
            None => Err(DownloadError::NotFound),
            Some(i) => {
                let ghost e = self@.entries[i as int];
                let ghost ne = EntryView {
                    status: written_back(e.status, outcome),
                    signal_armed: false,
                    running: false,
                    ..e
                };
                proof {
                    lemma_replace_wf(self@, i as int, ne);
                }
                match outcome {
                    TransferOutcome::Finished => {
                        if self.downloads[i].status.state != DownloadState::Cancelled {
                            self.downloads[i].status.state = DownloadState::Completed;
                            self.downloads[i].status.error = None;
                        }
                    },
                    TransferOutcome::Stopped => {},
                    TransferOutcome::Failed(err) => {
                        if self.downloads[i].status.state != DownloadState::Cancelled {
                            self.downloads[i].status.state = DownloadState::Failed;
                            self.downloads[i].status.error = Some(err.message());
                        }
                    },
                }
                if self.downloads[i].running {
                    self.active_count = self.active_count - 1;
                }
                self.downloads[i].signal_armed = false;
                self.downloads[i].running = false;
                proof {
                    assert(self@.entries =~= old(self)@.entries.update(i as int, ne));
                }
                Ok(())
            },
        }
    }

    /// Publishes the progress of the transfer of `download_id`.
    pub fn record_progress(&mut self, download_id: &str, downloaded: u64, speed_bps: u64) -> (r: Result<(), DownloadError>)
        requires
            old(self).wf(),
        ensures
            final(self).wf(),
            match position(old(self)@, download_id@) {
                None => (r matches Err(DownloadError::NotFound)) && final(self)@ == old(self)@,
                Some(i) => final(self)@ == after_progress(old(self)@, i, downloaded, speed_bps) && r is Ok,
            },
    {
        let id = String::from_str(download_id);
        match self.find(&id) {
            None => Err(DownloadError::NotFound),
            Some(i) => {
                let ghost e = self@.entries[i as int];
                let ghost ne = EntryView {
                    status: StatusView { downloaded_bytes: downloaded, speed_bps, ..e.status },
                    ..e
                };
                proof {
                    lemma_replace_wf(self@, i as int, ne);
                }
                self.downloads[i].status.downloaded_bytes = downloaded;
                self.downloads[i].status.speed_bps = speed_bps;
                proof {
                    assert(self@.entries =~= old(self)@.entries.update(i as int, ne));
                }
                Ok(())
            },
        }
    }

    /// Publishes where the transfer of `download_id` resumes: the size of the
    /// partial file already on disk, zero where there is none.
    pub fn record_resume_offset(&mut self, download_id: &str, offset: u64) -> (r: Result<(), DownloadError>)
        requires
            old(self).wf(),
        ensures
            final(self).wf(),
            match position(old(self)@, download_id@) {
                None => (r matches Err(DownloadError::NotFound)) && final(self)@ == old(self)@,
                Some(i) => final(self)@ == after_resume_offset(old(self)@, i, offset) && r is Ok,
            },
    {
        let id = String::from_str(download_id);
        match self.find(&id) {
            None => Err(DownloadError::NotFound),
            Some(i) => {
                let ghost e = self@.entries[i as int];
                let ghost ne = EntryView { status: StatusView { downloaded_bytes: offset, ..e.status }, ..e };
                proof {
                    lemma_replace_wf(self@, i as int, ne);
                }
                self.downloads[i].status.downloaded_bytes = offset;
                proof {
                    assert(self@.entries =~= old(self)@.entries.update(i as int, ne));
                }
                Ok(())
            },
        }
    }

    /// How many transfers are running.
    pub fn active_count(&self) -> (r: usize)
        ensures
            r == self@.active_count,
    {
        self.active_count
    }

    /// The admission ceiling.
    pub fn max_concurrent(&self) -> (r: usize)
        ensures
            r == self@.max_concurrent,
    {
        self.max_concurrent
    }

    /// The directory that downloads are written into.
    pub fn download_path(&self) -> (r: String)
        ensures
            r@ == self@.download_path,
    {
        self.download_path.clone()
    }

    /// The server address.
    pub fn server_url(&self) -> (r: String)
        ensures
            r@ == self@.server_url,
    {
        self.server_url.clone()
    }

    /// The token sent to the server, if any.
    pub fn auth_token(&self) -> (r: Option<String>)
        ensures
            opt_view(r) == self@.auth_token,
    {
        clone_opt_string(&self.auth_token)
    }
}

/// A download just added is listed exactly once, queued, with nothing
/// transferred and the total that its request declared.
pub proof fn lemma_add_then_list(m: ManagerView, id: Seq<char>, req: RequestView)
    requires
        manager_wf(m),
    ensures
        ids_unique(after_insert(m, id, req).entries),
        position(after_insert(m, id, req), id) matches Some(i) && after_insert(m, id, req).entries[i].status
            == queued_status(id, req),
        forall|k: int|
            0 <= k < after_insert(m, id, req).entries.len() && after_insert(m, id, req).entries[k].status.id
                == id ==> position(after_insert(m, id, req), id) == Some(k),
        queued_status(id, req).state == DownloadState::Queued,
        queued_status(id, req).downloaded_bytes == 0,
        queued_status(id, req).total_bytes == req.size,
{
    let n = after_insert(m, id, req);
    let e = fresh_entry(id, req);
    match position(m, id) {
        Some(i) => {
            lemma_position_unique(m, id, i);
            lemma_replace_wf(m, i, e);
        },
        None => {
            let s = m.entries;
            assert(s.push(e).drop_last() =~= s);
            assert forall|a: int, b: int|
                0 <= a < s.push(e).len() && 0 <= b < s.push(e).len() && a != b implies s.push(e)[a].status.id
                != s.push(e)[b].status.id by {
                if a < s.len() && b < s.len() {
                } else if a == s.len() {
                    assert(s[b].status.id != id);
                } else {
                    assert(s[a].status.id != id);
                }
            }
            lemma_position_unique(n, id, s.len() as int);
        },
    }
    assert forall|k: int| 0 <= k < n.entries.len() && n.entries[k].status.id == id implies position(n, id)
        == Some(k) by {
        lemma_position_unique(n, id, k);
    }
}

/// Starting a download that is already in flight changes nothing and asks
/// for no transfer.
pub proof fn lemma_start_in_flight_is_noop(m: ManagerView, i: int, free_kb: Option<u64>, r: Result<StartOutcome, DownloadError>)
    requires
        manager_wf(m),
        0 <= i < m.entries.len(),
        m.entries[i].status.state == DownloadState::Downloading,
        start_result(m, i, free_kb, r),
    ensures
        after_start(m, i, free_kb) == m,
        r matches Ok(StartOutcome::AlreadyActive),
{
}

/// Pausing a download that is not in flight leaves its record as it is, and
/// asks for nothing where no signal is armed.
pub proof fn lemma_pause_idle_is_noop(m: ManagerView, i: int)
    requires
        manager_wf(m),
        0 <= i < m.entries.len(),
        m.entries[i].status.state != DownloadState::Downloading,
    ensures
        after_pause(m, i).entries[i].status == m.entries[i].status,
        !m.entries[i].signal_armed ==> stop_action(m, i) == StopAction::Nothing,
{
}

/// A cancelled download stays cancelled, without an error, whatever its
/// transfer reports afterwards.
pub proof fn lemma_cancel_is_final(m: ManagerView, i: int, outcome: TransferOutcome)
    requires
        manager_wf(m),
        0 <= i < m.entries.len(),
    ensures
        after_cancel(m, i).entries[i].status.state == DownloadState::Cancelled,
        after_finish(after_cancel(m, i), i, outcome).entries[i].status.state == DownloadState::Cancelled,
        after_finish(after_cancel(m, i), i, outcome).entries[i].status.error is None,
{
}

/// Starting a download for which the destination lacks room fails it at
/// once: the caller gets the insufficient-space error, no signal is armed
/// and nothing else of the record or the registry's count changes.
pub proof fn lemma_insufficient_space_fails(
    m: ManagerView,
    i: int,
    free_kb: Option<u64>,
    r: Result<StartOutcome, DownloadError>,
)
    requires
        manager_wf(m),
        0 <= i < m.entries.len(),
        m.entries[i].status.state != DownloadState::Downloading,
        preflight(m.entries[i].request.size, free_kb) is Some,
        start_result(m, i, free_kb, r),
    ensures
        r matches Err(DownloadError::InsufficientSpace { .. }),
        after_start(m, i, free_kb).entries[i].status.state == DownloadState::Failed,
        !after_start(m, i, free_kb).entries[i].signal_armed,
        after_start(m, i, free_kb).entries[i].running == m.entries[i].running,
        after_start(m, i, free_kb).entries[i].status.downloaded_bytes == m.entries[i].status.downloaded_bytes,
        after_start(m, i, free_kb).active_count == m.active_count,
{
    assert(entry_consistent(m.entries[i]));
}

/// A retried download is queued again, with no error and no progress, and
/// then put in flight where the destination has room.
pub proof fn lemma_retry_requeues(m: ManagerView, i: int, free_kb: Option<u64>)
    requires
        manager_wf(m),
        0 <= i < m.entries.len(),
        m.entries[i].status.state == DownloadState::Failed,
        preflight(m.entries[i].request.size, free_kb) is None,
    ensures
        after_retry_reset(m, i).entries[i].status.state == DownloadState::Queued,
        after_retry_reset(m, i).entries[i].status.error is None,
        after_retry_reset(m, i).entries[i].status.downloaded_bytes == 0,
        after_start(after_retry_reset(m, i), i, free_kb).entries[i].status.state == DownloadState::Downloading,
        after_start(after_retry_reset(m, i), i, free_kb).entries[i].signal_armed,
{
}

} // verus!
