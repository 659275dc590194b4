//! The rules of one transfer: the free-space preflight, the resume request, the
//! bounded retry of the initial exchange, and the cadence of progress reports.

use vstd::prelude::*;
use crate::classify::{DownloadError, TransportFailure, format_network_error};
use crate::decimal::{decimal, decimal_string};

verus! {

/// Room kept free on the destination beyond the declared size, in bytes.
pub const SPACE_MARGIN: u64 = 104857600;

/// Attempts of the initial request before a transfer fails.
pub const MAX_ATTEMPTS: u32 = 3;

/// Pause between two attempts of the initial request, in milliseconds.
pub const RETRY_DELAY_MS: u64 = 2000;

/// Shortest interval between two progress reports, in milliseconds.
pub const PROGRESS_INTERVAL_MS: u64 = 100;

/// Time allowed to one request, in seconds.
pub const REQUEST_TIMEOUT_SECS: u64 = 300;

/// Bytes in a mebibyte.
pub const MIB: u64 = 1048576;

/// Whether `free_kb` kibibytes of free space hold `required` bytes and the margin.
pub open spec fn space_suffices(required: u64, free_kb: u64) -> bool {
    free_kb * 1024 >= required + SPACE_MARGIN
}

/// What the preflight check yields for a transfer of `required` bytes, when the
/// destination reports `free_kb` kibibytes free, or nothing could be learned.
pub open spec fn preflight(required: u64, free_kb: Option<u64>) -> Option<(u64, u64)> {
    match free_kb {
        Some(kb) => if space_suffices(required, kb) {
            None
        } else {
            Some((((required + SPACE_MARGIN) / MIB as int) as u64, (kb / 1024) as u64))
        },
        None => None,
    }
}

/// Checks that the destination can take `required_bytes` more bytes plus the
/// safety margin. `free_kb` is the free space the volume reports, in
/// kibibytes, or `None` where it could not be determined: the check then lets
/// the transfer proceed.
pub fn check_disk_space(required_bytes: u64, free_kb: Option<u64>) -> (r: Result<(), DownloadError>)
    ensures
        match preflight(required_bytes, free_kb) {
            None => r is Ok,
            Some((req_mb, avail_mb)) => (r matches Err(DownloadError::InsufficientSpace { required_mb, available_mb })
                && required_mb == req_mb && available_mb == avail_mb),
        },
{
    match free_kb {
        None => Ok(()),
        Some(kb) => {
            let required: u128 = required_bytes as u128 + SPACE_MARGIN as u128;
            let available: u128 = kb as u128 * 1024;
            if available < required {
                let required_mb = (required / MIB as u128) as u64;
                let available_mb = kb / 1024;
                Err(DownloadError::InsufficientSpace { required_mb, available_mb })
            } else {
                Ok(())
            }
        },
    }
}

/// The value of the header that asks for the bytes from `offset` onward.
pub open spec fn range_value(offset: u64) -> Seq<char> {
    "bytes="@ + decimal(offset as nat) + "-"@
}

/// The range header value of a request that resumes at `start_pos`: none when
/// the transfer starts from the beginning.
pub fn range_header(start_pos: u64) -> (r: Option<String>)
    ensures
        start_pos == 0 ==> r is None,
        start_pos > 0 ==> (r matches Some(v) && v@ == range_value(start_pos)),
{
    if start_pos == 0 {
        None
    } else {
        let mut s = String::from_str("bytes=");
        s.append(decimal_string(start_pos).as_str());
        s.append("-");
        Some(s)
    }
}

/// How an attempt of the initial request ended.
#[derive(Debug)]
pub enum AttemptOutcome {
    /// The server answered with this status.
    Response(u16),
    /// The request failed before an answer came.
    Transport(TransportFailure),
}

/// What the transfer does after an attempt of the initial request.
#[derive(Debug)]
pub enum AttemptDecision {
    /// The answer is accepted: stream its body.
    Stream,
    /// Wait this many milliseconds, then make the next attempt.
    RetryAfter(u64),
    /// Give up with this error.
    Fail(DownloadError),
}

/// Whether an answer with status `code` is accepted: success or partial content.
pub open spec fn accepted(code: u16) -> bool {
    200 <= code <= 299
}

/// Decides what follows attempt number `attempt` (counted from one) of the
/// initial request, which ended with `outcome`.
pub fn decide_attempt(attempt: u32, outcome: &AttemptOutcome) -> (r: AttemptDecision)
    requires
        1 <= attempt <= MAX_ATTEMPTS,
    ensures
        match outcome {
            AttemptOutcome::Response(code) => if accepted(*code) {
                r is Stream
            } else if attempt < MAX_ATTEMPTS {
                r == AttemptDecision::RetryAfter(RETRY_DELAY_MS)
            } else {
                r == AttemptDecision::Fail(DownloadError::Http(*code))
            },
            AttemptOutcome::Transport(f) => if attempt < MAX_ATTEMPTS {
                r == AttemptDecision::RetryAfter(RETRY_DELAY_MS)
            } else {
                (r matches AttemptDecision::Fail(DownloadError::Network(m)) && m@ == f.text())
            },
        },
{
    match outcome {
        AttemptOutcome::Response(code) => {
            if 200 <= *code && *code <= 299 {
                AttemptDecision::Stream
            } else if attempt < MAX_ATTEMPTS {
                AttemptDecision::RetryAfter(RETRY_DELAY_MS)
            } else {
                AttemptDecision::Fail(DownloadError::Http(*code))
            }
        },
        AttemptOutcome::Transport(f) => {
            if attempt < MAX_ATTEMPTS {
                AttemptDecision::RetryAfter(RETRY_DELAY_MS)
            } else {
                AttemptDecision::Fail(DownloadError::Network(format_network_error(f)))
            }
        },
    }
}

/// The largest `u64`.
pub const U64_MAX: u64 = 0xffff_ffff_ffff_ffff;

/// Bytes per second after `transferred` bytes in `elapsed_ms` milliseconds,
/// rounded down; zero when no time has passed, and at most the largest `u64`.
pub open spec fn throughput(transferred: int, elapsed_ms: int) -> u64 {
    if elapsed_ms <= 0 {
        0
    } else if transferred * 1000 / elapsed_ms > U64_MAX {
        U64_MAX
    } else {
        (transferred * 1000 / elapsed_ms) as u64
    }
}

/// A progress figure to publish into the status record.
#[derive(Debug)]
pub struct ProgressReport {
    pub downloaded: u64,
    pub speed_bps: u64,
}

/// The running count of one stream: where it resumed, how far it has come, when
/// it started and when it last reported, in milliseconds of a monotonic clock.
#[derive(Debug)]
pub struct ProgressMeter {
    pub start_pos: u64,
    pub downloaded: u64,
    pub started_ms: u64,
    pub last_report_ms: u64,
}

/// The meter after a chunk of `len` bytes arrived at `now_ms`, with the report
/// that is due then, if any.
pub open spec fn after_chunk(m: ProgressMeter, len: u64, now_ms: u64) -> (ProgressMeter, Option<ProgressReport>) {
    let downloaded = (m.downloaded + len) as u64;
    if now_ms >= m.last_report_ms + PROGRESS_INTERVAL_MS {
        (
            ProgressMeter { downloaded, last_report_ms: now_ms, ..m },
            Some(ProgressReport {
                downloaded,
                speed_bps: throughput(downloaded - m.start_pos, now_ms - m.started_ms),
            }),
        )
    } else {
        (ProgressMeter { downloaded, ..m }, None)
    }
}

impl ProgressMeter {
    pub open spec fn wf(&self) -> bool {
        self.start_pos <= self.downloaded
    }

    /// A meter for a stream that resumes at `start_pos` and starts at `now_ms`.
    pub fn new(start_pos: u64, now_ms: u64) -> (r: ProgressMeter)
        ensures
            r.wf(),
            r == (ProgressMeter { start_pos, downloaded: start_pos, started_ms: now_ms, last_report_ms: now_ms }),
    {
        ProgressMeter { start_pos, downloaded: start_pos, started_ms: now_ms, last_report_ms: now_ms }
    }

    /// Counts a chunk of `len` bytes that arrived at `now_ms`, and returns the
    /// report to publish when the last one is at least the interval old.
    pub fn on_chunk(&mut self, len: u64, now_ms: u64) -> (r: Option<ProgressReport>)
        requires
            old(self).wf(),
            old(self).downloaded + len <= U64_MAX,
        ensures
            final(self).wf(),
            (*final(self), r) == after_chunk(*old(self), len, now_ms),
    {
        self.downloaded = self.downloaded + len;
        if now_ms >= self.last_report_ms && now_ms - self.last_report_ms >= PROGRESS_INTERVAL_MS {
            self.last_report_ms = now_ms;
            Some(self.final_report(now_ms))
        } else {
            None
        }
    }

    /// The report of the count so far, as of `now_ms`: what the end of a
    /// stream publishes, whatever the interval.
    pub fn final_report(&self, now_ms: u64) -> (r: ProgressReport)
        requires
            self.wf(),
        ensures
            r == (ProgressReport {
                downloaded: self.downloaded,
                speed_bps: throughput(self.downloaded - self.start_pos, now_ms - self.started_ms),
            }),
    {
        let transferred: u64 = self.downloaded - self.start_pos;
        let speed: u64 = if now_ms > self.started_ms {
            let elapsed: u64 = now_ms - self.started_ms;
            proof {
                assert((transferred as int) * 1000 <= (U64_MAX as int) * 1000) by (nonlinear_arith)
                    requires transferred <= U64_MAX;
            }
            let v: u128 = transferred as u128 * 1000 / elapsed as u128;
            if v > U64_MAX as u128 {
                U64_MAX
            } else {
                v as u64
            }
        } else {
            0
        };
        ProgressReport { downloaded: self.downloaded, speed_bps: speed }
    }
}

/// The sum of the lengths of `chunks`, each a length and an arrival time.
pub open spec fn chunk_total(chunks: Seq<(u64, u64)>) -> int
    decreases chunks.len(),
{
    if chunks.len() == 0 {
        0
    } else {
        chunk_total(chunks.drop_last()) + chunks.last().0
    }
}

/// The meter after each of `chunks` arrived in turn.
pub open spec fn meter_after(m: ProgressMeter, chunks: Seq<(u64, u64)>) -> ProgressMeter
    decreases chunks.len(),
{
    if chunks.len() == 0 {
        m
    } else {
        after_chunk(meter_after(m, chunks.drop_last()), chunks.last().0, chunks.last().1).0
    }
}

/// The counts published while `chunks` arrived in turn, in order.
pub open spec fn published(m: ProgressMeter, chunks: Seq<(u64, u64)>) -> Seq<u64>
    decreases chunks.len(),
{
    if chunks.len() == 0 {
        Seq::empty()
    } else {
        let before = published(m, chunks.drop_last());
        match after_chunk(meter_after(m, chunks.drop_last()), chunks.last().0, chunks.last().1).1 {
            Some(rep) => before.push(rep.downloaded),
            None => before,
        }
    }
}

/// Over a whole stream, the published counts never go back: each lies
/// between the resume point and the final count, which is the resume point
/// plus every byte received (the count that `final_report` publishes).
pub proof fn lemma_stream_progress(m: ProgressMeter, chunks: Seq<(u64, u64)>)
    requires
        m.wf(),
        m.downloaded + chunk_total(chunks) <= U64_MAX,
    ensures
        chunk_total(chunks) >= 0,
        meter_after(m, chunks).wf(),
        meter_after(m, chunks).start_pos == m.start_pos,
        meter_after(m, chunks).downloaded == m.downloaded + chunk_total(chunks),
        forall|a: int, b: int|
            0 <= a <= b < published(m, chunks).len() ==> #[trigger] published(m, chunks)[a]
                <= #[trigger] published(m, chunks)[b],
        forall|a: int|
            0 <= a < published(m, chunks).len() ==> m.downloaded <= #[trigger] published(m, chunks)[a]
                && published(m, chunks)[a] <= meter_after(m, chunks).downloaded,
    decreases chunks.len(),
{
    if chunks.len() > 0 {
        let init = chunks.drop_last();
        assert(chunk_total(init) <= chunk_total(chunks));
        lemma_stream_progress(m, init);
        let p0 = published(m, init);
        let mm = meter_after(m, init);
        let step = after_chunk(mm, chunks.last().0, chunks.last().1);
        let ps = published(m, chunks);
        assert(step.0.downloaded == mm.downloaded + chunks.last().0);
        match step.1 {
            Some(rep) => {
                assert(ps == p0.push(rep.downloaded));
                assert(rep.downloaded == step.0.downloaded);
                assert forall|a: int, b: int| 0 <= a <= b < ps.len() implies #[trigger] ps[a] <= #[trigger] ps[b] by {
                    if b < p0.len() {
                        assert(ps[a] == p0[a] && ps[b] == p0[b]);
                    } else if a < p0.len() {
                        assert(ps[a] == p0[a]);
                    }
                }
                assert forall|a: int| 0 <= a < ps.len() implies m.downloaded <= #[trigger] ps[a] && ps[a]
                    <= step.0.downloaded by {
                    if a < p0.len() {
                        assert(ps[a] == p0[a]);
                    }
                }
            },
            None => {
                assert(ps == p0);
            },
        }
    }
}

/// Progress never goes back, and stays within the declared total while the
/// bytes received do: after a chunk the count has grown by the chunk's length,
/// and a report publishes that count.
pub proof fn lemma_progress_monotone(m: ProgressMeter, len: u64, now_ms: u64, total: u64)
    requires
        m.wf(),
        m.downloaded + len <= total,
    ensures
        after_chunk(m, len, now_ms).0.wf(),
        m.downloaded <= after_chunk(m, len, now_ms).0.downloaded <= total,
        after_chunk(m, len, now_ms).1 matches Some(rep) ==> m.downloaded <= rep.downloaded <= total,
{
}

/// How a transfer ended.
#[derive(Debug)]
pub enum TransferOutcome {
    /// The body was received to its end and flushed.
    Finished,
    /// The cancellation signal arrived before the end of the body.
    Stopped,
    /// The transfer failed with this error.
    Failed(DownloadError),
}

} // verus!
