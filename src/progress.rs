//! Download bookkeeping: status and size checks, byte counts, and the
//! time-governed cadence of progress reports.

use vstd::prelude::*;

verus! {

/// The least time between two progress reports, in milliseconds.
pub const REPORT_INTERVAL_MS: u64 = 250;

/// What a progress report is about.
#[derive(Clone, Copy, Debug, PartialEq, Eq, Structural)]
pub enum AssetKind {
    Assets,
    Libraries,
    VersionJar,
}

/// Why a download failed.
#[derive(Clone, Debug, PartialEq, Eq)]
pub enum DownloadError {
    /// The server answered with a status outside 200..=299.
    HttpStatus(u16),
    /// The response gave no content length, so no percentage can be computed.
    SizeUnknown,
    /// Writing to disk failed.
    IoError(String),
    /// The connection failed.
    NetworkError(String),
}

/// The whole-number percentage of `done` out of `total`, at most 100.
pub open spec fn percent_spec(done: int, total: int) -> int {
    if total <= 0 || done >= total {
        100
    } else {
        done * 100 / total
    }
}

/// The percentage of `done` out of `total`; an empty total counts as complete.
pub fn percent(done: u64, total: u64) -> (r: u64)
    ensures
        r == percent_spec(done as int, total as int),
        r <= 100,
{
    if total == 0 || done >= total {
        100
    } else {
        let wide: u128 = (done as u128) * 100 / (total as u128);
        proof {
            assert((done as int) * 100 / (total as int) < 100) by (nonlinear_arith)
                requires
                    done < total,
                    total > 0,
            ;
        }
        wide as u64
    }
}

/// Decides when a progress report may go out: at most one per
/// `REPORT_INTERVAL_MS`, whatever the number of chunks.
#[derive(Clone, Copy, Debug)]
pub struct ProgressGovernor {
    pub last_emit_ms: u64,
}

impl ProgressGovernor {
    /// A governor whose interval starts at `now_ms`.
    pub fn new(now_ms: u64) -> (r: Self)
        ensures
            r.last_emit_ms == now_ms,
    {
        ProgressGovernor { last_emit_ms: now_ms }
    }

    /// Whether a report may go out at `now_ms`; when it may, the interval restarts there.
    pub fn tick(&mut self, now_ms: u64) -> (r: bool)
        ensures
            r == (now_ms >= old(self).last_emit_ms && now_ms - old(self).last_emit_ms
                >= REPORT_INTERVAL_MS),
            r ==> final(self).last_emit_ms == now_ms,
            !r ==> *final(self) == *old(self),
    {
        if now_ms >= self.last_emit_ms && now_ms - self.last_emit_ms >= REPORT_INTERVAL_MS {
            self.last_emit_ms = now_ms;
            true
        } else {
            false
        }
    }
}

/// Two reports that a governor lets through are at least `REPORT_INTERVAL_MS`
/// apart, so no more than four go out in any second.
pub proof fn lemma_reports_spaced(g0: ProgressGovernor, t1: u64, g1: ProgressGovernor, t2: u64)
    requires
        t1 >= g0.last_emit_ms && t1 - g0.last_emit_ms >= REPORT_INTERVAL_MS,
        g1.last_emit_ms == t1,
        t2 >= g1.last_emit_ms && t2 - g1.last_emit_ms >= REPORT_INTERVAL_MS,
    ensures
        t2 - t1 >= REPORT_INTERVAL_MS,
{
}

/// A transfer in progress: its announced size, what has arrived, and its
/// report cadence.
#[derive(Clone, Copy, Debug)]
pub struct DownloadSession {
    pub total: u64,
    pub received: u64,
    pub governor: ProgressGovernor,
}

/// Whether an HTTP status means success.
pub open spec fn is_success(status: u16) -> bool {
    200 <= status && status <= 299
}

/// Checks the status of a response: one outside 200..=299 is `HttpStatus`.
pub fn check_status(status: u16) -> (r: Result<(), DownloadError>)
    ensures
        r is Ok <==> is_success(status),
        r is Err ==> r == Err::<(), DownloadError>(DownloadError::HttpStatus(status)),
{
    if 200 <= status && status <= 299 {
        Ok(())
    } else {
        Err(DownloadError::HttpStatus(status))
    }
}

impl DownloadSession {
    /// Checks a response before its body is read: a status outside 200..=299 is
    /// `HttpStatus`, a missing content length is `SizeUnknown`.
    pub fn start(status: u16, content_length: Option<u64>, now_ms: u64) -> (r: Result<
        DownloadSession,
        DownloadError,
    >)
        ensures
            !is_success(status) ==> r == Err::<DownloadSession, DownloadError>(
                DownloadError::HttpStatus(status),
            ),
            is_success(status) && content_length is None ==> r == Err::<
                DownloadSession,
                DownloadError,
            >(DownloadError::SizeUnknown),
            is_success(status) && content_length is Some ==> (r matches Ok(s) && s.total
                == content_length->0 && s.received == 0 && s.governor.last_emit_ms == now_ms),
    {
        if !(200 <= status && status <= 299) {
            return Err(DownloadError::HttpStatus(status));
        }
        match content_length {
            None => Err(DownloadError::SizeUnknown),
            Some(total) => Ok(
                DownloadSession { total, received: 0, governor: ProgressGovernor::new(now_ms) },
            ),
        }
    }

    /// Counts a chunk of `len` bytes written at `now_ms`, and gives the
    /// percentage to report when the cadence allows one.
    pub fn on_chunk(&mut self, len: u64, now_ms: u64) -> (r: Option<u64>)
        ensures
            final(self).total == old(self).total,
            final(self).received == if old(self).received + len > u64::MAX { u64::MAX as int }
                else { old(self).received + len },
            r is Some == (now_ms >= old(self).governor.last_emit_ms && now_ms - old(
                self,
            ).governor.last_emit_ms >= REPORT_INTERVAL_MS),
            r matches Some(p) ==> p == percent_spec(
                final(self).received as int,
                final(self).total as int,
            ) && final(self).governor.last_emit_ms == now_ms,
            r is None ==> final(self).governor == old(self).governor,
    {
        self.received = self.received.saturating_add(len);
        if self.governor.tick(now_ms) {
            Some(percent(self.received, self.total))
        } else {
            None
        }
    }

    /// The report that closes a successful transfer.
    pub fn finish(&self) -> (r: u64)
        ensures
            r == 100,
    {
        100
    }
}

/// Progress over a count of items (asset objects, libraries).
#[derive(Clone, Copy, Debug)]
pub struct ItemProgress {
    pub total: u64,
    pub done: u64,
    pub governor: ProgressGovernor,
}

impl ItemProgress {
    pub fn new(total: u64, now_ms: u64) -> (r: Self)
        ensures
            r.total == total,
            r.done == 0,
            r.governor.last_emit_ms == now_ms,
    {
        ItemProgress { total, done: 0, governor: ProgressGovernor::new(now_ms) }
    }

    /// Counts one finished item, and gives the percentage to report when the
    /// cadence allows one.
    pub fn item_done(&mut self, now_ms: u64) -> (r: Option<u64>)
        requires
            old(self).done < u64::MAX,
        ensures
            final(self).total == old(self).total,
            final(self).done == old(self).done + 1,
            r is Some == (now_ms >= old(self).governor.last_emit_ms && now_ms - old(
                self,
            ).governor.last_emit_ms >= REPORT_INTERVAL_MS),
            r matches Some(p) ==> p == percent_spec(
                final(self).done as int,
                final(self).total as int,
            ),
    {
        self.done = self.done + 1;
        if self.governor.tick(now_ms) {
            Some(percent(self.done, self.total))
        } else {
            None
        }
    }
}

} // verus!
