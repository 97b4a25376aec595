use vstd::prelude::*;
use vstd::string::StringExecFns;
use crate::messages::{ErrorMsg, ProgressMsg};

verus! {

/// Where the analysis of a recording stands. `Done` and `Error` are terminal.
#[derive(Debug, Clone, Copy, PartialEq, Eq, Structural)]
pub enum AnalysisStatus {
    Pending,
    Running,
    Done,
    Error,
}

/// The ingested progress of one recording.
#[derive(Debug, Clone)]
pub struct RecordingProgress {
    pub status: AnalysisStatus,
    pub percent: Option<i32>,
    pub channel: Option<i32>,
    pub description: Option<String>,
    pub error: Option<String>,
    pub last_update: u64,
}

/// The mathematical model of a `RecordingProgress`.
pub struct ProgressView {
    pub status: AnalysisStatus,
    pub percent: Option<i32>,
    pub channel: Option<i32>,
    pub description: Option<Seq<char>>,
    pub error: Option<Seq<char>>,
    pub last_update: u64,
}

pub open spec fn text_view(o: Option<String>) -> Option<Seq<char>> {
    match o {
        Some(s) => Some(s@),
        None => None,
    }
}

impl View for RecordingProgress {
    type V = ProgressView;

    open spec fn view(&self) -> ProgressView {
        ProgressView {
            status: self.status,
            percent: self.percent,
            channel: self.channel,
            description: text_view(self.description),
            error: text_view(self.error),
            last_update: self.last_update,
        }
    }
}

pub open spec fn is_terminal(s: AnalysisStatus) -> bool {
    s == AnalysisStatus::Done || s == AnalysisStatus::Error
}

/// A progress report is stale when a percent is already stored and the report
/// carries none or a smaller one.
pub open spec fn is_stale(stored: Option<i32>, incoming: Option<i32>) -> bool {
    match stored {
        Some(p) => match incoming {
            Some(q) => p > q,
            None => true,
        },
        None => false,
    }
}

/// The percent order: no percent ranks below every percent.
pub open spec fn percent_le(a: Option<i32>, b: Option<i32>) -> bool {
    match a {
        None => true,
        Some(x) => match b {
            Some(y) => x <= y,
            None => false,
        },
    }
}

/// The stored error text for an error report: the error, a line break, the trace.
pub open spec fn rendered_error(e: ErrorMsg) -> Seq<char> {
    e.error@ + "\n"@ + e.trace@
}

/// The state of a recording that the ingestor has just been told about.
pub open spec fn pending_view(now: u64) -> ProgressView {
    ProgressView {
        status: AnalysisStatus::Pending,
        percent: None,
        channel: None,
        description: None,
        error: None,
        last_update: now,
    }
}

/// Progress after a recording-level result: done at 100 percent, unless terminal.
pub open spec fn after_recording_metrics(p: ProgressView, now: u64) -> ProgressView {
    if is_terminal(p.status) {
        p
    } else {
        ProgressView { status: AnalysisStatus::Done, percent: Some(100i32), last_update: now, ..p }
    }
}

/// Progress after a channel result: running, unless terminal.
pub open spec fn after_channel_metrics(p: ProgressView, now: u64) -> ProgressView {
    if is_terminal(p.status) {
        p
    } else {
        ProgressView { status: AnalysisStatus::Running, last_update: now, ..p }
    }
}

/// Progress after a progress report: a terminal or stale state keeps; a report
/// of 100 percent is done; any other is running with the report's fields.
pub open spec fn after_progress(p: ProgressView, m: ProgressMsg, now: u64) -> ProgressView {
    if is_terminal(p.status) || is_stale(p.percent, m.percent_done) {
        p
    } else if m.percent_done == Some(100i32) {
        ProgressView { status: AnalysisStatus::Done, percent: Some(100i32), last_update: now, ..p }
    } else {
        ProgressView {
            status: AnalysisStatus::Running,
            percent: m.percent_done,
            channel: m.channel,
            description: text_view(m.description),
            last_update: now,
            ..p
        }
    }
}

/// Progress after an error report: error with the rendered text, unless terminal.
pub open spec fn after_error(p: ProgressView, e: ErrorMsg, now: u64) -> ProgressView {
    if is_terminal(p.status) {
        p
    } else {
        ProgressView {
            status: AnalysisStatus::Error,
            error: Some(rendered_error(e)),
            last_update: now,
            ..p
        }
    }
}

/// Progress after a sequence of progress reports, the i-th arriving at `times[i]`.
pub open spec fn after_progress_all(p: ProgressView, msgs: Seq<ProgressMsg>, times: Seq<u64>) -> ProgressView
    decreases msgs.len(),
{
    if msgs.len() == 0 {
        p
    } else {
        after_progress(
            after_progress_all(p, msgs.drop_last(), times),
            msgs.last(),
            times[msgs.len() - 1],
        )
    }
}

/// One progress report never lowers the stored percent.
pub proof fn lemma_progress_step_monotone(p: ProgressView, m: ProgressMsg, now: u64)
    ensures
        percent_le(p.percent, after_progress(p, m, now).percent),
{
}

proof fn lemma_percent_le_trans(a: Option<i32>, b: Option<i32>, c: Option<i32>)
    requires
        percent_le(a, b),
        percent_le(b, c),
    ensures
        percent_le(a, c),
{
}

/// Whatever the order in which progress reports arrive, the stored percent
/// never decreases: after any prefix of the reports it is at most what it is
/// after any longer prefix.
pub proof fn lemma_progress_monotone(
    p: ProgressView,
    msgs: Seq<ProgressMsg>,
    times: Seq<u64>,
    i: int,
    j: int,
)
    requires
        0 <= i <= j <= msgs.len(),
    ensures
        percent_le(
            after_progress_all(p, msgs.take(i), times).percent,
            after_progress_all(p, msgs.take(j), times).percent,
        ),
    decreases j - i,
{
    if i == j {
    } else {
        lemma_progress_monotone(p, msgs, times, i, j - 1);
        let prev = msgs.take(j - 1);
        assert(msgs.take(j).drop_last() =~= prev);
        assert(msgs.take(j).last() == msgs[j - 1]);
        lemma_progress_step_monotone(
            after_progress_all(p, prev, times),
            msgs[j - 1],
            times[j - 1],
        );
        lemma_percent_le_trans(
            after_progress_all(p, msgs.take(i), times).percent,
            after_progress_all(p, prev, times).percent,
            after_progress_all(p, msgs.take(j), times).percent,
        );
    }
}

/// An error report that follows any progress reports sets the status to error
/// and stores the rendered error text, whatever percent was reached, as long
/// as those reports did not already end the job.
pub proof fn lemma_error_after_progress(
    p: ProgressView,
    msgs: Seq<ProgressMsg>,
    times: Seq<u64>,
    e: ErrorMsg,
    now: u64,
)
    requires
        !is_terminal(after_progress_all(p, msgs, times).status),
    ensures
        after_error(after_progress_all(p, msgs, times), e, now).status == AnalysisStatus::Error,
        after_error(after_progress_all(p, msgs, times), e, now).error == Some(rendered_error(e)),
        after_error(after_progress_all(p, msgs, times), e, now).percent
            == after_progress_all(p, msgs, times).percent,
{
}

impl RecordingProgress {
    /// The progress of a job that was just submitted.
    pub fn pending(now: u64) -> (r: RecordingProgress)
        ensures
            r@ == pending_view(now),
    {
        RecordingProgress {
            status: AnalysisStatus::Pending,
            percent: None,
            channel: None,
            description: None,
            error: None,
            last_update: now,
        }
    }

    pub fn is_terminal(&self) -> (r: bool)
        ensures
            r == is_terminal(self.status),
    {
        match self.status {
            AnalysisStatus::Done | AnalysisStatus::Error => true,
            _ => false,
        }
    }

    /// Applies the arrival of a recording-level result.
    pub fn on_recording_metrics(self, now: u64) -> (r: RecordingProgress)
        ensures
            r@ == after_recording_metrics(self@, now),
            is_terminal(self.status) ==> r == self,
    {
        if self.is_terminal() {
            self
        } else {
            RecordingProgress {
                status: AnalysisStatus::Done,
                percent: Some(100),
                last_update: now,
                ..self
            }
        }
    }

    /// Applies the arrival of a channel result.
    pub fn on_channel_metrics(self, now: u64) -> (r: RecordingProgress)
        ensures
            r@ == after_channel_metrics(self@, now),
            is_terminal(self.status) ==> r == self,
    {
        if self.is_terminal() {
            self
        } else {
            RecordingProgress { status: AnalysisStatus::Running, last_update: now, ..self }
        }
    }

    /// Applies a progress report; stale reports are discarded.
    pub fn on_progress(self, m: ProgressMsg, now: u64) -> (r: RecordingProgress)
        ensures
            r@ == after_progress(self@, m, now),
            is_terminal(self.status) || is_stale(self.percent, m.percent_done) ==> r == self,
    {
        if self.is_terminal() {
            return self;
        }
        let stale = match (self.percent, m.percent_done) {
            (Some(p), Some(q)) => p > q,
            (Some(_), None) => true,
            (None, _) => false,
        };
        if stale {
            self
        } else if m.percent_done == Some(100i32) {
            RecordingProgress {
                status: AnalysisStatus::Done,
                percent: Some(100),
                last_update: now,
                ..self
            }
        } else {
            RecordingProgress {
                status: AnalysisStatus::Running,
                percent: m.percent_done,
                channel: m.channel,
                description: m.description,
                last_update: now,
                ..self
            }
        }
    }

    /// Applies an error report: the job ends in error unless it already ended.
    pub fn on_error(self, e: ErrorMsg, now: u64) -> (r: RecordingProgress)
        ensures
            r@ == after_error(self@, e, now),
            is_terminal(self.status) ==> r == self,
    {
        if self.is_terminal() {
            self
        } else {
            let mut text = e.error;
            text.append("\n");
            text.append(e.trace.as_str());
            RecordingProgress {
                status: AnalysisStatus::Error,
                error: Some(text),
                last_update: now,
                ..self
            }
        }
    }
}

} // verus!
