//! Job records and the values that move a job from one status to the next.

use vstd::prelude::*;

verus! {

/// Lifecycle of a job: `Pending`, then `Downloading`, then one of the three
/// terminal statuses. `Failed` and `Cancelled` can be re-armed by a retry.
#[derive(Clone, Copy, Debug, PartialEq, Eq, Structural)]
pub enum JobStatus {
    Pending,
    Downloading,
    Completed,
    Failed,
    Cancelled,
}

impl JobStatus {
    /// A terminal status is left only by an explicit retry.
    pub open spec fn is_terminal(self) -> bool {
        self == JobStatus::Completed || self == JobStatus::Failed || self == JobStatus::Cancelled
    }

    /// Only a failed or a cancelled job can be retried.
    pub open spec fn is_rearmable(self) -> bool {
        self == JobStatus::Failed || self == JobStatus::Cancelled
    }

    pub fn terminal(self) -> (b: bool)
        ensures
            b == self.is_terminal(),
    {
        match self {
            JobStatus::Completed | JobStatus::Failed | JobStatus::Cancelled => true,
            JobStatus::Pending | JobStatus::Downloading => false,
        }
    }

    pub fn rearmable(self) -> (b: bool)
        ensures
            b == self.is_rearmable(),
    {
        match self {
            JobStatus::Failed | JobStatus::Cancelled => true,
            JobStatus::Pending | JobStatus::Downloading | JobStatus::Completed => false,
        }
    }
}

/// What a download was asked to do. Never changes after submission.
#[derive(Debug)]
pub struct JobParams {
    /// Where the media is fetched from.
    pub url: String,
    /// Format or quality selector handed to the downloader.
    pub format: String,
    /// Directory that receives the file.
    pub output_dir: String,
    /// Browser whose cookies authenticate the download, if any.
    pub cookies_from_browser: Option<String>,
}

/// Mathematical value of a [`JobParams`].
pub struct JobParamsView {
    pub url: Seq<char>,
    pub format: Seq<char>,
    pub output_dir: Seq<char>,
    pub cookies_from_browser: Option<Seq<char>>,
}

/// The text of an optional string.
pub open spec fn opt_text(s: Option<String>) -> Option<Seq<char>> {
    match s {
        Some(t) => Some(t@),
        None => None,
    }
}

/// Copies an optional string.
pub fn clone_opt_string(s: &Option<String>) -> (r: Option<String>)
    ensures
        r == *s,
{
    match s {
        Some(t) => Some(t.clone()),
        None => None,
    }
}

impl View for JobParams {
    type V = JobParamsView;

    open spec fn view(&self) -> JobParamsView {
        JobParamsView {
            url: self.url@,
            format: self.format@,
            output_dir: self.output_dir@,
            cookies_from_browser: opt_text(self.cookies_from_browser),
        }
    }
}

impl JobParams {
    pub fn duplicate(&self) -> (r: JobParams)
        ensures
            r == *self,
    {
        JobParams {
            url: self.url.clone(),
            format: self.format.clone(),
            output_dir: self.output_dir.clone(),
            cookies_from_browser: clone_opt_string(&self.cookies_from_browser),
        }
    }
}

/// How a supervised download ended.
#[derive(Debug)]
pub enum TerminalOutcome {
    /// The process exited with code zero; the payload is the output file.
    Success(String),
    /// The process could not start or exited with a non-zero code; the
    /// payload is the diagnostic detail.
    Failure(String),
    /// The process was terminated on request.
    Cancelled,
}

/// Mathematical value of a [`TerminalOutcome`].
pub enum OutcomeView {
    Success(Seq<char>),
    Failure(Seq<char>),
    Cancelled,
}

impl View for TerminalOutcome {
    type V = OutcomeView;

    open spec fn view(&self) -> OutcomeView {
        match self {
            TerminalOutcome::Success(path) => OutcomeView::Success(path@),
            TerminalOutcome::Failure(detail) => OutcomeView::Failure(detail@),
            TerminalOutcome::Cancelled => OutcomeView::Cancelled,
        }
    }
}

impl OutcomeView {
    /// The terminal status that records this outcome.
    pub open spec fn status(self) -> JobStatus {
        match self {
            OutcomeView::Success(_) => JobStatus::Completed,
            OutcomeView::Failure(_) => JobStatus::Failed,
            OutcomeView::Cancelled => JobStatus::Cancelled,
        }
    }

    /// The output file that the outcome reports, if it reports one.
    pub open spec fn output_path(self) -> Option<Seq<char>> {
        match self {
            OutcomeView::Success(path) => Some(path),
            _ => None,
        }
    }

    /// The error detail that the outcome reports, if it reports one.
    pub open spec fn error(self) -> Option<Seq<char>> {
        match self {
            OutcomeView::Failure(detail) => Some(detail),
            _ => None,
        }
    }
}

/// What was last written to durable storage of a job's record.
#[derive(Debug)]
pub struct Saved {
    pub status: JobStatus,
    pub output_path: Option<String>,
    pub error: Option<String>,
    pub updated_at: i64,
}

/// Mathematical value of a [`Saved`].
pub struct SavedView {
    pub status: JobStatus,
    pub output_path: Option<Seq<char>>,
    pub error: Option<Seq<char>>,
    pub updated_at: i64,
}

impl View for Saved {
    type V = SavedView;

    open spec fn view(&self) -> SavedView {
        SavedView {
            status: self.status,
            output_path: opt_text(self.output_path),
            error: opt_text(self.error),
            updated_at: self.updated_at,
        }
    }
}

/// The value of an optional saved record.
pub open spec fn opt_saved(s: Option<Saved>) -> Option<SavedView> {
    match s {
        Some(saved) => Some(saved@),
        None => None,
    }
}

/// One download with its request, its status and its result.
#[derive(Debug)]
pub struct Job {
    /// Assigned at insertion, never reused.
    pub id: u64,
    pub params: JobParams,
    pub status: JobStatus,
    /// Set when the job completed.
    pub output_path: Option<String>,
    /// Set when the job failed.
    pub error: Option<String>,
    /// Milliseconds since the Unix epoch at insertion.
    pub created_at: i64,
    /// Milliseconds since the Unix epoch at the last status change.
    pub updated_at: i64,
    /// What durable storage holds of this record, as far as the caller has
    /// confirmed its writes; `None` while no write was confirmed.
    pub saved: Option<Saved>,
}

/// Mathematical value of a [`Job`].
pub struct JobView {
    pub id: u64,
    pub params: JobParamsView,
    pub status: JobStatus,
    pub output_path: Option<Seq<char>>,
    pub error: Option<Seq<char>>,
    pub created_at: i64,
    pub updated_at: i64,
    pub saved: Option<SavedView>,
}

impl View for Job {
    type V = JobView;

    open spec fn view(&self) -> JobView {
        JobView {
            id: self.id,
            params: self.params@,
            status: self.status,
            output_path: opt_text(self.output_path),
            error: opt_text(self.error),
            created_at: self.created_at,
            updated_at: self.updated_at,
            saved: opt_saved(self.saved),
        }
    }
}

impl JobView {
    /// A fresh record: pending, without result.
    pub open spec fn fresh(id: u64, params: JobParamsView, now: i64) -> JobView {
        JobView {
            id,
            params,
            status: JobStatus::Pending,
            output_path: None,
            error: None,
            created_at: now,
            updated_at: now,
            saved: None,
        }
    }

    /// The record after admission: same job, now downloading.
    pub open spec fn started(self, now: i64) -> JobView {
        JobView { status: JobStatus::Downloading, updated_at: now, ..self }
    }

    /// The record after its terminal transition.
    pub open spec fn concluded(self, outcome: OutcomeView, now: i64) -> JobView {
        JobView {
            status: outcome.status(),
            output_path: outcome.output_path(),
            error: outcome.error(),
            updated_at: now,
            ..self
        }
    }

    /// The record after a retry: same id and request, pending again, result cleared.
    pub open spec fn rearmed(self, now: i64) -> JobView {
        JobView {
            status: JobStatus::Pending,
            output_path: None,
            error: None,
            updated_at: now,
            ..self
        }
    }
}

/// The mathematical values of a run of job records.
pub open spec fn job_views(jobs: Seq<Job>) -> Seq<JobView> {
    jobs.map_values(|j: Job| j@)
}

impl JobView {
    /// What a confirmed write of this record under `status` leaves in
    /// durable storage.
    pub open spec fn snapshot(self, status: JobStatus) -> SavedView {
        SavedView {
            status,
            output_path: self.output_path,
            error: self.error,
            updated_at: self.updated_at,
        }
    }

    /// The record after the caller confirmed that it was written under `status`.
    pub open spec fn acknowledged(self, status: JobStatus) -> JobView {
        JobView { saved: Some(self.snapshot(status)), ..self }
    }

    /// A failed write can be undone: the job has not ended, and what was
    /// stored last does not show it downloading.
    pub open spec fn can_put_back(self) -> bool {
        !self.status.is_terminal() && !(self.saved is Some && self.saved->Some_0.status
            == JobStatus::Downloading)
    }

    /// The record after a write of it failed with `detail`. A job that has
    /// not ended goes back to what was stored last; one of which nothing was
    /// ever stored fails with the storage error. A job that has ended, or
    /// that storage shows downloading, keeps its record.
    pub open spec fn write_failed(self, detail: Seq<char>, now: i64) -> JobView {
        if !self.can_put_back() {
            self
        } else {
            match self.saved {
                None => JobView {
                    status: JobStatus::Failed,
                    output_path: None,
                    error: Some(detail),
                    updated_at: now,
                    ..self
                },
                Some(saved) => JobView {
                    status: saved.status,
                    output_path: saved.output_path,
                    error: saved.error,
                    updated_at: saved.updated_at,
                    ..self
                },
            }
        }
    }

    /// The record as a restart finds it: what was read is what is stored,
    /// and a job that storage shows downloading waits again, since its
    /// process is gone.
    pub open spec fn requeued(self, now: i64) -> JobView {
        if self.status == JobStatus::Downloading {
            JobView {
                status: JobStatus::Pending,
                updated_at: now,
                saved: Some(self.snapshot(self.status)),
                ..self
            }
        } else {
            JobView { saved: Some(self.snapshot(self.status)), ..self }
        }
    }

    /// The record under another status, all else as it is.
    pub open spec fn with_status(self, status: JobStatus) -> JobView {
        JobView { status, ..self }
    }
}

impl Saved {
    pub fn duplicate(&self) -> (r: Saved)
        ensures
            r == *self,
    {
        Saved {
            status: self.status,
            output_path: clone_opt_string(&self.output_path),
            error: clone_opt_string(&self.error),
            updated_at: self.updated_at,
        }
    }
}

impl Job {
    pub fn duplicate(&self) -> (r: Job)
        ensures
            r == *self,
    {
        Job {
            id: self.id,
            params: self.params.duplicate(),
            status: self.status,
            output_path: clone_opt_string(&self.output_path),
            error: clone_opt_string(&self.error),
            created_at: self.created_at,
            updated_at: self.updated_at,
            saved: match &self.saved {
                Some(saved) => Some(saved.duplicate()),
                None => None,
            },
        }
    }
}

} // verus!
