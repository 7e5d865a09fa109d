//! The events that an observer of a job receives.

use vstd::prelude::*;
use vstd::string::StringExecFns;
use crate::job::{Job, JobStatus, JobView, OutcomeView, TerminalOutcome};

verus! {

/// What an observer is told about a job. The set of kinds is closed.
/// Delivery is the caller's business and never feeds back into the queue:
/// an event that cannot be delivered changes no job.
#[derive(Debug, PartialEq, Eq)]
pub enum DownloadEvent {
    /// The download moved on; the message is the downloader's progress line.
    Progress { message: String },
    /// The download ended with its file written; the message is the file's path.
    Completed { message: String },
    /// The download ended without a file; the message says why.
    Error { message: String },
}

/// Mathematical value of a [`DownloadEvent`].
pub enum EventView {
    Progress { message: Seq<char> },
    Completed { message: Seq<char> },
    Error { message: Seq<char> },
}

impl View for DownloadEvent {
    type V = EventView;

    open spec fn view(&self) -> EventView {
        match self {
            DownloadEvent::Progress { message } => EventView::Progress { message: message@ },
            DownloadEvent::Completed { message } => EventView::Completed { message: message@ },
            DownloadEvent::Error { message } => EventView::Error { message: message@ },
        }
    }
}

/// Message of the terminal event of a cancelled download.
pub open spec fn cancelled_text() -> Seq<char> {
    "Download cancelled"@
}

/// The terminal event that reports an outcome.
pub open spec fn terminal_event_of(outcome: OutcomeView) -> EventView {
    match outcome {
        OutcomeView::Success(path) => EventView::Completed { message: path },
        OutcomeView::Failure(detail) => EventView::Error { message: detail },
        OutcomeView::Cancelled => EventView::Error { message: cancelled_text() },
    }
}

/// The terminal event that tells an observer how the download ended.
pub fn terminal_event(outcome: &TerminalOutcome) -> (event: DownloadEvent)
    ensures
        event@ == terminal_event_of(outcome@),
{
    match outcome {
        TerminalOutcome::Success(path) => DownloadEvent::Completed { message: path.clone() },
        TerminalOutcome::Failure(detail) => DownloadEvent::Error { message: detail.clone() },
        TerminalOutcome::Cancelled => DownloadEvent::Error {
            message: String::from_str("Download cancelled"),
        },
    }
}

/// The text of an optional string, empty where there is none.
pub open spec fn text_or_empty(text: Option<Seq<char>>) -> Seq<char> {
    match text {
        Some(t) => t,
        None => Seq::empty(),
    }
}

/// The terminal event that the record of a job gives rise to: none while
/// the job has not ended.
pub open spec fn job_event_of(job: JobView) -> Option<EventView> {
    match job.status {
        JobStatus::Completed => Some(
            EventView::Completed { message: text_or_empty(job.output_path) },
        ),
        JobStatus::Failed => Some(EventView::Error { message: text_or_empty(job.error) }),
        JobStatus::Cancelled => Some(EventView::Error { message: cancelled_text() }),
        _ => None,
    }
}

/// The value of an optional event.
pub open spec fn opt_event(event: Option<DownloadEvent>) -> Option<EventView> {
    match event {
        Some(e) => Some(e@),
        None => None,
    }
}

fn text_of(text: &Option<String>) -> (out: String)
    ensures
        out@ == text_or_empty(crate::job::opt_text(*text)),
{
    match text {
        Some(t) => t.clone(),
        None => String::new(),
    }
}

/// The terminal event to deliver for a job, read from its record.
pub fn job_event(job: &Job) -> (event: Option<DownloadEvent>)
    ensures
        opt_event(event) == job_event_of(job@),
{
    match job.status {
        JobStatus::Completed => Some(
            DownloadEvent::Completed { message: text_of(&job.output_path) },
        ),
        JobStatus::Failed => Some(DownloadEvent::Error { message: text_of(&job.error) }),
        JobStatus::Cancelled => Some(
            DownloadEvent::Error { message: String::from_str("Download cancelled") },
        ),
        _ => None,
    }
}

/// The record of a job that has just ended gives the terminal event of
/// its outcome.
pub proof fn law_record_gives_the_terminal_event(job: JobView, outcome: OutcomeView, now: i64)
    ensures
        job_event_of(job.concluded(outcome, now)) == Some(terminal_event_of(outcome)),
{
}

} // verus!
