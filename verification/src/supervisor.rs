//! Supervision of one download process: what the supervisor decides on each
//! thing that happens to the process. The caller spawns, reads and kills the
//! process and reports here what happened.

use vstd::prelude::*;
use vstd::string::StringExecFns;
use crate::events::{DownloadEvent, EventView};
use crate::job::{JobParams, JobParamsView, OutcomeView, TerminalOutcome};
use crate::progress::{parse_progress, progress_of};
use crate::text::{chars_of, has_prefix, join, joined, starts_with, string_of_range, texts};

verus! {

/// Where the supervision of a job stands.
#[derive(Clone, Copy, Debug, PartialEq, Eq, Structural)]
pub enum Phase {
    /// The process has not been spawned yet.
    Starting,
    /// The process runs and its output is read.
    Streaming,
    Succeeded,
    Failed,
    Cancelled,
}

impl Phase {
    pub open spec fn is_terminal(self) -> bool {
        self == Phase::Succeeded || self == Phase::Failed || self == Phase::Cancelled
    }
}

/// Supervisor of the process of one job.
#[derive(Debug)]
pub struct Supervisor {
    job_id: u64,
    phase: Phase,
    cancel_requested: bool,
    progress: Option<u16>,
    output_path: Option<String>,
    diagnostics: Vec<String>,
}

/// Mathematical value of a [`Supervisor`].
pub struct SupervisorView {
    pub job_id: u64,
    pub phase: Phase,
    /// Cancellation was asked for and the process has not exited yet.
    pub cancel_requested: bool,
    /// Last progress read, in tenths of a percent.
    pub progress: Option<nat>,
    /// The file that the downloader last reported as written.
    pub output_path: Option<Seq<char>>,
    /// The output lines that were neither of these, oldest first.
    pub diagnostics: Seq<Seq<char>>,
}

/// The marker that opens the line on which the downloader reports the file
/// it has written.
pub open spec fn output_marker() -> Seq<char> {
    "[output] "@
}

/// The file that a line reports as written, if it reports one.
pub open spec fn output_of(line: Seq<char>) -> Option<Seq<char>> {
    if starts_with(line, output_marker()) {
        Some(line.subrange(output_marker().len() as int, line.len() as int))
    } else {
        None
    }
}

/// Error detail of a process that failed without having written a line.
pub open spec fn silent_failure_text() -> Seq<char> {
    "download process exited with an error"@
}

/// Error detail of a failed process: the lines it wrote besides progress,
/// one per line.
pub open spec fn failure_detail(diagnostics: Seq<Seq<char>>) -> Seq<char> {
    if diagnostics.len() == 0 {
        silent_failure_text()
    } else {
        joined(diagnostics, "\n"@)
    }
}

impl SupervisorView {
    pub open spec fn fresh(job_id: u64) -> SupervisorView {
        SupervisorView {
            job_id,
            phase: Phase::Starting,
            cancel_requested: false,
            progress: None,
            output_path: None,
            diagnostics: Seq::empty(),
        }
    }

    /// The process was spawned.
    pub open spec fn spawned(self) -> SupervisorView {
        if self.phase == Phase::Starting {
            SupervisorView { phase: Phase::Streaming, ..self }
        } else {
            self
        }
    }

    /// The process could not be spawned.
    pub open spec fn spawn_failed(self) -> SupervisorView {
        if self.phase == Phase::Starting {
            SupervisorView { phase: Phase::Failed, ..self }
        } else {
            self
        }
    }

    /// The process wrote a line.
    pub open spec fn line(self, text: Seq<char>) -> SupervisorView {
        if self.phase != Phase::Streaming {
            self
        } else if progress_of(text) is Some {
            SupervisorView { progress: progress_of(text), ..self }
        } else if output_of(text) is Some {
            SupervisorView { output_path: output_of(text), ..self }
        } else {
            SupervisorView { diagnostics: self.diagnostics.push(text), ..self }
        }
    }

    /// The event that a line gives rise to.
    pub open spec fn line_event(self, text: Seq<char>) -> Option<EventView> {
        if self.phase == Phase::Streaming && progress_of(text) is Some {
            Some(EventView::Progress { message: text })
        } else {
            None
        }
    }

    /// Cancellation was asked for.
    pub open spec fn cancel(self) -> SupervisorView {
        if self.phase.is_terminal() {
            self
        } else {
            SupervisorView { cancel_requested: true, ..self }
        }
    }

    /// How a process that exited with `code` ended, seen from here.
    pub open spec fn exit_outcome(self, code: i32) -> OutcomeView {
        if self.cancel_requested {
            OutcomeView::Cancelled
        } else if code == 0 {
            OutcomeView::Success(
                match self.output_path {
                    Some(path) => path,
                    None => Seq::empty(),
                },
            )
        } else {
            OutcomeView::Failure(failure_detail(self.diagnostics))
        }
    }

    /// The process exited.
    pub open spec fn exited(self, code: i32) -> SupervisorView {
        if self.phase != Phase::Streaming {
            self
        } else if self.cancel_requested {
            SupervisorView { phase: Phase::Cancelled, ..self }
        } else if code == 0 {
            SupervisorView { phase: Phase::Succeeded, ..self }
        } else {
            SupervisorView { phase: Phase::Failed, ..self }
        }
    }
}

impl View for Supervisor {
    type V = SupervisorView;

    closed spec fn view(&self) -> SupervisorView {
        SupervisorView {
            job_id: self.job_id,
            phase: self.phase,
            cancel_requested: self.cancel_requested,
            progress: match self.progress {
                Some(p) => Some(p as nat),
                None => None,
            },
            output_path: crate::job::opt_text(self.output_path),
            diagnostics: texts(self.diagnostics@),
        }
    }
}

impl Supervisor {
    /// The supervisor of a job that was just admitted.
    pub fn new(job_id: u64) -> (s: Supervisor)
        ensures
            s@ == SupervisorView::fresh(job_id),
    {
        let s = Supervisor {
            job_id,
            phase: Phase::Starting,
            cancel_requested: false,
            progress: None,
            output_path: None,
            diagnostics: Vec::new(),
        };
        assert(s@.diagnostics =~= Seq::empty());
        s
    }

    pub fn job_id(&self) -> (id: u64)
        ensures
            id == self@.job_id,
    {
        self.job_id
    }

    pub fn phase(&self) -> (phase: Phase)
        ensures
            phase == self@.phase,
    {
        self.phase
    }

    /// Last progress read, in tenths of a percent.
    pub fn progress(&self) -> (p: Option<u16>)
        ensures
            p is Some == self@.progress is Some,
            p is Some ==> p->Some_0 == self@.progress->Some_0,
    {
        self.progress
    }

    /// The process was spawned. The result says whether it must be
    /// terminated at once, because cancellation was asked for before it ran.
    pub fn spawned(&mut self) -> (terminate: bool)
        ensures
            final(self)@ == old(self)@.spawned(),
            terminate == (old(self)@.phase == Phase::Starting && old(self)@.cancel_requested),
    {
        if self.phase == Phase::Starting {
            self.phase = Phase::Streaming;
            self.cancel_requested
        } else {
            false
        }
    }

    /// The process could not be spawned. Before the spawn this ends the
    /// supervision with a failure that carries the spawn error; later it is ignored.
    pub fn spawn_failed(&mut self, detail: String) -> (outcome: Option<TerminalOutcome>)
        ensures
            final(self)@ == old(self)@.spawn_failed(),
            old(self)@.phase == Phase::Starting ==> outcome is Some && outcome->Some_0@
                == OutcomeView::Failure(detail@),
            old(self)@.phase != Phase::Starting ==> outcome is None,
    {
        if self.phase == Phase::Starting {
            self.phase = Phase::Failed;
            Some(TerminalOutcome::Failure(detail))
        } else {
            None
        }
    }

    /// The process wrote a line. A progress line updates the progress and
    /// is passed on as an event; a line that reports the written file is
    /// remembered; any other line is kept as diagnostic detail. The phase
    /// never changes. Outside `Streaming` the line is ignored.
    pub fn line(&mut self, text: &str) -> (event: Option<DownloadEvent>)
        ensures
            final(self)@ == old(self)@.line(text@),
            event is Some == old(self)@.line_event(text@) is Some,
            event is Some ==> event->Some_0@ == old(self)@.line_event(text@)->Some_0,
    {
        if self.phase != Phase::Streaming {
            return None;
        }
        match parse_progress(text) {
            Some(p) => {
                self.progress = Some(p);
                Some(DownloadEvent::Progress { message: String::from_str(text) })
            },
            None => {
                let chars = chars_of(text);
                let marker = chars_of("[output] ");
                if has_prefix(&chars, &marker) {
                    self.output_path = Some(string_of_range(&chars, marker.len(), chars.len()));
                    return None;
                }
                let copy = String::from_str(text);
                proof {
                    assert(texts(self.diagnostics@.push(copy)) =~= texts(self.diagnostics@).push(
                        text@,
                    ));
                }
                self.diagnostics.push(copy);
                None
            },
        }
    }

    /// Cancellation was asked for. The result says whether a process runs
    /// that must now be terminated. The phase changes only when the process
    /// has exited.
    pub fn cancel(&mut self) -> (terminate: bool)
        ensures
            final(self)@ == old(self)@.cancel(),
            terminate == (old(self)@.phase == Phase::Streaming),
    {
        match self.phase {
            Phase::Starting => {
                self.cancel_requested = true;
                false
            },
            Phase::Streaming => {
                self.cancel_requested = true;
                true
            },
            _ => false,
        }
    }

    /// The process exited with `code`. While streaming this ends the
    /// supervision: cancelled if cancellation was asked for, else succeeded
    /// on code zero with the file last reported, else failed with the
    /// diagnostic detail. In any other phase it is ignored.
    pub fn exited(&mut self, code: i32) -> (outcome: Option<TerminalOutcome>)
        ensures
            final(self)@ == old(self)@.exited(code),
            old(self)@.phase == Phase::Streaming ==> outcome is Some && outcome->Some_0@
                == old(self)@.exit_outcome(code),
            old(self)@.phase != Phase::Streaming ==> outcome is None,
    {
        if self.phase != Phase::Streaming {
            return None;
        }
        if self.cancel_requested {
            self.phase = Phase::Cancelled;
            Some(TerminalOutcome::Cancelled)
        } else if code == 0 {
            self.phase = Phase::Succeeded;
            Some(
                TerminalOutcome::Success(
                    match &self.output_path {
                        Some(path) => path.clone(),
                        None => String::new(),
                    },
                ),
            )
        } else {
            self.phase = Phase::Failed;
            let detail = if self.diagnostics.len() == 0 {
                String::from_str("download process exited with an error")
            } else {
                join(&self.diagnostics, "\n")
            };
            Some(TerminalOutcome::Failure(detail))
        }
    }
}

/// The arguments that make the downloader do what the job asks: one
/// progress line per update, a marked line for the file written, the
/// format, the directory, the cookie source if there is one, and after
/// `--` the locator.
pub open spec fn arguments_of(params: JobParamsView) -> Seq<Seq<char>> {
    seq![
        "--newline"@,
        "--print"@,
        "after_move:[output] %(filepath)s"@,
        "--format"@,
        params.format,
        "--paths"@,
        params.output_dir,
    ] + (
    match params.cookies_from_browser {
        Some(browser) => seq!["--cookies-from-browser"@, browser],
        None => Seq::empty(),
    }) + seq!["--"@, params.url]
}

/// The arguments with which the downloader is invoked for a job.
pub fn invocation_arguments(params: &JobParams) -> (args: Vec<String>)
    ensures
        texts(args@) == arguments_of(params@),
{
    let mut args: Vec<String> = Vec::new();
    args.push(String::from_str("--newline"));
    args.push(String::from_str("--print"));
    args.push(String::from_str("after_move:[output] %(filepath)s"));
    args.push(String::from_str("--format"));
    args.push(params.format.clone());
    args.push(String::from_str("--paths"));
    args.push(params.output_dir.clone());
    match &params.cookies_from_browser {
        Some(browser) => {
            args.push(String::from_str("--cookies-from-browser"));
            args.push(browser.clone());
        },
        None => {},
    }
    args.push(String::from_str("--"));
    args.push(params.url.clone());
    proof {
        assert(texts(args@) =~= arguments_of(params@));
    }
    args
}

} // verus!
