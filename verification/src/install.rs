//! Installing the external tools: where the downloader is fetched from, what
//! the observer of an installation is told, and how the server's answer is
//! judged.

use vstd::prelude::*;
use vstd::string::StringExecFns;
use crate::error::AppError;
use crate::text::text_eq;

verus! {

/// What the observer of an installation is told.
#[derive(Debug, PartialEq, Eq)]
pub enum InstallEvent {
    Progress { dependency: String, message: String },
    Completed { dependency: String, message: String },
    Error { dependency: String, message: String },
}

/// Mathematical value of an [`InstallEvent`].
pub enum InstallEventView {
    Progress { dependency: Seq<char>, message: Seq<char> },
    Completed { dependency: Seq<char>, message: Seq<char> },
    Error { dependency: Seq<char>, message: Seq<char> },
}

impl View for InstallEvent {
    type V = InstallEventView;

    open spec fn view(&self) -> InstallEventView {
        match self {
            InstallEvent::Progress { dependency, message } => InstallEventView::Progress {
                dependency: dependency@,
                message: message@,
            },
            InstallEvent::Completed { dependency, message } => InstallEventView::Completed {
                dependency: dependency@,
                message: message@,
            },
            InstallEvent::Error { dependency, message } => InstallEventView::Error {
                dependency: dependency@,
                message: message@,
            },
        }
    }
}

/// The values of a run of events.
pub open spec fn event_views(events: Seq<InstallEvent>) -> Seq<InstallEventView> {
    events.map_values(|e: InstallEvent| e@)
}

/// Address of the newest release of the downloader for an operating system.
pub open spec fn release_url(os: Seq<char>) -> Seq<char> {
    if os == "windows"@ {
        "https://github.com/yt-dlp/yt-dlp/releases/latest/download/yt-dlp.exe"@
    } else if os == "macos"@ {
        "https://github.com/yt-dlp/yt-dlp/releases/latest/download/yt-dlp_macos"@
    } else {
        "https://github.com/yt-dlp/yt-dlp/releases/latest/download/yt-dlp"@
    }
}

/// Address from which the downloader is fetched. `os` is the name of the
/// operating system as `std::env::consts::OS` gives it.
pub fn ytdlp_download_url(os: &str) -> (url: String)
    ensures
        url@ == release_url(os@),
{
    if text_eq(os, "windows") {
        String::from_str("https://github.com/yt-dlp/yt-dlp/releases/latest/download/yt-dlp.exe")
    } else if text_eq(os, "macos") {
        String::from_str("https://github.com/yt-dlp/yt-dlp/releases/latest/download/yt-dlp_macos")
    } else {
        String::from_str("https://github.com/yt-dlp/yt-dlp/releases/latest/download/yt-dlp")
    }
}

/// The event that opens the installation of the downloader.
pub fn ytdlp_install_started() -> (event: InstallEvent)
    ensures
        event@ == (InstallEventView::Progress {
            dependency: "yt-dlp"@,
            message: "Downloading yt-dlp..."@,
        }),
{
    InstallEvent::Progress {
        dependency: String::from_str("yt-dlp"),
        message: String::from_str("Downloading yt-dlp..."),
    }
}

/// The event that closes the installation of the downloader.
pub fn ytdlp_install_completed() -> (event: InstallEvent)
    ensures
        event@ == (InstallEventView::Completed {
            dependency: "yt-dlp"@,
            message: "yt-dlp installed successfully"@,
        }),
{
    InstallEvent::Completed {
        dependency: String::from_str("yt-dlp"),
        message: String::from_str("yt-dlp installed successfully"),
    }
}

/// An HTTP status code in the range 200 to 299 reports success.
pub open spec fn is_success(status: u16) -> bool {
    200 <= status <= 299
}

/// A refused download: what the observer is told and what the caller gets.
#[derive(Debug, PartialEq, Eq)]
pub struct DownloadRefusal {
    pub event: InstallEvent,
    pub error: AppError,
}

/// Judges the server's answer to the request for the downloader. `status`
/// is the HTTP status code and `status_text` that status as it is shown,
/// code and reason. A status outside 200 to 299 refuses the download.
pub fn check_download_response(status: u16, status_text: &str) -> (r: Result<(), DownloadRefusal>)
    ensures
        is_success(status) ==> r is Ok,
        !is_success(status) ==> r is Err && r->Err_0.event@ == (InstallEventView::Error {
            dependency: "yt-dlp"@,
            message: "HTTP error: "@ + status_text@,
        }) && r->Err_0.error is DownloadError && r->Err_0.error.message_text()
            == "Failed to download yt-dlp: HTTP "@ + status_text@,
{
    if 200 <= status && status <= 299 {
        Ok(())
    } else {
        let mut shown = String::from_str("HTTP error: ");
        shown.append(status_text);
        let mut reported = String::from_str("Failed to download yt-dlp: HTTP ");
        reported.append(status_text);
        Err(
            DownloadRefusal {
                event: InstallEvent::Error {
                    dependency: String::from_str("yt-dlp"),
                    message: shown,
                },
                error: AppError::DownloadError(reported),
            },
        )
    }
}

/// The transcoder is not fetched: its installation consists of telling the
/// observer so. The result is the two events to send, in order.
pub fn download_ffmpeg() -> (events: Vec<InstallEvent>)
    ensures
        event_views(events@) == seq![
            InstallEventView::Progress {
                dependency: "ffmpeg"@,
                message: "ffmpeg download not yet implemented"@,
            },
            InstallEventView::Completed {
                dependency: "ffmpeg"@,
                message: "ffmpeg download skipped (not implemented)"@,
            },
        ],
{
    let mut events: Vec<InstallEvent> = Vec::new();
    events.push(
        InstallEvent::Progress {
            dependency: String::from_str("ffmpeg"),
            message: String::from_str("ffmpeg download not yet implemented"),
        },
    );
    events.push(
        InstallEvent::Completed {
            dependency: String::from_str("ffmpeg"),
            message: String::from_str("ffmpeg download skipped (not implemented)"),
        },
    );
    proof {
        assert(event_views(events@) =~= seq![
            InstallEventView::Progress {
                dependency: "ffmpeg"@,
                message: "ffmpeg download not yet implemented"@,
            },
            InstallEventView::Completed {
                dependency: "ffmpeg"@,
                message: "ffmpeg download skipped (not implemented)"@,
            },
        ]);
    }
    events
}

} // verus!
