//! Where the downloader and the transcoder live on disk, and how their
//! answers to a version probe are read.

use vstd::prelude::*;
use vstd::string::StringExecFns;
use crate::error::AppError;
use crate::job::opt_text;
use crate::text::{
    first_line, lossy_text, take_first_line, text_eq, trim, trimmed, utf8_text, utf8_text_lossy,
};

verus! {

/// The path that `std::path::Path::join` gives for a base path and a
/// component, on the platform the library is built for.
pub uninterp spec fn joined_path(base: Seq<char>, component: Seq<char>) -> Seq<char>;

/// Calls `std::path::Path::join` on `base` with `component`. The result is
/// named, not spelled out: which separator is used, and when, is the
/// platform's business.
#[verifier::external_body]
fn join_path(base: &str, component: &str) -> (joined: String)
    ensures
        joined@ == joined_path(base@, component@),
{
    std::path::Path::new(base).join(component).to_string_lossy().into_owned()
}

/// Name of the operating system on which binaries carry the `.exe` suffix.
pub open spec fn windows() -> Seq<char> {
    "windows"@
}

/// File name of the downloader on the given operating system.
pub open spec fn ytdlp_file_name(os: Seq<char>) -> Seq<char> {
    if os == windows() {
        "yt-dlp.exe"@
    } else {
        "yt-dlp"@
    }
}

/// File name of the transcoder on the given operating system.
pub open spec fn ffmpeg_file_name(os: Seq<char>) -> Seq<char> {
    if os == windows() {
        "ffmpeg.exe"@
    } else {
        "ffmpeg"@
    }
}

/// The directory inside the application's data directory that holds the
/// binaries.
pub fn get_binaries_dir(app_data_dir: &str) -> (dir: String)
    ensures
        dir@ == joined_path(app_data_dir@, "binaries"@),
{
    join_path(app_data_dir, "binaries")
}

/// Path of the application's own copy of the downloader. `os` is the name
/// of the operating system as `std::env::consts::OS` gives it.
pub fn get_ytdlp_path(app_data_dir: &str, os: &str) -> (path: String)
    ensures
        path@ == joined_path(joined_path(app_data_dir@, "binaries"@), ytdlp_file_name(os@)),
{
    let dir = get_binaries_dir(app_data_dir);
    if text_eq(os, "windows") {
        join_path(dir.as_str(), "yt-dlp.exe")
    } else {
        join_path(dir.as_str(), "yt-dlp")
    }
}

/// Path of the application's own copy of the transcoder. `os` is the name
/// of the operating system as `std::env::consts::OS` gives it.
pub fn get_ffmpeg_path(app_data_dir: &str, os: &str) -> (path: String)
    ensures
        path@ == joined_path(joined_path(app_data_dir@, "binaries"@), ffmpeg_file_name(os@)),
{
    let dir = get_binaries_dir(app_data_dir);
    if text_eq(os, "windows") {
        join_path(dir.as_str(), "ffmpeg.exe")
    } else {
        join_path(dir.as_str(), "ffmpeg")
    }
}

/// What a version probe of the downloader says: with a successful exit and
/// output that is valid UTF-8, the output without surrounding whitespace;
/// else nothing.
pub open spec fn probed_version(success: bool, stdout: Seq<u8>) -> Option<Seq<char>> {
    if success && vstd::utf8::valid_utf8(stdout) {
        Some(trimmed(vstd::utf8::decode_utf8(stdout)))
    } else {
        None
    }
}

/// Reads the answer of `yt-dlp --version`: `success` is whether the process
/// exited with code zero, `stdout` what it wrote.
pub fn try_get_version(success: bool, stdout: Vec<u8>) -> (version: Option<String>)
    ensures
        opt_text(version) == probed_version(success, stdout@),
{
    if !success {
        return None;
    }
    match utf8_text(stdout) {
        Some(text) => Some(trim(text.as_str())),
        None => None,
    }
}

/// The version of the downloader: that of the application's own copy if it
/// answered, else that of the copy on the search path.
pub fn check_ytdlp(local_version: Option<String>, system_version: Option<String>) -> (version:
    Option<String>)
    ensures
        version == if local_version is Some {
            local_version
        } else {
            system_version
        },
{
    match local_version {
        Some(v) => Some(v),
        None => system_version,
    }
}

/// What a version probe of the transcoder says: with a successful exit and
/// output that is valid UTF-8, the first line of the output; else nothing.
pub open spec fn probed_first_line(success: bool, stdout: Seq<u8>) -> Option<Seq<char>> {
    if success && vstd::utf8::valid_utf8(stdout) {
        first_line(vstd::utf8::decode_utf8(stdout))
    } else {
        None
    }
}

/// Reads the answer of `ffmpeg -version`: `success` is whether the process
/// exited with code zero, `stdout` what it wrote.
pub fn check_ffmpeg(success: bool, stdout: Vec<u8>) -> (version: Option<String>)
    ensures
        opt_text(version) == probed_first_line(success, stdout@),
{
    if !success {
        return None;
    }
    match utf8_text(stdout) {
        Some(text) => take_first_line(text.as_str()),
        None => None,
    }
}

/// Which of the two external tools are installed, and in which version.
#[derive(Debug, PartialEq, Eq)]
pub struct DependencyStatus {
    pub ytdlp_installed: bool,
    pub ytdlp_version: Option<String>,
    pub ffmpeg_installed: bool,
    pub ffmpeg_version: Option<String>,
}

/// The status that two version probes add up to: a tool is installed
/// exactly if its probe gave a version.
pub fn check_dependencies(ytdlp_version: Option<String>, ffmpeg_version: Option<String>) -> (status:
    DependencyStatus)
    ensures
        status == (DependencyStatus {
            ytdlp_installed: ytdlp_version is Some,
            ytdlp_version,
            ffmpeg_installed: ffmpeg_version is Some,
            ffmpeg_version,
        }),
{
    DependencyStatus {
        ytdlp_installed: ytdlp_version.is_some(),
        ytdlp_version,
        ffmpeg_installed: ffmpeg_version.is_some(),
        ffmpeg_version,
    }
}

/// Name under which the downloader is found on the search path.
pub open spec fn system_ytdlp() -> Seq<char> {
    "yt-dlp"@
}

/// What the user is told when no copy of the downloader works.
pub open spec fn ytdlp_missing_text() -> Seq<char> {
    "yt-dlp not found. Please install via Homebrew (brew install yt-dlp) or click Install."@
}

/// The downloader to run: the application's own copy at `local_path` if it
/// works, else the copy on the search path if that works, else none.
pub fn resolve_ytdlp_path(local_path: String, local_works: bool, system_works: bool) -> (r: Result<
    String,
    AppError,
>)
    ensures
        local_works ==> r is Ok && r->Ok_0@ == local_path@,
        !local_works && system_works ==> r is Ok && r->Ok_0@ == system_ytdlp(),
        !local_works && !system_works ==> r is Err && r->Err_0 is BinaryNotFound
            && r->Err_0.message_text() == ytdlp_missing_text(),
{
    if local_works {
        Ok(local_path)
    } else if system_works {
        Ok(String::from_str("yt-dlp"))
    } else {
        Err(
            AppError::BinaryNotFound(
                String::from_str(
                    "yt-dlp not found. Please install via Homebrew (brew install yt-dlp) or click Install.",
                ),
            ),
        )
    }
}

/// Start of the message of a failed self-update.
pub open spec fn update_failed_prefix() -> Seq<char> {
    "Update failed: "@
}

/// Reads the result of `yt-dlp --update`: on a successful exit, what the
/// process wrote, without surrounding whitespace; else a failure that
/// carries what it wrote to its error stream.
pub fn update_ytdlp(success: bool, stdout: &Vec<u8>, stderr: &Vec<u8>) -> (r: Result<
    String,
    AppError,
>)
    ensures
        success ==> r is Ok && r->Ok_0@ == trimmed(lossy_text(stdout@)),
        !success ==> r is Err && r->Err_0 is Custom && r->Err_0.message_text()
            == update_failed_prefix() + lossy_text(stderr@),
{
    if success {
        let text = utf8_text_lossy(stdout);
        Ok(trim(text.as_str()))
    } else {
        let text = utf8_text_lossy(stderr);
        let mut message = String::from_str("Update failed: ");
        message.append(text.as_str());
        Err(AppError::Custom(message))
    }
}

} // verus!
