use ytdlp_queue::error::AppError;
use ytdlp_queue::install::{
    check_download_response, download_ffmpeg, ytdlp_download_url, ytdlp_install_completed,
    ytdlp_install_started, DownloadRefusal, InstallEvent,
};

#[test]
fn release_address_depends_on_the_operating_system() {
    assert_eq!(ytdlp_download_url("windows"), "https://github.com/yt-dlp/yt-dlp/releases/latest/download/yt-dlp.exe");
    assert_eq!(ytdlp_download_url("macos"), "https://github.com/yt-dlp/yt-dlp/releases/latest/download/yt-dlp_macos");
    assert_eq!(ytdlp_download_url("linux"), "https://github.com/yt-dlp/yt-dlp/releases/latest/download/yt-dlp");
    assert_eq!(ytdlp_download_url("freebsd"), "https://github.com/yt-dlp/yt-dlp/releases/latest/download/yt-dlp");
}

#[test]
fn installation_events_of_the_downloader() {
    assert_eq!(
        ytdlp_install_started(),
        InstallEvent::Progress { dependency: "yt-dlp".to_string(), message: "Downloading yt-dlp...".to_string() }
    );
    assert_eq!(
        ytdlp_install_completed(),
        InstallEvent::Completed {
            dependency: "yt-dlp".to_string(),
            message: "yt-dlp installed successfully".to_string()
        }
    );
}

#[test]
fn success_statuses_pass() {
    for status in [200u16, 204, 299] {
        assert_eq!(check_download_response(status, "whatever"), Ok(()));
    }
}

#[test]
fn other_statuses_refuse_the_download() {
    for status in [0u16, 100, 199, 300, 301, 404, 500, u16::MAX] {
        assert!(check_download_response(status, "x").is_err());
    }
    assert_eq!(
        check_download_response(404, "404 Not Found"),
        Err(DownloadRefusal {
            event: InstallEvent::Error {
                dependency: "yt-dlp".to_string(),
                message: "HTTP error: 404 Not Found".to_string()
            },
            error: AppError::DownloadError("Failed to download yt-dlp: HTTP 404 Not Found".to_string()),
        })
    );
}

#[test]
fn transcoder_installation_only_reports() {
    assert_eq!(
        download_ffmpeg(),
        vec![
            InstallEvent::Progress {
                dependency: "ffmpeg".to_string(),
                message: "ffmpeg download not yet implemented".to_string()
            },
            InstallEvent::Completed {
                dependency: "ffmpeg".to_string(),
                message: "ffmpeg download skipped (not implemented)".to_string()
            },
        ]
    );
}
