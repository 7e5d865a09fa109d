use ytdlp_queue::events::{job_event, terminal_event, DownloadEvent};
use ytdlp_queue::job::{Job, JobParams, JobStatus, TerminalOutcome};
use ytdlp_queue::progress::parse_progress;
use ytdlp_queue::supervisor::{invocation_arguments, Phase, Supervisor};

fn outcome_text(o: Option<TerminalOutcome>) -> String {
    match o {
        None => "none".to_string(),
        Some(TerminalOutcome::Success(p)) => format!("success:{}", p),
        Some(TerminalOutcome::Failure(d)) => format!("failure:{}", d),
        Some(TerminalOutcome::Cancelled) => "cancelled".to_string(),
    }
}

#[test]
fn progress_lines_are_recognised() {
    assert_eq!(parse_progress("[download]  45.3% of 10.00MiB at 1.00MiB/s ETA 00:05"), Some(453));
    assert_eq!(parse_progress("[download] 100% of 3.2MiB"), Some(1000));
    assert_eq!(parse_progress("[download]   0.0% of ~1GiB"), Some(0));
    assert_eq!(parse_progress("[download]7%"), Some(70));
    assert_eq!(parse_progress("[download] 99.99%"), Some(999));
    assert_eq!(parse_progress("[download] 100.0%"), Some(1000));
    assert_eq!(parse_progress("[download] 250%"), Some(1000));
    assert_eq!(parse_progress("[download] 99999999999999999999.5%"), Some(1000));
    assert_eq!(parse_progress("[download] 12.5% \u{1F600}"), Some(125));
}

#[test]
fn other_lines_are_not_progress() {
    assert_eq!(parse_progress(""), None);
    assert_eq!(parse_progress("[download]"), None);
    assert_eq!(parse_progress("[download] Destination: video.mp4"), None);
    assert_eq!(parse_progress("[download] 45.3"), None);
    assert_eq!(parse_progress("[download] 45.%"), None);
    assert_eq!(parse_progress("[download] .5%"), None);
    assert_eq!(parse_progress("[download] 45 %"), None);
    assert_eq!(parse_progress("[download] 45,3%"), None);
    assert_eq!(parse_progress(" [download] 45.3%"), None);
    assert_eq!(parse_progress("[Download] 45.3%"), None);
    assert_eq!(parse_progress("[youtube] abc: Downloading webpage 10%"), None);
    assert_eq!(parse_progress("ERROR: 50% of people"), None);
    assert_eq!(parse_progress("[download]\t45.3%"), None);
}

#[test]
fn supervisor_streams_then_succeeds() {
    let mut s = Supervisor::new(7);
    assert_eq!(s.job_id(), 7);
    assert_eq!(s.phase(), Phase::Starting);
    assert_eq!(s.progress(), None);
    assert!(!s.spawned());
    assert_eq!(s.phase(), Phase::Streaming);
    assert_eq!(s.line("[youtube] Extracting URL"), None);
    assert_eq!(
        s.line("[download]  10.0% of 5MiB"),
        Some(DownloadEvent::Progress { message: "[download]  10.0% of 5MiB".to_string() })
    );
    assert_eq!(s.progress(), Some(100));
    assert_eq!(s.phase(), Phase::Streaming);
    assert_eq!(s.line("[output] /d/part.mp4"), None);
    assert_eq!(s.line("[output] /d/v.mp4"), None);
    assert_eq!(outcome_text(s.exited(0)), "success:/d/v.mp4");
    assert_eq!(s.phase(), Phase::Succeeded);
    assert_eq!(outcome_text(s.exited(1)), "none");
    assert_eq!(s.line("[download] 50%"), None);
    assert_eq!(s.progress(), Some(100));
    assert_eq!(s.phase(), Phase::Succeeded);
}

#[test]
fn supervisor_fails_with_the_captured_output() {
    let mut s = Supervisor::new(1);
    s.spawned();
    s.line("WARNING: slow");
    s.line("[download] 3%");
    s.line("ERROR: HTTP 403");
    assert_eq!(outcome_text(s.exited(1)), "failure:WARNING: slow\nERROR: HTTP 403");
    assert_eq!(s.phase(), Phase::Failed);
    let mut quiet = Supervisor::new(2);
    quiet.spawned();
    assert_eq!(
        outcome_text(quiet.exited(-9)),
        "failure:download process exited with an error"
    );
}

#[test]
fn supervisor_spawn_failure_ends_the_supervision() {
    let mut s = Supervisor::new(1);
    assert_eq!(outcome_text(s.spawn_failed("No such file".to_string())), "failure:No such file");
    assert_eq!(s.phase(), Phase::Failed);
    assert!(!s.spawned());
    assert_eq!(s.phase(), Phase::Failed);
    assert_eq!(outcome_text(s.exited(0)), "none");
    let mut late = Supervisor::new(2);
    late.spawned();
    assert_eq!(outcome_text(late.spawn_failed("late".to_string())), "none");
    assert_eq!(late.phase(), Phase::Streaming);
}

#[test]
fn supervisor_cancellation_waits_for_the_exit() {
    let mut s = Supervisor::new(1);
    s.spawned();
    assert!(s.cancel());
    assert_eq!(s.phase(), Phase::Streaming);
    assert_eq!(outcome_text(s.exited(0)), "cancelled");
    assert_eq!(s.phase(), Phase::Cancelled);
    assert!(!s.cancel());
    let mut early = Supervisor::new(2);
    assert!(!early.cancel());
    assert_eq!(early.phase(), Phase::Starting);
    assert!(early.spawned());
    assert_eq!(outcome_text(early.exited(1)), "cancelled");
}

#[test]
fn lines_before_the_spawn_are_ignored() {
    let mut s = Supervisor::new(1);
    assert_eq!(s.line("[download] 5%"), None);
    assert_eq!(s.progress(), None);
    s.spawned();
    assert_eq!(outcome_text(s.exited(2)), "failure:download process exited with an error");
}

#[test]
fn terminal_events_report_the_outcome() {
    assert_eq!(
        terminal_event(&TerminalOutcome::Success("/d/a.mp4".to_string())),
        DownloadEvent::Completed { message: "/d/a.mp4".to_string() }
    );
    assert_eq!(
        terminal_event(&TerminalOutcome::Failure("HTTP 403".to_string())),
        DownloadEvent::Error { message: "HTTP 403".to_string() }
    );
    assert_eq!(
        terminal_event(&TerminalOutcome::Cancelled),
        DownloadEvent::Error { message: "Download cancelled".to_string() }
    );
}

#[test]
fn invocation_arguments_follow_the_request() {
    let plain = JobParams {
        url: "https://example.org/v".to_string(),
        format: "bestvideo+bestaudio".to_string(),
        output_dir: "/downloads".to_string(),
        cookies_from_browser: None,
    };
    assert_eq!(
        invocation_arguments(&plain),
        vec![
            "--newline",
            "--print",
            "after_move:[output] %(filepath)s",
            "--format",
            "bestvideo+bestaudio",
            "--paths",
            "/downloads",
            "--",
            "https://example.org/v"
        ]
    );
    let with_cookies = JobParams { cookies_from_browser: Some("firefox".to_string()), ..plain };
    assert_eq!(
        invocation_arguments(&with_cookies),
        vec![
            "--newline",
            "--print",
            "after_move:[output] %(filepath)s",
            "--format",
            "bestvideo+bestaudio",
            "--paths",
            "/downloads",
            "--cookies-from-browser",
            "firefox",
            "--",
            "https://example.org/v"
        ]
    );
}

#[test]
fn success_without_a_reported_file_has_an_empty_path() {
    let mut s = Supervisor::new(1);
    s.spawned();
    s.line("[output]/d/no-space.mp4");
    s.line("output: /d/x.mp4");
    assert_eq!(outcome_text(s.exited(0)), "success:");
    let mut failed = Supervisor::new(2);
    failed.spawned();
    failed.line("[output] /d/v.mp4");
    failed.line("[output]x");
    assert_eq!(outcome_text(failed.exited(3)), "failure:[output]x");
}

fn ended(status: JobStatus, output_path: Option<&str>, error: Option<&str>) -> Job {
    Job {
        id: 1,
        params: JobParams {
            url: "u".to_string(),
            format: "f".to_string(),
            output_dir: "d".to_string(),
            cookies_from_browser: None,
        },
        status,
        output_path: output_path.map(|s| s.to_string()),
        error: error.map(|s| s.to_string()),
        created_at: 1,
        updated_at: 2,
        saved: None,
    }
}

#[test]
fn record_gives_the_terminal_event() {
    assert_eq!(job_event(&ended(JobStatus::Pending, None, None)), None);
    assert_eq!(job_event(&ended(JobStatus::Downloading, None, None)), None);
    assert_eq!(
        job_event(&ended(JobStatus::Completed, Some("/d/a.mp4"), None)),
        Some(DownloadEvent::Completed { message: "/d/a.mp4".to_string() })
    );
    assert_eq!(
        job_event(&ended(JobStatus::Completed, None, None)),
        Some(DownloadEvent::Completed { message: String::new() })
    );
    assert_eq!(
        job_event(&ended(JobStatus::Failed, None, Some("HTTP 403"))),
        Some(DownloadEvent::Error { message: "HTTP 403".to_string() })
    );
    assert_eq!(
        job_event(&ended(JobStatus::Cancelled, None, None)),
        Some(DownloadEvent::Error { message: "Download cancelled".to_string() })
    );
}
