use ytdlp_queue::binaries::{
    check_dependencies, check_ffmpeg, check_ytdlp, get_binaries_dir, get_ffmpeg_path,
    get_ytdlp_path, resolve_ytdlp_path, try_get_version, update_ytdlp, DependencyStatus,
};
use ytdlp_queue::error::AppError;
use ytdlp_queue::text::{is_space, take_first_line, trim};

#[test]
fn binaries_dir_is_inside_the_data_dir() {
    let expected = std::path::Path::new("/data/app").join("binaries");
    assert_eq!(get_binaries_dir("/data/app"), expected.to_str().unwrap());
    assert_ne!(get_binaries_dir("/data/app"), "/data/app");
    assert_ne!(get_binaries_dir("/data/app"), "binaries");
    assert_eq!(get_binaries_dir("/data/app"), "/data/app/binaries");
    assert_eq!(get_binaries_dir("/data/app/"), "/data/app/binaries");
}

#[test]
fn tool_paths_depend_on_the_operating_system() {
    assert_eq!(get_ytdlp_path("/data", "linux"), "/data/binaries/yt-dlp");
    assert_eq!(get_ytdlp_path("/data", "macos"), "/data/binaries/yt-dlp");
    assert_eq!(get_ytdlp_path("/data", "windows"), "/data/binaries/yt-dlp.exe");
    assert_eq!(get_ffmpeg_path("/data", "linux"), "/data/binaries/ffmpeg");
    assert_eq!(get_ffmpeg_path("/data", "windows"), "/data/binaries/ffmpeg.exe");
}

#[test]
fn version_probe_is_trimmed() {
    assert_eq!(try_get_version(true, b"2025.01.15\n".to_vec()), Some("2025.01.15".to_string()));
    assert_eq!(try_get_version(true, b"  \t2025.01.15 \r\n".to_vec()), Some("2025.01.15".to_string()));
    assert_eq!(try_get_version(true, b"".to_vec()), Some(String::new()));
    assert_eq!(try_get_version(true, b" \n ".to_vec()), Some(String::new()));
    assert_eq!(try_get_version(false, b"2025.01.15\n".to_vec()), None);
    assert_eq!(try_get_version(true, vec![0xff, 0xfe]), None);
    assert_eq!(try_get_version(true, "v\u{e9}\u{a0}".as_bytes().to_vec()), Some("v\u{e9}".to_string()));
}

#[test]
fn trim_removes_whitespace_at_both_ends_only() {
    assert_eq!(trim("  a b  "), "a b");
    assert_eq!(trim("\u{2003}x\u{3000}"), "x");
    assert_eq!(trim("x"), "x");
    assert_eq!(trim(""), "");
    assert_eq!(trim(" \n\t"), "");
}

#[test]
fn ffmpeg_probe_gives_the_first_line() {
    let out = b"ffmpeg version 6.1 Copyright (c) 2000-2023\nbuilt with gcc\n".to_vec();
    assert_eq!(check_ffmpeg(true, out.clone()), Some("ffmpeg version 6.1 Copyright (c) 2000-2023".to_string()));
    assert_eq!(check_ffmpeg(false, out), None);
    assert_eq!(check_ffmpeg(true, Vec::new()), None);
    assert_eq!(check_ffmpeg(true, vec![0xc3]), None);
    assert_eq!(check_ffmpeg(true, b"one\r\ntwo".to_vec()), Some("one".to_string()));
}

#[test]
fn first_line_follows_the_line_endings() {
    assert_eq!(take_first_line(""), None);
    assert_eq!(take_first_line("abc"), Some("abc".to_string()));
    assert_eq!(take_first_line("abc\r"), Some("abc\r".to_string()));
    assert_eq!(take_first_line("abc\n"), Some("abc".to_string()));
    assert_eq!(take_first_line("\nabc"), Some(String::new()));
    assert_eq!(take_first_line("a\r\r\nb"), Some("a\r".to_string()));
    for text in ["", "abc", "abc\r", "abc\n", "\nabc", "a\r\r\nb", "\r\n", "x\ny\nz"] {
        assert_eq!(take_first_line(text), text.lines().next().map(|l| l.to_string()));
    }
}

#[test]
fn local_downloader_is_preferred() {
    assert_eq!(check_ytdlp(Some("1".to_string()), Some("2".to_string())), Some("1".to_string()));
    assert_eq!(check_ytdlp(None, Some("2".to_string())), Some("2".to_string()));
    assert_eq!(check_ytdlp(Some("1".to_string()), None), Some("1".to_string()));
    assert_eq!(check_ytdlp(None, None), None);
}

#[test]
fn dependency_status_follows_the_probes() {
    assert_eq!(
        check_dependencies(Some("2025.01.15".to_string()), None),
        DependencyStatus {
            ytdlp_installed: true,
            ytdlp_version: Some("2025.01.15".to_string()),
            ffmpeg_installed: false,
            ffmpeg_version: None,
        }
    );
    let both = check_dependencies(None, Some("ffmpeg version 6".to_string()));
    assert!(!both.ytdlp_installed && both.ffmpeg_installed);
    assert_eq!(both.ffmpeg_version.as_deref(), Some("ffmpeg version 6"));
}

#[test]
fn downloader_is_resolved_local_first() {
    assert_eq!(resolve_ytdlp_path("/d/binaries/yt-dlp".to_string(), true, true), Ok("/d/binaries/yt-dlp".to_string()));
    assert_eq!(resolve_ytdlp_path("/d/binaries/yt-dlp".to_string(), true, false), Ok("/d/binaries/yt-dlp".to_string()));
    assert_eq!(resolve_ytdlp_path("/d/binaries/yt-dlp".to_string(), false, true), Ok("yt-dlp".to_string()));
    let missing = resolve_ytdlp_path("/d/binaries/yt-dlp".to_string(), false, false);
    assert_eq!(
        missing,
        Err(AppError::BinaryNotFound(
            "yt-dlp not found. Please install via Homebrew (brew install yt-dlp) or click Install.".to_string()
        ))
    );
    assert_eq!(
        missing.unwrap_err().message(),
        "yt-dlp not found. Please install via Homebrew (brew install yt-dlp) or click Install."
    );
}

#[test]
fn update_result_reads_the_right_stream() {
    let out = b"  Updated yt-dlp to 2025.02.01\n".to_vec();
    let err = b"ERROR: no write permission\n".to_vec();
    assert_eq!(update_ytdlp(true, &out, &err), Ok("Updated yt-dlp to 2025.02.01".to_string()));
    assert_eq!(
        update_ytdlp(false, &out, &err),
        Err(AppError::Custom("Update failed: ERROR: no write permission\n".to_string()))
    );
    assert_eq!(update_ytdlp(true, &vec![b'a', 0xff, b'b'], &err), Ok("a\u{fffd}b".to_string()));
}

#[test]
fn white_space_is_what_the_standard_library_calls_white_space() {
    for n in 0..=0x10ffffu32 {
        if let Some(c) = char::from_u32(n) {
            assert_eq!(is_space(c), c.is_whitespace(), "U+{:04X}", n);
        }
    }
    assert!(is_space(' ') && is_space('\n') && is_space('\u{3000}'));
    assert!(!is_space('a') && !is_space('\u{200b}') && !is_space('\u{180e}'));
}
