use ytdlp_queue::history::{check_duplicate, DuplicateCheckResult, HistoryItem};

fn item() -> HistoryItem {
    HistoryItem {
        id: 4,
        video_id: "abc123".to_string(),
        url: "https://example.org/watch?v=abc123".to_string(),
        output_path: "/d/abc.mp4".to_string(),
        downloaded_at: 1_700_000_000_000,
    }
}

#[test]
fn duplicate_answer_follows_history_and_queue() {
    assert_eq!(
        check_duplicate(Some(item()), false),
        DuplicateCheckResult { in_history: true, in_queue: false, history_item: Some(item()) }
    );
    assert_eq!(
        check_duplicate(None, true),
        DuplicateCheckResult { in_history: false, in_queue: true, history_item: None }
    );
    assert_eq!(
        check_duplicate(Some(item()), true),
        DuplicateCheckResult { in_history: true, in_queue: true, history_item: Some(item()) }
    );
    assert_eq!(
        check_duplicate(None, false),
        DuplicateCheckResult { in_history: false, in_queue: false, history_item: None }
    );
}
