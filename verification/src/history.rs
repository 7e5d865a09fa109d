//! The download history, as far as the queue's shell decides on it.

use vstd::prelude::*;

verus! {

/// One finished download, as the history keeps it.
#[derive(Debug, PartialEq, Eq)]
pub struct HistoryItem {
    pub id: u64,
    /// The site's id of the video.
    pub video_id: String,
    pub url: String,
    pub output_path: String,
    /// Milliseconds since the Unix epoch.
    pub downloaded_at: i64,
}

/// Whether a video was downloaded before or is being downloaded.
#[derive(Debug, PartialEq, Eq)]
pub struct DuplicateCheckResult {
    pub in_history: bool,
    pub in_queue: bool,
    /// The entry of the history, if there is one.
    pub history_item: Option<HistoryItem>,
}

/// Puts the answer together from what the history and the queue hold of a
/// video: it is in the history exactly if the history gave an entry.
pub fn check_duplicate(history_item: Option<HistoryItem>, in_queue: bool) -> (r:
    DuplicateCheckResult)
    ensures
        r.in_history == (history_item is Some),
        r.in_queue == in_queue,
        r.history_item == history_item,
{
    DuplicateCheckResult { in_history: history_item.is_some(), in_queue, history_item }
}

} // verus!
