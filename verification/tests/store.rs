use ytdlp_queue::error::QueueError;
use ytdlp_queue::job::{JobParams, JobStatus, TerminalOutcome};
use ytdlp_queue::store::JobStore;

fn params(url: &str) -> JobParams {
    JobParams {
        url: url.to_string(),
        format: "best".to_string(),
        output_dir: "/d".to_string(),
        cookies_from_browser: None,
    }
}

#[test]
fn store_assigns_increasing_ids() {
    let mut s = JobStore::new();
    assert_eq!(s.next_id(), 1);
    assert_eq!(s.insert(params("a"), 1), Ok(1));
    assert_eq!(s.insert(params("b"), 2), Ok(2));
    assert_eq!(s.len(), 2);
    assert_eq!(s.next_id(), 3);
    assert_eq!(s.find(2), Some(1));
    assert_eq!(s.find(3), None);
    assert_eq!(s.id_at(0), 1);
    assert_eq!(s.status_at(1), JobStatus::Pending);
    assert_eq!(s.get(2).unwrap().params.url, "b");
    assert!(s.get(5).is_none());
}

#[test]
fn store_without_ids_refuses_insertion() {
    let mut s = JobStore::starting_at(u64::MAX);
    assert_eq!(
        s.insert(params("a"), 1),
        Err(QueueError::Persistence("job id space exhausted".to_string()))
    );
    assert_eq!(s.len(), 0);
    assert_eq!(s.next_id(), u64::MAX);
}

#[test]
fn store_claim_is_conditional_on_pending() {
    let mut s = JobStore::new();
    s.insert(params("a"), 1).unwrap();
    assert_eq!(s.claim_at(0, 5), Some(1));
    assert_eq!(s.status_at(0), JobStatus::Downloading);
    assert_eq!(s.get(1).unwrap().updated_at, 5);
    assert_eq!(s.claim_at(0, 6), None);
    assert_eq!(s.get(1).unwrap().updated_at, 5);
}

#[test]
fn store_records_outcomes_and_rearms() {
    let mut s = JobStore::new();
    s.insert(params("a"), 1).unwrap();
    s.insert(params("b"), 1).unwrap();
    s.insert(params("c"), 1).unwrap();
    s.conclude_at(0, TerminalOutcome::Success("/d/a".to_string()), 2);
    s.conclude_at(1, TerminalOutcome::Failure("bad".to_string()), 3);
    s.conclude_at(2, TerminalOutcome::Cancelled, 4);
    let a = s.get(1).unwrap();
    assert_eq!((a.status, a.output_path.as_deref(), a.error.as_deref()), (JobStatus::Completed, Some("/d/a"), None));
    let b = s.get(2).unwrap();
    assert_eq!((b.status, b.output_path.as_deref(), b.error.as_deref(), b.updated_at), (JobStatus::Failed, None, Some("bad"), 3));
    let c = s.get(3).unwrap();
    assert_eq!((c.status, c.output_path.as_deref(), c.error.as_deref()), (JobStatus::Cancelled, None, None));
    s.rearm_at(1, 9);
    let b = s.get(2).unwrap();
    assert_eq!((b.status, b.error.as_deref(), b.created_at, b.updated_at), (JobStatus::Pending, None, 1, 9));
    let listed: Vec<u64> = s.list(JobStatus::Pending).iter().map(|j| j.id).collect();
    assert_eq!(listed, vec![2]);
    assert_eq!(s.remove_completed(), 1);
    assert_eq!(s.len(), 2);
    assert_eq!(s.id_at(0), 2);
    assert_eq!(s.next_id(), 4);
}
