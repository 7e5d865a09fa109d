use ytdlp_queue::error::QueueError;
use ytdlp_queue::job::{Job, JobParams, JobStatus, Saved, TerminalOutcome};
use ytdlp_queue::model::Action;
use ytdlp_queue::scheduler::Scheduler;

fn params(url: &str) -> JobParams {
    JobParams {
        url: url.to_string(),
        format: "best".to_string(),
        output_dir: "/downloads".to_string(),
        cookies_from_browser: None,
    }
}

fn status(s: &Scheduler, id: u64) -> JobStatus {
    s.get(id).unwrap().status
}

fn ids(jobs: &[Job]) -> Vec<u64> {
    jobs.iter().map(|j| j.id).collect()
}

fn count(s: &Scheduler, n: u64, wanted: JobStatus) -> usize {
    (1..=n).filter(|id| status(s, *id) == wanted).count()
}

fn filled(limit: u32, jobs: u64) -> Scheduler {
    let mut s = Scheduler::new(limit).unwrap();
    for i in 0..jobs {
        s.submit(params(&format!("https://example.org/{}", i)), 100 + i as i64).unwrap();
    }
    s
}

#[test]
fn three_jobs_under_limit_two() {
    let mut s = Scheduler::new(2).unwrap();
    let a = s.submit(params("a"), 10).unwrap();
    let b = s.submit(params("b"), 11).unwrap();
    let c = s.submit(params("c"), 12).unwrap();
    assert_eq!((a.job_id, b.job_id, c.job_id), (1, 2, 3));
    assert_eq!(status(&s, 1), JobStatus::Downloading);
    assert_eq!(status(&s, 2), JobStatus::Downloading);
    assert_eq!(status(&s, 3), JobStatus::Pending);
    assert_eq!(
        a.actions,
        vec![
            Action::Persist { job_id: 1, status: JobStatus::Pending },
            Action::Persist { job_id: 1, status: JobStatus::Downloading },
            Action::Start { job_id: 1 },
        ]
    );
    assert_eq!(c.actions, vec![Action::Persist { job_id: 3, status: JobStatus::Pending }]);

    let done = s.finish(1, TerminalOutcome::Success("/downloads/a.mp4".to_string()), 20).unwrap();
    assert_eq!(
        done,
        vec![
            Action::Persist { job_id: 1, status: JobStatus::Completed },
            Action::EmitTerminal { job_id: 1 },
            Action::Persist { job_id: 3, status: JobStatus::Downloading },
            Action::Start { job_id: 3 },
        ]
    );
    assert_eq!(status(&s, 1), JobStatus::Completed);
    assert_eq!(status(&s, 2), JobStatus::Downloading);
    assert_eq!(status(&s, 3), JobStatus::Downloading);
    assert_eq!(s.running(), 2);
    let a = s.get(1).unwrap();
    assert_eq!(a.output_path.as_deref(), Some("/downloads/a.mp4"));
    assert_eq!(a.error, None);
    assert_eq!((a.created_at, a.updated_at), (10, 20));
    assert_eq!(s.get(3).unwrap().updated_at, 20);
}

#[test]
fn new_job_record_is_pending_without_result() {
    let mut s = Scheduler::new(1).unwrap();
    s.submit(params("first"), 1).unwrap();
    let p = JobParams {
        url: "https://example.org/v".to_string(),
        format: "bestaudio".to_string(),
        output_dir: "/music".to_string(),
        cookies_from_browser: Some("firefox".to_string()),
    };
    let sub = s.submit(p, 77).unwrap();
    let job = s.get(sub.job_id).unwrap();
    assert_eq!(job.id, 2);
    assert_eq!(job.status, JobStatus::Pending);
    assert_eq!(job.params.url, "https://example.org/v");
    assert_eq!(job.params.format, "bestaudio");
    assert_eq!(job.params.output_dir, "/music");
    assert_eq!(job.params.cookies_from_browser.as_deref(), Some("firefox"));
    assert_eq!(job.output_path, None);
    assert_eq!(job.error, None);
    assert_eq!((job.created_at, job.updated_at), (77, 77));
}

#[test]
fn zero_limit_is_refused() {
    assert_eq!(Scheduler::new(0).err(), Some(QueueError::Config));
    assert_eq!(Scheduler::restore(0, Vec::new(), 5, 0).err().unwrap(), QueueError::Config);
    let mut s = filled(2, 3);
    assert_eq!(s.set_max_concurrent(0, 1), Err(QueueError::Config));
    assert_eq!(s.max_concurrent(), 2);
    assert_eq!(s.running(), 2);
    assert_eq!(status(&s, 3), JobStatus::Pending);
    assert_eq!(QueueError::Config.message(), "Concurrency limit must be at least 1");
}

#[test]
fn unknown_job_is_not_found() {
    let mut s = filled(1, 1);
    assert_eq!(s.get(9).err(), Some(QueueError::NotFound));
    assert_eq!(s.retry(9, 1), Err(QueueError::NotFound));
    assert_eq!(s.finish(9, TerminalOutcome::Cancelled, 1), Err(QueueError::NotFound));
    assert_eq!(s.fault(9, 1), Err(QueueError::NotFound));
    assert_eq!(status(&s, 1), JobStatus::Downloading);
    assert_eq!(s.running(), 1);
    assert_eq!(QueueError::NotFound.message(), "Download task not found");
}

#[test]
fn exhausted_ids_fail_the_submission() {
    let mut s = Scheduler::restore(1, Vec::new(), u64::MAX, 0).unwrap().scheduler;
    let r = s.submit(params("a"), 1);
    match r {
        Err(QueueError::Persistence(text)) => assert_eq!(text, "job id space exhausted"),
        other => panic!("unexpected {:?}", other.map(|x| x.job_id)),
    }
    assert_eq!(s.running(), 0);
    assert!(s.list_queue().is_empty());
    assert_eq!(
        QueueError::Persistence("disk full".to_string()).message(),
        "disk full"
    );
}

#[test]
fn resumed_queue_continues_the_ids() {
    let empty = Scheduler::restore(1, Vec::new(), 41, 0).unwrap();
    assert_eq!(empty.actions, vec![]);
    let mut s = empty.scheduler;
    assert_eq!(s.submit(params("a"), 1).unwrap().job_id, 41);
    assert_eq!(s.submit(params("b"), 1).unwrap().job_id, 42);
    let mut last = Scheduler::restore(1, Vec::new(), u64::MAX - 1, 0).unwrap().scheduler;
    assert_eq!(last.submit(params("a"), 1).unwrap().job_id, u64::MAX - 1);
    assert!(last.submit(params("b"), 1).is_err());
}

#[test]
fn five_submissions_under_limit_two() {
    let s = filled(2, 5);
    assert_eq!(ids(&s.list_active()), vec![1, 2]);
    assert_eq!(ids(&s.list_queue()), vec![3, 4, 5]);
    assert_eq!(s.running(), 2);
    assert_eq!(count(&s, 5, JobStatus::Downloading), 2);
    assert_eq!(count(&s, 5, JobStatus::Pending), 3);
}

#[test]
fn fewer_submissions_than_slots_all_run() {
    let s = filled(4, 3);
    assert_eq!(ids(&s.list_active()), vec![1, 2, 3]);
    assert!(s.list_queue().is_empty());
    assert_eq!(s.running(), 3);
}

#[test]
fn downloads_stay_within_the_limit() {
    let mut s = filled(3, 10);
    let mut now = 1000;
    for round in 0..40u64 {
        now += 1;
        let id = round % 10 + 1;
        match round % 4 {
            0 => {
                s.finish(id, TerminalOutcome::Failure("boom".to_string()), now).unwrap();
            }
            1 => {
                s.retry(id, now).unwrap();
            }
            2 => {
                s.fault(id, now).unwrap();
            }
            _ => {
                s.finish(id, TerminalOutcome::Success("f".to_string()), now).unwrap();
            }
        }
        assert!(s.running() <= 3);
        assert_eq!(s.running() as usize, s.list_active().len());
        assert!(s.list_queue().is_empty() || s.running() == 3);
    }
}

#[test]
fn fault_releases_slot_and_starts_next() {
    let mut s = filled(1, 3);
    let actions = s.fault(1, 50).unwrap();
    assert_eq!(
        actions,
        vec![
            Action::Persist { job_id: 1, status: JobStatus::Failed },
            Action::EmitTerminal { job_id: 1 },
            Action::Persist { job_id: 2, status: JobStatus::Downloading },
            Action::Start { job_id: 2 },
        ]
    );
    let failed = s.get(1).unwrap();
    assert_eq!(failed.status, JobStatus::Failed);
    assert_eq!(failed.error.as_deref(), Some("download supervisor terminated abnormally"));
    assert_eq!(failed.updated_at, 50);
    assert_eq!(status(&s, 2), JobStatus::Downloading);
    assert_eq!(status(&s, 3), JobStatus::Pending);
    assert_eq!(s.running(), 1);
}

#[test]
fn fault_after_the_terminal_transition_releases_nothing() {
    let mut s = filled(2, 2);
    s.finish(1, TerminalOutcome::Success("a".to_string()), 5).unwrap();
    assert_eq!(s.running(), 1);
    assert_eq!(s.fault(1, 6).unwrap(), vec![]);
    assert_eq!(status(&s, 1), JobStatus::Completed);
    assert_eq!(s.running(), 1);
}

#[test]
fn second_outcome_for_a_job_is_ignored() {
    let mut s = filled(1, 2);
    s.finish(1, TerminalOutcome::Cancelled, 5).unwrap();
    assert_eq!(s.running(), 1);
    assert_eq!(s.finish(1, TerminalOutcome::Success("late".to_string()), 6).unwrap(), vec![]);
    let job = s.get(1).unwrap();
    assert_eq!(job.status, JobStatus::Cancelled);
    assert_eq!(job.output_path, None);
    assert_eq!(job.updated_at, 5);
    assert_eq!(s.running(), 1);
    assert_eq!(status(&s, 2), JobStatus::Downloading);
}

#[test]
fn outcome_for_a_pending_job_is_ignored() {
    let mut s = filled(1, 2);
    assert_eq!(s.finish(2, TerminalOutcome::Failure("x".to_string()), 6).unwrap(), vec![]);
    assert_eq!(status(&s, 2), JobStatus::Pending);
    assert_eq!(s.running(), 1);
}

#[test]
fn retry_of_completed_or_running_job_changes_nothing() {
    let mut s = filled(2, 3);
    s.finish(1, TerminalOutcome::Success("/downloads/a".to_string()), 5).unwrap();
    assert_eq!(s.retry(1, 9).unwrap(), vec![]);
    let done = s.get(1).unwrap();
    assert_eq!(done.status, JobStatus::Completed);
    assert_eq!(done.output_path.as_deref(), Some("/downloads/a"));
    assert_eq!(done.updated_at, 5);
    assert_eq!(s.retry(2, 9).unwrap(), vec![]);
    assert_eq!(status(&s, 2), JobStatus::Downloading);
    assert_eq!(s.get(2).unwrap().updated_at, 101);
    assert_eq!(s.running(), 2);
    let mut t = filled(1, 2);
    assert_eq!(t.retry(2, 9).unwrap(), vec![]);
    assert_eq!(status(&t, 2), JobStatus::Pending);
    assert_eq!(t.get(2).unwrap().updated_at, 101);
    assert_eq!(t.submit(params("next"), 1).unwrap().job_id, 3);
}

#[test]
fn retry_of_failed_job_runs_it_again_under_its_id() {
    let mut s = filled(1, 1);
    s.finish(1, TerminalOutcome::Failure("network down".to_string()), 5).unwrap();
    assert_eq!(s.get(1).unwrap().error.as_deref(), Some("network down"));
    assert_eq!(s.running(), 0);
    let actions = s.retry(1, 9).unwrap();
    assert_eq!(
        actions,
        vec![
            Action::Persist { job_id: 1, status: JobStatus::Pending },
            Action::Persist { job_id: 1, status: JobStatus::Downloading },
            Action::Start { job_id: 1 },
        ]
    );
    let job = s.get(1).unwrap();
    assert_eq!(job.status, JobStatus::Downloading);
    assert_eq!(job.error, None);
    assert_eq!(job.output_path, None);
    assert_eq!(job.params.url, "https://example.org/0");
    assert_eq!((job.created_at, job.updated_at), (100, 9));
    assert_eq!(s.running(), 1);
    assert_eq!(s.submit(params("next"), 10).unwrap().job_id, 2);
    assert_eq!(ids(&s.list_active()), vec![1]);
    assert_eq!(ids(&s.list_queue()), vec![2]);
}

#[test]
fn retry_of_cancelled_job_waits_when_no_slot_is_free() {
    let mut s = filled(1, 2);
    s.finish(1, TerminalOutcome::Cancelled, 5).unwrap();
    assert_eq!(status(&s, 2), JobStatus::Downloading);
    let actions = s.retry(1, 9).unwrap();
    assert_eq!(actions, vec![Action::Persist { job_id: 1, status: JobStatus::Pending }]);
    assert_eq!(status(&s, 1), JobStatus::Pending);
    assert_eq!(s.running(), 1);
    s.finish(2, TerminalOutcome::Success("b".to_string()), 10).unwrap();
    assert_eq!(status(&s, 1), JobStatus::Downloading);
}

#[test]
fn raising_the_limit_starts_one_more() {
    let mut s = filled(2, 4);
    let actions = s.set_max_concurrent(3, 30).unwrap();
    assert_eq!(
        actions,
        vec![
            Action::Persist { job_id: 3, status: JobStatus::Downloading },
            Action::Start { job_id: 3 },
        ]
    );
    assert_eq!(s.max_concurrent(), 3);
    assert_eq!(s.running(), 3);
    assert_eq!(ids(&s.list_active()), vec![1, 2, 3]);
    assert_eq!(ids(&s.list_queue()), vec![4]);
    assert_eq!(s.get(3).unwrap().updated_at, 30);
}

#[test]
fn lowering_the_limit_disturbs_no_download() {
    let mut s = filled(3, 5);
    assert_eq!(s.set_max_concurrent(1, 30).unwrap(), vec![]);
    assert_eq!(s.max_concurrent(), 1);
    assert_eq!(s.running(), 3);
    assert_eq!(ids(&s.list_active()), vec![1, 2, 3]);
    assert_eq!(s.finish(1, TerminalOutcome::Success("a".to_string()), 31).unwrap().len(), 2);
    assert_eq!(s.running(), 2);
    assert_eq!(s.finish(2, TerminalOutcome::Success("b".to_string()), 32).unwrap().len(), 2);
    assert_eq!(s.running(), 1);
    assert_eq!(ids(&s.list_queue()), vec![4, 5]);
    let last = s.finish(3, TerminalOutcome::Success("c".to_string()), 33).unwrap();
    assert_eq!(last.len(), 4);
    assert_eq!(ids(&s.list_active()), vec![4]);
}

#[test]
fn cancel_all_then_drain_leaves_nothing_downloading() {
    let mut s = filled(3, 3);
    let signals = s.cancel_all();
    assert_eq!(
        signals,
        vec![
            Action::Cancel { job_id: 1 },
            Action::Cancel { job_id: 2 },
            Action::Cancel { job_id: 3 },
        ]
    );
    assert_eq!(s.running(), 3);
    assert_eq!(ids(&s.list_active()), vec![1, 2, 3]);
    for id in [3u64, 1, 2] {
        let actions = s.finish(id, TerminalOutcome::Cancelled, 40).unwrap();
        assert_eq!(
            actions,
            vec![
                Action::Persist { job_id: id, status: JobStatus::Cancelled },
                Action::EmitTerminal { job_id: id },
            ]
        );
    }
    assert_eq!(s.running(), 0);
    assert!(s.list_active().is_empty());
    assert_eq!(count(&s, 3, JobStatus::Cancelled), 3);
}

#[test]
fn cancel_all_signals_only_what_runs() {
    let mut s = filled(1, 3);
    s.finish(1, TerminalOutcome::Success("a".to_string()), 5).unwrap();
    assert_eq!(s.cancel_all(), vec![Action::Cancel { job_id: 2 }]);
    assert_eq!(Scheduler::new(2).unwrap().cancel_all(), vec![]);
}

#[test]
fn admission_is_idempotent() {
    let mut s = filled(2, 4);
    assert_eq!(s.admit_next(5), vec![]);
    assert_eq!(ids(&s.list_active()), vec![1, 2]);
    assert_eq!(s.running(), 2);
    assert_eq!(s.get(1).unwrap().updated_at, 100);
}

#[test]
fn clear_completed_removes_only_completed_jobs() {
    let mut s = filled(2, 5);
    s.finish(1, TerminalOutcome::Success("a".to_string()), 5).unwrap();
    s.finish(2, TerminalOutcome::Failure("bad".to_string()), 6).unwrap();
    s.finish(3, TerminalOutcome::Success("c".to_string()), 7).unwrap();
    assert_eq!(s.clear_completed(), 2);
    assert_eq!(s.get(1).err(), Some(QueueError::NotFound));
    assert_eq!(s.get(3).err(), Some(QueueError::NotFound));
    assert_eq!(status(&s, 2), JobStatus::Failed);
    assert_eq!(ids(&s.list_active()), vec![4, 5]);
    assert_eq!(s.running(), 2);
    assert_eq!(s.clear_completed(), 0);
    assert_eq!(s.submit(params("next"), 8).unwrap().job_id, 6);
}

#[test]
fn status_predicates() {
    assert!(!JobStatus::Pending.terminal());
    assert!(!JobStatus::Downloading.terminal());
    assert!(JobStatus::Completed.terminal());
    assert!(JobStatus::Failed.terminal());
    assert!(JobStatus::Cancelled.terminal());
    assert!(JobStatus::Failed.rearmable());
    assert!(JobStatus::Cancelled.rearmable());
    assert!(!JobStatus::Completed.rearmable());
    assert!(!JobStatus::Pending.rearmable());
    assert!(!JobStatus::Downloading.rearmable());
}

fn record(id: u64, status: JobStatus) -> Job {
    Job {
        id,
        params: params(&format!("https://example.org/{}", id)),
        status,
        output_path: if status == JobStatus::Completed { Some(format!("/d/{}", id)) } else { None },
        error: if status == JobStatus::Failed { Some("boom".to_string()) } else { None },
        created_at: 10,
        updated_at: 20,
        saved: None,
    }
}

#[test]
fn restart_requeues_what_was_downloading() {
    let records = vec![
        record(2, JobStatus::Completed),
        record(3, JobStatus::Downloading),
        record(5, JobStatus::Pending),
        record(6, JobStatus::Downloading),
        record(8, JobStatus::Failed),
        record(9, JobStatus::Cancelled),
    ];
    let restored = Scheduler::restore(2, records, 10, 99).unwrap();
    assert_eq!(
        restored.actions,
        vec![
            Action::Persist { job_id: 3, status: JobStatus::Pending },
            Action::Persist { job_id: 6, status: JobStatus::Pending },
            Action::Persist { job_id: 3, status: JobStatus::Downloading },
            Action::Start { job_id: 3 },
            Action::Persist { job_id: 5, status: JobStatus::Downloading },
            Action::Start { job_id: 5 },
        ]
    );
    let mut s = restored.scheduler;
    assert_eq!(s.max_concurrent(), 2);
    assert_eq!(s.running(), 2);
    assert_eq!(ids(&s.list_active()), vec![3, 5]);
    assert_eq!(ids(&s.list_queue()), vec![6]);
    assert_eq!(status(&s, 2), JobStatus::Completed);
    assert_eq!(status(&s, 8), JobStatus::Failed);
    assert_eq!(status(&s, 9), JobStatus::Cancelled);
    let done = s.get(2).unwrap();
    assert_eq!((done.output_path.as_deref(), done.updated_at), (Some("/d/2"), 20));
    let stored = s.get(6).unwrap().saved.unwrap();
    assert_eq!((stored.status, stored.updated_at), (JobStatus::Downloading, 20));
    assert_eq!(s.get(6).unwrap().updated_at, 99);
    assert_eq!(s.get(8).unwrap().saved.unwrap().error.as_deref(), Some("boom"));
    assert_eq!(s.submit(params("next"), 100).unwrap().job_id, 10);
    assert!(s.retry(8, 101).is_ok());
    assert_eq!(status(&s, 8), JobStatus::Pending);
}

#[test]
fn restart_refuses_records_that_are_no_table() {
    let refused = |records: Vec<Job>, next_id: u64| match Scheduler::restore(1, records, next_id, 0) {
        Err(QueueError::Persistence(text)) => text,
        Err(other) => panic!("unexpected {:?}", other),
        Ok(_) => panic!("accepted"),
    };
    assert_eq!(
        refused(vec![record(2, JobStatus::Pending), record(2, JobStatus::Pending)], 9),
        "job records out of order"
    );
    assert_eq!(
        refused(vec![record(3, JobStatus::Pending), record(2, JobStatus::Failed)], 9),
        "job records out of order"
    );
    assert_eq!(refused(vec![record(9, JobStatus::Pending)], 9), "job records out of order");
    assert_eq!(refused(vec![record(1, JobStatus::Pending), record(7, JobStatus::Completed)], 5), "job records out of order");
    assert!(Scheduler::restore(1, vec![record(8, JobStatus::Pending)], 9, 0).is_ok());
    assert_eq!(
        Scheduler::restore(0, vec![record(9, JobStatus::Pending)], 9, 0).err().unwrap(),
        QueueError::Config
    );
}

#[test]
fn confirmed_write_is_remembered() {
    let mut s = filled(1, 1);
    assert!(s.get(1).unwrap().saved.is_none());
    assert_eq!(s.persisted(1, JobStatus::Pending), Ok(()));
    let saved: Saved = s.get(1).unwrap().saved.unwrap();
    assert_eq!((saved.status, saved.output_path, saved.error, saved.updated_at), (JobStatus::Pending, None, None, 100));
    assert_eq!(status(&s, 1), JobStatus::Downloading);
    assert_eq!(s.running(), 1);
    assert_eq!(s.persisted(7, JobStatus::Pending), Err(QueueError::NotFound));
}

#[test]
fn failed_start_write_after_retry_leaves_the_job_pending() {
    let mut s = filled(1, 1);
    s.persisted(1, JobStatus::Pending).unwrap();
    s.persisted(1, JobStatus::Downloading).unwrap();
    s.finish(1, TerminalOutcome::Failure("network down".to_string()), 5).unwrap();
    s.persisted(1, JobStatus::Failed).unwrap();
    assert_eq!(s.running(), 0);
    let actions = s.retry(1, 9).unwrap();
    assert_eq!(actions.len(), 3);
    assert_eq!(status(&s, 1), JobStatus::Downloading);
    assert_eq!(s.running(), 1);
    s.persisted(1, JobStatus::Pending).unwrap();
    let recovery = s.persist_failed(1, "disk full".to_string(), 12).unwrap();
    assert_eq!(recovery.error, QueueError::Persistence("disk full".to_string()));
    assert_eq!(recovery.actions, vec![]);
    let job = s.get(1).unwrap();
    assert_eq!((job.status, job.error, job.output_path, job.updated_at), (JobStatus::Pending, None, None, 9));
    assert_eq!(s.running(), 0);
    assert!(s.list_active().is_empty());
    assert_eq!(s.submit(params("next"), 13).unwrap().job_id, 2);
}

#[test]
fn failed_first_write_after_retry_restores_the_failed_record() {
    let mut s = filled(1, 2);
    s.persisted(1, JobStatus::Pending).unwrap();
    s.finish(1, TerminalOutcome::Failure("network down".to_string()), 5).unwrap();
    s.persisted(1, JobStatus::Failed).unwrap();
    s.finish(2, TerminalOutcome::Cancelled, 6).unwrap();
    s.retry(1, 9).unwrap();
    assert_eq!(status(&s, 1), JobStatus::Downloading);
    let recovery = s.persist_failed(1, "disk full".to_string(), 12).unwrap();
    assert_eq!(recovery.actions, vec![]);
    let job = s.get(1).unwrap();
    assert_eq!(
        (job.status, job.error.as_deref(), job.updated_at),
        (JobStatus::Failed, Some("network down"), 5)
    );
    assert_eq!(s.running(), 0);
}

#[test]
fn failed_write_hands_the_slot_to_the_next_job() {
    let mut s = filled(1, 3);
    s.persisted(1, JobStatus::Pending).unwrap();
    s.persisted(2, JobStatus::Pending).unwrap();
    s.persisted(3, JobStatus::Pending).unwrap();
    let recovery = s.persist_failed(1, "locked".to_string(), 12).unwrap();
    assert_eq!(
        recovery.actions,
        vec![
            Action::Persist { job_id: 2, status: JobStatus::Downloading },
            Action::Start { job_id: 2 },
        ]
    );
    assert_eq!(status(&s, 1), JobStatus::Pending);
    assert_eq!(status(&s, 2), JobStatus::Downloading);
    assert_eq!(status(&s, 3), JobStatus::Pending);
    assert_eq!(s.running(), 1);
    s.finish(2, TerminalOutcome::Cancelled, 13).unwrap();
    assert_eq!(status(&s, 1), JobStatus::Downloading);
}

#[test]
fn failed_write_of_a_job_never_stored_fails_the_job() {
    let mut s = filled(1, 1);
    let recovery = s.persist_failed(1, "no space".to_string(), 12).unwrap();
    assert_eq!(recovery.actions, vec![Action::EmitTerminal { job_id: 1 }]);
    let job = s.get(1).unwrap();
    assert_eq!((job.status, job.error.as_deref(), job.updated_at), (JobStatus::Failed, Some("no space"), 12));
    assert_eq!(s.running(), 0);
}

#[test]
fn failed_write_of_an_ended_job_keeps_the_record() {
    let mut s = filled(1, 2);
    s.persisted(1, JobStatus::Downloading).unwrap();
    s.finish(1, TerminalOutcome::Success("/d/a".to_string()), 5).unwrap();
    let recovery = s.persist_failed(1, "locked".to_string(), 12).unwrap();
    assert_eq!(recovery.actions, vec![]);
    let job = s.get(1).unwrap();
    assert_eq!((job.status, job.output_path.as_deref(), job.updated_at), (JobStatus::Completed, Some("/d/a"), 5));
    assert_eq!(status(&s, 2), JobStatus::Downloading);
    assert_eq!(s.running(), 1);
    assert_eq!(s.persist_failed(9, "x".to_string(), 1).err().unwrap(), QueueError::NotFound);
}
