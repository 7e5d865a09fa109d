//! The job table: records keyed by id, kept in insertion order.

use vstd::prelude::*;
use vstd::string::StringExecFns;
use crate::error::QueueError;
use crate::job::{
    clone_opt_string, job_views, Job, JobParams, JobStatus, JobView, Saved, TerminalOutcome,
};
use crate::lemmas::{lemma_count_take_step, lemma_position, lemma_without_completed};
use crate::model::{
    count_status, has_job, position, requeued, with_status, without_completed, TableView,
};

verus! {

/// Text of the failure that an insertion reports when no id is left.
pub open spec fn ids_exhausted_text() -> Seq<char> {
    "job id space exhausted"@
}

/// Table of job records. Ids are assigned in increasing order and never
/// reused, also after records were deleted.
#[derive(Debug)]
pub struct JobStore {
    jobs: Vec<Job>,
    next_id: u64,
}

impl View for JobStore {
    type V = TableView;

    closed spec fn view(&self) -> TableView {
        TableView { jobs: job_views(self.jobs@), next_id: self.next_id as nat }
    }
}

impl JobStore {
    /// An empty table whose first job gets id 1.
    pub fn new() -> (store: JobStore)
        ensures
            store@ == (TableView { jobs: Seq::empty(), next_id: 1 }),
            store@.wf(),
    {
        let store = JobStore { jobs: Vec::new(), next_id: 1 };
        assert(store@.jobs =~= Seq::empty());
        store
    }

    /// An empty table that continues an earlier one: the first job gets
    /// `next_id`, so ids handed out before are not handed out again.
    pub fn starting_at(next_id: u64) -> (store: JobStore)
        ensures
            store@ == (TableView { jobs: Seq::empty(), next_id: next_id as nat }),
            store@.wf(),
    {
        let store = JobStore { jobs: Vec::new(), next_id };
        assert(store@.jobs =~= Seq::empty());
        store
    }

    pub fn len(&self) -> (n: usize)
        ensures
            n == self@.jobs.len(),
    {
        self.jobs.len()
    }

    /// The id that the next insertion assigns.
    pub fn next_id(&self) -> (id: u64)
        ensures
            id == self@.next_id,
    {
        self.next_id
    }

    /// Adds a pending job and returns its id. Fails, changing nothing, when
    /// every id has been handed out.
    pub fn insert(&mut self, params: JobParams, now: i64) -> (r: Result<u64, QueueError>)
        requires
            old(self)@.wf(),
        ensures
            final(self)@.wf(),
            old(self)@.can_insert() ==> r == Ok::<u64, QueueError>(old(self)@.next_id as u64)
                && final(self)@ == old(self)@.insert(params@, now),
            !old(self)@.can_insert() ==> r is Err && r->Err_0 is Persistence
                && r->Err_0.message_text() == ids_exhausted_text() && final(self)@ == old(self)@,
    {
        if self.next_id == u64::MAX {
            return Err(QueueError::Persistence(String::from_str("job id space exhausted")));
        }
        let id = self.next_id;
        let job = Job {
            id,
            params,
            status: JobStatus::Pending,
            output_path: None,
            error: None,
            created_at: now,
            updated_at: now,
            saved: None,
        };
        proof {
            assert(job@ == JobView::fresh(id, params@, now));
            assert(job_views(self.jobs@.push(job)) =~= job_views(self.jobs@).push(job@));
        }
        self.jobs.push(job);
        self.next_id = id + 1;
        Ok(id)
    }

    /// Index of the job with the given id.
    pub fn find(&self, id: u64) -> (r: Option<usize>)
        requires
            self@.wf(),
        ensures
            r is Some <==> has_job(self@.jobs, id),
            r is Some ==> r->Some_0 == position(self@.jobs, id),
    {
        let mut i: usize = 0;
        while i < self.jobs.len()
            invariant
                i <= self.jobs.len(),
                self@.wf(),
                forall|k: int| 0 <= k < i ==> (#[trigger] self@.jobs[k]).id != id,
            decreases self.jobs.len() - i,
        {
            if self.jobs[i].id == id {
                proof {
                    assert(self@.jobs[i as int].id == id);
                    lemma_position(self@.jobs, i as int);
                }
                return Some(i);
            }
            i = i + 1;
        }
        None
    }

    /// Status of the job at index `i`.
    pub fn status_at(&self, i: usize) -> (status: JobStatus)
        requires
            i < self@.jobs.len(),
        ensures
            status == self@.jobs[i as int].status,
    {
        self.jobs[i].status
    }

    /// Id of the job at index `i`.
    pub fn id_at(&self, i: usize) -> (id: u64)
        requires
            i < self@.jobs.len(),
        ensures
            id == self@.jobs[i as int].id,
    {
        self.jobs[i].id
    }

    /// A copy of the record with the given id.
    pub fn get(&self, id: u64) -> (r: Option<Job>)
        requires
            self@.wf(),
        ensures
            r is Some <==> has_job(self@.jobs, id),
            r is Some ==> r->Some_0@ == self@.jobs[position(self@.jobs, id)],
    {
        match self.find(id) {
            Some(i) => Some(self.jobs[i].duplicate()),
            None => None,
        }
    }

    /// Copies of the records that have the given status, oldest first.
    pub fn list(&self, status: JobStatus) -> (found: Vec<Job>)
        ensures
            job_views(found@) == with_status(self@.jobs, status),
    {
        let mut found: Vec<Job> = Vec::new();
        let mut i: usize = 0;
        proof {
            reveal(Seq::filter);
            assert(self@.jobs.take(0) =~= Seq::empty());
            assert(job_views(found@) =~= Seq::empty());
        }
        while i < self.jobs.len()
            invariant
                i <= self.jobs.len(),
                job_views(found@) == with_status(self@.jobs.take(i as int), status),
            decreases self.jobs.len() - i,
        {
            proof {
                reveal(Seq::filter);
                assert(self@.jobs.take(i + 1).drop_last() =~= self@.jobs.take(i as int));
            }
            if self.jobs[i].status == status {
                let copy = self.jobs[i].duplicate();
                proof {
                    assert(job_views(found@.push(copy)) =~= job_views(found@).push(copy@));
                }
                found.push(copy);
            }
            i = i + 1;
        }
        proof {
            assert(self@.jobs.take(i as int) =~= self@.jobs);
        }
        found
    }

    /// Marks the job at index `i` as downloading if, and only if, it is
    /// pending, and returns its id in that case.
    pub fn claim_at(&mut self, i: usize, now: i64) -> (claimed: Option<u64>)
        requires
            i < old(self)@.jobs.len(),
        ensures
            final(self)@.next_id == old(self)@.next_id,
            old(self)@.jobs[i as int].status == JobStatus::Pending ==> claimed == Some(
                old(self)@.jobs[i as int].id,
            ) && final(self)@.jobs == old(self)@.jobs.update(
                i as int,
                old(self)@.jobs[i as int].started(now),
            ),
            old(self)@.jobs[i as int].status != JobStatus::Pending ==> claimed is None
                && final(self)@ == old(self)@,
    {
        if self.jobs[i].status == JobStatus::Pending {
            self.jobs[i].status = JobStatus::Downloading;
            self.jobs[i].updated_at = now;
            proof {
                assert(final(self)@.jobs =~= old(self)@.jobs.update(
                    i as int,
                    old(self)@.jobs[i as int].started(now),
                ));
            }
            Some(self.jobs[i].id)
        } else {
            None
        }
    }

    /// Records the terminal outcome of the job at index `i`.
    pub fn conclude_at(&mut self, i: usize, outcome: TerminalOutcome, now: i64)
        requires
            i < old(self)@.jobs.len(),
        ensures
            final(self)@.next_id == old(self)@.next_id,
            final(self)@.jobs == old(self)@.jobs.update(
                i as int,
                old(self)@.jobs[i as int].concluded(outcome@, now),
            ),
    {
        match outcome {
            TerminalOutcome::Success(path) => {
                self.jobs[i].status = JobStatus::Completed;
                self.jobs[i].output_path = Some(path);
                self.jobs[i].error = None;
            },
            TerminalOutcome::Failure(detail) => {
                self.jobs[i].status = JobStatus::Failed;
                self.jobs[i].output_path = None;
                self.jobs[i].error = Some(detail);
            },
            TerminalOutcome::Cancelled => {
                self.jobs[i].status = JobStatus::Cancelled;
                self.jobs[i].output_path = None;
                self.jobs[i].error = None;
            },
        }
        self.jobs[i].updated_at = now;
        proof {
            assert(final(self)@.jobs =~= old(self)@.jobs.update(
                i as int,
                old(self)@.jobs[i as int].concluded(outcome@, now),
            ));
        }
    }

    /// Makes the job at index `i` pending again and clears its result.
    pub fn rearm_at(&mut self, i: usize, now: i64)
        requires
            i < old(self)@.jobs.len(),
        ensures
            final(self)@.next_id == old(self)@.next_id,
            final(self)@.jobs == old(self)@.jobs.update(
                i as int,
                old(self)@.jobs[i as int].rearmed(now),
            ),
    {
        self.jobs[i].status = JobStatus::Pending;
        self.jobs[i].output_path = None;
        self.jobs[i].error = None;
        self.jobs[i].updated_at = now;
        proof {
            assert(final(self)@.jobs =~= old(self)@.jobs.update(
                i as int,
                old(self)@.jobs[i as int].rearmed(now),
            ));
        }
    }

    /// Deletes the completed jobs and returns how many there were.
    pub fn remove_completed(&mut self) -> (removed: usize)
        requires
            old(self)@.wf(),
        ensures
            final(self)@.wf(),
            final(self)@.next_id == old(self)@.next_id,
            final(self)@.jobs == without_completed(old(self)@.jobs),
            removed == count_status(old(self)@.jobs, JobStatus::Completed),
    {
        let ghost jobs0 = self@.jobs;
        let mut removed: usize = 0;
        let mut i: usize = 0;
        proof {
            reveal(Seq::filter);
            assert(jobs0.take(0) =~= Seq::<JobView>::empty());
            assert(jobs0.skip(0) =~= jobs0);
            assert(self@.jobs =~= without_completed(jobs0.take(0)) + jobs0.skip(0));
            assert(jobs0.len() == self.jobs.len());
        }
        while i < self.jobs.len()
            invariant
                self.next_id == old(self).next_id,
                jobs0 == old(self)@.jobs,
                jobs0.len() <= usize::MAX,
                i + removed <= jobs0.len(),
                i <= self.jobs.len(),
                self@.jobs == without_completed(jobs0.take(i + removed)) + jobs0.skip(i + removed),
                i == without_completed(jobs0.take(i + removed)).len(),
                removed == count_status(jobs0.take(i + removed), JobStatus::Completed),
            decreases self.jobs.len() - i,
        {
            let ghost p = (i + removed) as int;
            let ghost current = self@.jobs;
            proof {
                reveal(Seq::filter);
                assert(p < jobs0.len()) by {
                    assert(current.len() == i + jobs0.skip(p).len());
                }
                assert(jobs0.take(p + 1).drop_last() =~= jobs0.take(p));
                assert(current[i as int] == jobs0.skip(p)[0]);
                lemma_count_take_step(jobs0, p, JobStatus::Completed);
            }
            if self.jobs[i].status == JobStatus::Completed {
                self.jobs.remove(i);
                proof {
                    assert(job_views(old(self).jobs@) == jobs0);
                    assert(self@.jobs =~= current.remove(i as int));
                    assert(current.remove(i as int) =~= without_completed(jobs0.take(p + 1))
                        + jobs0.skip(p + 1));
                }
                removed = removed + 1;
            } else {
                proof {
                    assert(current =~= without_completed(jobs0.take(p + 1)) + jobs0.skip(p + 1));
                }
                i = i + 1;
            }
        }
        proof {
            let p = (i + removed) as int;
            assert(p == jobs0.len()) by {
                assert(self@.jobs.len() == i + jobs0.skip(p).len());
            }
            assert(jobs0.take(p) =~= jobs0);
            assert(self@.jobs =~= without_completed(jobs0));
            lemma_without_completed(jobs0, JobStatus::Completed);
            assert forall|k: int| 0 <= k < self@.jobs.len() implies (#[trigger] self@.jobs[k]).id
                < self@.next_id by {
                let m = choose|m: int| 0 <= m < jobs0.len() && jobs0[m] == self@.jobs[k];
                assert(jobs0[m].id < old(self)@.next_id);
            }
        }
        removed
    }

    /// Whether a write of the record at index `i` was ever confirmed.
    pub fn has_saved_at(&self, i: usize) -> (yes: bool)
        requires
            i < self@.jobs.len(),
        ensures
            yes == (self@.jobs[i as int].saved is Some),
    {
        self.jobs[i].saved.is_some()
    }

    /// Notes that the record at index `i` was written to durable storage
    /// under `status`.
    pub fn acknowledge_at(&mut self, i: usize, status: JobStatus)
        requires
            i < old(self)@.jobs.len(),
        ensures
            final(self)@.next_id == old(self)@.next_id,
            final(self)@.jobs == old(self)@.jobs.update(
                i as int,
                old(self)@.jobs[i as int].acknowledged(status),
            ),
    {
        let saved = Saved {
            status,
            output_path: clone_opt_string(&self.jobs[i].output_path),
            error: clone_opt_string(&self.jobs[i].error),
            updated_at: self.jobs[i].updated_at,
        };
        self.jobs[i].saved = Some(saved);
        proof {
            assert(final(self)@.jobs =~= old(self)@.jobs.update(
                i as int,
                old(self)@.jobs[i as int].acknowledged(status),
            ));
        }
    }

    /// Undoes, as far as it can be undone, a write of the record at index
    /// `i` that failed with `detail`, and returns the status that the record
    /// then has.
    pub fn put_back_at(&mut self, i: usize, detail: &str, now: i64) -> (status: JobStatus)
        requires
            i < old(self)@.jobs.len(),
        ensures
            final(self)@.next_id == old(self)@.next_id,
            final(self)@.jobs == old(self)@.jobs.update(
                i as int,
                old(self)@.jobs[i as int].write_failed(detail@, now),
            ),
            status == old(self)@.jobs[i as int].write_failed(detail@, now).status,
    {
        let ghost before = self@.jobs[i as int];
        let snapshot = match &self.jobs[i].saved {
            Some(saved) => Some(saved.duplicate()),
            None => None,
        };
        if !self.jobs[i].status.terminal() {
            match snapshot {
                None => {
                    self.jobs[i].status = JobStatus::Failed;
                    self.jobs[i].output_path = None;
                    self.jobs[i].error = Some(String::from_str(detail));
                    self.jobs[i].updated_at = now;
                },
                Some(saved) => {
                    if saved.status != JobStatus::Downloading {
                        self.jobs[i].status = saved.status;
                        self.jobs[i].output_path = saved.output_path;
                        self.jobs[i].error = saved.error;
                        self.jobs[i].updated_at = saved.updated_at;
                    }
                },
            }
        }
        proof {
            assert(final(self)@.jobs =~= old(self)@.jobs.update(
                i as int,
                before.write_failed(detail@, now),
            ));
        }
        self.jobs[i].status
    }

    /// Gives the record at index `i` another status and changes nothing else.
    pub fn set_status_at(&mut self, i: usize, status: JobStatus)
        requires
            i < old(self)@.jobs.len(),
        ensures
            final(self)@.next_id == old(self)@.next_id,
            final(self)@.jobs == old(self)@.jobs.update(
                i as int,
                old(self)@.jobs[i as int].with_status(status),
            ),
    {
        self.jobs[i].status = status;
        proof {
            assert(final(self)@.jobs =~= old(self)@.jobs.update(
                i as int,
                old(self)@.jobs[i as int].with_status(status),
            ));
        }
    }

    /// The table that a restart reads from durable storage. The records are
    /// taken if their ids grow strictly and lie below `next_id`; a job that
    /// was downloading waits again. Any other run of records is refused.
    pub fn from_records(records: Vec<Job>, next_id: u64, now: i64) -> (r: Result<
        JobStore,
        QueueError,
    >)
        ensures
            (TableView { jobs: job_views(records@), next_id: next_id as nat }).wf() ==> r is Ok
                && r->Ok_0@ == (TableView {
                jobs: requeued(job_views(records@), now),
                next_id: next_id as nat,
            }) && r->Ok_0@.wf(),
            !(TableView { jobs: job_views(records@), next_id: next_id as nat }).wf() ==> r is Err
                && r->Err_0 is Persistence && r->Err_0.message_text() == records_refused_text(),
    {
        let ghost given = job_views(records@);
        let mut table = records;
        let mut i: usize = 0;
        while i < table.len()
            invariant
                given == job_views(records@),
                i <= table.len(),
                given.len() == table.len(),
                forall|k: int| 0 <= k < i ==> (#[trigger] job_views(table@)[k]) == given[k].requeued(now),
                forall|k: int| i <= k < given.len() ==> (#[trigger] job_views(table@)[k]) == given[k],
                forall|a: int, b: int| 0 <= a < b < i ==> (#[trigger] given[a]).id < (#[trigger] given[b]).id,
                forall|k: int| 0 <= k < i ==> (#[trigger] given[k]).id < next_id,
            decreases table.len() - i,
        {
            proof {
                assert(job_views(table@)[i as int] == given[i as int]);
            }
            if table[i].id >= next_id {
                proof {
                    assert(given[i as int].id >= next_id);
                }
                return Err(QueueError::Persistence(String::from_str("job records out of order")));
            }
            if i > 0 {
                proof {
                    assert(job_views(table@)[i - 1] == given[i - 1].requeued(now));
                }
                if table[i - 1].id >= table[i].id {
                    proof {
                        assert(given[i - 1].id >= given[i as int].id);
                    }
                    return Err(
                        QueueError::Persistence(String::from_str("job records out of order")),
                    );
                }
                proof {
                    assert forall|a: int| 0 <= a < i implies (#[trigger] given[a]).id
                        < given[i as int].id by {
                        if a < i - 1 {
                            assert(given[a].id < given[i - 1].id);
                        }
                    }
                }
            }
            let ghost current = job_views(table@);
            let saved = Saved {
                status: table[i].status,
                output_path: clone_opt_string(&table[i].output_path),
                error: clone_opt_string(&table[i].error),
                updated_at: table[i].updated_at,
            };
            if table[i].status == JobStatus::Downloading {
                table[i].status = JobStatus::Pending;
                table[i].updated_at = now;
            }
            table[i].saved = Some(saved);
            proof {
                assert(job_views(table@) =~= current.update(
                    i as int,
                    given[i as int].requeued(now),
                ));
            }
            i = i + 1;
        }
        proof {
            assert(job_views(table@) =~= requeued(given, now));
        }
        Ok(JobStore { jobs: table, next_id })
    }
}

/// Text of the failure that a restart reports for records that cannot be a
/// job table.
pub open spec fn records_refused_text() -> Seq<char> {
    "job records out of order"@
}

} // verus!
