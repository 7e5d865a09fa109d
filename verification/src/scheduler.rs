//! The scheduler: decides which job runs next and keeps the slot count and the job
//! table consistent across every transition.

use vstd::prelude::*;
use vstd::string::StringExecFns;
use crate::error::QueueError;
use crate::gate::AdmissionGate;
use crate::job::{job_views, Job, JobParams, JobStatus, JobView, TerminalOutcome};
use crate::laws::law_admission;
use crate::lemmas::{
    lemma_admission_actions_rest, lemma_count_push, lemma_count_take_all, lemma_count_take_mono,
    lemma_count_take_step, lemma_count_update, lemma_count_zero, lemma_without_completed,
};
use crate::model::{
    admission_actions, admitted, cancel_actions, count_status, has_job, pending_before, position,
    requeue_actions, requeued, with_status, Action, QueueView, TableView,
};
use crate::store::{ids_exhausted_text, records_refused_text, JobStore};

verus! {

/// What a submission returns.
#[derive(Debug)]
pub struct Submission {
    /// Id of the new job.
    pub job_id: u64,
    /// What the caller has to do now, in this order.
    pub actions: Vec<Action>,
}

/// What a restart returns.
#[derive(Debug)]
pub struct Restored {
    pub scheduler: Scheduler,
    /// What the caller has to do now, in this order.
    pub actions: Vec<Action>,
}

/// What the report of a failed write returns.
#[derive(Debug)]
pub struct Recovery {
    /// The failure to hand to whoever asked for the change.
    pub error: QueueError,
    /// What the caller has to do now, in this order.
    pub actions: Vec<Action>,
}

/// The queue's state: the admission gate and the job table.
#[derive(Debug)]
pub struct Scheduler {
    gate: AdmissionGate,
    store: JobStore,
}

impl View for Scheduler {
    type V = QueueView;

    closed spec fn view(&self) -> QueueView {
        QueueView { capacity: self.gate.limit(), held: self.gate.in_use(), table: self.store@ }
    }
}

impl Scheduler {
    /// The state that every constructor gives and every method keeps.
    pub open spec fn wf(&self) -> bool {
        self@.wf()
    }

    /// A queue without jobs. A limit of zero is refused.
    pub fn new(max_concurrent: u32) -> (r: Result<Scheduler, QueueError>)
        ensures
            max_concurrent == 0 ==> r is Err && r->Err_0 == QueueError::Config,
            max_concurrent >= 1 ==> r is Ok && r->Ok_0.wf() && r->Ok_0@ == (QueueView {
                capacity: max_concurrent as nat,
                held: 0,
                table: TableView { jobs: Seq::empty(), next_id: 1 },
            }),
    {
        match AdmissionGate::new(max_concurrent) {
            Ok(gate) => Ok(Scheduler { gate, store: JobStore::new() }),
            Err(e) => Err(QueueError::Config),
        }
    }

    /// The queue after a restart, built from the records that durable
    /// storage holds and the id that the next job gets. A job that storage
    /// shows downloading has lost its process and waits again; then the
    /// oldest waiting jobs are started. A limit of zero is refused, and so
    /// are records whose ids do not grow strictly or do not lie below `next_id`.
    pub fn restore(max_concurrent: u32, records: Vec<Job>, next_id: u64, now: i64) -> (r: Result<
        Restored,
        QueueError,
    >)
        ensures
            max_concurrent == 0 ==> r is Err && r->Err_0 == QueueError::Config,
            max_concurrent >= 1 && !(TableView {
                jobs: job_views(records@),
                next_id: next_id as nat,
            }).wf() ==> r is Err && r->Err_0 is Persistence && r->Err_0.message_text()
                == records_refused_text(),
            max_concurrent >= 1 && (TableView {
                jobs: job_views(records@),
                next_id: next_id as nat,
            }).wf() ==> r is Ok && r->Ok_0.scheduler.wf() && r->Ok_0.scheduler@
                == QueueView::restored(
                max_concurrent as nat,
                job_views(records@),
                next_id as nat,
                now,
            ) && r->Ok_0.actions@ == QueueView::restore_actions(
                max_concurrent as nat,
                job_views(records@),
                now,
            ),
    {
        let gate = match AdmissionGate::new(max_concurrent) {
            Ok(gate) => gate,
            Err(e) => {
                return Err(QueueError::Config);
            },
        };
        let ghost given = job_views(records@);
        let mut actions: Vec<Action> = Vec::new();
        let mut i: usize = 0;
        proof {
            reveal(Seq::filter);
            assert(given.take(0) =~= Seq::<JobView>::empty());
            assert(actions@ =~= requeue_actions(given.take(0)));
        }
        while i < records.len()
            invariant
                given == job_views(records@),
                i <= records.len(),
                actions@ == requeue_actions(given.take(i as int)),
            decreases records.len() - i,
        {
            proof {
                reveal(Seq::filter);
                assert(given.take(i + 1).drop_last() =~= given.take(i as int));
                assert(given[i as int] == records@[i as int]@);
            }
            if records[i].status == JobStatus::Downloading {
                let job_id = records[i].id;
                actions.push(Action::Persist { job_id, status: JobStatus::Pending });
                proof {
                    assert(requeue_actions(given.take(i + 1)) =~= requeue_actions(
                        given.take(i as int),
                    ).push(Action::Persist { job_id, status: JobStatus::Pending }));
                }
            }
            i = i + 1;
        }
        proof {
            assert(given.take(given.len() as int) =~= given);
        }
        match JobStore::from_records(records, next_id, now) {
            Err(e) => Err(e),
            Ok(store) => {
                let mut scheduler = Scheduler { gate, store };
                proof {
                    let waiting = requeued(given, now);
                    assert forall|k: int| 0 <= k < waiting.len() implies (#[trigger] waiting[k]).status
                        != JobStatus::Downloading by {}
                    lemma_count_zero(waiting, JobStatus::Downloading);
                }
                let mut started = scheduler.admit_next(now);
                actions.append(&mut started);
                Ok(Restored { scheduler, actions })
            },
        }
    }

    /// The concurrency limit.
    pub fn max_concurrent(&self) -> (n: u32)
        ensures
            n == self@.capacity,
    {
        self.gate.capacity()
    }

    /// Number of admission slots held, which is the number of jobs downloading.
    pub fn running(&self) -> (n: u32)
        ensures
            n == self@.held,
    {
        self.gate.held()
    }

    /// Starts the oldest pending jobs while a slot is free. Each
    /// job is claimed by a conditional update that succeeds only on a pending
    /// record, so no job is started twice.
    pub fn admit_next(&mut self, now: i64) -> (actions: Vec<Action>)
        requires
            old(self).wf(),
        ensures
            final(self).wf(),
            final(self)@ == old(self)@.admit_next(now),
            actions@ == admission_actions(old(self)@.jobs(), old(self)@.free_slots()),
            final(self)@.saturated(),
            old(self)@.within_limit() ==> final(self)@.within_limit(),
    {
        let ghost before = self@;
        let ghost jobs0 = self@.table.jobs;
        proof {
            law_admission(before, now);
        }
        let ghost quota = self@.free_slots();
        let mut actions: Vec<Action> = Vec::new();
        let n = self.store.len();
        let mut i: usize = 0;
        proof {
            assert(jobs0.take(0) =~= Seq::<JobView>::empty());
        }
        while i < n && self.gate.available() > 0
            invariant
                before.wf(),
                jobs0 == before.table.jobs,
                quota == before.free_slots(),
                self.gate.wf(),
                self.gate.limit() == before.capacity,
                self.store@.next_id == before.table.next_id,
                self.store@.jobs.len() == n,
                jobs0.len() == n,
                i <= n,
                forall|k: int| 0 <= k < i ==> self.store@.jobs[k] == admitted(jobs0, quota, now)[k],
                forall|k: int| i <= k < n ==> self.store@.jobs[k] == jobs0[k],
                pending_before(jobs0, i as int) <= quota,
                self.gate.in_use() == before.held + pending_before(jobs0, i as int),
                count_status(self.store@.jobs, JobStatus::Downloading) == self.gate.in_use(),
                actions@ == admission_actions(jobs0.take(i as int), quota),
            decreases n - i,
        {
            let ghost current = self.store@.jobs;
            proof {
                lemma_count_take_step(jobs0, i as int, JobStatus::Pending);
                assert(jobs0.take(i + 1).drop_last() =~= jobs0.take(i as int));
            }
            match self.store.claim_at(i, now) {
                Some(id) => {
                    proof {
                        lemma_count_update(
                            current,
                            i as int,
                            current[i as int].started(now),
                            JobStatus::Downloading,
                        );
                    }
                    let granted = self.gate.try_acquire();
                    actions.push(Action::Persist { job_id: id, status: JobStatus::Downloading });
                    actions.push(Action::Start { job_id: id });
                },
                None => {},
            }
            i = i + 1;
        }
        proof {
            lemma_count_take_mono(jobs0, i as int, n as int, JobStatus::Pending);
            lemma_count_take_all(jobs0, JobStatus::Pending);
            if i < n {
                lemma_admission_actions_rest(jobs0, quota, i as int);
                assert forall|k: int| i <= k < n implies self.store@.jobs[k] == admitted(
                    jobs0,
                    quota,
                    now,
                )[k] by {
                    lemma_count_take_mono(jobs0, i as int, k, JobStatus::Pending);
                }
            } else {
                assert(jobs0.take(n as int) =~= jobs0);
            }
            assert(self.store@.jobs =~= admitted(jobs0, quota, now));
        }
        actions
    }

    /// Inserts a new job as pending and at once tries to start it. Fails,
    /// changing nothing, when the table has no id left.
    pub fn submit(&mut self, params: JobParams, now: i64) -> (r: Result<Submission, QueueError>)
        requires
            old(self).wf(),
        ensures
            final(self).wf(),
            old(self)@.table.can_insert() ==> r is Ok && r->Ok_0.job_id == old(self)@.table.next_id
                && final(self)@ == old(self)@.submit(params@, now) && r->Ok_0.actions@
                == old(self)@.submit_actions(params@, now),
            !old(self)@.table.can_insert() ==> r is Err && r->Err_0 is Persistence
                && r->Err_0.message_text() == ids_exhausted_text() && final(self)@ == old(self)@,
            old(self)@.saturated() ==> final(self)@.saturated(),
            old(self)@.within_limit() ==> final(self)@.within_limit(),
    {
        let ghost before = self@;
        let ghost view = params@;
        match self.store.insert(params, now) {
            Err(e) => Err(e),
            Ok(job_id) => {
                proof {
                    lemma_count_push(
                        before.table.jobs,
                        JobView::fresh(job_id, view, now),
                        JobStatus::Downloading,
                    );
                    assert(self@ == before.inserted(view, now));
                }
                let mut actions: Vec<Action> = Vec::new();
                actions.push(Action::Persist { job_id, status: JobStatus::Pending });
                let mut started = self.admit_next(now);
                actions.append(&mut started);
                Ok(Submission { job_id, actions })
            },
        }
    }

    /// Takes the outcome that the supervisor of job `job_id` reported. A job
    /// that is downloading makes its terminal transition: the outcome is
    /// recorded, the slot released, and the next pending jobs are started.
    /// For a job in any other status nothing happens, so the transition takes
    /// place at most once per run. An unknown id is refused.
    pub fn finish(&mut self, job_id: u64, outcome: TerminalOutcome, now: i64) -> (r: Result<
        Vec<Action>,
        QueueError,
    >)
        requires
            old(self).wf(),
        ensures
            final(self).wf(),
            !has_job(old(self)@.jobs(), job_id) ==> r is Err && r->Err_0 == QueueError::NotFound
                && final(self)@ == old(self)@,
            has_job(old(self)@.jobs(), job_id) ==> r is Ok && final(self)@ == old(self)@.finish(
                job_id,
                outcome@,
                now,
            ) && r->Ok_0@ == old(self)@.finish_actions(job_id, outcome@, now),
            old(self)@.saturated() ==> final(self)@.saturated(),
            old(self)@.within_limit() ==> final(self)@.within_limit(),
    {
        let ghost before = self@;
        match self.store.find(job_id) {
            None => Err(QueueError::NotFound),
            Some(i) => {
                let mut actions: Vec<Action> = Vec::new();
                if self.store.status_at(i) == JobStatus::Downloading {
                    let status = outcome_status(&outcome);
                    proof {
                        lemma_count_update(
                            before.table.jobs,
                            i as int,
                            before.table.jobs[i as int].concluded(outcome@, now),
                            JobStatus::Downloading,
                        );
                    }
                    self.store.conclude_at(i, outcome, now);
                    let released = self.gate.release();
                    proof {
                        assert(self@ == before.conclude(i as int, outcome@, now));
                    }
                    actions.push(Action::Persist { job_id, status });
                    actions.push(Action::EmitTerminal { job_id });
                    let mut started = self.admit_next(now);
                    actions.append(&mut started);
                }
                Ok(actions)
            },
        }
    }

    /// The recovery boundary of a supervisor: called when the supervising
    /// task of job `job_id` itself ended abnormally. A job that is still
    /// downloading is marked failed and its slot released; then admission
    /// runs in every case. An unknown id is refused.
    pub fn fault(&mut self, job_id: u64, now: i64) -> (r: Result<Vec<Action>, QueueError>)
        requires
            old(self).wf(),
        ensures
            final(self).wf(),
            !has_job(old(self)@.jobs(), job_id) ==> r is Err && r->Err_0 == QueueError::NotFound
                && final(self)@ == old(self)@,
            has_job(old(self)@.jobs(), job_id) ==> r is Ok && final(self)@ == old(self)@.fault(
                job_id,
                now,
            ) && r->Ok_0@ == old(self)@.fault_actions(job_id, now),
            old(self)@.saturated() ==> final(self)@.saturated(),
            old(self)@.within_limit() ==> final(self)@.within_limit(),
    {
        match self.store.find(job_id) {
            None => Err(QueueError::NotFound),
            Some(i) => {
                if self.store.status_at(i) == JobStatus::Downloading {
                    let detail = String::from_str("download supervisor terminated abnormally");
                    self.finish(job_id, TerminalOutcome::Failure(detail), now)
                } else {
                    Ok(self.admit_next(now))
                }
            },
        }
    }

    /// Makes a failed or cancelled job pending again under its id and at
    /// once tries to start it. A job in any other status is left as it is.
    /// An unknown id is refused. A retried job is started like any other:
    /// the caller attaches the observer of the new run when it carries out
    /// the `Start` action, so every run has its own stream of events.
    pub fn retry(&mut self, job_id: u64, now: i64) -> (r: Result<Vec<Action>, QueueError>)
        requires
            old(self).wf(),
        ensures
            final(self).wf(),
            !has_job(old(self)@.jobs(), job_id) ==> r is Err && r->Err_0 == QueueError::NotFound
                && final(self)@ == old(self)@,
            has_job(old(self)@.jobs(), job_id) ==> r is Ok && final(self)@ == old(self)@.retry(
                job_id,
                now,
            ) && r->Ok_0@ == old(self)@.retry_actions(job_id, now),
            old(self)@.saturated() ==> final(self)@.saturated(),
            old(self)@.within_limit() ==> final(self)@.within_limit(),
    {
        let ghost before = self@;
        match self.store.find(job_id) {
            None => Err(QueueError::NotFound),
            Some(i) => {
                let mut actions: Vec<Action> = Vec::new();
                if self.store.status_at(i).rearmable() {
                    proof {
                        lemma_count_update(
                            before.table.jobs,
                            i as int,
                            before.table.jobs[i as int].rearmed(now),
                            JobStatus::Downloading,
                        );
                    }
                    self.store.rearm_at(i, now);
                    actions.push(Action::Persist { job_id, status: JobStatus::Pending });
                    let mut started = self.admit_next(now);
                    actions.append(&mut started);
                }
                Ok(actions)
            },
        }
    }

    /// Takes the caller's word that the record of job `job_id` was written
    /// to durable storage under `status`. Nothing else changes. An unknown
    /// id is refused.
    pub fn persisted(&mut self, job_id: u64, status: JobStatus) -> (r: Result<(), QueueError>)
        requires
            old(self).wf(),
        ensures
            final(self).wf(),
            !has_job(old(self)@.jobs(), job_id) ==> r is Err && r->Err_0 == QueueError::NotFound
                && final(self)@ == old(self)@,
            has_job(old(self)@.jobs(), job_id) ==> r is Ok && final(self)@ == old(self)@.persisted(
                job_id,
                status,
            ),
    {
        let ghost before = self@;
        match self.store.find(job_id) {
            None => Err(QueueError::NotFound),
            Some(i) => {
                proof {
                    lemma_count_update(
                        before.table.jobs,
                        i as int,
                        before.table.jobs[i as int].acknowledged(status),
                        JobStatus::Downloading,
                    );
                }
                self.store.acknowledge_at(i, status);
                Ok(())
            },
        }
    }

    /// Takes the report that a write of the record of job `job_id` failed
    /// with `detail`. A job that has not ended goes back to what was stored
    /// last, or fails if nothing of it was ever stored; a slot that it took
    /// since is released; then admission runs for the other jobs, so that
    /// nothing is started for this one. The result carries the failure for
    /// whoever asked for the change. An unknown id is refused.
    pub fn persist_failed(&mut self, job_id: u64, detail: String, now: i64) -> (r: Result<
        Recovery,
        QueueError,
    >)
        requires
            old(self).wf(),
        ensures
            final(self).wf(),
            !has_job(old(self)@.jobs(), job_id) ==> r is Err && r->Err_0 == QueueError::NotFound
                && final(self)@ == old(self)@,
            has_job(old(self)@.jobs(), job_id) ==> r is Ok && final(self)@
                == old(self)@.persist_failed(job_id, detail@, now) && r->Ok_0.actions@
                == old(self)@.persist_failed_actions(job_id, detail@, now)
                && r->Ok_0.error is Persistence && r->Ok_0.error.message_text() == detail@,
            old(self)@.within_limit() ==> final(self)@.within_limit(),
    {
        let ghost before = self@;
        match self.store.find(job_id) {
            None => Err(QueueError::NotFound),
            Some(i) => {
                let ghost job = before.table.jobs[i as int];
                let ghost back = job.write_failed(detail@, now);
                let was_running = self.store.status_at(i) == JobStatus::Downloading;
                let fresh = !self.store.status_at(i).terminal() && !self.store.has_saved_at(i);
                let status = self.store.put_back_at(i, detail.as_str(), now);
                proof {
                    lemma_count_update(before.table.jobs, i as int, back, JobStatus::Downloading);
                }
                if was_running && status != JobStatus::Downloading {
                    let released = self.gate.release();
                }
                let parked = status == JobStatus::Pending;
                if parked {
                    proof {
                        lemma_count_update(
                            self.store@.jobs,
                            i as int,
                            back.with_status(JobStatus::Cancelled),
                            JobStatus::Downloading,
                        );
                        assert(back.with_status(JobStatus::Cancelled)
                            == self.store@.jobs[i as int].with_status(JobStatus::Cancelled));
                    }
                    self.store.set_status_at(i, JobStatus::Cancelled);
                }
                proof {
                    assert(self.store@.jobs =~= before.parked(i as int, detail@, now).table.jobs);
                    assert(self@ == before.parked(i as int, detail@, now));
                }
                let mut actions: Vec<Action> = Vec::new();
                if fresh {
                    actions.push(Action::EmitTerminal { job_id });
                }
                let mut started = self.admit_next(now);
                actions.append(&mut started);
                let ghost settled = self@;
                proof {
                    lemma_count_update(settled.table.jobs, i as int, back, JobStatus::Downloading);
                }
                if parked {
                    self.store.set_status_at(i, JobStatus::Pending);
                }
                proof {
                    assert(self.store@.jobs =~= settled.table.jobs.update(i as int, back));
                    assert(self@ == before.persist_failed(job_id, detail@, now));
                    assert forall|a: int, b: int|
                        0 <= a < b < self@.table.jobs.len() implies (#[trigger] self@.table.jobs[a]).id
                        < (#[trigger] self@.table.jobs[b]).id by {
                        assert(settled.table.jobs[a].id < settled.table.jobs[b].id);
                    }
                    assert forall|a: int| 0 <= a < self@.table.jobs.len() implies (
                    #[trigger] self@.table.jobs[a]).id < self@.table.next_id by {
                        assert(settled.table.jobs[a].id < settled.table.next_id);
                    }
                }
                Ok(Recovery { error: QueueError::Persistence(detail), actions })
            },
        }
    }

    /// The cancellation signals to send: one for each job that is
    /// downloading, oldest first. Nothing changes here: no status, no slot.
    /// Each job gives its slot back when its supervisor reports the outcome.
    pub fn cancel_all(&self) -> (actions: Vec<Action>)
        ensures
            actions@ == cancel_actions(self@.jobs()),
    {
        let mut actions: Vec<Action> = Vec::new();
        let n = self.store.len();
        let mut i: usize = 0;
        let ghost jobs = self@.table.jobs;
        proof {
            reveal(Seq::filter);
            assert(jobs.take(0) =~= Seq::<JobView>::empty());
            assert(actions@ =~= cancel_actions(jobs.take(0)));
        }
        while i < n
            invariant
                jobs == self@.table.jobs,
                n == jobs.len(),
                i <= n,
                actions@ == cancel_actions(jobs.take(i as int)),
            decreases n - i,
        {
            proof {
                reveal(Seq::filter);
                assert(jobs.take(i + 1).drop_last() =~= jobs.take(i as int));
            }
            if self.store.status_at(i) == JobStatus::Downloading {
                let job_id = self.store.id_at(i);
                actions.push(Action::Cancel { job_id });
                proof {
                    let running = with_status(jobs.take(i as int), JobStatus::Downloading);
                    assert(cancel_actions(jobs.take(i + 1)) =~= cancel_actions(
                        jobs.take(i as int),
                    ).push(Action::Cancel { job_id }));
                }
            }
            i = i + 1;
        }
        proof {
            assert(jobs.take(n as int) =~= jobs);
        }
        actions
    }

    /// Copies of the jobs that wait for a slot, oldest first.
    pub fn list_queue(&self) -> (jobs: Vec<Job>)
        ensures
            job_views(jobs@) == with_status(self@.jobs(), JobStatus::Pending),
    {
        self.store.list(JobStatus::Pending)
    }

    /// Copies of the jobs that are downloading, oldest first.
    pub fn list_active(&self) -> (jobs: Vec<Job>)
        ensures
            job_views(jobs@) == with_status(self@.jobs(), JobStatus::Downloading),
    {
        self.store.list(JobStatus::Downloading)
    }

    /// A copy of the record of job `job_id`. An unknown id is refused.
    pub fn get(&self, job_id: u64) -> (r: Result<Job, QueueError>)
        requires
            self.wf(),
        ensures
            !has_job(self@.jobs(), job_id) ==> r is Err && r->Err_0 == QueueError::NotFound,
            has_job(self@.jobs(), job_id) ==> r is Ok && r->Ok_0@ == self@.jobs()[position(
                self@.jobs(),
                job_id,
            )],
    {
        match self.store.get(job_id) {
            Some(job) => Ok(job),
            None => Err(QueueError::NotFound),
        }
    }

    /// Deletes the completed jobs and returns how many there were. The ids
    /// of deleted jobs are not assigned again.
    pub fn clear_completed(&mut self) -> (removed: usize)
        requires
            old(self).wf(),
        ensures
            final(self).wf(),
            final(self)@ == old(self)@.clear_completed(),
            removed == count_status(old(self)@.jobs(), JobStatus::Completed),
    {
        proof {
            lemma_without_completed(self@.table.jobs, JobStatus::Downloading);
        }
        self.store.remove_completed()
    }

    /// Changes the concurrency limit and at once starts the pending jobs
    /// that the new limit has room for. Jobs that are downloading are not
    /// disturbed. A limit of zero is refused and changes nothing.
    pub fn set_max_concurrent(&mut self, max_concurrent: u32, now: i64) -> (r: Result<
        Vec<Action>,
        QueueError,
    >)
        requires
            old(self).wf(),
        ensures
            final(self).wf(),
            max_concurrent == 0 ==> r is Err && r->Err_0 == QueueError::Config && final(self)@
                == old(self)@,
            max_concurrent >= 1 ==> r is Ok && final(self)@ == old(self)@.set_limit(
                max_concurrent as nat,
                now,
            ) && r->Ok_0@ == admission_actions(
                old(self)@.jobs(),
                (QueueView { capacity: max_concurrent as nat, ..old(self)@ }).free_slots(),
            ),
            r is Ok ==> final(self)@.saturated(),
            r is Ok && old(self)@.held <= max_concurrent ==> final(self)@.within_limit(),
    {
        match self.gate.set_capacity(max_concurrent) {
            Err(e) => Err(QueueError::Config),
            Ok(()) => Ok(self.admit_next(now)),
        }
    }
}

/// The terminal status that records an outcome.
pub fn outcome_status(outcome: &TerminalOutcome) -> (status: JobStatus)
    ensures
        status == outcome@.status(),
{
    match outcome {
        TerminalOutcome::Success(_) => JobStatus::Completed,
        TerminalOutcome::Failure(_) => JobStatus::Failed,
        TerminalOutcome::Cancelled => JobStatus::Cancelled,
    }
}

} // verus!
