//! The queue as a mathematical state machine: the job table, the two slot
//! counters, and one function per transition.

use vstd::prelude::*;
use crate::job::{JobParamsView, JobStatus, JobView, OutcomeView};

verus! {

/// Number of jobs in `jobs` that have the given status.
pub open spec fn count_status(jobs: Seq<JobView>, status: JobStatus) -> nat
    decreases jobs.len(),
{
    if jobs.len() == 0 {
        0
    } else {
        count_status(jobs.drop_last(), status) + if jobs.last().status == status {
            1nat
        } else {
            0nat
        }
    }
}

/// Some job in `jobs` has the id.
pub open spec fn has_job(jobs: Seq<JobView>, id: u64) -> bool {
    exists|i: int| 0 <= i < jobs.len() && (#[trigger] jobs[i]).id == id
}

/// Index of the job with the id, where there is one.
pub open spec fn position(jobs: Seq<JobView>, id: u64) -> int {
    choose|i: int| 0 <= i < jobs.len() && (#[trigger] jobs[i]).id == id
}

/// Ids grow strictly along the table, so insertion order is id order.
pub open spec fn ids_increasing(jobs: Seq<JobView>) -> bool {
    forall|i: int, j: int| 0 <= i < j < jobs.len() ==> (#[trigger] jobs[i]).id < (#[trigger] jobs[j]).id
}

/// Number of pending jobs that stand before index `i`.
pub open spec fn pending_before(jobs: Seq<JobView>, i: int) -> nat {
    count_status(jobs.take(i), JobStatus::Pending)
}

/// The table after admission with `quota` free slots: the oldest `quota`
/// pending jobs are downloading, every other record is untouched.
pub open spec fn admitted(jobs: Seq<JobView>, quota: nat, now: i64) -> Seq<JobView> {
    Seq::new(
        jobs.len(),
        |i: int|
            if jobs[i].status == JobStatus::Pending && pending_before(jobs, i) < quota {
                jobs[i].started(now)
            } else {
                jobs[i]
            },
    )
}

/// What the caller of the queue has to do for a job after a transition.
#[derive(Clone, Copy, Debug, PartialEq, Eq, Structural)]
pub enum Action {
    /// Write the job's record, which now has this status, to durable storage.
    Persist { job_id: u64, status: JobStatus },
    /// Deliver the job's terminal event to whoever observes the job.
    EmitTerminal { job_id: u64 },
    /// Spawn the supervised download process of the job.
    Start { job_id: u64 },
    /// Signal the cancellation token of the job's supervisor.
    Cancel { job_id: u64 },
}

/// The job that an action is about.
pub open spec fn action_job(action: Action) -> u64 {
    match action {
        Action::Persist { job_id, .. } => job_id,
        Action::EmitTerminal { job_id } => job_id,
        Action::Start { job_id } => job_id,
        Action::Cancel { job_id } => job_id,
    }
}

/// The actions that are not about the given job, in their order.
pub open spec fn without_job(actions: Seq<Action>, job_id: u64) -> Seq<Action> {
    actions.filter(|a: Action| action_job(a) != job_id)
}

impl Action {
    /// The job that the action is about.
    pub fn job_id(&self) -> (id: u64)
        ensures
            id == action_job(*self),
    {
        match self {
            Action::Persist { job_id, .. } => *job_id,
            Action::EmitTerminal { job_id } => *job_id,
            Action::Start { job_id } => *job_id,
            Action::Cancel { job_id } => *job_id,
        }
    }
}

/// What is left to do of `actions` once a write for job `job_id` has
/// failed: everything that is about another job.
pub fn skip_job(actions: &Vec<Action>, job_id: u64) -> (rest: Vec<Action>)
    ensures
        rest@ == without_job(actions@, job_id),
{
    let mut rest: Vec<Action> = Vec::new();
    let mut i: usize = 0;
    proof {
        reveal(Seq::filter);
        assert(actions@.take(0) =~= Seq::<Action>::empty());
    }
    while i < actions.len()
        invariant
            i <= actions.len(),
            rest@ == without_job(actions@.take(i as int), job_id),
        decreases actions.len() - i,
    {
        proof {
            reveal(Seq::filter);
            assert(actions@.take(i + 1).drop_last() =~= actions@.take(i as int));
        }
        if actions[i].job_id() != job_id {
            rest.push(actions[i]);
        }
        i = i + 1;
    }
    proof {
        assert(actions@.take(actions@.len() as int) =~= actions@);
    }
    rest
}

/// The actions of an admission with `quota` free slots: for each job that is
/// started, oldest first, its record is persisted and then its process spawned.
pub open spec fn admission_actions(jobs: Seq<JobView>, quota: nat) -> Seq<Action>
    decreases jobs.len(),
{
    if jobs.len() == 0 {
        Seq::empty()
    } else {
        let head = jobs.drop_last();
        let last = jobs.last();
        if last.status == JobStatus::Pending && count_status(head, JobStatus::Pending) < quota {
            admission_actions(head, quota).push(
                Action::Persist { job_id: last.id, status: JobStatus::Downloading },
            ).push(Action::Start { job_id: last.id })
        } else {
            admission_actions(head, quota)
        }
    }
}

/// The cancellation signals for the jobs that are downloading, oldest first.
pub open spec fn cancel_actions(jobs: Seq<JobView>) -> Seq<Action> {
    with_status(jobs, JobStatus::Downloading).map_values(
        |j: JobView| Action::Cancel { job_id: j.id },
    )
}

/// The table as a restart finds it: every job that was downloading waits again.
pub open spec fn requeued(jobs: Seq<JobView>, now: i64) -> Seq<JobView> {
    jobs.map_values(|j: JobView| j.requeued(now))
}

/// The writes that a restart asks for: the record of each job that was
/// downloading, now pending, oldest first.
pub open spec fn requeue_actions(jobs: Seq<JobView>) -> Seq<Action> {
    with_status(jobs, JobStatus::Downloading).map_values(
        |j: JobView| Action::Persist { job_id: j.id, status: JobStatus::Pending },
    )
}

/// The jobs of `jobs` that have the given status, in table order.
pub open spec fn with_status(jobs: Seq<JobView>, status: JobStatus) -> Seq<JobView> {
    jobs.filter(|j: JobView| j.status == status)
}

/// The jobs of `jobs` that are not completed, in table order.
pub open spec fn without_completed(jobs: Seq<JobView>) -> Seq<JobView> {
    jobs.filter(|j: JobView| j.status != JobStatus::Completed)
}

/// Error detail recorded for a job whose supervisor ended abnormally.
pub open spec fn fault_text() -> Seq<char> {
    "download supervisor terminated abnormally"@
}

/// The job table: records in insertion order and the id that the next
/// insertion assigns.
pub struct TableView {
    pub jobs: Seq<JobView>,
    pub next_id: nat,
}

impl TableView {
    /// Ids are strictly increasing and all below `next_id`, so no id is
    /// assigned twice.
    pub open spec fn wf(self) -> bool {
        &&& ids_increasing(self.jobs)
        &&& forall|i: int| 0 <= i < self.jobs.len() ==> (#[trigger] self.jobs[i]).id < self.next_id
        &&& self.next_id <= u64::MAX
    }

    /// An id is left to assign.
    pub open spec fn can_insert(self) -> bool {
        self.next_id < u64::MAX
    }

    /// The table after inserting a new pending job.
    pub open spec fn insert(self, params: JobParamsView, now: i64) -> TableView {
        TableView {
            jobs: self.jobs.push(JobView::fresh(self.next_id as u64, params, now)),
            next_id: self.next_id + 1,
        }
    }
}

/// The whole queue: the slot counters and the job table.
pub struct QueueView {
    /// The concurrency limit.
    pub capacity: nat,
    /// Admission slots held.
    pub held: nat,
    pub table: TableView,
}

impl QueueView {
    pub open spec fn jobs(self) -> Seq<JobView> {
        self.table.jobs
    }

    pub open spec fn running(self) -> nat {
        count_status(self.table.jobs, JobStatus::Downloading)
    }

    pub open spec fn pending(self) -> nat {
        count_status(self.table.jobs, JobStatus::Pending)
    }

    /// The limit is positive, the table is well formed, and exactly one slot
    /// is held for each downloading job.
    pub open spec fn wf(self) -> bool {
        &&& self.capacity >= 1
        &&& self.table.wf()
        &&& self.held == self.running()
    }

    /// No more jobs are downloading than the limit allows.
    pub open spec fn within_limit(self) -> bool {
        self.running() <= self.capacity
    }

    /// A job is pending only because every slot is held.
    pub open spec fn saturated(self) -> bool {
        self.pending() == 0 || self.held >= self.capacity
    }

    pub open spec fn free_slots(self) -> nat {
        if self.held < self.capacity {
            (self.capacity - self.held) as nat
        } else {
            0
        }
    }

    /// Number of jobs that admission starts.
    pub open spec fn admit_count(self) -> nat {
        if self.pending() < self.free_slots() {
            self.pending()
        } else {
            self.free_slots()
        }
    }

    pub open spec fn with_jobs(self, jobs: Seq<JobView>) -> QueueView {
        QueueView { table: TableView { jobs, ..self.table }, ..self }
    }

    /// Admission: the oldest pending jobs take the free slots.
    pub open spec fn admit_next(self, now: i64) -> QueueView {
        QueueView {
            held: self.held + self.admit_count(),
            table: TableView {
                jobs: admitted(self.table.jobs, self.free_slots(), now),
                ..self.table
            },
            ..self
        }
    }

    /// Submission: insert as pending, then run admission.
    pub open spec fn submit(self, params: JobParamsView, now: i64) -> QueueView {
        self.inserted(params, now).admit_next(now)
    }

    /// The job at index `i` reaches its terminal status and gives its slot back.
    pub open spec fn conclude(self, i: int, outcome: OutcomeView, now: i64) -> QueueView {
        QueueView {
            held: (self.held - 1) as nat,
            table: TableView {
                jobs: self.table.jobs.update(i, self.table.jobs[i].concluded(outcome, now)),
                ..self.table
            },
            ..self
        }
    }

    /// The id names a job that is downloading.
    pub open spec fn is_running(self, id: u64) -> bool {
        has_job(self.table.jobs, id) && self.table.jobs[position(self.table.jobs, id)].status
            == JobStatus::Downloading
    }

    /// The id names a job that a retry re-arms.
    pub open spec fn is_rearmable(self, id: u64) -> bool {
        has_job(self.table.jobs, id) && self.table.jobs[position(
            self.table.jobs,
            id,
        )].status.is_rearmable()
    }

    /// A supervisor reports the outcome of job `id`. Only a downloading job
    /// makes the terminal transition; then the next pending jobs are admitted.
    pub open spec fn finish(self, id: u64, outcome: OutcomeView, now: i64) -> QueueView {
        if self.is_running(id) {
            self.conclude(position(self.table.jobs, id), outcome, now).admit_next(now)
        } else {
            self
        }
    }

    /// Retry of job `id`: a failed or cancelled job is pending again under
    /// the same id, then admission runs. Any other job is left alone.
    pub open spec fn retry(self, id: u64, now: i64) -> QueueView {
        if self.is_rearmable(id) {
            let i = position(self.table.jobs, id);
            self.with_jobs(self.table.jobs.update(i, self.table.jobs[i].rearmed(now))).admit_next(now)
        } else {
            self
        }
    }

    /// The supervisor of job `id` ended abnormally. A downloading job is
    /// failed and gives its slot back; in every case admission runs.
    pub open spec fn fault(self, id: u64, now: i64) -> QueueView {
        if self.is_running(id) {
            self.finish(id, OutcomeView::Failure(fault_text()), now)
        } else {
            self.admit_next(now)
        }
    }

    /// The table with its newly inserted job, before admission.
    pub open spec fn inserted(self, params: JobParamsView, now: i64) -> QueueView {
        QueueView { table: self.table.insert(params, now), ..self }
    }

    /// What the caller does after a submission: persist the new record, then
    /// start what admission started.
    pub open spec fn submit_actions(self, params: JobParamsView, now: i64) -> Seq<Action> {
        seq![Action::Persist { job_id: self.table.next_id as u64, status: JobStatus::Pending }]
            + admission_actions(self.inserted(params, now).jobs(), self.free_slots())
    }

    /// What the caller does after a supervisor reported an outcome: persist
    /// the final record, deliver the terminal event, then start what
    /// admission started with the slot that came free.
    pub open spec fn finish_actions(self, id: u64, outcome: OutcomeView, now: i64) -> Seq<Action> {
        if self.is_running(id) {
            let after = self.conclude(position(self.table.jobs, id), outcome, now);
            seq![
                Action::Persist { job_id: id, status: outcome.status() },
                Action::EmitTerminal { job_id: id },
            ] + admission_actions(after.jobs(), after.free_slots())
        } else {
            Seq::empty()
        }
    }

    /// What the caller does after a retry.
    pub open spec fn retry_actions(self, id: u64, now: i64) -> Seq<Action> {
        if self.is_rearmable(id) {
            let i = position(self.table.jobs, id);
            seq![Action::Persist { job_id: id, status: JobStatus::Pending }] + admission_actions(
                self.table.jobs.update(i, self.table.jobs[i].rearmed(now)),
                self.free_slots(),
            )
        } else {
            Seq::empty()
        }
    }

    /// What the caller does after a supervisor ended abnormally.
    pub open spec fn fault_actions(self, id: u64, now: i64) -> Seq<Action> {
        if self.is_running(id) {
            self.finish_actions(id, OutcomeView::Failure(fault_text()), now)
        } else {
            admission_actions(self.jobs(), self.free_slots())
        }
    }

    /// The caller confirmed that the record of job `id` was written under `status`.
    pub open spec fn persisted(self, id: u64, status: JobStatus) -> QueueView {
        if has_job(self.table.jobs, id) {
            let i = position(self.table.jobs, id);
            self.with_jobs(self.table.jobs.update(i, self.table.jobs[i].acknowledged(status)))
        } else {
            self
        }
    }

    /// The queue while the job at index `i`, a write of which failed, is
    /// set aside: its record is put back as far as that can be done, a slot
    /// that it no longer needs is given back, and if it is pending again it
    /// is kept out of the admission that follows.
    pub open spec fn parked(self, i: int, detail: Seq<char>, now: i64) -> QueueView {
        let job = self.table.jobs[i];
        let back = job.write_failed(detail, now);
        QueueView {
            held: if job.status == JobStatus::Downloading && back.status
                != JobStatus::Downloading {
                (self.held - 1) as nat
            } else {
                self.held
            },
            table: TableView {
                jobs: self.table.jobs.update(
                    i,
                    if back.status == JobStatus::Pending {
                        back.with_status(JobStatus::Cancelled)
                    } else {
                        back
                    },
                ),
                ..self.table
            },
            ..self
        }
    }

    /// A write of the record of job `id` failed with `detail`. The job goes
    /// back to what was stored last and gives back a slot taken since;
    /// admission runs for the other jobs only.
    pub open spec fn persist_failed(self, id: u64, detail: Seq<char>, now: i64) -> QueueView {
        if has_job(self.table.jobs, id) {
            let i = position(self.table.jobs, id);
            let settled = self.parked(i, detail, now).admit_next(now);
            settled.with_jobs(
                settled.table.jobs.update(i, self.table.jobs[i].write_failed(detail, now)),
            )
        } else {
            self
        }
    }

    /// What the caller does after a failed write: tell the observer of a
    /// job that failed because nothing of it could be stored, then start
    /// what admission started. Nothing is started for the job itself.
    pub open spec fn persist_failed_actions(self, id: u64, detail: Seq<char>, now: i64) -> Seq<
        Action,
    > {
        if has_job(self.table.jobs, id) {
            let i = position(self.table.jobs, id);
            let job = self.table.jobs[i];
            let parked = self.parked(i, detail, now);
            (if job.can_put_back() && job.saved is None {
                seq![Action::EmitTerminal { job_id: id }]
            } else {
                Seq::empty()
            }) + admission_actions(parked.jobs(), parked.free_slots())
        } else {
            Seq::empty()
        }
    }

    /// The queue that a restart builds from the stored records: every job
    /// that was downloading waits again, no slot is held, then admission runs.
    pub open spec fn restored(capacity: nat, records: Seq<JobView>, next_id: nat, now: i64)
        -> QueueView {
        (QueueView {
            capacity,
            held: 0,
            table: TableView { jobs: requeued(records, now), next_id },
        }).admit_next(now)
    }

    /// What the caller does after a restart: write the records of the jobs
    /// that wait again, then start what admission started.
    pub open spec fn restore_actions(capacity: nat, records: Seq<JobView>, now: i64) -> Seq<
        Action,
    > {
        requeue_actions(records) + admission_actions(requeued(records, now), capacity)
    }

    /// A new concurrency limit, then admission.
    pub open spec fn set_limit(self, capacity: nat, now: i64) -> QueueView {
        QueueView { capacity, ..self }.admit_next(now)
    }

    /// Bulk deletion of the completed jobs.
    pub open spec fn clear_completed(self) -> QueueView {
        self.with_jobs(without_completed(self.table.jobs))
    }
}

} // verus!
