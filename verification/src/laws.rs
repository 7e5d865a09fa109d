//! What holds of the queue across transitions: the laws that callers may
//! rely on, each proved from the transition functions in [`crate::model`].

use vstd::prelude::*;
use crate::job::{JobParamsView, JobStatus, JobView, OutcomeView};
use crate::lemmas::{
    lemma_admitted_counts, lemma_count_push, lemma_count_take_mono, lemma_count_update,
    lemma_count_zero, lemma_position, lemma_without_completed,
};
use crate::model::{
    action_job, admission_actions, admitted, count_status, fault_text, has_job, pending_before,
    position, requeued, with_status, Action, QueueView, TableView,
};

verus! {

/// One request to the queue, as a mathematical value.
pub enum Operation {
    Submit { params: JobParamsView, now: i64 },
    Retry { id: u64, now: i64 },
    Finish { id: u64, outcome: OutcomeView, now: i64 },
    Fault { id: u64, now: i64 },
}

/// The queue after one request. A submission that finds no id left and a
/// request that names an unknown job change nothing.
pub open spec fn apply(s: QueueView, op: Operation) -> QueueView {
    match op {
        Operation::Submit { params, now } => if s.table.can_insert() {
            s.submit(params, now)
        } else {
            s
        },
        Operation::Retry { id, now } => s.retry(id, now),
        Operation::Finish { id, outcome, now } => s.finish(id, outcome, now),
        Operation::Fault { id, now } => if has_job(s.jobs(), id) {
            s.fault(id, now)
        } else {
            s
        },
    }
}

/// The queue after a run of requests, first to last.
pub open spec fn run(s: QueueView, ops: Seq<Operation>) -> QueueView
    decreases ops.len(),
{
    if ops.len() == 0 {
        s
    } else {
        apply(run(s, ops.drop_last()), ops.last())
    }
}

/// The queue after submitting each of `requests` in turn.
pub open spec fn submit_all(s: QueueView, requests: Seq<(JobParamsView, i64)>) -> QueueView
    decreases requests.len(),
{
    if requests.len() == 0 {
        s
    } else {
        submit_all(s, requests.drop_last()).submit(requests.last().0, requests.last().1)
    }
}

/// The queue after the supervisors of the jobs named by `ids` have each
/// reported a cancelled download, in the order of `ids`.
pub open spec fn drain_cancelled(s: QueueView, ids: Seq<u64>, now: i64) -> QueueView
    decreases ids.len(),
{
    if ids.len() == 0 {
        s
    } else {
        drain_cancelled(s, ids.drop_last(), now).finish(ids.last(), OutcomeView::Cancelled, now)
    }
}

/// Index `p` holds the oldest pending job of `jobs`.
pub open spec fn oldest_pending(jobs: Seq<JobView>, p: int) -> bool {
    &&& 0 <= p < jobs.len()
    &&& jobs[p].status == JobStatus::Pending
    &&& forall|k: int| 0 <= k < p ==> (#[trigger] jobs[k]).status != JobStatus::Pending
}

/// The two tables hold the same jobs under the same ids, in the same order.
pub open spec fn same_ids(a: Seq<JobView>, b: Seq<JobView>) -> bool {
    &&& a.len() == b.len()
    &&& forall|i: int| 0 <= i < a.len() ==> (#[trigger] a[i]).id == (#[trigger] b[i]).id
}

proof fn lemma_same_ids_wf(s: TableView, jobs: Seq<JobView>)
    requires
        s.wf(),
        same_ids(jobs, s.jobs),
    ensures
        (TableView { jobs, ..s }).wf(),
{
    assert forall|i: int, j: int| 0 <= i < j < jobs.len() implies (#[trigger] jobs[i]).id < (
    #[trigger] jobs[j]).id by {
        assert(s.jobs[i].id < s.jobs[j].id);
    }
    assert forall|i: int| 0 <= i < jobs.len() implies (#[trigger] jobs[i]).id < s.next_id by {
        assert(s.jobs[i].id < s.next_id);
    }
}

/// No pending job stands before the oldest pending job.
proof fn lemma_oldest_pending_rank(jobs: Seq<JobView>, p: int)
    requires
        oldest_pending(jobs, p),
    ensures
        pending_before(jobs, p) == 0,
{
    lemma_count_zero(jobs.take(p), JobStatus::Pending);
    assert forall|k: int| 0 <= k < jobs.take(p).len() implies (#[trigger] jobs.take(p)[k]).status
        != JobStatus::Pending by {
        assert(jobs[k].status != JobStatus::Pending);
    }
}

/// Admission keeps the queue well formed, leaves it saturated, keeps every
/// job under its id, and moves `admit_count` jobs from pending to
/// downloading. It never pushes the number of downloads over the limit.
pub proof fn law_admission(s: QueueView, now: i64)
    requires
        s.wf(),
    ensures
        s.admit_next(now).wf(),
        s.admit_next(now).saturated(),
        s.admit_next(now).capacity == s.capacity,
        s.admit_next(now).table.next_id == s.table.next_id,
        same_ids(s.admit_next(now).jobs(), s.jobs()),
        s.admit_next(now).running() == s.running() + s.admit_count(),
        s.admit_next(now).pending() + s.admit_count() == s.pending(),
        s.within_limit() ==> s.admit_next(now).within_limit(),
{
    let after = s.admit_next(now);
    lemma_admitted_counts(s.jobs(), s.free_slots(), now);
    lemma_same_ids_wf(s.table, after.jobs());
}

/// Admission is idempotent: run twice, it does what it does once.
pub proof fn law_admission_idempotent(s: QueueView, now: i64)
    requires
        s.wf(),
    ensures
        s.admit_next(now).admit_next(now) == s.admit_next(now),
{
    let once = s.admit_next(now);
    law_admission(s, now);
    lemma_settled(once, now);
}

/// In a saturated queue admission changes nothing.
pub proof fn lemma_settled(s: QueueView, now: i64)
    requires
        s.wf(),
        s.saturated(),
    ensures
        s.admit_next(now) == s,
{
    let quota = s.free_slots();
    let jobs = s.jobs();
    if s.pending() == 0 {
        lemma_count_zero(jobs, JobStatus::Pending);
    }
    assert(admitted(jobs, quota, now) =~= jobs);
}

/// The admission that follows a free slot starts the oldest pending job.
proof fn lemma_admits_oldest(s: QueueView, now: i64, p: int)
    requires
        s.wf(),
        s.free_slots() > 0,
        oldest_pending(s.jobs(), p),
    ensures
        s.admit_next(now).jobs()[p] == s.jobs()[p].started(now),
{
    lemma_oldest_pending_rank(s.jobs(), p);
}

proof fn lemma_inserted(s: QueueView, params: JobParamsView, now: i64)
    requires
        s.wf(),
        s.table.can_insert(),
    ensures
        s.inserted(params, now).wf(),
        s.inserted(params, now).running() == s.running(),
        s.inserted(params, now).pending() == s.pending() + 1,
        s.inserted(params, now).capacity == s.capacity,
{
    let job = JobView::fresh(s.table.next_id as u64, params, now);
    lemma_count_push(s.jobs(), job, JobStatus::Downloading);
    lemma_count_push(s.jobs(), job, JobStatus::Pending);
}

proof fn lemma_concluded(s: QueueView, i: int, outcome: OutcomeView, now: i64)
    requires
        s.wf(),
        0 <= i < s.jobs().len(),
        s.jobs()[i].status == JobStatus::Downloading,
    ensures
        s.conclude(i, outcome, now).wf(),
        s.conclude(i, outcome, now).running() + 1 == s.running(),
        s.conclude(i, outcome, now).pending() == s.pending(),
        s.conclude(i, outcome, now).capacity == s.capacity,
        same_ids(s.conclude(i, outcome, now).jobs(), s.jobs()),
{
    let job = s.jobs()[i].concluded(outcome, now);
    lemma_count_update(s.jobs(), i, job, JobStatus::Downloading);
    lemma_count_update(s.jobs(), i, job, JobStatus::Pending);
    lemma_same_ids_wf(s.table, s.conclude(i, outcome, now).jobs());
}

proof fn lemma_rearmed(s: QueueView, i: int, now: i64)
    requires
        s.wf(),
        0 <= i < s.jobs().len(),
        s.jobs()[i].status.is_rearmable(),
    ensures
        s.with_jobs(s.jobs().update(i, s.jobs()[i].rearmed(now))).wf(),
        s.with_jobs(s.jobs().update(i, s.jobs()[i].rearmed(now))).running() == s.running(),
        s.with_jobs(s.jobs().update(i, s.jobs()[i].rearmed(now))).pending() == s.pending() + 1,
        same_ids(s.jobs().update(i, s.jobs()[i].rearmed(now)), s.jobs()),
{
    let job = s.jobs()[i].rearmed(now);
    lemma_count_update(s.jobs(), i, job, JobStatus::Downloading);
    lemma_count_update(s.jobs(), i, job, JobStatus::Pending);
    lemma_same_ids_wf(s.table, s.jobs().update(i, job));
}

/// Every request keeps the queue well formed, so that one slot is held for
/// each downloading job, and keeps the downloads within the limit.
pub proof fn law_step_keeps_limit(s: QueueView, op: Operation)
    requires
        s.wf(),
    ensures
        apply(s, op).wf(),
        apply(s, op).capacity == s.capacity,
        s.within_limit() ==> apply(s, op).within_limit(),
        s.saturated() ==> apply(s, op).saturated(),
{
    match op {
        Operation::Submit { params, now } => {
            if s.table.can_insert() {
                lemma_inserted(s, params, now);
                law_admission(s.inserted(params, now), now);
            }
        },
        Operation::Retry { id, now } => {
            if s.is_rearmable(id) {
                let i = position(s.jobs(), id);
                lemma_rearmed(s, i, now);
                law_admission(s.with_jobs(s.jobs().update(i, s.jobs()[i].rearmed(now))), now);
            }
        },
        Operation::Finish { id, outcome, now } => {
            if s.is_running(id) {
                let i = position(s.jobs(), id);
                lemma_concluded(s, i, outcome, now);
                law_admission(s.conclude(i, outcome, now), now);
            }
        },
        Operation::Fault { id, now } => {
            if has_job(s.jobs(), id) {
                if s.is_running(id) {
                    let i = position(s.jobs(), id);
                    let outcome = OutcomeView::Failure(fault_text());
                    lemma_concluded(s, i, outcome, now);
                    law_admission(s.conclude(i, outcome, now), now);
                } else {
                    law_admission(s, now);
                }
            }
        },
    }
}

/// Whatever is submitted, retried, finished or faulted, and in whatever
/// order: the number of downloading jobs never exceeds the concurrency
/// limit, and it always equals the number of slots held.
pub proof fn law_limit_never_exceeded(s: QueueView, ops: Seq<Operation>)
    requires
        s.wf(),
        s.within_limit(),
    ensures
        run(s, ops).wf(),
        run(s, ops).capacity == s.capacity,
        run(s, ops).running() <= s.capacity,
        run(s, ops).held == run(s, ops).running(),
    decreases ops.len(),
{
    if ops.len() > 0 {
        law_limit_never_exceeded(s, ops.drop_last());
        law_step_keeps_limit(run(s, ops.drop_last()), ops.last());
    }
}

proof fn lemma_submit_all(s: QueueView, requests: Seq<(JobParamsView, i64)>)
    requires
        s.wf(),
        s.jobs().len() == 0,
        s.table.next_id + requests.len() <= u64::MAX,
    ensures
        submit_all(s, requests).wf(),
        submit_all(s, requests).capacity == s.capacity,
        submit_all(s, requests).table.next_id == s.table.next_id + requests.len(),
        submit_all(s, requests).jobs().len() == requests.len(),
        submit_all(s, requests).running() + submit_all(s, requests).pending() == requests.len(),
        submit_all(s, requests).saturated(),
        submit_all(s, requests).within_limit(),
    decreases requests.len(),
{
    if requests.len() > 0 {
        let before = submit_all(s, requests.drop_last());
        let (params, now) = requests.last();
        lemma_submit_all(s, requests.drop_last());
        lemma_inserted(before, params, now);
        law_admission(before.inserted(params, now), now);
    }
}

/// Submitting `n` jobs to an empty queue with limit `k` leaves `min(n, k)`
/// jobs downloading and the rest pending: with more jobs than slots, exactly
/// `k` download and `n - k` wait.
pub proof fn law_submissions_fill_the_slots(s: QueueView, requests: Seq<(JobParamsView, i64)>)
    requires
        s.wf(),
        s.jobs().len() == 0,
        s.table.next_id + requests.len() <= u64::MAX,
    ensures
        requests.len() > s.capacity ==> submit_all(s, requests).running() == s.capacity
            && submit_all(s, requests).pending() == requests.len() - s.capacity,
        requests.len() <= s.capacity ==> submit_all(s, requests).running() == requests.len()
            && submit_all(s, requests).pending() == 0,
{
    lemma_submit_all(s, requests);
}

/// A supervisor that ends abnormally while its job is downloading leaves
/// the job failed with the fault recorded, the slot count equal to the
/// number of downloads, and the queue saturated: no slot is lost. If a job
/// was waiting and the downloads were within the limit, the oldest waiting
/// job is downloading right after; where it waited because every slot was
/// held, it takes the slot that came free and the slot count is unchanged.
pub proof fn law_fault_releases_the_slot(s: QueueView, id: u64, now: i64)
    requires
        s.wf(),
        s.is_running(id),
    ensures
        s.fault(id, now).wf(),
        s.fault(id, now).held == s.fault(id, now).running(),
        s.fault(id, now).saturated(),
        has_job(s.fault(id, now).jobs(), id),
        s.fault(id, now).jobs()[position(s.jobs(), id)] == s.jobs()[position(
            s.jobs(),
            id,
        )].concluded(OutcomeView::Failure(fault_text()), now),
        forall|p: int|
            s.within_limit() && oldest_pending(s.jobs(), p) ==> (#[trigger] s.fault(
                id,
                now,
            ).jobs()[p]) == s.jobs()[p].started(now),
        s.within_limit() && s.saturated() && s.pending() > 0 ==> s.fault(id, now).held == s.held,
{
    let i = position(s.jobs(), id);
    let outcome = OutcomeView::Failure(fault_text());
    let released = s.conclude(i, outcome, now);
    let after = s.fault(id, now);
    lemma_concluded(s, i, outcome, now);
    law_admission(released, now);
    assert(after.jobs()[i].id == id);
    assert forall|p: int| s.within_limit() && oldest_pending(s.jobs(), p) implies (
    #[trigger] after.jobs()[p]) == s.jobs()[p].started(now) by {
        assert(oldest_pending(released.jobs(), p)) by {
            assert forall|k: int| 0 <= k < p implies (#[trigger] released.jobs()[k]).status
                != JobStatus::Pending by {
                assert(s.jobs()[k].status != JobStatus::Pending);
            }
        }
        lemma_admits_oldest(released, now, p);
    }
}

/// A retry of a job that is pending, downloading or completed changes
/// nothing: not the job's status, not the table, not the slots.
pub proof fn law_retry_leaves_other_jobs(s: QueueView, id: u64, now: i64)
    requires
        has_job(s.jobs(), id),
        !s.jobs()[position(s.jobs(), id)].status.is_rearmable(),
    ensures
        s.retry(id, now) == s,
        s.retry_actions(id, now) == Seq::<Action>::empty(),
{
}

/// A retry of a failed or cancelled job keeps the table's ids as they are
/// and assigns no new one. The job stands under its id with its request
/// and its creation time, without result, downloading if fewer pending jobs
/// stand before it than slots were free, else pending. In a saturated
/// queue that is: downloading if a slot was free.
pub proof fn law_retry_rearms_in_place(s: QueueView, id: u64, now: i64)
    requires
        s.wf(),
        s.is_rearmable(id),
    ensures
        s.retry(id, now).wf(),
        s.retry(id, now).table.next_id == s.table.next_id,
        same_ids(s.retry(id, now).jobs(), s.jobs()),
        s.retry(id, now).jobs()[position(s.jobs(), id)] == if pending_before(
            s.jobs(),
            position(s.jobs(), id),
        ) < s.free_slots() {
            s.jobs()[position(s.jobs(), id)].rearmed(now).started(now)
        } else {
            s.jobs()[position(s.jobs(), id)].rearmed(now)
        },
        s.saturated() && s.free_slots() > 0 ==> s.retry(id, now).jobs()[position(
            s.jobs(),
            id,
        )].status == JobStatus::Downloading,
        s.free_slots() == 0 ==> s.retry(id, now).jobs()[position(s.jobs(), id)].status
            == JobStatus::Pending,
{
    let i = position(s.jobs(), id);
    let rearmed = s.jobs().update(i, s.jobs()[i].rearmed(now));
    lemma_rearmed(s, i, now);
    law_admission(s.with_jobs(rearmed), now);
    assert(rearmed.take(i) =~= s.jobs().take(i));
    if s.saturated() && s.free_slots() > 0 {
        lemma_count_take_mono(s.jobs(), i, s.jobs().len() as int, JobStatus::Pending);
        assert(s.jobs().take(s.jobs().len() as int) =~= s.jobs());
    }
}

/// Raising the limit from `k` to `k + 1` while `k` jobs download and a job
/// waits starts exactly one more job, the oldest that waits, with no other
/// event needed.
pub proof fn law_raised_limit_starts_one(s: QueueView, now: i64)
    requires
        s.wf(),
        s.held == s.capacity,
        s.pending() >= 1,
    ensures
        s.set_limit(s.capacity + 1, now).wf(),
        s.set_limit(s.capacity + 1, now).running() == s.capacity + 1,
        s.set_limit(s.capacity + 1, now).pending() + 1 == s.pending(),
        forall|p: int|
            oldest_pending(s.jobs(), p) ==> (#[trigger] s.set_limit(
                s.capacity + 1,
                now,
            ).jobs()[p]) == s.jobs()[p].started(now),
{
    let raised = QueueView { capacity: s.capacity + 1, ..s };
    law_admission(raised, now);
    assert forall|p: int| oldest_pending(s.jobs(), p) implies (#[trigger] s.set_limit(
        s.capacity + 1,
        now,
    ).jobs()[p]) == s.jobs()[p].started(now) by {
        lemma_admits_oldest(raised, now, p);
    }
}

/// What a drain leaves of the job at index `i`: cancelled if it was
/// downloading and its supervisor reported, else as it was.
pub open spec fn drained_job(s: QueueView, ids: Seq<u64>, now: i64, i: int) -> JobView {
    if s.jobs()[i].status == JobStatus::Downloading && ids.contains(s.jobs()[i].id) {
        s.jobs()[i].concluded(OutcomeView::Cancelled, now)
    } else {
        s.jobs()[i]
    }
}

proof fn lemma_drain(s: QueueView, ids: Seq<u64>, now: i64)
    requires
        s.wf(),
    ensures
        drain_cancelled(s, ids, now).wf(),
        drain_cancelled(s, ids, now).capacity == s.capacity,
        same_ids(drain_cancelled(s, ids, now).jobs(), s.jobs()),
        forall|i: int|
            0 <= i < s.jobs().len() && s.jobs()[i].status != JobStatus::Pending ==> (
            #[trigger] drain_cancelled(s, ids, now).jobs()[i]) == drained_job(s, ids, now, i),
    decreases ids.len(),
{
    if ids.len() > 0 {
        let head = ids.drop_last();
        let id = ids.last();
        let before = drain_cancelled(s, head, now);
        let after = drain_cancelled(s, ids, now);
        lemma_drain(s, head, now);
        assert forall|x: u64| ids.contains(x) <==> head.contains(x) || x == id by {
            if ids.contains(x) {
                let k = choose|k: int| 0 <= k < ids.len() && ids[k] == x;
                if k < head.len() {
                    assert(head[k] == x);
                }
            }
            if head.contains(x) {
                let k = choose|k: int| 0 <= k < head.len() && head[k] == x;
                assert(ids[k] == x);
            }
            if x == id {
                assert(ids[ids.len() - 1] == x);
            }
        }
        if before.is_running(id) {
            let p = position(before.jobs(), id);
            let released = before.conclude(p, OutcomeView::Cancelled, now);
            lemma_concluded(before, p, OutcomeView::Cancelled, now);
            law_admission(released, now);
            assert forall|i: int|
                0 <= i < s.jobs().len() && s.jobs()[i].status != JobStatus::Pending implies (
            #[trigger] after.jobs()[i]) == drained_job(s, ids, now, i) by {
                assert(before.jobs()[i] == drained_job(s, head, now, i));
                if i != p && s.jobs()[i].id == id {
                    lemma_position(before.jobs(), i);
                }
            }
        } else {
            assert forall|i: int|
                0 <= i < s.jobs().len() && s.jobs()[i].status != JobStatus::Pending implies (
            #[trigger] after.jobs()[i]) == drained_job(s, ids, now, i) by {
                assert(before.jobs()[i] == drained_job(s, head, now, i));
                if s.jobs()[i].status == JobStatus::Downloading && s.jobs()[i].id == id
                    && !head.contains(id) {
                    lemma_position(before.jobs(), i);
                }
            }
        }
    }
}

/// A download that was told to cancel ends cancelled: once the supervisors
/// named by `ids` have each reported a cancelled download, in whatever
/// order, every job that was downloading and is named is cancelled, every
/// job that had ended before is as it was, and no job has changed its id.
pub proof fn law_cancelled_downloads_end_cancelled(s: QueueView, ids: Seq<u64>, now: i64)
    requires
        s.wf(),
    ensures
        drain_cancelled(s, ids, now).wf(),
        same_ids(drain_cancelled(s, ids, now).jobs(), s.jobs()),
        forall|i: int|
            0 <= i < s.jobs().len() && s.jobs()[i].status == JobStatus::Downloading
                && ids.contains(s.jobs()[i].id) ==> (#[trigger] drain_cancelled(
                s,
                ids,
                now,
            ).jobs()[i]) == s.jobs()[i].concluded(OutcomeView::Cancelled, now),
        forall|i: int|
            0 <= i < s.jobs().len() && s.jobs()[i].status.is_terminal() ==> (
            #[trigger] drain_cancelled(s, ids, now).jobs()[i]) == s.jobs()[i],
{
    let after = drain_cancelled(s, ids, now);
    lemma_drain(s, ids, now);
    assert forall|i: int|
        0 <= i < s.jobs().len() && s.jobs()[i].status == JobStatus::Downloading && ids.contains(
            s.jobs()[i].id,
        ) implies (#[trigger] after.jobs()[i]) == s.jobs()[i].concluded(
        OutcomeView::Cancelled,
        now,
    ) by {
        assert(after.jobs()[i] == drained_job(s, ids, now, i));
    }
    assert forall|i: int|
        0 <= i < s.jobs().len() && s.jobs()[i].status.is_terminal() implies (
    #[trigger] after.jobs()[i]) == s.jobs()[i] by {
        assert(after.jobs()[i] == drained_job(s, ids, now, i));
    }
}

/// After every download has been told to cancel and each supervisor has
/// reported a cancelled download, in whatever order, no job is downloading
/// and no slot is held, every job that was downloading is cancelled, and
/// every other job is as it was. This is stated of a queue in which no
/// job waits: a waiting job is started by the first slot that comes free.
pub proof fn law_cancel_all_drains(s: QueueView, ids: Seq<u64>, now: i64)
    requires
        s.wf(),
        s.pending() == 0,
        forall|i: int|
            0 <= i < s.jobs().len() && (#[trigger] s.jobs()[i]).status == JobStatus::Downloading
                ==> ids.contains(s.jobs()[i].id),
    ensures
        drain_cancelled(s, ids, now).wf(),
        drain_cancelled(s, ids, now).running() == 0,
        drain_cancelled(s, ids, now).held == 0,
        drain_cancelled(s, ids, now).jobs().len() == s.jobs().len(),
        forall|i: int|
            0 <= i < s.jobs().len() ==> (#[trigger] drain_cancelled(s, ids, now).jobs()[i]) == if s.jobs()[i].status
                == JobStatus::Downloading {
                s.jobs()[i].concluded(OutcomeView::Cancelled, now)
            } else {
                s.jobs()[i]
            },
{
    let after = drain_cancelled(s, ids, now);
    lemma_drain(s, ids, now);
    lemma_count_zero(s.jobs(), JobStatus::Pending);
    assert forall|i: int| 0 <= i < after.jobs().len() implies (#[trigger] after.jobs()[i]).status
        != JobStatus::Downloading by {
        assert(s.jobs()[i].status != JobStatus::Pending);
        assert(after.jobs()[i] == drained_job(s, ids, now, i));
    }
    assert forall|i: int| 0 <= i < s.jobs().len() implies (#[trigger] after.jobs()[i]) == if s.jobs()[i].status
        == JobStatus::Downloading {
        s.jobs()[i].concluded(OutcomeView::Cancelled, now)
    } else {
        s.jobs()[i]
    } by {
        assert(s.jobs()[i].status != JobStatus::Pending);
        assert(after.jobs()[i] == drained_job(s, ids, now, i));
    }
    lemma_count_zero(after.jobs(), JobStatus::Downloading);
}

/// No request changes or reuses an id: the jobs that were in the table
/// stay where they were, each under its id; a job that is new has an id
/// that was never assigned before; and the id to assign next never goes back.
pub proof fn law_ids_never_reused(s: QueueView, op: Operation)
    requires
        s.wf(),
    ensures
        apply(s, op).table.next_id >= s.table.next_id,
        apply(s, op).jobs().len() >= s.jobs().len(),
        forall|i: int|
            0 <= i < s.jobs().len() ==> (#[trigger] apply(s, op).jobs()[i]).id == s.jobs()[i].id,
        forall|i: int|
            s.jobs().len() <= i < apply(s, op).jobs().len() ==> (#[trigger] apply(
                s,
                op,
            ).jobs()[i]).id >= s.table.next_id,
{
    match op {
        Operation::Submit { params, now } => {
            if s.table.can_insert() {
                lemma_inserted(s, params, now);
                law_admission(s.inserted(params, now), now);
            }
        },
        Operation::Retry { id, now } => {
            if s.is_rearmable(id) {
                let i = position(s.jobs(), id);
                lemma_rearmed(s, i, now);
                law_admission(s.with_jobs(s.jobs().update(i, s.jobs()[i].rearmed(now))), now);
            }
        },
        Operation::Finish { id, outcome, now } => {
            if s.is_running(id) {
                let i = position(s.jobs(), id);
                lemma_concluded(s, i, outcome, now);
                law_admission(s.conclude(i, outcome, now), now);
            }
        },
        Operation::Fault { id, now } => {
            if has_job(s.jobs(), id) {
                if s.is_running(id) {
                    let i = position(s.jobs(), id);
                    let outcome = OutcomeView::Failure(fault_text());
                    lemma_concluded(s, i, outcome, now);
                    law_admission(s.conclude(i, outcome, now), now);
                } else {
                    law_admission(s, now);
                }
            }
        },
    }
}

/// Bulk deletion removes the completed jobs and nothing else: the queue
/// stays well formed, the slot count and the limit are untouched, the ids of
/// the deleted jobs are not free again, and a queue that was saturated or
/// within its limit stays so.
pub proof fn law_clear_completed(s: QueueView)
    requires
        s.wf(),
    ensures
        s.clear_completed().wf(),
        s.clear_completed().held == s.held,
        s.clear_completed().capacity == s.capacity,
        s.clear_completed().table.next_id == s.table.next_id,
        s.clear_completed().running() == s.running(),
        s.clear_completed().pending() == s.pending(),
        count_status(s.clear_completed().jobs(), JobStatus::Completed) == 0,
        s.saturated() ==> s.clear_completed().saturated(),
        s.within_limit() ==> s.clear_completed().within_limit(),
{
    lemma_without_completed(s.jobs(), JobStatus::Downloading);
    lemma_without_completed(s.jobs(), JobStatus::Pending);
    let kept = s.clear_completed().jobs();
    assert forall|k: int| 0 <= k < kept.len() implies (#[trigger] kept[k]).id
        < s.table.next_id by {
        let m = choose|m: int| 0 <= m < s.jobs().len() && s.jobs()[m] == kept[k];
        assert(s.jobs()[m].id < s.table.next_id);
    }
}

/// A listing by status shows as many jobs as are counted with that status.
/// In a well-formed queue the listing of the downloading jobs is therefore
/// as long as the number of slots held: no job is seen running without its slot.
pub proof fn law_listing_matches_count(jobs: Seq<JobView>, status: JobStatus)
    ensures
        with_status(jobs, status).len() == count_status(jobs, status),
    decreases jobs.len(),
{
    reveal(Seq::filter);
    if jobs.len() > 0 {
        law_listing_matches_count(jobs.drop_last(), status);
    }
}

/// Admission asks for nothing but for jobs that were pending.
proof fn lemma_admission_actions_name_pending(jobs: Seq<JobView>, quota: nat)
    ensures
        forall|k: int|
            0 <= k < admission_actions(jobs, quota).len() ==> exists|m: int|
                0 <= m < jobs.len() && (#[trigger] jobs[m]).status == JobStatus::Pending
                    && jobs[m].id == action_job(#[trigger] admission_actions(jobs, quota)[k]),
    decreases jobs.len(),
{
    if jobs.len() > 0 {
        let head = jobs.drop_last();
        let actions = admission_actions(jobs, quota);
        let before = admission_actions(head, quota);
        lemma_admission_actions_name_pending(head, quota);
        assert forall|k: int| 0 <= k < actions.len() implies exists|m: int|
            0 <= m < jobs.len() && (#[trigger] jobs[m]).status == JobStatus::Pending && jobs[m].id
                == action_job(#[trigger] actions[k]) by {
            if k < before.len() {
                let m = choose|m: int|
                    0 <= m < head.len() && (#[trigger] head[m]).status == JobStatus::Pending
                        && head[m].id == action_job(before[k]);
                assert(jobs[m] == head[m]);
                assert(actions[k] == before[k]);
            } else {
                let m = jobs.len() - 1;
                assert(jobs[m].status == JobStatus::Pending);
            }
        }
    }
}

/// A failed write costs no slot and starts nothing for its job: the queue
/// stays well formed and within its limit, every job keeps its id, the job
/// has the record that the failed write leaves it, and no action for the
/// job is a start or a write.
pub proof fn law_failed_write_starts_nothing(s: QueueView, id: u64, detail: Seq<char>, now: i64)
    requires
        s.wf(),
        has_job(s.jobs(), id),
    ensures
        s.persist_failed(id, detail, now).wf(),
        s.persist_failed(id, detail, now).capacity == s.capacity,
        same_ids(s.persist_failed(id, detail, now).jobs(), s.jobs()),
        s.persist_failed(id, detail, now).jobs()[position(s.jobs(), id)] == s.jobs()[position(
            s.jobs(),
            id,
        )].write_failed(detail, now),
        s.within_limit() ==> s.persist_failed(id, detail, now).within_limit(),
        forall|k: int|
            0 <= k < s.persist_failed_actions(id, detail, now).len() ==> (
            #[trigger] s.persist_failed_actions(id, detail, now)[k]) == (Action::EmitTerminal {
                job_id: id,
            }) || action_job(s.persist_failed_actions(id, detail, now)[k]) != id,
{
    let i = position(s.jobs(), id);
    let job = s.jobs()[i];
    let back = job.write_failed(detail, now);
    let parked = s.parked(i, detail, now);
    let settled = parked.admit_next(now);
    let after = s.persist_failed(id, detail, now);
    let actions = s.persist_failed_actions(id, detail, now);
    lemma_count_update(s.jobs(), i, parked.jobs()[i], JobStatus::Downloading);
    lemma_same_ids_wf(s.table, parked.jobs());
    law_admission(parked, now);
    lemma_count_update(settled.jobs(), i, back, JobStatus::Downloading);
    lemma_same_ids_wf(s.table, after.jobs());
    lemma_admission_actions_name_pending(parked.jobs(), parked.free_slots());
    let started = admission_actions(parked.jobs(), parked.free_slots());
    assert forall|k: int| 0 <= k < actions.len() implies (#[trigger] actions[k]) == (
    Action::EmitTerminal { job_id: id }) || action_job(actions[k]) != id by {
        let offset = actions.len() - started.len();
        if k >= offset {
            assert(actions[k] == started[k - offset]);
            let m = choose|m: int|
                0 <= m < parked.jobs().len() && (#[trigger] parked.jobs()[m]).status
                    == JobStatus::Pending && parked.jobs()[m].id == action_job(started[k - offset]);
            assert(m != i);
            if m < i {
                assert(s.jobs()[m].id < s.jobs()[i].id);
            } else {
                assert(s.jobs()[i].id < s.jobs()[m].id);
            }
        }
    }
}

/// A retried job whose record was stored as pending, and whose next write
/// then fails, waits: it is pending under its id, without result, no slot is
/// held for it, and where no other job waited the slot count is what it
/// was before the retry.
pub proof fn law_failed_start_leaves_the_job_waiting(
    s: QueueView,
    id: u64,
    detail: Seq<char>,
    retried: i64,
    now: i64,
)
    requires
        s.wf(),
        s.is_rearmable(id),
    ensures
        s.retry(id, retried).persisted(id, JobStatus::Pending).persist_failed(id, detail, now).wf(),
        s.retry(id, retried).persisted(id, JobStatus::Pending).persist_failed(
            id,
            detail,
            now,
        ).jobs()[position(s.jobs(), id)].status == JobStatus::Pending,
        s.retry(id, retried).persisted(id, JobStatus::Pending).persist_failed(
            id,
            detail,
            now,
        ).jobs()[position(s.jobs(), id)].error is None,
        s.pending() == 0 ==> s.retry(id, retried).persisted(id, JobStatus::Pending).persist_failed(
            id,
            detail,
            now,
        ).held == s.held,
{
    let i = position(s.jobs(), id);
    let retried_state = s.retry(id, retried);
    law_retry_rearms_in_place(s, id, retried);
    lemma_position(retried_state.jobs(), i);
    let stored = retried_state.persisted(id, JobStatus::Pending);
    lemma_count_update(
        retried_state.jobs(),
        i,
        retried_state.jobs()[i].acknowledged(JobStatus::Pending),
        JobStatus::Downloading,
    );
    lemma_count_update(
        retried_state.jobs(),
        i,
        retried_state.jobs()[i].acknowledged(JobStatus::Pending),
        JobStatus::Pending,
    );
    lemma_same_ids_wf(retried_state.table, stored.jobs());
    lemma_position(stored.jobs(), i);
    law_failed_write_starts_nothing(stored, id, detail, now);
    if s.pending() == 0 {
        let rearmed = s.with_jobs(s.jobs().update(i, s.jobs()[i].rearmed(retried)));
        lemma_rearmed(s, i, retried);
        law_admission(rearmed, retried);
        let parked = stored.parked(i, detail, now);
        lemma_count_update(stored.jobs(), i, parked.jobs()[i], JobStatus::Pending);
        lemma_count_update(stored.jobs(), i, parked.jobs()[i], JobStatus::Downloading);
        lemma_same_ids_wf(stored.table, parked.jobs());
        lemma_settled(parked, now);
    }
}

/// A restart loses no job and leaves none in limbo: the restored queue is
/// well formed, saturated and within its limit, holds every stored job under
/// its id, shows no job downloading for which it holds no slot, and keeps
/// the record of every job that had ended.
pub proof fn law_restart_keeps_the_queue(
    capacity: nat,
    records: Seq<JobView>,
    next_id: nat,
    now: i64,
)
    requires
        capacity >= 1,
        (TableView { jobs: records, next_id }).wf(),
    ensures
        QueueView::restored(capacity, records, next_id, now).wf(),
        QueueView::restored(capacity, records, next_id, now).saturated(),
        QueueView::restored(capacity, records, next_id, now).within_limit(),
        QueueView::restored(capacity, records, next_id, now).table.next_id == next_id,
        same_ids(QueueView::restored(capacity, records, next_id, now).jobs(), records),
        forall|i: int|
            0 <= i < records.len() && records[i].status.is_terminal() ==> (
            #[trigger] QueueView::restored(capacity, records, next_id, now).jobs()[i])
                == records[i].requeued(now),
{
    let waiting = requeued(records, now);
    let start = QueueView { capacity, held: 0, table: TableView { jobs: waiting, next_id } };
    assert forall|k: int| 0 <= k < waiting.len() implies (#[trigger] waiting[k]).status
        != JobStatus::Downloading by {}
    lemma_count_zero(waiting, JobStatus::Downloading);
    lemma_same_ids_wf(TableView { jobs: records, next_id }, waiting);
    law_admission(start, now);
}

} // verus!
