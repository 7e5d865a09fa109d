//! Facts about counting and positions in a job table that the proofs of the
//! transitions share.

use vstd::prelude::*;
use crate::job::{JobStatus, JobView};
use crate::model::{
    admission_actions, admitted, count_status, has_job, ids_increasing, pending_before, position,
    without_completed,
};

verus! {

pub open spec fn one_if(b: bool) -> nat {
    if b {
        1
    } else {
        0
    }
}

pub proof fn lemma_count_push(jobs: Seq<JobView>, job: JobView, status: JobStatus)
    ensures
        count_status(jobs.push(job), status) == count_status(jobs, status) + one_if(
            job.status == status,
        ),
{
    assert(jobs.push(job).drop_last() =~= jobs);
}

pub proof fn lemma_count_update(jobs: Seq<JobView>, i: int, job: JobView, status: JobStatus)
    requires
        0 <= i < jobs.len(),
    ensures
        count_status(jobs.update(i, job), status) + one_if(jobs[i].status == status)
            == count_status(jobs, status) + one_if(job.status == status),
    decreases jobs.len(),
{
    let after = jobs.update(i, job);
    if i == jobs.len() - 1 {
        assert(after.drop_last() =~= jobs.drop_last());
    } else {
        assert(after.drop_last() =~= jobs.drop_last().update(i, job));
        lemma_count_update(jobs.drop_last(), i, job, status);
    }
}

pub proof fn lemma_count_take_step(jobs: Seq<JobView>, i: int, status: JobStatus)
    requires
        0 <= i < jobs.len(),
    ensures
        count_status(jobs.take(i + 1), status) == count_status(jobs.take(i), status) + one_if(
            jobs[i].status == status,
        ),
{
    assert(jobs.take(i + 1).drop_last() =~= jobs.take(i));
}

pub proof fn lemma_count_take_mono(jobs: Seq<JobView>, i: int, j: int, status: JobStatus)
    requires
        0 <= i <= j <= jobs.len(),
    ensures
        count_status(jobs.take(i), status) <= count_status(jobs.take(j), status),
    decreases j - i,
{
    if i < j {
        lemma_count_take_mono(jobs, i, j - 1, status);
        lemma_count_take_step(jobs, j - 1, status);
    }
}

pub proof fn lemma_count_take_all(jobs: Seq<JobView>, status: JobStatus)
    ensures
        count_status(jobs.take(jobs.len() as int), status) == count_status(jobs, status),
{
    assert(jobs.take(jobs.len() as int) =~= jobs);
}

/// A status that no job has is counted zero times, and the other way round.
pub proof fn lemma_count_zero(jobs: Seq<JobView>, status: JobStatus)
    ensures
        count_status(jobs, status) == 0 <==> forall|i: int|
            0 <= i < jobs.len() ==> (#[trigger] jobs[i]).status != status,
    decreases jobs.len(),
{
    if jobs.len() > 0 {
        let head = jobs.drop_last();
        lemma_count_zero(head, status);
        if count_status(jobs, status) == 0 {
            assert forall|i: int| 0 <= i < jobs.len() implies (#[trigger] jobs[i]).status
                != status by {
                if i < jobs.len() - 1 {
                    assert(head[i] == jobs[i]);
                }
            }
        } else {
            if jobs.last().status != status {
                let k = choose|k: int| 0 <= k < head.len() && (#[trigger] head[k]).status == status;
                assert(jobs[k].status == status);
            } else {
                assert(jobs[jobs.len() - 1].status == status);
            }
        }
    }
}

/// With increasing ids, the job at index `i` is the one that its id names.
pub proof fn lemma_position(jobs: Seq<JobView>, i: int)
    requires
        ids_increasing(jobs),
        0 <= i < jobs.len(),
    ensures
        has_job(jobs, jobs[i].id),
        position(jobs, jobs[i].id) == i,
{
    let id = jobs[i].id;
    let p = position(jobs, id);
    assert(0 <= p < jobs.len() && jobs[p].id == id);
    if p < i {
        assert(jobs[p].id < jobs[i].id);
    }
    if i < p {
        assert(jobs[i].id < jobs[p].id);
    }
}

/// Admission looks only at what stands before a job.
pub proof fn lemma_admitted_take(jobs: Seq<JobView>, quota: nat, now: i64, n: int)
    requires
        0 <= n <= jobs.len(),
    ensures
        admitted(jobs, quota, now).take(n) == admitted(jobs.take(n), quota, now),
{
    let a = admitted(jobs, quota, now).take(n);
    let b = admitted(jobs.take(n), quota, now);
    assert forall|i: int| 0 <= i < n implies a[i] == b[i] by {
        assert(jobs.take(n).take(i) =~= jobs.take(i));
    }
    assert(a =~= b);
}

/// Admission with `quota` free slots moves `min(quota, pending)` jobs from
/// pending to downloading and changes no other count.
pub proof fn lemma_admitted_counts(jobs: Seq<JobView>, quota: nat, now: i64)
    ensures
        count_status(admitted(jobs, quota, now), JobStatus::Pending) + vstd::math::min(
            quota as int,
            count_status(jobs, JobStatus::Pending) as int,
        ) == count_status(jobs, JobStatus::Pending),
        count_status(admitted(jobs, quota, now), JobStatus::Downloading) == count_status(
            jobs,
            JobStatus::Downloading,
        ) + vstd::math::min(quota as int, count_status(jobs, JobStatus::Pending) as int),
        count_status(admitted(jobs, quota, now), JobStatus::Completed) == count_status(
            jobs,
            JobStatus::Completed,
        ),
        count_status(admitted(jobs, quota, now), JobStatus::Failed) == count_status(
            jobs,
            JobStatus::Failed,
        ),
        count_status(admitted(jobs, quota, now), JobStatus::Cancelled) == count_status(
            jobs,
            JobStatus::Cancelled,
        ),
    decreases jobs.len(),
{
    if jobs.len() > 0 {
        let head = jobs.drop_last();
        let n = jobs.len() - 1;
        lemma_admitted_counts(head, quota, now);
        lemma_admitted_take(jobs, quota, now, n);
        assert(jobs.take(n) =~= head);
        assert(admitted(jobs, quota, now).drop_last() =~= admitted(jobs, quota, now).take(n));
        assert(pending_before(jobs, n) == count_status(head, JobStatus::Pending));
    }
}

/// Once `quota` pending jobs stand before index `i`, no later job is started.
pub proof fn lemma_admission_actions_rest(jobs: Seq<JobView>, quota: nat, i: int)
    requires
        0 <= i <= jobs.len(),
        pending_before(jobs, i) >= quota,
    ensures
        admission_actions(jobs, quota) == admission_actions(jobs.take(i), quota),
    decreases jobs.len(),
{
    if i == jobs.len() {
        assert(jobs.take(i) =~= jobs);
    } else {
        let head = jobs.drop_last();
        let n = jobs.len() - 1;
        assert(jobs.take(n) =~= head);
        lemma_count_take_mono(jobs, i, n, JobStatus::Pending);
        assert(head.take(i) =~= jobs.take(i));
        lemma_admission_actions_rest(head, quota, i);
    }
}

/// Deleting the completed jobs keeps every other job, in order: the ids still
/// grow, and the count of every other status is what it was.
pub proof fn lemma_without_completed(jobs: Seq<JobView>, status: JobStatus)
    ensures
        forall|k: int|
            0 <= k < without_completed(jobs).len() ==> exists|m: int|
                0 <= m < jobs.len() && jobs[m] == #[trigger] without_completed(jobs)[k],
        ids_increasing(jobs) ==> ids_increasing(without_completed(jobs)),
        status != JobStatus::Completed ==> count_status(without_completed(jobs), status)
            == count_status(jobs, status),
        count_status(without_completed(jobs), JobStatus::Completed) == 0,
        without_completed(jobs).len() + count_status(jobs, JobStatus::Completed) == jobs.len(),
    decreases jobs.len(),
{
    reveal(Seq::filter);
    let kept = without_completed(jobs);
    if jobs.len() > 0 {
        let head = jobs.drop_last();
        let last = jobs.last();
        let kept_head = without_completed(head);
        lemma_without_completed(head, status);
        assert forall|k: int| 0 <= k < kept.len() implies exists|m: int|
            0 <= m < jobs.len() && jobs[m] == #[trigger] kept[k] by {
            if k < kept_head.len() {
                let m = choose|m: int| 0 <= m < head.len() && head[m] == kept_head[k];
                assert(jobs[m] == kept[k]);
            } else {
                assert(jobs[jobs.len() - 1] == kept[k]);
            }
        }
        if ids_increasing(jobs) {
            assert(ids_increasing(head)) by {
                assert forall|i: int, j: int| 0 <= i < j < head.len() implies (#[trigger] head[i]).id
                    < (#[trigger] head[j]).id by {
                    assert(jobs[i].id < jobs[j].id);
                }
            }
            assert forall|i: int, j: int| 0 <= i < j < kept.len() implies (#[trigger] kept[i]).id
                < (#[trigger] kept[j]).id by {
                if j == kept_head.len() {
                    let m = choose|m: int| 0 <= m < head.len() && head[m] == kept_head[i];
                    assert(jobs[m].id < jobs[jobs.len() - 1].id);
                }
            }
        }
        if last.status != JobStatus::Completed {
            assert(kept.drop_last() =~= kept_head);
        }
    }
}

} // verus!
