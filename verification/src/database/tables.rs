//! The operations on single tables that the store's operations are made of.

use vstd::prelude::*;
use crate::job::{job_fetch_views, JobFetch};
use crate::queue_command::QueueCommand;
use crate::task::{task_views, Task, TaskStatus, TaskView};
use super::model::{
    job_exists,
    owners_exist,
    StoreView,
    busy_pending,
    capped,
    capped_u32,
    cleanup_due,
    delete_due,
    distinct_job_ids,
    owned_by,
    task_stats,
    TaskStats,
    distinct_task_ids,
    in_state,
    is_next_admissible,
    job_owns_task,
    last_task_index,
    not_among,
    owns_one_of,
    task_ids,
};

verus! {

/// A task table whose identifiers are those of a table with distinct
/// identifiers, position by position, has distinct identifiers too.
pub proof fn lemma_same_ids_distinct(before: Seq<TaskView>, after: Seq<TaskView>)
    requires
        distinct_task_ids(before),
        before.len() == after.len(),
        forall|k: int| 0 <= k < before.len() ==> (#[trigger] after[k]).task_id == before[k].task_id,
    ensures
        distinct_task_ids(after),
{
    assert forall|i: int, j: int| 0 <= i < j < after.len() implies (#[trigger] after[i]).task_id
        != (#[trigger] after[j]).task_id by {
        assert(before[i].task_id != before[j].task_id);
    }
}

/// A store whose jobs are those of a well-formed store, and whose tasks have the
/// identifiers and the owners of its tasks, position by position, is well
/// formed too.
pub proof fn lemma_same_keys_well_formed(before: StoreView, after: StoreView)
    requires
        before.wf(),
        after.jobs.len() == before.jobs.len(),
        forall|k: int| 0 <= k < before.jobs.len() ==> (#[trigger] after.jobs[k]).job_id == before.jobs[k].job_id,
        after.tasks.len() == before.tasks.len(),
        forall|k: int|
            0 <= k < before.tasks.len() ==> (#[trigger] after.tasks[k]).task_id
                == before.tasks[k].task_id && after.tasks[k].owner_job_id
                == before.tasks[k].owner_job_id,
    ensures
        after.wf(),
{
    lemma_same_ids_distinct(before.tasks, after.tasks);
    assert forall|i: int, j: int| 0 <= i < j < after.jobs.len() implies (#[trigger] after.jobs[i]).job_id
        != (#[trigger] after.jobs[j]).job_id by {
        assert(before.jobs[i].job_id != before.jobs[j].job_id);
    }
    assert forall|i: int| 0 <= i < after.tasks.len() implies job_exists(
        after.jobs,
        (#[trigger] after.tasks[i]).owner_job_id,
    ) by {
        assert(job_exists(before.jobs, before.tasks[i].owner_job_id));
        let w = choose|w: int|
            0 <= w < before.jobs.len() && (#[trigger] before.jobs[w]).job_id
                == before.tasks[i].owner_job_id;
        assert(after.jobs[w].job_id == after.tasks[i].owner_job_id);
    }
}

/// Taking one more element of a sequence appends that element.
pub proof fn lemma_take_next<T>(s: Seq<T>, i: int)
    requires
        0 <= i < s.len(),
    ensures
        s.take(i + 1) == s.take(i).push(s[i]),
{
    assert(s.take(i + 1) =~= s.take(i).push(s[i]));
}

/// Whether `id` occurs in `ids`.
pub fn contains_id(ids: &[u128], id: u128) -> (found: bool)
    ensures
        found == ids@.contains(id),
{
    let mut i: usize = 0;
    while i < ids.len()
        invariant
            i <= ids.len(),
            forall|k: int| 0 <= k < i ==> ids[k] != id,
        decreases ids.len() - i,
    {
        if ids[i] == id {
            return true;
        }
        i += 1;
    }
    false
}

/// Whether a task with identifier `task_id` is in the table.
pub fn holds_task_id(tasks: &Vec<Task>, task_id: u128) -> (found: bool)
    ensures
        found == exists|i: int|
            0 <= i < tasks.len() && (#[trigger] task_views(tasks@)[i]).task_id == task_id,
{
    let mut i: usize = 0;
    while i < tasks.len()
        invariant
            i <= tasks.len(),
            forall|k: int| 0 <= k < i ==> (#[trigger] task_views(tasks@)[k]).task_id != task_id,
        decreases tasks.len() - i,
    {
        if tasks[i].task_id == task_id {
            assert(task_views(tasks@)[i as int].task_id == task_id);
            return true;
        }
        i += 1;
    }
    false
}

/// Whether a job with identifier `job_id` is in the table.
pub fn holds_job_id(jobs: &Vec<JobFetch>, job_id: u128) -> (found: bool)
    ensures
        found == exists|i: int|
            0 <= i < jobs.len() && (#[trigger] job_fetch_views(jobs@)[i]).job_id == job_id,
{
    let mut i: usize = 0;
    while i < jobs.len()
        invariant
            i <= jobs.len(),
            forall|k: int| 0 <= k < i ==> (#[trigger] job_fetch_views(jobs@)[k]).job_id != job_id,
        decreases jobs.len() - i,
    {
        if jobs[i].job_id == job_id {
            assert(job_fetch_views(jobs@)[i as int].job_id == job_id);
            return true;
        }
        i += 1;
    }
    false
}

/// Applies `command` to every task with identifier `task_id`.
pub fn apply_task_command(tasks: &mut Vec<Task>, task_id: u128, command: &QueueCommand, now: i64)
    ensures
        final(tasks).len() == old(tasks).len(),
        forall|k: int|
            0 <= k < old(tasks).len() ==> (#[trigger] final(tasks)[k])@ == if old(
                tasks,
            )[k].task_id == task_id {
                old(tasks)[k]@.after_task_command(command@, now)
            } else {
                old(tasks)[k]@
            },
{
    let mut i: usize = 0;
    while i < tasks.len()
        invariant
            i <= tasks.len(),
            tasks.len() == old(tasks).len(),
            forall|k: int|
                0 <= k < i ==> (#[trigger] tasks[k])@ == if old(tasks)[k].task_id == task_id {
                    old(tasks)[k]@.after_task_command(command@, now)
                } else {
                    old(tasks)[k]@
                },
            forall|k: int| i <= k < tasks.len() ==> (#[trigger] tasks[k]) == old(tasks)[k],
        decreases tasks.len() - i,
    {
        if tasks[i].task_id == task_id {
            tasks[i].apply_task_command(command, now);
        }
        i += 1;
    }
}

/// Applies a job's `command` to every task that job `job_id` owns.
pub fn apply_job_command(tasks: &mut Vec<Task>, job_id: u128, command: &QueueCommand, now: i64)
    ensures
        final(tasks).len() == old(tasks).len(),
        forall|k: int|
            0 <= k < old(tasks).len() ==> (#[trigger] final(tasks)[k])@ == if old(
                tasks,
            )[k].owner_job_id == job_id {
                old(tasks)[k]@.after_job_command(command@, now)
            } else {
                old(tasks)[k]@
            },
{
    let mut i: usize = 0;
    while i < tasks.len()
        invariant
            i <= tasks.len(),
            tasks.len() == old(tasks).len(),
            forall|k: int|
                0 <= k < i ==> (#[trigger] tasks[k])@ == if old(tasks)[k].owner_job_id == job_id {
                    old(tasks)[k]@.after_job_command(command@, now)
                } else {
                    old(tasks)[k]@
                },
            forall|k: int| i <= k < tasks.len() ==> (#[trigger] tasks[k]) == old(tasks)[k],
        decreases tasks.len() - i,
    {
        if tasks[i].owner_job_id == job_id {
            tasks[i].apply_job_command(command, now);
        }
        i += 1;
    }
}

/// Fails every task that was queued or running.
pub fn reset_tasks(tasks: &mut Vec<Task>)
    ensures
        final(tasks).len() == old(tasks).len(),
        forall|k: int|
            0 <= k < old(tasks).len() ==> (#[trigger] final(tasks)[k])@ == old(tasks)[k]@.reset(),
{
    let mut i: usize = 0;
    while i < tasks.len()
        invariant
            i <= tasks.len(),
            tasks.len() == old(tasks).len(),
            forall|k: int| 0 <= k < i ==> (#[trigger] tasks[k])@ == old(tasks)[k]@.reset(),
            forall|k: int| i <= k < tasks.len() ==> (#[trigger] tasks[k]) == old(tasks)[k],
        decreases tasks.len() - i,
    {
        if tasks[i].status == TaskStatus::Waiting || tasks[i].status == TaskStatus::Processing {
            tasks[i].status = TaskStatus::Failed;
            tasks[i].finished_at = tasks[i].started_at;
        }
        i += 1;
    }
}

/// Clears `pending_cleanup` on every task whose identifier is among `ids`.
pub fn clear_cleanup(tasks: &mut Vec<Task>, ids: &[u128])
    ensures
        final(tasks).len() == old(tasks).len(),
        forall|k: int|
            0 <= k < old(tasks).len() ==> (#[trigger] final(tasks)[k])@ == if ids@.contains(
                old(tasks)[k].task_id,
            ) {
                TaskView { pending_cleanup: false, ..old(tasks)[k]@ }
            } else {
                old(tasks)[k]@
            },
{
    let mut i: usize = 0;
    while i < tasks.len()
        invariant
            i <= tasks.len(),
            tasks.len() == old(tasks).len(),
            forall|k: int|
                0 <= k < i ==> (#[trigger] tasks[k])@ == if ids@.contains(old(tasks)[k].task_id) {
                    TaskView { pending_cleanup: false, ..old(tasks)[k]@ }
                } else {
                    old(tasks)[k]@
                },
            forall|k: int| i <= k < tasks.len() ==> (#[trigger] tasks[k]) == old(tasks)[k],
        decreases tasks.len() - i,
    {
        if contains_id(ids, tasks[i].task_id) {
            tasks[i].pending_cleanup = false;
        }
        i += 1;
    }
}

/// The tasks whose identifier is not among `ids`, in order.
pub fn without_tasks(tasks: &Vec<Task>, ids: &[u128]) -> (kept: Vec<Task>)
    ensures
        task_views(kept@) == task_views(tasks@).filter(not_among(ids@)),
{
    let ghost views = task_views(tasks@);
    let mut kept: Vec<Task> = Vec::new();
    let mut i: usize = 0;
    assert(views.take(0).filter(not_among(ids@)) =~= Seq::empty()) by {
        reveal(Seq::filter);
    }
    assert(task_views(kept@) =~= Seq::empty());
    while i < tasks.len()
        invariant
            i <= tasks.len(),
            views == task_views(tasks@),
            task_views(kept@) == views.take(i as int).filter(not_among(ids@)),
        decreases tasks.len() - i,
    {
        proof {
            lemma_take_next(views, i as int);
            views.take(i as int).lemma_filter_push(views[i as int], not_among(ids@));
        }
        if !contains_id(ids, tasks[i].task_id) {
            let ghost before = kept@;
            kept.push(tasks[i].clone());
            assert(task_views(kept@) =~= task_views(before).push(views[i as int]));
        }
        i += 1;
    }
    assert(views.take(i as int) =~= views);
    kept
}

/// Whether some task in the table belongs to job `job_id`.
pub fn owns_task(tasks: &Vec<Task>, job_id: u128) -> (owns: bool)
    ensures
        owns == job_owns_task(task_views(tasks@), job_id),
{
    let mut i: usize = 0;
    while i < tasks.len()
        invariant
            i <= tasks.len(),
            forall|k: int| 0 <= k < i ==> (#[trigger] task_views(tasks@)[k]).owner_job_id != job_id,
        decreases tasks.len() - i,
    {
        if tasks[i].owner_job_id == job_id {
            assert(task_views(tasks@)[i as int].owner_job_id == job_id);
            return true;
        }
        i += 1;
    }
    false
}

/// The jobs that own at least one of `tasks`, in order.
pub fn jobs_with_tasks(jobs: &Vec<JobFetch>, tasks: &Vec<Task>) -> (kept: Vec<JobFetch>)
    ensures
        job_fetch_views(kept@) == job_fetch_views(jobs@).filter(owns_one_of(task_views(tasks@))),
{
    let ghost views = job_fetch_views(jobs@);
    let ghost pred = owns_one_of(task_views(tasks@));
    let mut kept: Vec<JobFetch> = Vec::new();
    let mut i: usize = 0;
    assert(views.take(0).filter(pred) =~= Seq::empty()) by {
        reveal(Seq::filter);
    }
    assert(job_fetch_views(kept@) =~= Seq::empty());
    while i < jobs.len()
        invariant
            i <= jobs.len(),
            views == job_fetch_views(jobs@),
            pred == owns_one_of(task_views(tasks@)),
            job_fetch_views(kept@) == views.take(i as int).filter(pred),
        decreases jobs.len() - i,
    {
        proof {
            lemma_take_next(views, i as int);
            views.take(i as int).lemma_filter_push(views[i as int], pred);
        }
        if owns_task(tasks, jobs[i].job_id) {
            let ghost before = kept@;
            kept.push(jobs[i].clone());
            assert(job_fetch_views(kept@) =~= job_fetch_views(before).push(views[i as int]));
        }
        i += 1;
    }
    assert(views.take(i as int) =~= views);
    kept
}

/// How many tasks are in state `status`.
pub fn count_in_state(tasks: &Vec<Task>, status: TaskStatus) -> (count: usize)
    ensures
        count == task_views(tasks@).filter(in_state(status)).len(),
{
    let ghost views = task_views(tasks@);
    let mut count: usize = 0;
    let mut i: usize = 0;
    assert(views.take(0).filter(in_state(status)) =~= Seq::empty()) by {
        reveal(Seq::filter);
    }
    while i < tasks.len()
        invariant
            i <= tasks.len(),
            views == task_views(tasks@),
            count <= i,
            count == views.take(i as int).filter(in_state(status)).len(),
        decreases tasks.len() - i,
    {
        proof {
            lemma_take_next(views, i as int);
            views.take(i as int).lemma_filter_push(views[i as int], in_state(status));
        }
        if tasks[i].status == status {
            count += 1;
        }
        i += 1;
    }
    assert(views.take(i as int) =~= views);
    count
}

/// The greatest task index among the tasks of job `job_id`, if it owns any.
pub fn find_last_task_index(tasks: &Vec<Task>, job_id: u128) -> (last: Option<i32>)
    ensures
        last == last_task_index(task_views(tasks@), job_id),
{
    let ghost views = task_views(tasks@);
    let mut last: Option<i32> = None;
    let mut i: usize = 0;
    while i < tasks.len()
        invariant
            i <= tasks.len(),
            views == task_views(tasks@),
            last == last_task_index(views.take(i as int), job_id),
        decreases tasks.len() - i,
    {
        assert(views.take(i + 1).drop_last() =~= views.take(i as int));
        if tasks[i].owner_job_id == job_id {
            last = match last {
                None => Some(tasks[i].task_index),
                Some(m) => Some(if tasks[i].task_index > m { tasks[i].task_index } else { m }),
            };
        }
        i += 1;
    }
    assert(views.take(i as int) =~= views);
    last
}

/// The position of the task to be admitted next, if any task is admissible.
pub fn find_next_admissible(tasks: &Vec<Task>) -> (next: Option<usize>)
    ensures
        match next {
            Some(i) => is_next_admissible(task_views(tasks@), i as int),
            None => forall|i: int| !is_next_admissible(task_views(tasks@), i),
        },
{
    let ghost views = task_views(tasks@);
    let mut best: Option<usize> = None;
    let mut k: usize = 0;
    while k < tasks.len()
        invariant
            k <= tasks.len(),
            views == task_views(tasks@),
            match best {
                Some(b) => {
                    &&& b < k
                    &&& views[b as int].admissible()
                    &&& forall|j: int|
                        0 <= j < k && (#[trigger] views[j]).admissible() ==> {
                            ||| views[b as int].created_at < views[j].created_at
                            ||| (views[b as int].created_at == views[j].created_at && b <= j)
                        }
                },
                None => forall|j: int| 0 <= j < k ==> !(#[trigger] views[j]).admissible(),
            },
        decreases tasks.len() - k,
    {
        if tasks[k].status == TaskStatus::Waiting && !tasks[k].pending_delete {
            assert(views[k as int].admissible());
            match best {
                Some(b) => {
                    if tasks[k].created_at < tasks[b].created_at {
                        best = Some(k);
                    }
                },
                None => {
                    best = Some(k);
                },
            }
        }
        k += 1;
    }
    proof {
        if best is None {
            assert forall|i: int| !is_next_admissible(views, i) by {
                if 0 <= i < views.len() {
                    assert(!views[i].admissible());
                }
            }
        }
    }
    best
}

/// The tasks that job `job_id` owns, in order.
pub fn tasks_owned_by(tasks: &Vec<Task>, job_id: u128) -> (owned: Vec<Task>)
    ensures
        task_views(owned@) == task_views(tasks@).filter(owned_by(job_id)),
{
    let ghost views = task_views(tasks@);
    let mut owned: Vec<Task> = Vec::new();
    let mut i: usize = 0;
    assert(views.take(0).filter(owned_by(job_id)) =~= Seq::empty()) by {
        reveal(Seq::filter);
    }
    assert(task_views(owned@) =~= Seq::empty());
    while i < tasks.len()
        invariant
            i <= tasks.len(),
            views == task_views(tasks@),
            task_views(owned@) == views.take(i as int).filter(owned_by(job_id)),
        decreases tasks.len() - i,
    {
        proof {
            lemma_take_next(views, i as int);
            views.take(i as int).lemma_filter_push(views[i as int], owned_by(job_id));
        }
        if tasks[i].owner_job_id == job_id {
            let ghost before = owned@;
            owned.push(tasks[i].clone());
            assert(task_views(owned@) =~= task_views(before).push(views[i as int]));
        }
        i += 1;
    }
    assert(views.take(i as int) =~= views);
    owned
}

/// A count as the statistics report it.
pub fn cap_count(n: usize) -> (count: i32)
    ensures
        count == capped(n as nat),
{
    if n > 0x7fff_ffff {
        0x7fff_ffff
    } else {
        n as i32
    }
}

/// The statistics of a task table.
pub fn stats_of(tasks: &Vec<Task>) -> (stats: TaskStats)
    ensures
        stats == task_stats(task_views(tasks@)),
{
    TaskStats {
        num_total: cap_count(tasks.len()),
        num_active: cap_count(count_in_state(tasks, TaskStatus::Processing)),
        num_cancelled: cap_count(count_in_state(tasks, TaskStatus::Cancelled)),
        num_waiting: cap_count(count_in_state(tasks, TaskStatus::Waiting)),
        num_done: cap_count(count_in_state(tasks, TaskStatus::Done)),
        num_failed: cap_count(count_in_state(tasks, TaskStatus::Failed)),
    }
}

/// The identifiers of the tasks whose cleanup is due, in order.
pub fn cleanup_due_ids(tasks: &Vec<Task>) -> (ids: Vec<u128>)
    ensures
        ids@ == task_ids(task_views(tasks@).filter(cleanup_due())),
{
    let ghost views = task_views(tasks@);
    let mut ids: Vec<u128> = Vec::new();
    let mut i: usize = 0;
    assert(views.take(0).filter(cleanup_due()) =~= Seq::empty()) by {
        reveal(Seq::filter);
    }
    assert(ids@ =~= task_ids(views.take(0).filter(cleanup_due())));
    while i < tasks.len()
        invariant
            i <= tasks.len(),
            views == task_views(tasks@),
            ids@ == task_ids(views.take(i as int).filter(cleanup_due())),
        decreases tasks.len() - i,
    {
        proof {
            lemma_take_next(views, i as int);
            views.take(i as int).lemma_filter_push(views[i as int], cleanup_due());
        }
        if tasks[i].status != TaskStatus::Processing && tasks[i].pending_cleanup {
            let ghost before = views.take(i as int).filter(cleanup_due());
            ids.push(tasks[i].task_id);
            assert(ids@ =~= task_ids(before.push(views[i as int])));
        }
        i += 1;
    }
    assert(views.take(i as int) =~= views);
    ids
}

/// The identifiers of the tasks whose deletion is due, in order.
pub fn delete_due_ids(tasks: &Vec<Task>) -> (ids: Vec<u128>)
    ensures
        ids@ == task_ids(task_views(tasks@).filter(delete_due())),
{
    let ghost views = task_views(tasks@);
    let mut ids: Vec<u128> = Vec::new();
    let mut i: usize = 0;
    assert(views.take(0).filter(delete_due()) =~= Seq::empty()) by {
        reveal(Seq::filter);
    }
    assert(ids@ =~= task_ids(views.take(0).filter(delete_due())));
    while i < tasks.len()
        invariant
            i <= tasks.len(),
            views == task_views(tasks@),
            ids@ == task_ids(views.take(i as int).filter(delete_due())),
        decreases tasks.len() - i,
    {
        proof {
            lemma_take_next(views, i as int);
            views.take(i as int).lemma_filter_push(views[i as int], delete_due());
        }
        if tasks[i].status != TaskStatus::Processing && tasks[i].pending_delete {
            let ghost before = views.take(i as int).filter(delete_due());
            ids.push(tasks[i].task_id);
            assert(ids@ =~= task_ids(before.push(views[i as int])));
        }
        i += 1;
    }
    assert(views.take(i as int) =~= views);
    ids
}

/// How many running tasks have cleanup or deletion pending, capped at
/// `u32::MAX`.
pub fn count_busy_pending(tasks: &Vec<Task>) -> (count: u32)
    ensures
        count == capped_u32(task_views(tasks@).filter(busy_pending()).len()),
{
    let ghost views = task_views(tasks@);
    let mut count: usize = 0;
    let mut i: usize = 0;
    assert(views.take(0).filter(busy_pending()) =~= Seq::empty()) by {
        reveal(Seq::filter);
    }
    while i < tasks.len()
        invariant
            i <= tasks.len(),
            views == task_views(tasks@),
            count <= i,
            count == views.take(i as int).filter(busy_pending()).len(),
        decreases tasks.len() - i,
    {
        proof {
            lemma_take_next(views, i as int);
            views.take(i as int).lemma_filter_push(views[i as int], busy_pending());
        }
        if tasks[i].status == TaskStatus::Processing && (tasks[i].pending_delete
            || tasks[i].pending_cleanup) {
            count += 1;
        }
        i += 1;
    }
    assert(views.take(i as int) =~= views);
    if count > 0xffff_ffff {
        0xffff_ffff
    } else {
        count as u32
    }
}

/// Whether no two tasks of the table share an identifier.
pub fn has_distinct_task_ids(tasks: &Vec<Task>) -> (distinct: bool)
    ensures
        distinct == distinct_task_ids(task_views(tasks@)),
{
    let ghost views = task_views(tasks@);
    let mut j: usize = 0;
    while j < tasks.len()
        invariant
            j <= tasks.len(),
            views == task_views(tasks@),
            forall|a: int, b: int|
                0 <= a < b < j ==> (#[trigger] views[a]).task_id != (#[trigger] views[b]).task_id,
        decreases tasks.len() - j,
    {
        let mut i: usize = 0;
        while i < j
            invariant
                i <= j < tasks.len(),
                views == task_views(tasks@),
                forall|a: int| 0 <= a < i ==> (#[trigger] views[a]).task_id != views[j as int].task_id,
            decreases j - i,
        {
            if tasks[i].task_id == tasks[j].task_id {
                assert(views[i as int].task_id == views[j as int].task_id);
                return false;
            }
            i += 1;
        }
        j += 1;
    }
    true
}

/// Whether every task of the table is owned by a job of the job table.
pub fn has_owners(tasks: &Vec<Task>, jobs: &Vec<JobFetch>) -> (owned: bool)
    ensures
        owned == owners_exist(task_views(tasks@), job_fetch_views(jobs@)),
{
    let ghost views = task_views(tasks@);
    let ghost rows = job_fetch_views(jobs@);
    let mut i: usize = 0;
    while i < tasks.len()
        invariant
            i <= tasks.len(),
            views == task_views(tasks@),
            rows == job_fetch_views(jobs@),
            forall|k: int| 0 <= k < i ==> job_exists(rows, (#[trigger] views[k]).owner_job_id),
        decreases tasks.len() - i,
    {
        if !holds_job_id(jobs, tasks[i].owner_job_id) {
            assert(!job_exists(rows, views[i as int].owner_job_id));
            return false;
        }
        i += 1;
    }
    true
}

/// Whether no two jobs of the table share an identifier.
pub fn has_distinct_job_ids(jobs: &Vec<JobFetch>) -> (distinct: bool)
    ensures
        distinct == distinct_job_ids(job_fetch_views(jobs@)),
{
    let ghost views = job_fetch_views(jobs@);
    let mut j: usize = 0;
    while j < jobs.len()
        invariant
            j <= jobs.len(),
            views == job_fetch_views(jobs@),
            forall|a: int, b: int|
                0 <= a < b < j ==> (#[trigger] views[a]).job_id != (#[trigger] views[b]).job_id,
        decreases jobs.len() - j,
    {
        let mut i: usize = 0;
        while i < j
            invariant
                i <= j < jobs.len(),
                views == job_fetch_views(jobs@),
                forall|a: int| 0 <= a < i ==> (#[trigger] views[a]).job_id != views[j as int].job_id,
            decreases j - i,
        {
            if jobs[i].job_id == jobs[j].job_id {
                assert(views[i as int].job_id == views[j as int].job_id);
                return false;
            }
            i += 1;
        }
        j += 1;
    }
    true
}

} // verus!
