//! What holds of the store's operations taken together.

use vstd::prelude::*;
use crate::job::JobFetchView;
use crate::task::TaskView;
use crate::job::job_status;
use crate::queue_command::QueueCommandView;
use crate::task::TaskStatus;
use super::model::{
    admissible,
    admission,
    cleanup_due,
    delete_due,
    distinct_job_ids,
    distinct_task_ids,
    job_exists,
    last_task_index,
    owners_exist,
    in_state,
    is_next_admissible,
    job_owns_task,
    not_among,
    owns_one_of,
    task_ids,
    task_stats,
    Admission,
    StoreEvent,
    StoreView,
};

verus! {

/// Dropping rows from a task table leaves the remaining identifiers distinct.
pub proof fn lemma_filter_keeps_distinct_tasks(tasks: Seq<TaskView>, pred: spec_fn(TaskView) -> bool)
    requires
        distinct_task_ids(tasks),
    ensures
        distinct_task_ids(tasks.filter(pred)),
    decreases tasks.len(),
{
    reveal(Seq::filter);
    if tasks.len() > 0 {
        let front = tasks.drop_last();
        assert forall|i: int, j: int| 0 <= i < j < front.len() implies (#[trigger] front[i]).task_id
            != (#[trigger] front[j]).task_id by {
            assert(tasks[i].task_id != tasks[j].task_id);
        }
        lemma_filter_keeps_distinct_tasks(front, pred);
        let kept = front.filter(pred);
        if pred(tasks.last()) {
            let r = tasks.filter(pred);
            assert(r == kept.push(tasks.last()));
            assert forall|i: int, j: int| 0 <= i < j < r.len() implies (#[trigger] r[i]).task_id != (
            #[trigger] r[j]).task_id by {
                if j == kept.len() {
                    front.lemma_filter_contains_rev(pred, kept[i]);
                    let w = choose|w: int| 0 <= w < front.len() && front[w] == kept[i];
                    assert(tasks[w].task_id != tasks[tasks.len() - 1].task_id);
                } else {
                    assert(kept[i].task_id != kept[j].task_id);
                }
            }
        }
    }
}

/// Dropping rows from a job table leaves the remaining identifiers distinct.
pub proof fn lemma_filter_keeps_distinct_jobs(
    jobs: Seq<JobFetchView>,
    pred: spec_fn(JobFetchView) -> bool,
)
    requires
        distinct_job_ids(jobs),
    ensures
        distinct_job_ids(jobs.filter(pred)),
    decreases jobs.len(),
{
    reveal(Seq::filter);
    if jobs.len() > 0 {
        let front = jobs.drop_last();
        assert forall|i: int, j: int| 0 <= i < j < front.len() implies (#[trigger] front[i]).job_id
            != (#[trigger] front[j]).job_id by {
            assert(jobs[i].job_id != jobs[j].job_id);
        }
        lemma_filter_keeps_distinct_jobs(front, pred);
        let kept = front.filter(pred);
        if pred(jobs.last()) {
            let r = jobs.filter(pred);
            assert(r == kept.push(jobs.last()));
            assert forall|i: int, j: int| 0 <= i < j < r.len() implies (#[trigger] r[i]).job_id != (
            #[trigger] r[j]).job_id by {
                if j == kept.len() {
                    front.lemma_filter_contains_rev(pred, kept[i]);
                    let w = choose|w: int| 0 <= w < front.len() && front[w] == kept[i];
                    assert(jobs[w].job_id != jobs[jobs.len() - 1].job_id);
                } else {
                    assert(kept[i].job_id != kept[j].job_id);
                }
            }
        }
    }
}

/// A job that has a greatest task index owns a task.
pub proof fn lemma_indexed_job_owns_task(tasks: Seq<TaskView>, job_id: u128)
    requires
        last_task_index(tasks, job_id) is Some,
    ensures
        job_owns_task(tasks, job_id),
    decreases tasks.len(),
{
    if tasks.len() > 0 {
        if tasks.last().owner_job_id != job_id {
            lemma_indexed_job_owns_task(tasks.drop_last(), job_id);
            let w = choose|w: int|
                0 <= w < tasks.drop_last().len() && (#[trigger] tasks.drop_last()[w]).owner_job_id
                    == job_id;
            assert(tasks[w].owner_job_id == job_id);
        } else {
            assert(tasks[tasks.len() - 1].owner_job_id == job_id);
        }
    }
}

/// Deleting tasks, and with them the jobs that are left without one, keeps a
/// store well formed.
pub proof fn lemma_deletion_keeps_well_formed(store: StoreView, ids: Seq<u128>)
    requires
        store.wf(),
    ensures
        store.after_deletion(ids).wf(),
{
    let after = store.after_deletion(ids);
    lemma_filter_keeps_distinct_tasks(store.tasks, not_among(ids));
    lemma_filter_keeps_distinct_jobs(store.jobs, owns_one_of(after.tasks));
    assert forall|i: int| 0 <= i < after.tasks.len() implies job_exists(
        after.jobs,
        (#[trigger] after.tasks[i]).owner_job_id,
    ) by {
        let task = after.tasks[i];
        store.tasks.lemma_filter_contains_rev(not_among(ids), task);
        let w = choose|w: int| 0 <= w < store.tasks.len() && store.tasks[w] == task;
        assert(job_exists(store.jobs, store.tasks[w].owner_job_id));
        let j = choose|j: int|
            0 <= j < store.jobs.len() && (#[trigger] store.jobs[j]).job_id == task.owner_job_id;
        assert(job_owns_task(after.tasks, store.jobs[j].job_id));
        store.jobs.lemma_filter_contains(owns_one_of(after.tasks), j);
        let v = choose|v: int| 0 <= v < after.jobs.len() && after.jobs[v] == store.jobs[j];
        assert(after.jobs[v].job_id == task.owner_job_id);
    }
}

/// Appending rows for a job that owns a task, to a table whose identifiers stay
/// distinct, keeps a store well formed, whatever becomes of the job's header.
pub proof fn lemma_job_update_keeps_well_formed(
    before: StoreView,
    after: StoreView,
    job_id: u128,
    rows: Seq<TaskView>,
)
    requires
        before.wf(),
        last_task_index(before.tasks, job_id) is Some,
        after.tasks == before.tasks + rows,
        distinct_task_ids(after.tasks),
        forall|k: int| 0 <= k < rows.len() ==> (#[trigger] rows[k]).owner_job_id == job_id,
        after.jobs.len() == before.jobs.len(),
        forall|k: int| 0 <= k < before.jobs.len() ==> (#[trigger] after.jobs[k]).job_id == before.jobs[k].job_id,
    ensures
        after.wf(),
{
    lemma_indexed_job_owns_task(before.tasks, job_id);
    let owned = choose|w: int|
        0 <= w < before.tasks.len() && (#[trigger] before.tasks[w]).owner_job_id == job_id;
    assert(job_exists(before.jobs, before.tasks[owned].owner_job_id));
    assert forall|i: int, j: int| 0 <= i < j < after.jobs.len() implies (#[trigger] after.jobs[i]).job_id
        != (#[trigger] after.jobs[j]).job_id by {
        assert(before.jobs[i].job_id != before.jobs[j].job_id);
    }
    assert forall|i: int| 0 <= i < after.tasks.len() implies job_exists(
        after.jobs,
        (#[trigger] after.tasks[i]).owner_job_id,
    ) by {
        let owner = after.tasks[i].owner_job_id;
        if i < before.tasks.len() {
            assert(job_exists(before.jobs, before.tasks[i].owner_job_id));
        } else {
            assert(after.tasks[i] == rows[i - before.tasks.len()]);
        }
        let w = choose|w: int| 0 <= w < before.jobs.len() && (#[trigger] before.jobs[w]).job_id == owner;
        assert(after.jobs[w].job_id == owner);
    }
}

/// Adding a job with a new identifier, and a task of that job with a new
/// identifier, keeps a store well formed.
pub proof fn lemma_job_creation_keeps_well_formed(before: StoreView, after: StoreView)
    requires
        before.wf(),
        after.jobs.len() == before.jobs.len() + 1,
        after.jobs.drop_last() == before.jobs,
        after.tasks.len() == before.tasks.len() + 1,
        after.tasks.drop_last() == before.tasks,
        !before.has_job(after.jobs.last().job_id),
        !before.has_task(after.tasks.last().task_id),
        after.tasks.last().owner_job_id == after.jobs.last().job_id,
    ensures
        after.wf(),
{
    assert(forall|k: int| 0 <= k < before.jobs.len() ==> after.jobs[k] == before.jobs[k]) by {
        assert(forall|k: int| 0 <= k < before.jobs.len() ==> after.jobs.drop_last()[k] == after.jobs[k]);
    }
    assert(forall|k: int| 0 <= k < before.tasks.len() ==> after.tasks[k] == before.tasks[k]) by {
        assert(forall|k: int|
            0 <= k < before.tasks.len() ==> after.tasks.drop_last()[k] == after.tasks[k]);
    }
    assert forall|i: int, j: int| 0 <= i < j < after.tasks.len() implies (#[trigger] after.tasks[i]).task_id
        != (#[trigger] after.tasks[j]).task_id by {
        if j < before.tasks.len() {
            assert(before.tasks[i].task_id != before.tasks[j].task_id);
        } else {
            assert(before.tasks[i].task_id != after.tasks.last().task_id);
        }
    }
    assert forall|i: int, j: int| 0 <= i < j < after.jobs.len() implies (#[trigger] after.jobs[i]).job_id
        != (#[trigger] after.jobs[j]).job_id by {
        if j < before.jobs.len() {
            assert(before.jobs[i].job_id != before.jobs[j].job_id);
        } else {
            assert(before.jobs[i].job_id != after.jobs.last().job_id);
        }
    }
    assert forall|i: int| 0 <= i < after.tasks.len() implies job_exists(
        after.jobs,
        (#[trigger] after.tasks[i]).owner_job_id,
    ) by {
        if i < before.tasks.len() {
            assert(job_exists(before.jobs, before.tasks[i].owner_job_id));
            let w = choose|w: int|
                0 <= w < before.jobs.len() && (#[trigger] before.jobs[w]).job_id
                    == before.tasks[i].owner_job_id;
            assert(after.jobs[w].job_id == after.tasks[i].owner_job_id);
        } else {
            assert(after.jobs[after.jobs.len() - 1].job_id == after.tasks[i].owner_job_id);
        }
    }
}

/// Appending a row whose identifier is not in the table keeps the identifiers
/// distinct.
pub proof fn lemma_fresh_id_keeps_distinct(tasks: Seq<TaskView>, row: TaskView)
    requires
        distinct_task_ids(tasks),
        forall|i: int| 0 <= i < tasks.len() ==> (#[trigger] tasks[i]).task_id != row.task_id,
    ensures
        distinct_task_ids(tasks.push(row)),
{
    let r = tasks.push(row);
    assert forall|i: int, j: int| 0 <= i < j < r.len() implies (#[trigger] r[i]).task_id != (
    #[trigger] r[j]).task_id by {
        if j < tasks.len() {
            assert(tasks[i].task_id != tasks[j].task_id);
        } else {
            assert(tasks[i].task_id != row.task_id);
        }
    }
}

/// If the identifier of `rows[k]` occurs in the table or among the rows before
/// it, the table with all the rows appended has a repeated identifier.
pub proof fn lemma_taken_id_breaks_distinct(tasks: Seq<TaskView>, rows: Seq<TaskView>, k: int)
    requires
        0 <= k < rows.len(),
        exists|i: int|
            0 <= i < (tasks + rows.take(k)).len() && (#[trigger] (tasks + rows.take(k))[i]).task_id
                == rows[k].task_id,
    ensures
        !distinct_task_ids(tasks + rows),
{
    let all = tasks + rows;
    let i = choose|i: int|
        0 <= i < (tasks + rows.take(k)).len() && (#[trigger] (tasks + rows.take(k))[i]).task_id
            == rows[k].task_id;
    assert(all[i] == (tasks + rows.take(k))[i]);
    assert(all[tasks.len() + k] == rows[k]);
    assert(all[i].task_id == all[tasks.len() + k].task_id);
}

/// What a state command does when it is sent to the jobs `job_ids` in turn: no
/// job refuses it, and every task of one of these jobs is changed as the
/// command says, once.
pub proof fn lemma_command_on_jobs(
    store: StoreView,
    job_ids: Seq<u128>,
    command: QueueCommandView,
    now: i64,
)
    requires
        !(command is JobUpdated),
    ensures
        store.after_command_on_jobs(job_ids, command, now).error is None,
        store.after_command_on_jobs(job_ids, command, now).store == (StoreView {
            tasks: store.tasks.map_values(
                |t: TaskView|
                    if job_ids.contains(t.owner_job_id) {
                        t.after_job_command(command, now)
                    } else {
                        t
                    },
            ),
            ..store
        }),
    decreases job_ids.len(),
{
    let after = store.after_command_on_jobs(job_ids, command, now);
    let expected = store.tasks.map_values(
        |t: TaskView|
            if job_ids.contains(t.owner_job_id) {
                t.after_job_command(command, now)
            } else {
                t
            },
    );
    if job_ids.len() == 0 {
        assert(after.store.tasks =~= expected);
    } else {
        let front = job_ids.drop_last();
        lemma_command_on_jobs(store, front, command, now);
        let before = store.after_command_on_jobs(front, command, now);
        assert(after.store == before.store.after_job_state_command(job_ids.last(), command, now));
        assert forall|i: int| 0 <= i < store.tasks.len() implies after.store.tasks[i]
            == expected[i] by {
            let t = store.tasks[i];
            assert(job_ids[job_ids.len() - 1] == job_ids.last());
            if front.contains(t.owner_job_id) {
                let w = choose|w: int| 0 <= w < front.len() && front[w] == t.owner_job_id;
                assert(job_ids[w] == t.owner_job_id);
            }
            if job_ids.contains(t.owner_job_id) {
                let w = choose|w: int| 0 <= w < job_ids.len() && job_ids[w] == t.owner_job_id;
                if w < front.len() {
                    assert(front[w] == t.owner_job_id);
                }
            }
        }
        assert(after.store.tasks =~= expected);
    }
}

/// A state command for all jobs is refused by none, and changes every task
/// whose job the store holds as the command says.
pub proof fn law_command_on_all_jobs(store: StoreView, command: QueueCommandView, now: i64)
    requires
        !(command is JobUpdated),
    ensures
        store.after_command_on_all_jobs(command, now).error is None,
        store.after_command_on_all_jobs(command, now).store == (StoreView {
            tasks: store.tasks.map_values(
                |t: TaskView|
                    if store.has_job(t.owner_job_id) {
                        t.after_job_command(command, now)
                    } else {
                        t
                    },
            ),
            ..store
        }),
{
    broadcast use vstd::seq_lib::group_to_multiset_ensures;

    let ids = store.job_ids_newest_first();
    let sorted = super::order::sort_by_key(store.jobs, super::order::newest_first());
    super::order::lemma_sort_by_key_sorts(store.jobs, super::order::newest_first());
    lemma_command_on_jobs(store, ids, command, now);
    let after = store.after_command_on_all_jobs(command, now);
    let expected = store.tasks.map_values(
        |t: TaskView|
            if store.has_job(t.owner_job_id) {
                t.after_job_command(command, now)
            } else {
                t
            },
    );
    assert forall|id: u128| ids.contains(id) == store.has_job(id) by {
        if ids.contains(id) {
            let w = choose|w: int| 0 <= w < ids.len() && ids[w] == id;
            assert(sorted.contains(sorted[w]));
            assert(store.jobs.to_multiset().count(sorted[w]) > 0);
            assert(store.jobs.contains(sorted[w]));
            let v = choose|v: int| 0 <= v < store.jobs.len() && store.jobs[v] == sorted[w];
            assert(store.jobs[v].job_id == id);
        }
        if store.has_job(id) {
            let v = choose|v: int| 0 <= v < store.jobs.len() && (#[trigger] store.jobs[v]).job_id == id;
            assert(store.jobs.contains(store.jobs[v]));
            assert(sorted.to_multiset().count(store.jobs[v]) > 0);
            assert(sorted.contains(store.jobs[v]));
            let w = choose|w: int| 0 <= w < sorted.len() && sorted[w] == store.jobs[v];
            assert(ids[w] == id);
        }
    }
    assert(after.store.tasks =~= expected);
}

/// Every task has exactly one owning job.
pub proof fn law_one_owning_job(store: StoreView, i: int, a: int, b: int)
    requires
        store.wf(),
        0 <= i < store.tasks.len(),
    ensures
        store.has_job(store.tasks[i].owner_job_id),
        0 <= a < store.jobs.len() && 0 <= b < store.jobs.len() && store.jobs[a].job_id
            == store.tasks[i].owner_job_id && store.jobs[b].job_id == store.tasks[i].owner_job_id
            ==> a == b,
{
    assert(job_exists(store.jobs, store.tasks[i].owner_job_id));
    if 0 <= a < b < store.jobs.len() {
        assert(store.jobs[a].job_id != store.jobs[b].job_id);
    }
    if 0 <= b < a < store.jobs.len() {
        assert(store.jobs[b].job_id != store.jobs[a].job_id);
    }
}

/// A job whose last task is deleted is deleted with it, and no other job is.
pub proof fn law_job_goes_with_its_last_task(store: StoreView, ids: Seq<u128>, j: int)
    requires
        0 <= j < store.jobs.len(),
    ensures
        store.after_deletion(ids).jobs.contains(store.jobs[j]) <==> job_owns_task(
            store.after_deletion(ids).tasks,
            store.jobs[j].job_id,
        ),
{
    let after = store.after_deletion(ids);
    let keeps = owns_one_of(after.tasks);
    if keeps(store.jobs[j]) {
        store.jobs.lemma_filter_contains(keeps, j);
    }
    if after.jobs.contains(store.jobs[j]) {
        let v = choose|v: int| 0 <= v < after.jobs.len() && after.jobs[v] == store.jobs[j];
        store.jobs.lemma_filter_pred(keeps, v);
    }
}

/// Pausing a waiting task and then resuming it leaves the task as it was, but
/// for the mark that it was resumed.
pub proof fn law_pause_then_resume(task: TaskView)
    requires
        task.status == TaskStatus::Waiting,
    ensures
        task.paused().resumed() == (TaskView { is_resumed: true, ..task }),
{
}

/// In a store, `Pause` and then `Resume` on a waiting task changes nothing but
/// that task's mark that it was resumed.
pub proof fn law_pause_then_resume_in_store(
    store: StoreView,
    i: int,
    paused_at: i64,
    resumed_at: i64,
)
    requires
        store.wf(),
        0 <= i < store.tasks.len(),
        store.tasks[i].status == TaskStatus::Waiting,
    ensures
        store.after_task_command(
            store.tasks[i].task_id,
            QueueCommandView::Pause,
            paused_at,
        ).after_task_command(store.tasks[i].task_id, QueueCommandView::Resume, resumed_at) == (
        StoreView {
            tasks: store.tasks.update(i, TaskView { is_resumed: true, ..store.tasks[i] }),
            ..store
        }),
{
    let id = store.tasks[i].task_id;
    let after = store.after_task_command(id, QueueCommandView::Pause, paused_at).after_task_command(
        id,
        QueueCommandView::Resume,
        resumed_at,
    );
    let expected = store.tasks.update(i, TaskView { is_resumed: true, ..store.tasks[i] });
    assert forall|k: int| 0 <= k < store.tasks.len() implies after.tasks[k] == expected[k] by {
        if k != i {
            if k < i {
                assert(store.tasks[k].task_id != store.tasks[i].task_id);
            } else {
                assert(store.tasks[i].task_id != store.tasks[k].task_id);
            }
        }
    }
    assert(after.tasks =~= expected);
}

/// `Cancel` and then `Retry` on a failed or cancelled task returns it to
/// `Waiting` and changes nothing else about it. (A task that is `Done` stays
/// `Done`: neither command applies to it.)
pub proof fn law_cancel_then_retry(task: TaskView, now: i64)
    requires
        task.status.spec_is_terminal(),
        task.status != TaskStatus::Done,
    ensures
        task.cancelled(now).retried() == (TaskView { status: TaskStatus::Waiting, ..task }),
{
}

/// In a store, `Cancel` and then `Retry` on a failed or cancelled task leaves
/// that task `Waiting`.
pub proof fn law_cancel_then_retry_in_store(
    store: StoreView,
    i: int,
    cancelled_at: i64,
    retried_at: i64,
)
    requires
        0 <= i < store.tasks.len(),
        store.tasks[i].status.spec_is_terminal(),
        store.tasks[i].status != TaskStatus::Done,
    ensures
        store.after_task_command(
            store.tasks[i].task_id,
            QueueCommandView::Cancel,
            cancelled_at,
        ).after_task_command(store.tasks[i].task_id, QueueCommandView::Retry, retried_at).tasks[i]
            == (TaskView { status: TaskStatus::Waiting, ..store.tasks[i] }),
{
}

/// A second `Pause` on the same task changes nothing, whenever it arrives.
pub proof fn law_pause_is_idempotent(store: StoreView, task_id: u128, first: i64, second: i64)
    ensures
        store.after_task_command(task_id, QueueCommandView::Pause, first).after_task_command(
            task_id,
            QueueCommandView::Pause,
            second,
        ) == store.after_task_command(task_id, QueueCommandView::Pause, first),
{
    let once = store.after_task_command(task_id, QueueCommandView::Pause, first);
    let twice = once.after_task_command(task_id, QueueCommandView::Pause, second);
    assert(twice.tasks =~= once.tasks);
}

/// A second `Pause` on the same job changes nothing either.
pub proof fn law_job_pause_is_idempotent(store: StoreView, job_id: u128, first: i64, second: i64)
    ensures
        store.after_job_state_command(job_id, QueueCommandView::Pause, first).after_job_state_command(
            job_id,
            QueueCommandView::Pause,
            second,
        ) == store.after_job_state_command(job_id, QueueCommandView::Pause, first),
{
    let once = store.after_job_state_command(job_id, QueueCommandView::Pause, first);
    let twice = once.after_job_state_command(job_id, QueueCommandView::Pause, second);
    assert(twice.tasks =~= once.tasks);
}

/// Whether `snapshot` is a row of `tasks` that was admissible and that stands
/// admitted at `now` in `after`.
pub open spec fn was_admitted(
    tasks: Seq<TaskView>,
    after: Seq<TaskView>,
    snapshot: TaskView,
    now: i64,
) -> bool {
    exists|i: int|
        0 <= i < tasks.len() && (#[trigger] tasks[i]) == snapshot && tasks[i].admissible()
            && after[i] == tasks[i].admitted(now)
}

/// What an admission does to the table, row by row, and in which order it picks
/// the rows.
///
/// Every row is left alone or, if it was admissible, admitted. Every admitted
/// task stood in the table, admissible. The admitted tasks come in the order of
/// their creation, and no task that is still admissible afterwards was created
/// before any of them: the admitted tasks are a prefix of the queue.
pub proof fn law_admission_is_fifo(tasks: Seq<TaskView>, n: nat, now: i64)
    ensures
        admission(tasks, n, now).tasks.len() == tasks.len(),
        admission(tasks, n, now).admitted.len() <= n,
        forall|i: int|
            0 <= i < tasks.len() ==> {
                ||| (#[trigger] admission(tasks, n, now).tasks[i]) == tasks[i]
                ||| (tasks[i].admissible() && admission(tasks, n, now).tasks[i]
                    == tasks[i].admitted(now))
            },
        forall|a: int|
            0 <= a < admission(tasks, n, now).admitted.len() ==> was_admitted(
                tasks,
                admission(tasks, n, now).tasks,
                #[trigger] admission(tasks, n, now).admitted[a],
                now,
            ),
        forall|a: int, b: int|
            0 <= a < b < admission(tasks, n, now).admitted.len() ==> (#[trigger] admission(
                tasks,
                n,
                now,
            ).admitted[a]).created_at <= (#[trigger] admission(tasks, n, now).admitted[b]).created_at,
        forall|a: int, j: int|
            0 <= a < admission(tasks, n, now).admitted.len() && 0 <= j < tasks.len() && (
            #[trigger] admission(tasks, n, now).tasks[j]).admissible() ==> (#[trigger] admission(
                tasks,
                n,
                now,
            ).admitted[a]).created_at <= tasks[j].created_at,
    decreases n,
{
    if n > 0 {
        let before = admission(tasks, (n - 1) as nat, now);
        let after = admission(tasks, n, now);
        law_admission_is_fifo(tasks, (n - 1) as nat, now);
        if exists|i: int| is_next_admissible(before.tasks, i) {
            let i = choose|i: int| is_next_admissible(before.tasks, i);
            let picked = before.tasks[i];
            assert(after.tasks == before.tasks.update(i, picked.admitted(now)));
            assert(after.admitted == before.admitted.push(picked));
            // an admissible row was never touched
            assert(before.tasks[i] == tasks[i]);
            assert forall|k: int| 0 <= k < tasks.len() implies {
                ||| (#[trigger] after.tasks[k]) == tasks[k]
                ||| (tasks[k].admissible() && after.tasks[k] == tasks[k].admitted(now))
            } by {
                if k != i {
                    assert(after.tasks[k] == before.tasks[k]);
                }
            }
            assert forall|a: int| 0 <= a < after.admitted.len() implies was_admitted(
                tasks,
                after.tasks,
                #[trigger] after.admitted[a],
                now,
            ) by {
                if a < before.admitted.len() {
                    assert(was_admitted(tasks, before.tasks, before.admitted[a], now));
                    let w = choose|w: int|
                        0 <= w < tasks.len() && (#[trigger] tasks[w]) == before.admitted[a]
                            && tasks[w].admissible() && before.tasks[w] == tasks[w].admitted(now);
                    assert(w != i);
                    assert(after.tasks[w] == before.tasks[w]);
                    assert(tasks[w] == after.admitted[a]);
                } else {
                    assert(tasks[i] == after.admitted[a]);
                }
            }
            assert forall|a: int, b: int| 0 <= a < b < after.admitted.len() implies (
            #[trigger] after.admitted[a]).created_at <= (#[trigger] after.admitted[b]).created_at by {
                if b < before.admitted.len() {
                    assert(before.admitted[a].created_at <= before.admitted[b].created_at);
                } else {
                    assert(before.tasks[i].admissible());
                    assert(before.admitted[a].created_at <= tasks[i].created_at);
                }
            }
            assert forall|a: int, j: int|
                0 <= a < after.admitted.len() && 0 <= j < tasks.len() && (
                #[trigger] after.tasks[j]).admissible() implies (
            #[trigger] after.admitted[a]).created_at <= tasks[j].created_at by {
                assert(j != i);
                assert(after.tasks[j] == before.tasks[j]);
                assert(before.tasks[j].admissible());
                assert(before.tasks[j] == tasks[j]);
                if a < before.admitted.len() {
                    assert(before.admitted[a].created_at <= tasks[j].created_at);
                }
            }
        }
    }
}

/// Where a task is admissible, one is the next to be admitted.
pub proof fn lemma_next_admissible_exists(tasks: Seq<TaskView>)
    requires
        exists|i: int| 0 <= i < tasks.len() && (#[trigger] tasks[i]).admissible(),
    ensures
        exists|i: int| is_next_admissible(tasks, i),
    decreases tasks.len(),
{
    let last = tasks.len() - 1;
    let front = tasks.drop_last();
    assert(forall|k: int| 0 <= k < front.len() ==> front[k] == tasks[k]);
    if exists|i: int| 0 <= i < front.len() && (#[trigger] front[i]).admissible() {
        lemma_next_admissible_exists(front);
        let b = choose|b: int| is_next_admissible(front, b);
        if tasks[last].admissible() && tasks[last].created_at < tasks[b].created_at {
            assert forall|j: int|
                0 <= j < tasks.len() && (#[trigger] tasks[j]).admissible() implies {
                ||| tasks[last].created_at < tasks[j].created_at
                ||| (tasks[last].created_at == tasks[j].created_at && last <= j)
            } by {
                if j < last {
                    assert(front[j].admissible());
                }
            }
            assert(is_next_admissible(tasks, last));
        } else {
            assert forall|j: int|
                0 <= j < tasks.len() && (#[trigger] tasks[j]).admissible() implies {
                ||| tasks[b].created_at < tasks[j].created_at
                ||| (tasks[b].created_at == tasks[j].created_at && b <= j)
            } by {
                if j < last {
                    assert(front[j].admissible());
                }
            }
            assert(is_next_admissible(tasks, b));
        }
    } else {
        let w = choose|i: int| 0 <= i < tasks.len() && (#[trigger] tasks[i]).admissible();
        if w < last {
            assert(front[w].admissible());
        }
        assert forall|j: int|
            0 <= j < tasks.len() && (#[trigger] tasks[j]).admissible() implies {
            ||| tasks[last].created_at < tasks[j].created_at
            ||| (tasks[last].created_at == tasks[j].created_at && last <= j)
        } by {
            if j < last {
                assert(front[j].admissible());
            }
        }
        assert(is_next_admissible(tasks, last));
    }
}

/// Admitting one admissible task leaves one admissible task less.
pub proof fn lemma_admitting_takes_one(tasks: Seq<TaskView>, i: int, now: i64)
    requires
        0 <= i < tasks.len(),
        tasks[i].admissible(),
    ensures
        tasks.update(i, tasks[i].admitted(now)).filter(admissible()).len() + 1 == tasks.filter(
            admissible(),
        ).len(),
{
    broadcast use Seq::filter_distributes_over_add;

    let before = tasks.take(i);
    let behind = tasks.skip(i + 1);
    let after = tasks.update(i, tasks[i].admitted(now));
    assert(tasks =~= before + seq![tasks[i]] + behind);
    assert(after =~= before + seq![tasks[i].admitted(now)] + behind);
    reveal_with_fuel(Seq::filter, 2);
    assert(seq![tasks[i]].drop_last() =~= Seq::<TaskView>::empty());
    assert(seq![tasks[i].admitted(now)].drop_last() =~= Seq::<TaskView>::empty());
    assert(seq![tasks[i]].filter(admissible()) =~= seq![tasks[i]]);
    assert(seq![tasks[i].admitted(now)].filter(admissible()) =~= Seq::<TaskView>::empty());
    assert((before + seq![tasks[i]] + behind).filter(admissible()) == before.filter(
        admissible(),
    ) + seq![tasks[i]].filter(admissible()) + behind.filter(admissible()));
    assert((before + seq![tasks[i].admitted(now)] + behind).filter(admissible())
        == before.filter(admissible()) + seq![tasks[i].admitted(now)].filter(admissible())
        + behind.filter(admissible()));
}

/// An admission takes as many tasks as were asked for, or all that are
/// admissible if they are fewer; those that it does not take stay admissible.
pub proof fn law_admission_fills_the_places(tasks: Seq<TaskView>, n: nat, now: i64)
    ensures
        admission(tasks, n, now).admitted.len() + admission(tasks, n, now).tasks.filter(
            admissible(),
        ).len() == tasks.filter(admissible()).len(),
        admission(tasks, n, now).admitted.len() == if n <= tasks.filter(admissible()).len() {
            n
        } else {
            tasks.filter(admissible()).len()
        },
    decreases n,
{
    if n > 0 {
        let before = admission(tasks, (n - 1) as nat, now);
        law_admission_fills_the_places(tasks, (n - 1) as nat, now);
        if exists|i: int| is_next_admissible(before.tasks, i) {
            let i = choose|i: int| is_next_admissible(before.tasks, i);
            lemma_admitting_takes_one(before.tasks, i, now);
        } else {
            let left = before.tasks.filter(admissible());
            if left.len() > 0 {
                before.tasks.lemma_filter_contains_rev(admissible(), left[0]);
                before.tasks.lemma_filter_pred(admissible(), 0);
                let w = choose|w: int| 0 <= w < before.tasks.len() && before.tasks[w] == left[0];
                assert(before.tasks[w].admissible());
                lemma_next_admissible_exists(before.tasks);
            }
        }
    } else {
        assert(admission(tasks, 0, now).tasks == tasks);
    }
}

/// Whether a task's times fit its state: a running task has a start time, and
/// a task that has ended has an end time.
pub open spec fn times_consistent(task: TaskView) -> bool {
    &&& task.status == TaskStatus::Processing ==> task.started_at is Some
    &&& task.status.spec_is_terminal() ==> task.finished_at is Some
}

/// Whether the times of every task of the table fit its state.
pub open spec fn all_times_consistent(tasks: Seq<TaskView>) -> bool {
    forall|i: int| 0 <= i < tasks.len() ==> times_consistent(#[trigger] tasks[i])
}

/// Whether `event`, applied to `store`, leaves the times of every task fitting
/// its state. A report that a task runs needs a task that has a start time;
/// startup reconciliation needs waiting tasks that have one; and new tasks
/// must not be stored as running, nor as ended without an end time.
pub open spec fn event_keeps_times(store: StoreView, event: StoreEvent) -> bool {
    match event {
        StoreEvent::TaskCommand { task_id, command, now } => match command {
            QueueCommandView::TaskStatusChange(status) => status == TaskStatus::Processing
                ==> forall|i: int|
                0 <= i < store.tasks.len() && (#[trigger] store.tasks[i]).task_id == task_id
                    ==> store.tasks[i].started_at is Some,
            _ => true,
        },
        StoreEvent::JobCommand { job_id, command, now } => match command {
            QueueCommandView::JobUpdated { job_title, job_thumbnail, new_tasks } => forall|k: int|
                0 <= k < new_tasks.len() ==> {
                    &&& (#[trigger] new_tasks[k]).status != TaskStatus::Processing
                    &&& times_consistent(new_tasks[k])
                },
            _ => true,
        },
        StoreEvent::Reset => forall|i: int|
            0 <= i < store.tasks.len() && (#[trigger] store.tasks[i]).status == TaskStatus::Waiting
                ==> store.tasks[i].started_at is Some,
        _ => true,
    }
}

/// Whether each event of the run, applied in its turn, leaves the times of
/// every task fitting its state.
pub open spec fn events_keep_times(store: StoreView, events: Seq<StoreEvent>) -> bool
    decreases events.len(),
{
    events.len() > 0 ==> {
        &&& events_keep_times(store, events.drop_last())
        &&& event_keeps_times(store.after_events(events.drop_last()), events.last())
    }
}

/// One event that leaves the times fitting keeps them fitting.
pub proof fn lemma_event_keeps_times(store: StoreView, event: StoreEvent)
    requires
        all_times_consistent(store.tasks),
        event_keeps_times(store, event),
    ensures
        all_times_consistent(store.after_event(event).tasks),
{
    let after = store.after_event(event);
    match event {
        StoreEvent::JobCommand { job_id, command, now } => {
            match command {
                QueueCommandView::JobUpdated { job_title, job_thumbnail, new_tasks } => {
                    if store.after_job_command(job_id, command, now) is Ok {
                        assert forall|i: int| 0 <= i < after.tasks.len() implies times_consistent(
                            #[trigger] after.tasks[i],
                        ) by {
                            if i < store.tasks.len() {
                                assert(times_consistent(store.tasks[i]));
                            } else {
                                assert(times_consistent(new_tasks[i - store.tasks.len()]));
                            }
                        }
                    }
                },
                _ => {
                    assert forall|i: int| 0 <= i < after.tasks.len() implies times_consistent(
                        #[trigger] after.tasks[i],
                    ) by {
                        assert(times_consistent(store.tasks[i]));
                    }
                },
            }
        },
        StoreEvent::Admission { max_tasks, now } => {
            law_admission_is_fifo(store.tasks, max_tasks, now);
            assert forall|i: int| 0 <= i < after.tasks.len() implies times_consistent(
                #[trigger] after.tasks[i],
            ) by {
                assert(times_consistent(store.tasks[i]));
            }
        },
        StoreEvent::Deletion { ids } => {
            assert forall|i: int| 0 <= i < after.tasks.len() implies times_consistent(
                #[trigger] after.tasks[i],
            ) by {
                store.tasks.lemma_filter_contains_rev(not_among(ids), after.tasks[i]);
                let w = choose|w: int| 0 <= w < store.tasks.len() && store.tasks[w] == after.tasks[i];
                assert(times_consistent(store.tasks[w]));
            }
        },
        StoreEvent::JobCreation { job_id, created_at, task_id, task_created_at, url, format } => {
            assert forall|i: int| 0 <= i < after.tasks.len() implies times_consistent(
                #[trigger] after.tasks[i],
            ) by {
                if i < store.tasks.len() {
                    assert(times_consistent(store.tasks[i]));
                }
            }
        },
        _ => {
            assert forall|i: int| 0 <= i < after.tasks.len() implies times_consistent(
                #[trigger] after.tasks[i],
            ) by {
                assert(times_consistent(store.tasks[i]));
            }
        },
    }
}

/// A running task has a start time, and a task that has ended has an end time:
/// what holds of every task of a store holds after any run of events that
/// leave the times fitting.
pub proof fn law_times_fit_states(store: StoreView, events: Seq<StoreEvent>)
    requires
        all_times_consistent(store.tasks),
        events_keep_times(store, events),
    ensures
        all_times_consistent(store.after_events(events).tasks),
    decreases events.len(),
{
    if events.len() > 0 {
        law_times_fit_states(store, events.drop_last());
        lemma_event_keeps_times(store.after_events(events.drop_last()), events.last());
    }
}

/// The status of every reported job is the status that its tasks give it.
pub proof fn law_reported_status_is_derived(store: StoreView, job_id: u128, k: int)
    ensures
        store.job(job_id) matches Some(job) ==> job.status == job_status(job.tasks),
        0 <= k < store.all_jobs().len() ==> store.all_jobs()[k].status == job_status(
            store.all_jobs()[k].tasks,
        ),
{
}

/// Whether a task that has a start time is running or has ended.
pub open spec fn start_mark_consistent(task: TaskView) -> bool {
    task.started_at is Some ==> {
        ||| task.status == TaskStatus::Processing
        ||| task.status == TaskStatus::Done
        ||| task.status == TaskStatus::Failed
        ||| task.status == TaskStatus::Cancelled
    }
}

/// Whether every task of the table that has a start time is running or has
/// ended.
pub open spec fn start_marks_consistent(tasks: Seq<TaskView>) -> bool {
    forall|i: int| 0 <= i < tasks.len() ==> start_mark_consistent(#[trigger] tasks[i])
}

/// Whether `command`, applied to `task`, leaves a task that has started out of
/// the queue. Only `Retry`, and a report that a worker was paused or handed its
/// task back, can put a started task into `Waiting` or `Paused`.
pub open spec fn keeps_start_mark(task: TaskView, command: QueueCommandView) -> bool {
    match command {
        QueueCommandView::Retry => (task.status == TaskStatus::Failed || task.status
            == TaskStatus::Cancelled) ==> task.started_at is None,
        QueueCommandView::TaskStatusChange(status) => (status == TaskStatus::Waiting || status
            == TaskStatus::Paused) ==> task.started_at is None,
        _ => true,
    }
}

/// Whether `event`, applied to `store`, leaves every started task out of the
/// queue.
pub open spec fn event_keeps_start_marks(store: StoreView, event: StoreEvent) -> bool {
    match event {
        StoreEvent::TaskCommand { task_id, command, now } => forall|i: int|
            0 <= i < store.tasks.len() && (#[trigger] store.tasks[i]).task_id == task_id
                ==> keeps_start_mark(store.tasks[i], command),
        StoreEvent::JobCommand { job_id, command, now } => match command {
            QueueCommandView::Retry => forall|i: int|
                0 <= i < store.tasks.len() && (#[trigger] store.tasks[i]).owner_job_id == job_id
                    ==> keeps_start_mark(store.tasks[i], command),
            _ => true,
        },
        _ => true,
    }
}

/// Whether each event of the run, applied in its turn, leaves every started task
/// out of the queue.
pub open spec fn events_keep_start_marks(store: StoreView, events: Seq<StoreEvent>) -> bool
    decreases events.len(),
{
    events.len() > 0 ==> {
        &&& events_keep_start_marks(store, events.drop_last())
        &&& event_keeps_start_marks(store.after_events(events.drop_last()), events.last())
    }
}

/// A table in which no task counts as active has no task that is `Processing`.
pub proof fn lemma_quiescent_has_no_running_task(tasks: Seq<TaskView>)
    requires
        task_stats(tasks).num_active == 0,
    ensures
        forall|i: int| 0 <= i < tasks.len() ==> (#[trigger] tasks[i]).status != TaskStatus::Processing,
{
    let pred = in_state(TaskStatus::Processing);
    assert(tasks.filter(pred).len() == 0);
    assert forall|i: int| 0 <= i < tasks.len() implies (#[trigger] tasks[i]).status
        != TaskStatus::Processing by {
        if tasks[i].status == TaskStatus::Processing {
            assert(pred(tasks[i]));
            tasks.lemma_filter_contains(pred, i);
            assert(tasks.filter(pred).contains(tasks[i]));
        }
    }
}

/// One event that leaves started tasks out of the queue keeps the start times
/// consistent.
pub proof fn lemma_event_keeps_consistency(store: StoreView, event: StoreEvent)
    requires
        start_marks_consistent(store.tasks),
        event_keeps_start_marks(store, event),
    ensures
        start_marks_consistent(store.after_event(event).tasks),
{
    let after = store.after_event(event);
    match event {
        StoreEvent::TaskCommand { task_id, command, now } => {
            assert forall|i: int| 0 <= i < after.tasks.len() implies start_mark_consistent(
                #[trigger] after.tasks[i],
            ) by {
                assert(start_mark_consistent(store.tasks[i]));
            }
        },
        StoreEvent::JobCommand { job_id, command, now } => {
            match command {
                QueueCommandView::JobUpdated { job_title, job_thumbnail, new_tasks } => {
                    if store.after_job_command(job_id, command, now) is Ok {
                        assert forall|i: int| 0 <= i < after.tasks.len() implies start_mark_consistent(
                            #[trigger] after.tasks[i],
                        ) by {
                            if i < store.tasks.len() {
                                assert(start_mark_consistent(store.tasks[i]));
                            }
                        }
                    }
                },
                _ => {
                    assert forall|i: int| 0 <= i < after.tasks.len() implies start_mark_consistent(
                        #[trigger] after.tasks[i],
                    ) by {
                        assert(start_mark_consistent(store.tasks[i]));
                    }
                },
            }
        },
        StoreEvent::Admission { max_tasks, now } => {
            law_admission_is_fifo(store.tasks, max_tasks, now);
            assert forall|i: int| 0 <= i < after.tasks.len() implies start_mark_consistent(
                #[trigger] after.tasks[i],
            ) by {
                assert(start_mark_consistent(store.tasks[i]));
            }
        },
        StoreEvent::Cleanup { ids } => {
            assert forall|i: int| 0 <= i < after.tasks.len() implies start_mark_consistent(
                #[trigger] after.tasks[i],
            ) by {
                assert(start_mark_consistent(store.tasks[i]));
            }
        },
        StoreEvent::Deletion { ids } => {
            assert forall|i: int| 0 <= i < after.tasks.len() implies start_mark_consistent(
                #[trigger] after.tasks[i],
            ) by {
                store.tasks.lemma_filter_contains_rev(not_among(ids), after.tasks[i]);
                let w = choose|w: int| 0 <= w < store.tasks.len() && store.tasks[w] == after.tasks[i];
                assert(start_mark_consistent(store.tasks[w]));
            }
        },
        StoreEvent::JobCreation { job_id, created_at, task_id, task_created_at, url, format } => {
            assert forall|i: int| 0 <= i < after.tasks.len() implies start_mark_consistent(
                #[trigger] after.tasks[i],
            ) by {
                if i < store.tasks.len() {
                    assert(start_mark_consistent(store.tasks[i]));
                }
            }
        },
        StoreEvent::Reset => {
            assert forall|i: int| 0 <= i < after.tasks.len() implies start_mark_consistent(
                #[trigger] after.tasks[i],
            ) by {
                assert(start_mark_consistent(store.tasks[i]));
            }
        },
    }
}

/// No task is lost between states. After any run of changes that leaves started
/// tasks out of the queue, once no task is active, every task has ended or is
/// `Waiting` or `Paused`, and every task with a start time has ended.
pub proof fn law_no_loss(store: StoreView, events: Seq<StoreEvent>)
    requires
        start_marks_consistent(store.tasks),
        events_keep_start_marks(store, events),
        task_stats(store.after_events(events).tasks).num_active == 0,
    ensures
        forall|i: int|
            0 <= i < store.after_events(events).tasks.len() ==> {
                let task = #[trigger] store.after_events(events).tasks[i];
                &&& task.status.spec_is_terminal() || task.status == TaskStatus::Waiting
                    || task.status == TaskStatus::Paused
                &&& task.started_at is Some ==> task.status.spec_is_terminal()
            },
{
    lemma_events_keep_consistency(store, events);
    let end = store.after_events(events);
    lemma_quiescent_has_no_running_task(end.tasks);
    assert forall|i: int| 0 <= i < end.tasks.len() implies {
        let task = #[trigger] end.tasks[i];
        &&& task.status.spec_is_terminal() || task.status == TaskStatus::Waiting || task.status
            == TaskStatus::Paused
        &&& task.started_at is Some ==> task.status.spec_is_terminal()
    } by {
        assert(start_mark_consistent(end.tasks[i]));
        assert(end.tasks[i].status != TaskStatus::Processing);
    }
}

/// A run of events that leave started tasks out of the queue keeps the start
/// times consistent.
pub proof fn lemma_events_keep_consistency(store: StoreView, events: Seq<StoreEvent>)
    requires
        start_marks_consistent(store.tasks),
        events_keep_start_marks(store, events),
    ensures
        start_marks_consistent(store.after_events(events).tasks),
    decreases events.len(),
{
    if events.len() > 0 {
        lemma_events_keep_consistency(store, events.drop_last());
        lemma_event_keeps_consistency(store.after_events(events.drop_last()), events.last());
    }
}

/// A task that reaches `Done` is listed for cleanup by the next sweep, and is
/// no longer marked once the sweep has confirmed what it listed. (That the
/// scratch directory is removed in between is the sweep's part.)
pub proof fn law_done_task_is_cleaned_up(store: StoreView, i: int, now: i64)
    requires
        0 <= i < store.tasks.len(),
    ensures
        ({
            let done = store.after_task_command(
                store.tasks[i].task_id,
                QueueCommandView::TaskStatusChange(TaskStatus::Done),
                now,
            );
            let swept = done.after_cleanup(done.pending_operations().cleanup);
            &&& done.tasks[i].status == TaskStatus::Done
            &&& done.tasks[i].pending_cleanup
            &&& done.pending_operations().cleanup.contains(store.tasks[i].task_id)
            &&& swept.tasks[i].status == TaskStatus::Done
            &&& !swept.tasks[i].pending_cleanup
        }),
{
    let id = store.tasks[i].task_id;
    let done = store.after_task_command(
        id,
        QueueCommandView::TaskStatusChange(TaskStatus::Done),
        now,
    );
    let due = done.tasks.filter(cleanup_due());
    assert(cleanup_due()(done.tasks[i]));
    done.tasks.lemma_filter_contains(cleanup_due(), i);
    let w = choose|w: int| 0 <= w < due.len() && due[w] == done.tasks[i];
    assert(task_ids(due)[w] == id);
}

/// Once every task of a job is marked for deletion and none of them runs, the
/// next sweep removes the job and all its tasks from the store.
pub proof fn law_marked_job_is_deleted(store: StoreView, job_id: u128)
    requires
        forall|i: int|
            0 <= i < store.tasks.len() && (#[trigger] store.tasks[i]).owner_job_id == job_id ==> {
                &&& store.tasks[i].pending_delete
                &&& store.tasks[i].status != TaskStatus::Processing
            },
    ensures
        ({
            let swept = store.after_deletion(store.pending_operations().delete);
            &&& !swept.has_job(job_id)
            &&& forall|k: int| 0 <= k < swept.tasks.len() ==> (#[trigger] swept.tasks[k]).owner_job_id
                != job_id
        }),
{
    let ids = store.pending_operations().delete;
    let due = store.tasks.filter(delete_due());
    let swept = store.after_deletion(ids);
    assert forall|k: int| 0 <= k < swept.tasks.len() implies (#[trigger] swept.tasks[k]).owner_job_id
        != job_id by {
        let task = swept.tasks[k];
        store.tasks.lemma_filter_contains_rev(not_among(ids), task);
        let w = choose|w: int| 0 <= w < store.tasks.len() && store.tasks[w] == task;
        store.tasks.lemma_filter_pred(not_among(ids), k);
        if task.owner_job_id == job_id {
            assert(delete_due()(store.tasks[w]));
            store.tasks.lemma_filter_contains(delete_due(), w);
            let v = choose|v: int| 0 <= v < due.len() && due[v] == store.tasks[w];
            assert(task_ids(due)[v] == task.task_id);
            assert(ids.contains(task.task_id));
        }
    }
    assert(!job_owns_task(swept.tasks, job_id));
    assert forall|k: int| 0 <= k < swept.jobs.len() implies (#[trigger] swept.jobs[k]).job_id
        != job_id by {
        store.jobs.lemma_filter_pred(owns_one_of(swept.tasks), k);
    }
}

/// `Delete` on a job marks every task of the job for deletion, and no command
/// takes the mark away again. With [`law_marked_job_is_deleted`]: once `Delete`
/// was commanded and the job's workers have settled, the sweep removes the job.
pub proof fn law_delete_mark_is_kept(
    store: StoreView,
    job_id: u128,
    now: i64,
    task: TaskView,
    command: QueueCommandView,
)
    ensures
        forall|i: int|
            0 <= i < store.tasks.len() && (#[trigger] store.tasks[i]).owner_job_id == job_id
                ==> store.after_job_state_command(
                job_id,
                QueueCommandView::Delete,
                now,
            ).tasks[i].pending_delete,
        task.pending_delete ==> {
            &&& task.after_task_command(command, now).pending_delete
            &&& task.after_job_command(command, now).pending_delete
            &&& task.reset().pending_delete
            &&& !task.admissible()
        },
{
}

} // verus!
