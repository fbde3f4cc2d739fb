//! Ordering rows by a key, keeping rows with equal keys in their stored order.

use vstd::prelude::*;
use crate::job::{job_fetch_views, JobFetch, JobFetchView};
use crate::task::{task_views, Task, TaskView};

verus! {

/// `sorted` with `x` put in behind the last element whose key is not greater
/// than that of `x`.
pub open spec fn insert_by_key<T>(sorted: Seq<T>, x: T, key: spec_fn(T) -> int) -> Seq<T>
    decreases sorted.len(),
{
    if sorted.len() == 0 {
        seq![x]
    } else if key(sorted.last()) <= key(x) {
        sorted.push(x)
    } else {
        insert_by_key(sorted.drop_last(), x, key).push(sorted.last())
    }
}

/// The elements of `s` in ascending order of `key`; elements with equal keys
/// keep their order.
pub open spec fn sort_by_key<T>(s: Seq<T>, key: spec_fn(T) -> int) -> Seq<T>
    decreases s.len(),
{
    if s.len() == 0 {
        s
    } else {
        insert_by_key(sort_by_key(s.drop_last(), key), s.last(), key)
    }
}

/// Whether the keys of `s` ascend.
pub open spec fn ascending<T>(s: Seq<T>, key: spec_fn(T) -> int) -> bool {
    forall|i: int, j: int| 0 <= i < j < s.len() ==> key(#[trigger] s[i]) <= key(#[trigger] s[j])
}

/// The key that orders tasks by their index within a job.
pub open spec fn by_task_index() -> spec_fn(TaskView) -> int {
    |t: TaskView| t.task_index as int
}

/// The key that orders jobs from the newest to the oldest.
pub open spec fn newest_first() -> spec_fn(JobFetchView) -> int {
    |j: JobFetchView| -(j.created_at as int)
}

/// Where `insert_by_key` puts the new element: at the position behind which
/// every key is greater and before which the nearest key is not.
pub proof fn lemma_insert_position<T>(s: Seq<T>, x: T, key: spec_fn(T) -> int, p: int)
    requires
        0 <= p <= s.len(),
        forall|q: int| p <= q < s.len() ==> key(#[trigger] s[q]) > key(x),
        p > 0 ==> key(s[p - 1]) <= key(x),
    ensures
        insert_by_key(s, x, key) == s.insert(p, x),
    decreases s.len(),
{
    if s.len() == 0 {
        assert(seq![x] =~= s.insert(p, x));
    } else if p == s.len() {
        assert(s.push(x) =~= s.insert(p, x));
    } else {
        assert(key(s[s.len() - 1]) > key(x));
        let front = s.drop_last();
        assert forall|q: int| p <= q < front.len() implies key(#[trigger] front[q]) > key(x) by {
            assert(front[q] == s[q]);
        }
        lemma_insert_position(front, x, key, p);
        assert(front.insert(p, x).push(s.last()) =~= s.insert(p, x));
    }
}

/// Inserting into an ascending sequence leaves it ascending, and adds exactly
/// the new element.
pub proof fn lemma_insert_keeps_order<T>(s: Seq<T>, x: T, key: spec_fn(T) -> int)
    requires
        ascending(s, key),
    ensures
        ascending(insert_by_key(s, x, key), key),
        insert_by_key(s, x, key).to_multiset() == s.to_multiset().insert(x),
        insert_by_key(s, x, key).len() == s.len() + 1,
    decreases s.len(),
{
    broadcast use vstd::seq_lib::group_to_multiset_ensures;

    let r = insert_by_key(s, x, key);
    if s.len() == 0 {
        assert(r =~= s.push(x));
    } else if key(s.last()) <= key(x) {
        assert forall|i: int, j: int| 0 <= i < j < r.len() implies key(#[trigger] r[i]) <= key(
            #[trigger] r[j],
        ) by {
            if j == s.len() {
                assert(key(s[i]) <= key(s[s.len() - 1]) || i == s.len() - 1);
            } else {
                assert(key(s[i]) <= key(s[j]));
            }
        }
    } else {
        let front = s.drop_last();
        assert forall|i: int, j: int| 0 <= i < j < front.len() implies key(#[trigger] front[i])
            <= key(#[trigger] front[j]) by {
            assert(key(s[i]) <= key(s[j]));
        }
        lemma_insert_keeps_order(front, x, key);
        let inner = insert_by_key(front, x, key);
        assert(s =~= front.push(s.last()));
        assert(s.to_multiset() == front.to_multiset().insert(s.last()));
        assert(r.to_multiset() =~= s.to_multiset().insert(x));
        assert forall|i: int, j: int| 0 <= i < j < r.len() implies key(#[trigger] r[i]) <= key(
            #[trigger] r[j],
        ) by {
            if j < inner.len() {
                assert(key(inner[i]) <= key(inner[j]));
            } else {
                // r[j] is the last element of s; r[i] is x or an element of the front
                assert(inner.to_multiset().count(inner[i]) > 0);
                if inner[i] != x {
                    assert(front.to_multiset().count(inner[i]) > 0);
                    assert(front.contains(inner[i]));
                    let w = choose|w: int| 0 <= w < front.len() && front[w] == inner[i];
                    assert(key(s[w]) <= key(s[s.len() - 1]));
                }
            }
        }
    }
}

/// The sorted sequence ascends and holds exactly the elements it was given.
pub proof fn lemma_sort_by_key_sorts<T>(s: Seq<T>, key: spec_fn(T) -> int)
    ensures
        ascending(sort_by_key(s, key), key),
        sort_by_key(s, key).to_multiset() == s.to_multiset(),
        sort_by_key(s, key).len() == s.len(),
    decreases s.len(),
{
    broadcast use vstd::seq_lib::group_to_multiset_ensures;

    if s.len() > 0 {
        let front = s.drop_last();
        lemma_sort_by_key_sorts(front, key);
        lemma_insert_keeps_order(sort_by_key(front, key), s.last(), key);
        assert(s =~= front.push(s.last()));
    }
}

/// The tasks in ascending order of their task index.
pub fn tasks_by_index(tasks: &Vec<Task>) -> (sorted: Vec<Task>)
    ensures
        task_views(sorted@) == sort_by_key(task_views(tasks@), by_task_index()),
{
    let ghost views = task_views(tasks@);
    let ghost key = by_task_index();
    let mut sorted: Vec<Task> = Vec::new();
    let mut i: usize = 0;
    assert(task_views(sorted@) =~= sort_by_key(views.take(0), key));
    while i < tasks.len()
        invariant
            i <= tasks.len(),
            views == task_views(tasks@),
            key == by_task_index(),
            sorted.len() == i,
            task_views(sorted@) == sort_by_key(views.take(i as int), key),
        decreases tasks.len() - i,
    {
        let task = tasks[i].clone();
        let mut p: usize = sorted.len();
        while p > 0 && sorted[p - 1].task_index > task.task_index
            invariant
                p <= sorted.len(),
                key == by_task_index(),
                forall|q: int|
                    p <= q < sorted.len() ==> key(#[trigger] task_views(sorted@)[q]) > key(task@),
            decreases p,
        {
            p -= 1;
        }
        proof {
            assert(views.take(i + 1).drop_last() =~= views.take(i as int));
            lemma_insert_position(task_views(sorted@), task@, key, p as int);
        }
        let ghost before = sorted@;
        sorted.insert(p, task);
        assert(task_views(sorted@) =~= task_views(before).insert(p as int, task@));
        i += 1;
    }
    assert(views.take(i as int) =~= views);
    sorted
}

/// The jobs from the newest to the oldest.
pub fn jobs_newest_first(jobs: &Vec<JobFetch>) -> (sorted: Vec<JobFetch>)
    ensures
        job_fetch_views(sorted@) == sort_by_key(job_fetch_views(jobs@), newest_first()),
{
    let ghost views = job_fetch_views(jobs@);
    let ghost key = newest_first();
    let mut sorted: Vec<JobFetch> = Vec::new();
    let mut i: usize = 0;
    assert(job_fetch_views(sorted@) =~= sort_by_key(views.take(0), key));
    while i < jobs.len()
        invariant
            i <= jobs.len(),
            views == job_fetch_views(jobs@),
            key == newest_first(),
            sorted.len() == i,
            job_fetch_views(sorted@) == sort_by_key(views.take(i as int), key),
        decreases jobs.len() - i,
    {
        let job = jobs[i].clone();
        let mut p: usize = sorted.len();
        while p > 0 && sorted[p - 1].created_at < job.created_at
            invariant
                p <= sorted.len(),
                key == newest_first(),
                forall|q: int|
                    p <= q < sorted.len() ==> key(#[trigger] job_fetch_views(sorted@)[q]) > key(
                        job@,
                    ),
            decreases p,
        {
            p -= 1;
        }
        proof {
            assert(views.take(i + 1).drop_last() =~= views.take(i as int));
            lemma_insert_position(job_fetch_views(sorted@), job@, key, p as int);
        }
        let ghost before = sorted@;
        sorted.insert(p, job);
        assert(job_fetch_views(sorted@) =~= job_fetch_views(before).insert(p as int, job@));
        i += 1;
    }
    assert(views.take(i as int) =~= views);
    sorted
}

} // verus!
