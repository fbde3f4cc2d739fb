//! Jobs: a job's header as stored, the job as reported with its tasks, and the
//! rules that derive a job's status and times from its tasks.

use std::collections::HashMap;
use vstd::prelude::*;
use crate::task::{task_views, Task, TaskKind, TaskProgress, TaskStatus, TaskView};

verus! {

/// A job's status. It is never stored: it follows from the job's tasks.
#[derive(Clone, Copy, Debug, PartialEq, Eq, Structural)]
pub enum JobStatus {
    Waiting,
    Processing,
    Done,
    PartiallyDone,
    Paused,
    Failed,
    Cancelled,
}

/// One row of the job table: what is stored about a job.
#[derive(Debug)]
pub struct JobFetch {
    pub job_id: u128,
    pub thumbnail: String,
    pub url: String,
    pub format: String,
    pub created_at: i64,
    pub prioritized: bool,
    pub title: String,
}

/// The mathematical content of a [`JobFetch`].
pub ghost struct JobFetchView {
    pub job_id: u128,
    pub thumbnail: Seq<char>,
    pub url: Seq<char>,
    pub format: Seq<char>,
    pub created_at: i64,
    pub prioritized: bool,
    pub title: Seq<char>,
}

impl View for JobFetch {
    type V = JobFetchView;

    open spec fn view(&self) -> JobFetchView {
        JobFetchView {
            job_id: self.job_id,
            thumbnail: self.thumbnail@,
            url: self.url@,
            format: self.format@,
            created_at: self.created_at,
            prioritized: self.prioritized,
            title: self.title@,
        }
    }
}

impl Clone for JobFetch {
    fn clone(&self) -> (copy: Self)
        ensures
            copy == *self,
    {
        JobFetch {
            job_id: self.job_id,
            thumbnail: self.thumbnail.clone(),
            url: self.url.clone(),
            format: self.format.clone(),
            created_at: self.created_at,
            prioritized: self.prioritized,
            title: self.title.clone(),
        }
    }
}

/// The models of a run of job rows, in order.
pub open spec fn job_fetch_views(jobs: Seq<JobFetch>) -> Seq<JobFetchView> {
    jobs.map_values(|j: JobFetch| j@)
}

/// A job as reported: its header, its tasks, and what follows from them.
#[derive(Debug)]
pub struct Job {
    pub job_id: u128,
    pub status: JobStatus,
    pub tasks: Vec<Task>,
    pub thumbnail: String,
    pub url: String,
    pub format: String,
    pub created_at: i64,
    pub started_at: Option<i64>,
    pub finished_at: Option<i64>,
    pub progress: HashMap<u128, TaskProgress>,
    pub prioritized: bool,
    pub title: String,
}

/// The mathematical content of a [`Job`].
pub ghost struct JobView {
    pub job_id: u128,
    pub status: JobStatus,
    pub tasks: Seq<TaskView>,
    pub thumbnail: Seq<char>,
    pub url: Seq<char>,
    pub format: Seq<char>,
    pub created_at: i64,
    pub started_at: Option<i64>,
    pub finished_at: Option<i64>,
    pub progress: Map<u128, TaskProgress>,
    pub prioritized: bool,
    pub title: Seq<char>,
}

impl View for Job {
    type V = JobView;

    open spec fn view(&self) -> JobView {
        JobView {
            job_id: self.job_id,
            status: self.status,
            tasks: task_views(self.tasks@),
            thumbnail: self.thumbnail@,
            url: self.url@,
            format: self.format@,
            created_at: self.created_at,
            started_at: self.started_at,
            finished_at: self.finished_at,
            progress: self.progress@,
            prioritized: self.prioritized,
            title: self.title@,
        }
    }
}

/// The models of a run of jobs, in order.
pub open spec fn job_views(jobs: Seq<Job>) -> Seq<JobView> {
    jobs.map_values(|j: Job| j@)
}

/// Whether `tasks[i]` is the first URL-expansion task in `tasks`.
pub open spec fn is_first_fetch(tasks: Seq<TaskView>, i: int) -> bool {
    &&& 0 <= i < tasks.len()
    &&& tasks[i].kind == TaskKind::FetchUrlContents
    &&& forall|j: int| 0 <= j < i ==> (#[trigger] tasks[j]).kind != TaskKind::FetchUrlContents
}

/// Whether `tasks[i]` is the first URL-expansion task and has not finished
/// successfully. While there is such a task, it alone decides the job's status.
pub open spec fn is_open_fetch(tasks: Seq<TaskView>, i: int) -> bool {
    is_first_fetch(tasks, i) && tasks[i].status != TaskStatus::Done
}

/// Whether some download task among `tasks` is in state `status`.
pub open spec fn has_download(tasks: Seq<TaskView>, status: TaskStatus) -> bool {
    exists|i: int|
        0 <= i < tasks.len() && (#[trigger] tasks[i]).kind == TaskKind::DownloadAndConvert
            && tasks[i].status == status
}

/// Whether there is any download task among `tasks`.
pub open spec fn has_any_download(tasks: Seq<TaskView>) -> bool {
    exists|i: int|
        0 <= i < tasks.len() && (#[trigger] tasks[i]).kind == TaskKind::DownloadAndConvert
}

/// The job status that mirrors a task status.
pub open spec fn mirrored(status: TaskStatus) -> JobStatus {
    match status {
        TaskStatus::Waiting => JobStatus::Waiting,
        TaskStatus::Processing => JobStatus::Processing,
        TaskStatus::Done => JobStatus::Done,
        TaskStatus::Paused => JobStatus::Paused,
        TaskStatus::Failed => JobStatus::Failed,
        TaskStatus::Cancelled => JobStatus::Cancelled,
    }
}

/// The status that a job's download tasks give it, the URL-expansion task set
/// aside.
pub open spec fn downloads_status(tasks: Seq<TaskView>) -> JobStatus {
    if !has_any_download(tasks) {
        JobStatus::Done
    } else if has_download(tasks, TaskStatus::Processing) {
        JobStatus::Processing
    } else if has_download(tasks, TaskStatus::Waiting) {
        JobStatus::Waiting
    } else if has_download(tasks, TaskStatus::Paused) {
        JobStatus::Paused
    } else if has_download(tasks, TaskStatus::Done) {
        if has_download(tasks, TaskStatus::Cancelled) || has_download(tasks, TaskStatus::Failed) {
            JobStatus::PartiallyDone
        } else {
            JobStatus::Done
        }
    } else if has_download(tasks, TaskStatus::Cancelled) {
        JobStatus::Cancelled
    } else {
        JobStatus::Failed
    }
}

/// The status of a job with the given tasks.
///
/// While the first URL-expansion task is not `Done`, the job mirrors it.
/// Otherwise only the download tasks count.
pub open spec fn job_status(tasks: Seq<TaskView>) -> JobStatus {
    if exists|i: int| is_open_fetch(tasks, i) {
        mirrored(tasks[choose|i: int| is_open_fetch(tasks, i)].status)
    } else {
        downloads_status(tasks)
    }
}

/// The earliest `started_at` among `tasks`, if any task has started.
pub open spec fn earliest_start(tasks: Seq<TaskView>) -> Option<i64>
    decreases tasks.len(),
{
    if tasks.len() == 0 {
        None
    } else {
        match (earliest_start(tasks.drop_last()), tasks.last().started_at) {
            (None, t) => t,
            (Some(e), None) => Some(e),
            (Some(e), Some(t)) => Some(if t < e { t } else { e }),
        }
    }
}

/// The latest `finished_at` among `tasks`, if any task has finished.
pub open spec fn latest_finish(tasks: Seq<TaskView>) -> Option<i64>
    decreases tasks.len(),
{
    if tasks.len() == 0 {
        None
    } else {
        match (latest_finish(tasks.drop_last()), tasks.last().finished_at) {
            (None, t) => t,
            (Some(e), None) => Some(e),
            (Some(e), Some(t)) => Some(if t > e { t } else { e }),
        }
    }
}

/// When a job with this status and these tasks finished: never while it waits or
/// runs, else when its last task finished.
pub open spec fn job_finished_at(status: JobStatus, tasks: Seq<TaskView>) -> Option<i64> {
    if status == JobStatus::Waiting || status == JobStatus::Processing {
        None
    } else {
        latest_finish(tasks)
    }
}

/// The job that is reported for a stored header and the tasks it owns.
pub open spec fn assembled_job(fetch: JobFetchView, tasks: Seq<TaskView>) -> JobView {
    JobView {
        job_id: fetch.job_id,
        status: job_status(tasks),
        tasks,
        thumbnail: fetch.thumbnail,
        url: fetch.url,
        format: fetch.format,
        created_at: fetch.created_at,
        started_at: earliest_start(tasks),
        finished_at: job_finished_at(job_status(tasks), tasks),
        progress: Map::empty(),
        prioritized: fetch.prioritized,
        title: fetch.title,
    }
}

/// `earliest_start` is the least of the start times: it is `None` exactly when no
/// task has started, and otherwise some task started then and none earlier.
pub proof fn lemma_earliest_start_is_least(tasks: Seq<TaskView>)
    ensures
        earliest_start(tasks) is None <==> forall|i: int|
            0 <= i < tasks.len() ==> (#[trigger] tasks[i]).started_at is None,
        earliest_start(tasks) matches Some(e) ==> {
            &&& exists|i: int| 0 <= i < tasks.len() && (#[trigger] tasks[i]).started_at == Some(e)
            &&& forall|i: int|
                0 <= i < tasks.len() ==> match (#[trigger] tasks[i]).started_at {
                    Some(t) => e <= t,
                    None => true,
                }
        },
    decreases tasks.len(),
{
    if tasks.len() > 0 {
        let front = tasks.drop_last();
        lemma_earliest_start_is_least(front);
        assert(forall|i: int| 0 <= i < front.len() ==> front[i] == tasks[i]);
        let last = tasks.len() - 1;
        match earliest_start(tasks) {
            None => {
                assert forall|i: int| 0 <= i < tasks.len() implies (#[trigger] tasks[i]).started_at
                    is None by {
                    if i < last {
                        assert(front[i].started_at is None);
                    }
                }
            },
            Some(e) => {
                if tasks[last].started_at == Some(e) {
                    assert(tasks[last].started_at == Some(e));
                } else {
                    let w = choose|i: int|
                        0 <= i < front.len() && (#[trigger] front[i]).started_at == Some(e);
                    assert(tasks[w].started_at == Some(e));
                }
                assert forall|i: int| 0 <= i < tasks.len() implies match (#[trigger] tasks[i]).started_at {
                    Some(t) => e <= t,
                    None => true,
                } by {
                    if i < last {
                        assert(front[i] == tasks[i]);
                    }
                }
            },
        }
    }
}

/// `latest_finish` is the greatest of the finish times: it is `None` exactly when
/// no task has finished, and otherwise some task finished then and none later.
pub proof fn lemma_latest_finish_is_greatest(tasks: Seq<TaskView>)
    ensures
        latest_finish(tasks) is None <==> forall|i: int|
            0 <= i < tasks.len() ==> (#[trigger] tasks[i]).finished_at is None,
        latest_finish(tasks) matches Some(e) ==> {
            &&& exists|i: int| 0 <= i < tasks.len() && (#[trigger] tasks[i]).finished_at == Some(e)
            &&& forall|i: int|
                0 <= i < tasks.len() ==> match (#[trigger] tasks[i]).finished_at {
                    Some(t) => t <= e,
                    None => true,
                }
        },
    decreases tasks.len(),
{
    if tasks.len() > 0 {
        let front = tasks.drop_last();
        lemma_latest_finish_is_greatest(front);
        assert(forall|i: int| 0 <= i < front.len() ==> front[i] == tasks[i]);
        let last = tasks.len() - 1;
        match latest_finish(tasks) {
            None => {
                assert forall|i: int| 0 <= i < tasks.len() implies (#[trigger] tasks[i]).finished_at
                    is None by {
                    if i < last {
                        assert(front[i].finished_at is None);
                    }
                }
            },
            Some(e) => {
                if tasks[last].finished_at == Some(e) {
                    assert(tasks[last].finished_at == Some(e));
                } else {
                    let w = choose|i: int|
                        0 <= i < front.len() && (#[trigger] front[i]).finished_at == Some(e);
                    assert(tasks[w].finished_at == Some(e));
                }
                assert forall|i: int| 0 <= i < tasks.len() implies match (#[trigger] tasks[i]).finished_at {
                    Some(t) => t <= e,
                    None => true,
                } by {
                    if i < last {
                        assert(front[i] == tasks[i]);
                    }
                }
            },
        }
    }
}

/// Whether some download task among `tasks` is in state `status`.
fn contains_download(tasks: &[Task], status: TaskStatus) -> (found: bool)
    ensures
        found == has_download(task_views(tasks@), status),
{
    let mut i: usize = 0;
    while i < tasks.len()
        invariant
            i <= tasks.len(),
            forall|k: int|
                0 <= k < i ==> !((#[trigger] tasks[k]).kind == TaskKind::DownloadAndConvert
                    && tasks[k].status == status),
        decreases tasks.len() - i,
    {
        if tasks[i].kind == TaskKind::DownloadAndConvert && tasks[i].status == status {
            assert(task_views(tasks@)[i as int].kind == TaskKind::DownloadAndConvert);
            return true;
        }
        i += 1;
    }
    assert forall|k: int| 0 <= k < tasks.len() implies !((#[trigger] task_views(
        tasks@,
    )[k]).kind == TaskKind::DownloadAndConvert && task_views(tasks@)[k].status == status) by {
        assert(!(tasks[k].kind == TaskKind::DownloadAndConvert && tasks[k].status == status));
    }
    false
}

/// Whether there is any download task among `tasks`.
fn contains_any_download(tasks: &[Task]) -> (found: bool)
    ensures
        found == has_any_download(task_views(tasks@)),
{
    let mut i: usize = 0;
    while i < tasks.len()
        invariant
            i <= tasks.len(),
            forall|k: int| 0 <= k < i ==> (#[trigger] tasks[k]).kind != TaskKind::DownloadAndConvert,
        decreases tasks.len() - i,
    {
        if tasks[i].kind == TaskKind::DownloadAndConvert {
            assert(task_views(tasks@)[i as int].kind == TaskKind::DownloadAndConvert);
            return true;
        }
        i += 1;
    }
    assert forall|k: int| 0 <= k < tasks.len() implies (#[trigger] task_views(tasks@)[k]).kind
        != TaskKind::DownloadAndConvert by {
        assert(tasks[k].kind != TaskKind::DownloadAndConvert);
    }
    false
}

/// The status of the first URL-expansion task that is not `Done`, if the first
/// URL-expansion task is such a task.
fn open_fetch_status(tasks: &[Task]) -> (status: Option<TaskStatus>)
    ensures
        match status {
            Some(s) => exists|i: int|
                is_open_fetch(task_views(tasks@), i) && task_views(tasks@)[i].status == s,
            None => forall|i: int| !is_open_fetch(task_views(tasks@), i),
        },
{
    let ghost views = task_views(tasks@);
    let mut i: usize = 0;
    while i < tasks.len()
        invariant
            i <= tasks.len(),
            views == task_views(tasks@),
            forall|k: int| 0 <= k < i ==> (#[trigger] views[k]).kind != TaskKind::FetchUrlContents,
        decreases tasks.len() - i,
    {
        if tasks[i].kind == TaskKind::FetchUrlContents {
            assert(is_first_fetch(views, i as int));
            if tasks[i].status == TaskStatus::Done {
                assert forall|j: int| !is_open_fetch(views, j) by {
                    if is_first_fetch(views, j) {
                        if j < i {
                            assert(views[j].kind != TaskKind::FetchUrlContents);
                        } else if j > i {
                            assert(views[i as int].kind == TaskKind::FetchUrlContents);
                        }
                    }
                }
                return None;
            } else {
                assert(is_open_fetch(views, i as int));
                return Some(tasks[i].status);
            }
        }
        i += 1;
    }
    assert forall|j: int| !is_open_fetch(views, j) by {
        if 0 <= j < views.len() {
            assert(views[j].kind != TaskKind::FetchUrlContents);
        }
    }
    None
}

/// Any two open URL-expansion tasks of one job are the same task.
pub proof fn lemma_open_fetch_unique(tasks: Seq<TaskView>, i: int, j: int)
    requires
        is_open_fetch(tasks, i),
        is_open_fetch(tasks, j),
    ensures
        i == j,
{
    if i < j {
        assert(tasks[i].kind != TaskKind::FetchUrlContents);
    } else if j < i {
        assert(tasks[j].kind != TaskKind::FetchUrlContents);
    }
}

impl Job {
    /// Derives a job's status from its tasks.
    pub fn status_from_tasks(tasks: &[Task]) -> (status: JobStatus)
        ensures
            status == job_status(task_views(tasks@)),
    {
        let ghost views = task_views(tasks@);
        match open_fetch_status(tasks) {
            Some(s) => {
                proof {
                    let i = choose|i: int| is_open_fetch(views, i) && views[i].status == s;
                    let c = choose|i: int| is_open_fetch(views, i);
                    lemma_open_fetch_unique(views, i, c);
                }
                return match s {
                    TaskStatus::Waiting => JobStatus::Waiting,
                    TaskStatus::Processing => JobStatus::Processing,
                    TaskStatus::Paused => JobStatus::Paused,
                    TaskStatus::Failed => JobStatus::Failed,
                    TaskStatus::Cancelled => JobStatus::Cancelled,
                    TaskStatus::Done => JobStatus::Done,
                };
            },
            None => {},
        }
        if !contains_any_download(tasks) {
            JobStatus::Done
        } else if contains_download(tasks, TaskStatus::Processing) {
            JobStatus::Processing
        } else if contains_download(tasks, TaskStatus::Waiting) {
            JobStatus::Waiting
        } else if contains_download(tasks, TaskStatus::Paused) {
            JobStatus::Paused
        } else if contains_download(tasks, TaskStatus::Done) {
            if contains_download(tasks, TaskStatus::Cancelled) || contains_download(
                tasks,
                TaskStatus::Failed,
            ) {
                JobStatus::PartiallyDone
            } else {
                JobStatus::Done
            }
        } else if contains_download(tasks, TaskStatus::Cancelled) {
            JobStatus::Cancelled
        } else {
            JobStatus::Failed
        }
    }

    /// When the job started: when its first task did.
    pub fn started_at_from_tasks(tasks: &[Task]) -> (started_at: Option<i64>)
        ensures
            started_at == earliest_start(task_views(tasks@)),
    {
        let ghost views = task_views(tasks@);
        let mut earliest: Option<i64> = None;
        let mut i: usize = 0;
        while i < tasks.len()
            invariant
                i <= tasks.len(),
                views == task_views(tasks@),
                earliest == earliest_start(views.take(i as int)),
            decreases tasks.len() - i,
        {
            assert(views.take(i + 1).drop_last() =~= views.take(i as int));
            earliest = match (earliest, tasks[i].started_at) {
                (None, t) => t,
                (Some(e), None) => Some(e),
                (Some(e), Some(t)) => Some(if t < e { t } else { e }),
            };
            i += 1;
        }
        assert(views.take(i as int) =~= views);
        earliest
    }

    /// When the job finished, given its status: never while it waits or runs, else
    /// when its last task finished.
    pub fn finished_at_from_tasks(status: JobStatus, tasks: &[Task]) -> (finished_at: Option<i64>)
        ensures
            finished_at == job_finished_at(status, task_views(tasks@)),
    {
        match status {
            JobStatus::Waiting | JobStatus::Processing => {
                return None;
            },
            _ => {},
        }
        let ghost views = task_views(tasks@);
        let mut latest: Option<i64> = None;
        let mut i: usize = 0;
        while i < tasks.len()
            invariant
                i <= tasks.len(),
                views == task_views(tasks@),
                latest == latest_finish(views.take(i as int)),
            decreases tasks.len() - i,
        {
            assert(views.take(i + 1).drop_last() =~= views.take(i as int));
            latest = match (latest, tasks[i].finished_at) {
                (None, t) => t,
                (Some(e), None) => Some(e),
                (Some(e), Some(t)) => Some(if t > e { t } else { e }),
            };
            i += 1;
        }
        assert(views.take(i as int) =~= views);
        latest
    }

    /// Assembles the reported job from its stored header and its tasks. The status
    /// and the times follow from the tasks; no progress is attached yet.
    pub fn new(fetch: JobFetch, tasks: Vec<Task>) -> (job: Job)
        ensures
            job@ == assembled_job(fetch@, task_views(tasks@)),
    {
        let status = Job::status_from_tasks(tasks.as_slice());
        let started_at = Job::started_at_from_tasks(tasks.as_slice());
        let finished_at = Job::finished_at_from_tasks(status, tasks.as_slice());
        Job {
            tasks,
            status,
            job_id: fetch.job_id,
            thumbnail: fetch.thumbnail,
            url: fetch.url,
            format: fetch.format,
            created_at: fetch.created_at,
            started_at,
            finished_at,
            progress: HashMap::new(),
            prioritized: fetch.prioritized,
            title: fetch.title,
        }
    }
}

} // verus!
