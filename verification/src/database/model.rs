//! The store as a mathematical value, and each operation on it as a function
//! from the store before to the store after.

use vstd::prelude::*;
use crate::auth::user::{Session, UserView};
use crate::job::{assembled_job, JobFetchView, JobView};
use super::order::{by_task_index, newest_first, sort_by_key};
use crate::queue_command::QueueCommandView;
use crate::task::{TaskStatus, TaskView};

verus! {

/// Why the store refused an operation. A refused operation changes nothing.
#[derive(Clone, Copy, Debug, PartialEq, Eq, Structural)]
pub enum DatabaseError {
    /// No job has the requested identifier.
    JobNotFound,
    /// No user holds the presented API token.
    InvalidApiToken,
    /// A row to insert carries an identifier that is already taken.
    DuplicateId,
    /// A task row names a job that there is no row for.
    TaskWithoutJob,
    /// New tasks were addressed to a job that owns no task.
    JobHasNoTasks,
    /// The job has no task index left for the new tasks.
    TaskIndexOverflow,
}

/// Task counts by state. `num_active` counts the tasks that are `Processing`.
/// Paused tasks appear in the total only. A count that does not fit is reported
/// as `i32::MAX`.
#[derive(Clone, Copy, Debug, PartialEq, Eq, Structural)]
pub struct TaskStats {
    pub num_total: i32,
    pub num_active: i32,
    pub num_cancelled: i32,
    pub num_waiting: i32,
    pub num_done: i32,
    pub num_failed: i32,
}

/// The content of the store: its four tables, each in insertion order.
pub ghost struct StoreView {
    pub tasks: Seq<TaskView>,
    pub jobs: Seq<JobFetchView>,
    pub users: Seq<UserView>,
    pub sessions: Seq<Session>,
}

/// What the scheduler's sweep has to do: the tasks whose scratch directory is to
/// be removed, the tasks to delete, and how many tasks with such work pending
/// are still running.
pub ghost struct PendingOperationsView {
    pub cleanup: Seq<u128>,
    pub delete: Seq<u128>,
    pub num_busy: nat,
}

/// One change of the store.
pub ghost enum StoreEvent {
    /// A command was applied to a task.
    TaskCommand { task_id: u128, command: QueueCommandView, now: i64 },
    /// A command was applied to a job.
    JobCommand { job_id: u128, command: QueueCommandView, now: i64 },
    /// Up to `max_tasks` tasks were admitted.
    Admission { max_tasks: nat, now: i64 },
    /// The cleanup of some tasks was confirmed.
    Cleanup { ids: Seq<u128> },
    /// Some tasks were deleted.
    Deletion { ids: Seq<u128> },
    /// A job was created.
    JobCreation {
        job_id: u128,
        created_at: i64,
        task_id: u128,
        task_created_at: i64,
        url: Seq<char>,
        format: Seq<char>,
    },
    /// The store was reconciled at startup.
    Reset,
}

/// The outcome of a command that was sent to several jobs in turn: the store
/// afterwards, and the refusal that stopped the run, if one did.
pub ghost struct BatchOutcome {
    pub store: StoreView,
    pub error: Option<DatabaseError>,
}

/// The outcome of an admission: the task table afterwards, and the admitted
/// tasks as they stood before admission, in admission order.
pub ghost struct Admission {
    pub tasks: Seq<TaskView>,
    pub admitted: Seq<TaskView>,
}

/// No two tasks share an identifier.
pub open spec fn distinct_task_ids(tasks: Seq<TaskView>) -> bool {
    forall|i: int, j: int|
        0 <= i < j < tasks.len() ==> (#[trigger] tasks[i]).task_id != (#[trigger] tasks[j]).task_id
}

/// No two jobs share an identifier.
pub open spec fn distinct_job_ids(jobs: Seq<JobFetchView>) -> bool {
    forall|i: int, j: int|
        0 <= i < j < jobs.len() ==> (#[trigger] jobs[i]).job_id != (#[trigger] jobs[j]).job_id
}

/// Whether a job with identifier `job_id` is among `jobs`.
pub open spec fn job_exists(jobs: Seq<JobFetchView>, job_id: u128) -> bool {
    exists|j: int| 0 <= j < jobs.len() && (#[trigger] jobs[j]).job_id == job_id
}

/// Every task is owned by a job that is among `jobs`.
pub open spec fn owners_exist(tasks: Seq<TaskView>, jobs: Seq<JobFetchView>) -> bool {
    forall|i: int| 0 <= i < tasks.len() ==> job_exists(jobs, (#[trigger] tasks[i]).owner_job_id)
}

/// Whether `s[i]` is the first element of `s` that satisfies `pred`.
pub open spec fn is_first<T>(s: Seq<T>, pred: spec_fn(T) -> bool, i: int) -> bool {
    &&& 0 <= i < s.len()
    &&& pred(s[i])
    &&& forall|j: int| 0 <= j < i ==> !pred(#[trigger] s[j])
}

/// The first element of `s` that satisfies `pred`, if there is one.
pub open spec fn first_where<T>(s: Seq<T>, pred: spec_fn(T) -> bool) -> Option<T> {
    if exists|i: int| is_first(s, pred, i) {
        Some(s[choose|i: int| is_first(s, pred, i)])
    } else {
        None
    }
}

/// The identifiers of a run of tasks, in order.
pub open spec fn task_ids(tasks: Seq<TaskView>) -> Seq<u128> {
    tasks.map_values(|t: TaskView| t.task_id)
}

/// Selects the tasks that job `job_id` owns.
pub open spec fn owned_by(job_id: u128) -> spec_fn(TaskView) -> bool {
    |t: TaskView| t.owner_job_id == job_id
}

/// Selects the tasks in state `status`.
pub open spec fn in_state(status: TaskStatus) -> spec_fn(TaskView) -> bool {
    |t: TaskView| t.status == status
}

/// Selects the tasks that a scheduler may hand to a worker.
pub open spec fn admissible() -> spec_fn(TaskView) -> bool {
    |t: TaskView| t.admissible()
}

/// Selects the tasks whose scratch directory the sweep may remove now.
pub open spec fn cleanup_due() -> spec_fn(TaskView) -> bool {
    |t: TaskView| t.status != TaskStatus::Processing && t.pending_cleanup
}

/// Selects the tasks that the sweep may delete now.
pub open spec fn delete_due() -> spec_fn(TaskView) -> bool {
    |t: TaskView| t.status != TaskStatus::Processing && t.pending_delete
}

/// Selects the running tasks that have cleanup or deletion pending.
pub open spec fn busy_pending() -> spec_fn(TaskView) -> bool {
    |t: TaskView| t.status == TaskStatus::Processing && (t.pending_delete || t.pending_cleanup)
}

/// Selects the tasks whose identifier is not among `ids`.
pub open spec fn not_among(ids: Seq<u128>) -> spec_fn(TaskView) -> bool {
    |t: TaskView| !ids.contains(t.task_id)
}

/// Whether some task among `tasks` belongs to job `job_id`.
pub open spec fn job_owns_task(tasks: Seq<TaskView>, job_id: u128) -> bool {
    exists|i: int| 0 <= i < tasks.len() && (#[trigger] tasks[i]).owner_job_id == job_id
}

/// Selects the jobs that own at least one of `tasks`.
pub open spec fn owns_one_of(tasks: Seq<TaskView>) -> spec_fn(JobFetchView) -> bool {
    |j: JobFetchView| job_owns_task(tasks, j.job_id)
}

/// Selects the job with identifier `job_id`.
pub open spec fn job_with_id(job_id: u128) -> spec_fn(JobFetchView) -> bool {
    |j: JobFetchView| j.job_id == job_id
}

/// Selects the users that hold `api_token`.
pub open spec fn holds_token(api_token: Seq<char>) -> spec_fn(UserView) -> bool {
    |u: UserView| u.api_token == api_token
}

/// Selects the users called `name`.
pub open spec fn called(name: Seq<char>) -> spec_fn(UserView) -> bool {
    |u: UserView| u.name == name
}

/// Whether session `session_token` is bound to user `user_id`.
pub open spec fn session_bound(sessions: Seq<Session>, session_token: u128, user_id: u128) -> bool {
    exists|i: int|
        0 <= i < sessions.len() && (#[trigger] sessions[i]).session_token == session_token
            && sessions[i].user_id == user_id
}

/// Selects the users that hold `api_token` and own session `session_token`.
pub open spec fn holds_session(
    sessions: Seq<Session>,
    api_token: Seq<char>,
    session_token: u128,
) -> spec_fn(UserView) -> bool {
    |u: UserView| u.api_token == api_token && session_bound(sessions, session_token, u.user_id)
}

/// A count as the statistics report it: capped at `i32::MAX`.
pub open spec fn capped(n: nat) -> i32 {
    if n > i32::MAX {
        i32::MAX
    } else {
        n as i32
    }
}

/// A count as the sweep reports it: capped at `u32::MAX`.
pub open spec fn capped_u32(n: nat) -> u32 {
    if n > u32::MAX {
        u32::MAX
    } else {
        n as u32
    }
}

/// The statistics of a run of tasks.
pub open spec fn task_stats(tasks: Seq<TaskView>) -> TaskStats {
    TaskStats {
        num_total: capped(tasks.len()),
        num_active: capped(tasks.filter(in_state(TaskStatus::Processing)).len()),
        num_cancelled: capped(tasks.filter(in_state(TaskStatus::Cancelled)).len()),
        num_waiting: capped(tasks.filter(in_state(TaskStatus::Waiting)).len()),
        num_done: capped(tasks.filter(in_state(TaskStatus::Done)).len()),
        num_failed: capped(tasks.filter(in_state(TaskStatus::Failed)).len()),
    }
}

/// Whether `tasks[i]` is the task to be admitted next: it is admissible, and no
/// admissible task was created earlier, nor at the same time and stored before it.
pub open spec fn is_next_admissible(tasks: Seq<TaskView>, i: int) -> bool {
    &&& 0 <= i < tasks.len()
    &&& tasks[i].admissible()
    &&& forall|j: int|
        0 <= j < tasks.len() && (#[trigger] tasks[j]).admissible() ==> {
            ||| tasks[i].created_at < tasks[j].created_at
            ||| (tasks[i].created_at == tasks[j].created_at && i <= j)
        }
}

/// Admits the next task at `now`, if there is an admissible one.
pub open spec fn admit_next(tasks: Seq<TaskView>, now: i64) -> (Seq<TaskView>, Option<TaskView>) {
    if exists|i: int| is_next_admissible(tasks, i) {
        let i = choose|i: int| is_next_admissible(tasks, i);
        (tasks.update(i, tasks[i].admitted(now)), Some(tasks[i]))
    } else {
        (tasks, None)
    }
}

/// Admits up to `n` tasks at `now`, one after the other, each time the next
/// admissible one.
pub open spec fn admission(tasks: Seq<TaskView>, n: nat, now: i64) -> Admission
    decreases n,
{
    if n == 0 {
        Admission { tasks, admitted: Seq::empty() }
    } else {
        let before = admission(tasks, (n - 1) as nat, now);
        match admit_next(before.tasks, now) {
            (after, Some(task)) => Admission { tasks: after, admitted: before.admitted.push(task) },
            (_, None) => before,
        }
    }
}

/// The greatest task index among the tasks of job `job_id`, if it owns any.
pub open spec fn last_task_index(tasks: Seq<TaskView>, job_id: u128) -> Option<i32>
    decreases tasks.len(),
{
    if tasks.len() == 0 {
        None
    } else {
        let front = last_task_index(tasks.drop_last(), job_id);
        let task = tasks.last();
        if task.owner_job_id != job_id {
            front
        } else {
            match front {
                None => Some(task.task_index),
                Some(m) => Some(if task.task_index > m { task.task_index } else { m }),
            }
        }
    }
}

/// The rows that are stored for `new_tasks` when they are appended to job
/// `job_id` with task indices `first_index`, `first_index + 1`, and so on.
pub open spec fn appended_rows(new_tasks: Seq<TaskView>, job_id: u128, first_index: int) -> Seq<
    TaskView,
> {
    Seq::new(
        new_tasks.len(),
        |k: int| new_tasks[k].inserted_at(job_id, (first_index + k) as i32),
    )
}

impl StoreView {
    /// The store's invariant: identifiers are keys, and every task has its one
    /// owning job.
    pub open spec fn wf(self) -> bool {
        &&& distinct_task_ids(self.tasks)
        &&& distinct_job_ids(self.jobs)
        &&& owners_exist(self.tasks, self.jobs)
    }

    pub open spec fn has_task(self, task_id: u128) -> bool {
        exists|i: int| 0 <= i < self.tasks.len() && (#[trigger] self.tasks[i]).task_id == task_id
    }

    pub open spec fn has_job(self, job_id: u128) -> bool {
        job_exists(self.jobs, job_id)
    }

    /// The store after `command` was applied to task `task_id` at `now`.
    pub open spec fn after_task_command(
        self,
        task_id: u128,
        command: QueueCommandView,
        now: i64,
    ) -> StoreView {
        StoreView {
            tasks: self.tasks.map_values(
                |t: TaskView|
                    if t.task_id == task_id {
                        t.after_task_command(command, now)
                    } else {
                        t
                    },
            ),
            ..self
        }
    }

    /// The store after a state command was applied to every task of job `job_id`
    /// at `now`.
    pub open spec fn after_job_state_command(
        self,
        job_id: u128,
        command: QueueCommandView,
        now: i64,
    ) -> StoreView {
        StoreView {
            tasks: self.tasks.map_values(
                |t: TaskView|
                    if t.owner_job_id == job_id {
                        t.after_job_command(command, now)
                    } else {
                        t
                    },
            ),
            ..self
        }
    }

    /// The store after job `job_id` got a new title and thumbnail and `new_tasks`
    /// were appended, numbered from one past the job's greatest task index.
    pub open spec fn after_job_update(
        self,
        job_id: u128,
        job_title: Seq<char>,
        job_thumbnail: Seq<char>,
        new_tasks: Seq<TaskView>,
    ) -> Result<StoreView, DatabaseError> {
        match last_task_index(self.tasks, job_id) {
            None => Err(DatabaseError::JobHasNoTasks),
            Some(last) => {
                let tasks = self.tasks + appended_rows(new_tasks, job_id, last + 1);
                if last + new_tasks.len() > i32::MAX {
                    Err(DatabaseError::TaskIndexOverflow)
                } else if !distinct_task_ids(tasks) {
                    Err(DatabaseError::DuplicateId)
                } else {
                    Ok(
                        StoreView {
                            tasks,
                            jobs: self.jobs.map_values(
                                |j: JobFetchView|
                                    if j.job_id == job_id {
                                        JobFetchView {
                                            title: job_title,
                                            thumbnail: job_thumbnail,
                                            ..j
                                        }
                                    } else {
                                        j
                                    },
                            ),
                            ..self
                        },
                    )
                }
            },
        }
    }

    /// The store after `command` was applied to job `job_id` at `now`, or the
    /// reason why it was refused.
    pub open spec fn after_job_command(
        self,
        job_id: u128,
        command: QueueCommandView,
        now: i64,
    ) -> Result<StoreView, DatabaseError> {
        match command {
            QueueCommandView::JobUpdated { job_title, job_thumbnail, new_tasks } => {
                self.after_job_update(job_id, job_title, job_thumbnail, new_tasks)
            },
            _ => Ok(self.after_job_state_command(job_id, command, now)),
        }
    }

    /// The store after one change. A refused change leaves the store as it was.
    pub open spec fn after_event(self, event: StoreEvent) -> StoreView {
        match event {
            StoreEvent::TaskCommand { task_id, command, now } => self.after_task_command(
                task_id,
                command,
                now,
            ),
            StoreEvent::JobCommand { job_id, command, now } => match self.after_job_command(
                job_id,
                command,
                now,
            ) {
                Ok(store) => store,
                Err(_) => self,
            },
            StoreEvent::Admission { max_tasks, now } => self.after_admission(max_tasks, now),
            StoreEvent::Cleanup { ids } => self.after_cleanup(ids),
            StoreEvent::Deletion { ids } => self.after_deletion(ids),
            StoreEvent::JobCreation { job_id, created_at, task_id, task_created_at, url, format } => {
                match self.after_job_creation(
                    job_id,
                    created_at,
                    task_id,
                    task_created_at,
                    url,
                    format,
                ) {
                    Ok(store) => store,
                    Err(_) => self,
                }
            },
            StoreEvent::Reset => self.after_reset(),
        }
    }

    /// The store after a run of changes, in order.
    pub open spec fn after_events(self, events: Seq<StoreEvent>) -> StoreView
        decreases events.len(),
    {
        if events.len() == 0 {
            self
        } else {
            self.after_events(events.drop_last()).after_event(events.last())
        }
    }

    /// The identifiers of all jobs, from the newest job to the oldest.
    pub open spec fn job_ids_newest_first(self) -> Seq<u128> {
        sort_by_key(self.jobs, newest_first()).map_values(|j: JobFetchView| j.job_id)
    }

    /// The outcome of sending `command` at `now` to the jobs `job_ids`, one after
    /// the other, up to the first refusal. What earlier jobs received stays in
    /// effect when a later job refuses.
    pub open spec fn after_command_on_jobs(
        self,
        job_ids: Seq<u128>,
        command: QueueCommandView,
        now: i64,
    ) -> BatchOutcome
        decreases job_ids.len(),
    {
        if job_ids.len() == 0 {
            BatchOutcome { store: self, error: None }
        } else {
            let before = self.after_command_on_jobs(job_ids.drop_last(), command, now);
            if before.error is Some {
                before
            } else {
                match before.store.after_job_command(job_ids.last(), command, now) {
                    Ok(store) => BatchOutcome { store, error: None },
                    Err(e) => BatchOutcome { store: before.store, error: Some(e) },
                }
            }
        }
    }

    /// The outcome of sending `command` at `now` to every job, from the newest to
    /// the oldest.
    pub open spec fn after_command_on_all_jobs(self, command: QueueCommandView, now: i64) -> BatchOutcome {
        self.after_command_on_jobs(self.job_ids_newest_first(), command, now)
    }

    /// The store after up to `n` tasks were admitted at `now`.
    pub open spec fn after_admission(self, n: nat, now: i64) -> StoreView {
        StoreView { tasks: admission(self.tasks, n, now).tasks, ..self }
    }

    /// What the sweep has to do.
    pub open spec fn pending_operations(self) -> PendingOperationsView {
        PendingOperationsView {
            cleanup: task_ids(self.tasks.filter(cleanup_due())),
            delete: task_ids(self.tasks.filter(delete_due())),
            num_busy: self.tasks.filter(busy_pending()).len(),
        }
    }

    /// The store after the cleanup of the tasks `ids` was confirmed.
    pub open spec fn after_cleanup(self, ids: Seq<u128>) -> StoreView {
        StoreView {
            tasks: self.tasks.map_values(
                |t: TaskView|
                    if ids.contains(t.task_id) {
                        TaskView { pending_cleanup: false, ..t }
                    } else {
                        t
                    },
            ),
            ..self
        }
    }

    /// The store after the tasks `ids` were deleted, and with them every job that
    /// was left without a task.
    pub open spec fn after_deletion(self, ids: Seq<u128>) -> StoreView {
        let tasks = self.tasks.filter(not_among(ids));
        StoreView { tasks, jobs: self.jobs.filter(owns_one_of(tasks)), ..self }
    }

    /// The header that is stored for a new job.
    pub open spec fn new_job_row(
        job_id: u128,
        created_at: i64,
        url: Seq<char>,
        format: Seq<char>,
    ) -> JobFetchView {
        JobFetchView {
            job_id,
            thumbnail: Seq::empty(),
            url,
            format,
            created_at,
            prioritized: false,
            title: "..."@,
        }
    }

    /// The store after a job was created with its URL-expansion task, or the
    /// reason why it was refused.
    pub open spec fn after_job_creation(
        self,
        job_id: u128,
        created_at: i64,
        task_id: u128,
        task_created_at: i64,
        url: Seq<char>,
        format: Seq<char>,
    ) -> Result<StoreView, DatabaseError> {
        if self.has_job(job_id) || self.has_task(task_id) {
            Err(DatabaseError::DuplicateId)
        } else {
            Ok(
                StoreView {
                    jobs: self.jobs.push(Self::new_job_row(job_id, created_at, url, format)),
                    tasks: self.tasks.push(
                        TaskView::fetch(
                            task_id,
                            task_created_at,
                            job_id,
                            url,
                            format,
                            Seq::empty(),
                        ),
                    ),
                    ..self
                },
            )
        }
    }

    /// The store after startup reconciliation.
    pub open spec fn after_reset(self) -> StoreView {
        StoreView { tasks: self.tasks.map_values(|t: TaskView| t.reset()), ..self }
    }

    /// The job `job_id` as it is reported, if the store holds it.
    pub open spec fn job(self, job_id: u128) -> Option<JobView> {
        match first_where(self.jobs, job_with_id(job_id)) {
            Some(row) => Some(assembled_job(row, self.tasks.filter(owned_by(job_id)))),
            None => None,
        }
    }

    /// Every job as it is reported, from the newest to the oldest, each with its
    /// tasks in the order of their task indices.
    pub open spec fn all_jobs(self) -> Seq<JobView> {
        let tasks = sort_by_key(self.tasks, by_task_index());
        sort_by_key(self.jobs, newest_first()).map_values(
            |row: JobFetchView| assembled_job(row, tasks.filter(owned_by(row.job_id))),
        )
    }

    /// The statistics of the tasks of job `job_id`.
    pub open spec fn job_task_stats(self, job_id: u128) -> TaskStats {
        task_stats(self.tasks.filter(owned_by(job_id)))
    }

    /// The store after user `user` was added.
    pub open spec fn after_new_user(self, user: UserView) -> StoreView {
        StoreView { users: self.users.push(user), ..self }
    }

    /// The user that a request with these two tokens acts for, if any.
    pub open spec fn session_user(self, api_token: Seq<char>, session_token: u128) -> Option<
        UserView,
    > {
        first_where(self.users, holds_session(self.sessions, api_token, session_token))
    }

    /// The store after a session with token `session_token` was opened for the
    /// holder of `api_token`, or the reason why it was refused.
    pub open spec fn after_new_session(self, api_token: Seq<char>, session_token: u128) -> Result<
        StoreView,
        DatabaseError,
    > {
        match first_where(self.users, holds_token(api_token)) {
            Some(user) => Ok(
                StoreView {
                    sessions: self.sessions.push(Session { session_token, user_id: user.user_id }),
                    ..self
                },
            ),
            None => Err(DatabaseError::InvalidApiToken),
        }
    }

    /// The store without any session.
    pub open spec fn after_session_expiry(self) -> StoreView {
        StoreView { sessions: Seq::empty(), ..self }
    }
}

/// Whether `after` is `before` with the administrator provisioned: unchanged if
/// a user of that name exists, else with one more user of that name whose token
/// has the shape of an API token.
pub open spec fn provisioned(before: Seq<UserView>, after: Seq<UserView>) -> bool {
    if first_where(before, called("admin"@)) is Some {
        after == before
    } else {
        &&& after.len() == before.len() + 1
        &&& after.drop_last() == before
        &&& after.last().name == "admin"@
        &&& crate::auth::user::is_api_token(after.last().api_token)
    }
}

/// What `first_where` returns, from a position that is known to be the first.
pub proof fn lemma_first_is<T>(s: Seq<T>, pred: spec_fn(T) -> bool, i: int)
    requires
        is_first(s, pred, i),
    ensures
        first_where(s, pred) == Some(s[i]),
{
    let c = choose|c: int| is_first(s, pred, c);
    lemma_first_unique(s, pred, i, c);
}

/// A run of commands that was refused after `k` jobs has the outcome it had
/// then.
pub proof fn lemma_batch_stops(
    store: StoreView,
    job_ids: Seq<u128>,
    command: QueueCommandView,
    now: i64,
    k: int,
)
    requires
        0 <= k <= job_ids.len(),
        store.after_command_on_jobs(job_ids.take(k), command, now).error is Some,
    ensures
        store.after_command_on_jobs(job_ids, command, now) == store.after_command_on_jobs(
            job_ids.take(k),
            command,
            now,
        ),
    decreases job_ids.len() - k,
{
    if k < job_ids.len() {
        assert(job_ids.take(k + 1).drop_last() =~= job_ids.take(k));
        lemma_batch_stops(store, job_ids, command, now, k + 1);
    } else {
        assert(job_ids.take(k) =~= job_ids);
    }
}

/// Two first elements under one predicate are the same element.
pub proof fn lemma_first_unique<T>(s: Seq<T>, pred: spec_fn(T) -> bool, i: int, j: int)
    requires
        is_first(s, pred, i),
        is_first(s, pred, j),
    ensures
        i == j,
{
    if i < j {
        assert(!pred(s[i]));
    } else if j < i {
        assert(!pred(s[j]));
    }
}

/// The task to be admitted next is determined.
pub proof fn lemma_next_admissible_unique(tasks: Seq<TaskView>, i: int, j: int)
    requires
        is_next_admissible(tasks, i),
        is_next_admissible(tasks, j),
    ensures
        i == j,
{
    assert(tasks[i].admissible());
    assert(tasks[j].admissible());
}

/// Once no task is admissible, asking for more admissions changes nothing.
pub proof fn lemma_admission_exhausted(tasks: Seq<TaskView>, k: nat, n: nat, now: i64)
    requires
        k <= n,
        forall|i: int| !is_next_admissible(admission(tasks, k, now).tasks, i),
    ensures
        admission(tasks, n, now) == admission(tasks, k, now),
    decreases n,
{
    if k < n {
        lemma_admission_exhausted(tasks, k, (n - 1) as nat, now);
    }
}

} // verus!
