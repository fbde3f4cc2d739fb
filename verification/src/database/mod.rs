//! The store of jobs, tasks, users and sessions.
//!
//! The store holds its four tables in memory, each in insertion order, and
//! changes them only through the operations below. Every operation states the
//! store afterwards as a function of the store before. An operation that reads
//! the clock or draws an identifier has a twin, named with `_at`, that takes the
//! reading as an argument.

pub mod laws;
pub mod model;
pub mod order;
pub mod tables;

use vstd::prelude::*;
use crate::auth::user::{
    random_token,
    seeded_generator,
    user_views,
    Session,
    User,
    UserView,
};
use crate::job::{assembled_job, job_fetch_views, job_views, Job, JobFetchView};
use crate::platform::{current_time, fresh_id, same_text};
use crate::queue_command::QueueCommand;
use crate::task::{task_views, Task, TaskStatus, TaskView};
use crate::web_api::NewJobForm;

pub use crate::job::JobFetch;
pub use model::{DatabaseError, PendingOperationsView, StoreView, TaskStats};
use model::{
    admission,
    appended_rows,
    called,
    distinct_job_ids,
    distinct_task_ids,
    first_where,
    holds_session,
    holds_token,
    is_first,
    is_next_admissible,
    job_with_id,
    last_task_index,
    lemma_admission_exhausted,
    lemma_batch_stops,
    lemma_first_is,
    lemma_next_admissible_unique,
    owned_by,
    provisioned,
    session_bound,
    task_stats,
};

verus! {

/// The store.
pub struct ServerDatabase {
    tasks: Vec<Task>,
    jobs: Vec<JobFetch>,
    users: Vec<User>,
    sessions: Vec<Session>,
    rng: rand_chacha::ChaCha20Rng,
}

/// What the scheduler's sweep has to do: the tasks whose scratch directory is to
/// be removed, the tasks to delete, and how many tasks with such work pending
/// are still running (capped at `u32::MAX`).
pub struct PendingOperations {
    pub cleanup: Vec<u128>,
    pub delete: Vec<u128>,
    pub num_busy: u32,
}

impl PendingOperations {
    /// Whether there is nothing to clean up and nothing to delete.
    pub fn is_empty(&self) -> (empty: bool)
        ensures
            empty == (self.cleanup@.len() == 0 && self.delete@.len() == 0),
    {
        self.cleanup.is_empty() && self.delete.is_empty()
    }
}

impl View for ServerDatabase {
    type V = StoreView;

    closed spec fn view(&self) -> StoreView {
        StoreView {
            tasks: task_views(self.tasks@),
            jobs: job_fetch_views(self.jobs@),
            users: user_views(self.users@),
            sessions: self.sessions@,
        }
    }
}

impl ServerDatabase {
    /// Opens a store on the rows that were loaded from disk: provisions the
    /// administrator if no user of that name exists, and fails all work that was
    /// queued or running when the rows were written. Rows whose identifiers are
    /// not keys are refused, and so are task rows without the row of their job.
    pub fn open(
        tasks: Vec<Task>,
        jobs: Vec<JobFetch>,
        users: Vec<User>,
        sessions: Vec<Session>,
    ) -> (result: Result<ServerDatabase, DatabaseError>)
        ensures
            match result {
                Ok(db) => {
                    &&& db@.wf()
                    &&& db@.tasks == task_views(tasks@).map_values(|t: TaskView| t.reset())
                    &&& db@.jobs == job_fetch_views(jobs@)
                    &&& db@.sessions == sessions@
                    &&& provisioned(user_views(users@), db@.users)
                },
                Err(e) => e == if !(distinct_task_ids(task_views(tasks@)) && distinct_job_ids(
                    job_fetch_views(jobs@),
                )) {
                    DatabaseError::DuplicateId
                } else {
                    DatabaseError::TaskWithoutJob
                },
            },
            result is Ok <==> {
                &&& distinct_task_ids(task_views(tasks@))
                &&& distinct_job_ids(job_fetch_views(jobs@))
                &&& model::owners_exist(task_views(tasks@), job_fetch_views(jobs@))
            },
    {
        if !tables::has_distinct_task_ids(&tasks) || !tables::has_distinct_job_ids(&jobs) {
            return Err(DatabaseError::DuplicateId);
        }
        if !tables::has_owners(&tasks, &jobs) {
            return Err(DatabaseError::TaskWithoutJob);
        }
        let rng = seeded_generator();
        let mut db = ServerDatabase { tasks, jobs, users, sessions, rng };
        db.init_tables();
        db.reset_state();
        Ok(db)
    }

    /// Provisions the administrator if no user of that name exists.
    fn init_tables(&mut self)
        requires
            old(self)@.wf(),
        ensures
            final(self)@.tasks == old(self)@.tasks,
            final(self)@.jobs == old(self)@.jobs,
            final(self)@.sessions == old(self)@.sessions,
            provisioned(old(self)@.users, final(self)@.users),
            final(self)@.wf(),
    {
        let admin_user = self.get_user_by_name(User::admin_user_name());
        if admin_user.is_none() {
            let name = User::admin_user_name();
            let password = User::generate_api_token(&mut self.rng);
            let ghost before = self@.users;
            self.add_user(name, password.as_str());
            assert(self@.users.drop_last() =~= before);
        }
    }

    /// Fails every task that was queued or running, with `finished_at` set to
    /// `started_at`.
    fn reset_state(&mut self)
        requires
            old(self)@.wf(),
        ensures
            final(self)@ == old(self)@.after_reset(),
            final(self)@.wf(),
    {
        tables::reset_tasks(&mut self.tasks);
        proof {
            tables::lemma_same_keys_well_formed(old(self)@, self@);
            assert(self@.tasks =~= old(self)@.after_reset().tasks);
        }
    }

    /// Whether the store's invariant holds. Every store is built so.
    pub fn is_well_formed(&self) -> (wf: bool)
        ensures
            wf == self@.wf(),
    {
        tables::has_distinct_task_ids(&self.tasks) && tables::has_distinct_job_ids(&self.jobs)
            && tables::has_owners(&self.tasks, &self.jobs)
    }

    /// The task table, in insertion order.
    pub fn tasks(&self) -> (tasks: &Vec<Task>)
        ensures
            task_views(tasks@) == self@.tasks,
    {
        &self.tasks
    }

    /// The job table, in insertion order.
    pub fn jobs(&self) -> (jobs: &Vec<JobFetch>)
        ensures
            job_fetch_views(jobs@) == self@.jobs,
    {
        &self.jobs
    }

    /// The user table, in insertion order.
    pub fn users(&self) -> (users: &Vec<User>)
        ensures
            user_views(users@) == self@.users,
    {
        &self.users
    }

    /// The session table, in insertion order.
    pub fn sessions(&self) -> (sessions: &Vec<Session>)
        ensures
            sessions@ == self@.sessions,
    {
        &self.sessions
    }

    /// Admits up to `max_tasks` tasks at time `now`: each time the waiting task
    /// that is not scheduled for removal and was created first. Returns the
    /// admitted tasks as they stood before admission, in admission order.
    pub fn acquire_tasks_at(&mut self, max_tasks: u32, now: i64) -> (admitted: Vec<Task>)
        requires
            old(self)@.wf(),
        ensures
            final(self)@ == old(self)@.after_admission(max_tasks as nat, now),
            task_views(admitted@) == admission(old(self)@.tasks, max_tasks as nat, now).admitted,
            final(self)@.wf(),
    {
        let ghost start = self@.tasks;
        let mut admitted: Vec<Task> = Vec::new();
        let mut k: u32 = 0;
        let mut exhausted = false;
        assert(task_views(admitted@) =~= admission(start, 0, now).admitted);
        while k < max_tasks && !exhausted
            invariant
                k <= max_tasks,
                start == old(self)@.tasks,
                self.jobs == old(self).jobs,
                self.users == old(self).users,
                self.sessions == old(self).sessions,
                self@.tasks == admission(start, k as nat, now).tasks,
                task_views(admitted@) == admission(start, k as nat, now).admitted,
                self@.tasks.len() == start.len(),
                forall|i: int|
                    0 <= i < start.len() ==> (#[trigger] self@.tasks[i]).task_id
                        == start[i].task_id && self@.tasks[i].owner_job_id
                        == start[i].owner_job_id,
                exhausted ==> forall|i: int| !is_next_admissible(self@.tasks, i),
            decreases max_tasks - k, (if exhausted { 0int } else { 1int }),
        {
            let ghost current = self@.tasks;
            match tables::find_next_admissible(&self.tasks) {
                None => {
                    exhausted = true;
                },
                Some(i) => {
                    proof {
                        let c = choose|c: int| is_next_admissible(current, c);
                        lemma_next_admissible_unique(current, i as int, c);
                    }
                    let ghost snapshots = task_views(admitted@);
                    admitted.push(self.tasks[i].clone());
                    self.tasks[i].status = TaskStatus::Processing;
                    self.tasks[i].started_at = Some(now);
                    self.tasks[i].finished_at = None;
                    k += 1;
                    assert(self@.tasks =~= current.update(i as int, current[i as int].admitted(now)));
                    assert(task_views(admitted@) =~= snapshots.push(current[i as int]));
                },
            }
        }
        proof {
            if exhausted {
                lemma_admission_exhausted(start, k as nat, max_tasks as nat, now);
            }
            tables::lemma_same_keys_well_formed(old(self)@, self@);
        }
        admitted
    }

    /// Admits up to `max_tasks` tasks at the current time. See
    /// [`ServerDatabase::acquire_tasks_at`].
    pub fn acquire_tasks(&mut self, max_tasks: u32) -> (admitted: Vec<Task>)
        requires
            old(self)@.wf(),
        ensures
            exists|now: i64|
                {
                    &&& final(self)@ == old(self)@.after_admission(max_tasks as nat, now)
                    &&& task_views(admitted@) == #[trigger] admission(
                        old(self)@.tasks,
                        max_tasks as nat,
                        now,
                    ).admitted
                },
            final(self)@.wf(),
    {
        let started_at = current_time();
        self.acquire_tasks_at(max_tasks, started_at)
    }

    /// The task counts of the whole store.
    pub fn get_global_task_stats(&self) -> (stats: TaskStats)
        ensures
            stats == task_stats(self@.tasks),
    {
        tables::stats_of(&self.tasks)
    }

    /// The task counts of job `job_id`.
    pub fn get_job_task_stats(&self, job_id: u128) -> (stats: TaskStats)
        ensures
            stats == self@.job_task_stats(job_id),
    {
        let owned = tables::tasks_owned_by(&self.tasks, job_id);
        tables::stats_of(&owned)
    }

    /// What the sweep has to do now: cleanup and deletion are due for tasks that
    /// are not running; the running ones with such work pending are counted.
    pub fn get_pending_operations(&self) -> (pending: PendingOperations)
        ensures
            pending.cleanup@ == self@.pending_operations().cleanup,
            pending.delete@ == self@.pending_operations().delete,
            pending.num_busy == model::capped_u32(self@.pending_operations().num_busy),
    {
        PendingOperations {
            delete: tables::delete_due_ids(&self.tasks),
            cleanup: tables::cleanup_due_ids(&self.tasks),
            num_busy: tables::count_busy_pending(&self.tasks),
        }
    }

    /// Deletes the tasks `tasks`, and then every job that is left without a task.
    pub fn confirm_deletion(&mut self, tasks: &[u128])
        requires
            old(self)@.wf(),
        ensures
            final(self)@ == old(self)@.after_deletion(tasks@),
            final(self)@.wf(),
    {
        let kept = tables::without_tasks(&self.tasks, tasks);
        let jobs = tables::jobs_with_tasks(&self.jobs, &kept);
        proof {
            laws::lemma_deletion_keeps_well_formed(self@, tasks@);
        }
        self.tasks = kept;
        self.jobs = jobs;
    }

    /// Records that the scratch directories of the tasks `tasks` are gone.
    pub fn confirm_cleanup(&mut self, tasks: &[u128])
        requires
            old(self)@.wf(),
        ensures
            final(self)@ == old(self)@.after_cleanup(tasks@),
            final(self)@.wf(),
    {
        tables::clear_cleanup(&mut self.tasks, tasks);
        proof {
            tables::lemma_same_keys_well_formed(old(self)@, self@);
            assert(self@.tasks =~= old(self)@.after_cleanup(tasks@).tasks);
        }
    }

    /// Creates a job for `new_job` with the given identifiers and creation times,
    /// and with it the job's URL-expansion task. Returns the job as it is reported.
    /// Refused if an identifier is taken.
    pub fn create_job_at(
        &mut self,
        new_job: &NewJobForm,
        job_id: u128,
        created_at: i64,
        task_id: u128,
        task_created_at: i64,
    ) -> (result: Result<Job, DatabaseError>)
        requires
            old(self)@.wf(),
        ensures
            match old(self)@.after_job_creation(
                job_id,
                created_at,
                task_id,
                task_created_at,
                new_job.url@,
                new_job.format@,
            ) {
                Ok(store) => {
                    &&& final(self)@ == store
                    &&& result matches Ok(job)
                    &&& job@ == assembled_job(store.jobs.last(), seq![store.tasks.last()])
                },
                Err(e) => result == Err::<Job, DatabaseError>(e) && final(self)@ == old(self)@,
            },
            final(self)@.wf(),
    {
        if tables::holds_job_id(&self.jobs, job_id) || tables::holds_task_id(&self.tasks, task_id) {
            return Err(DatabaseError::DuplicateId);
        }
        let row = JobFetch {
            job_id,
            thumbnail: String::new(),
            url: new_job.url.clone(),
            format: new_job.format.clone(),
            created_at,
            prioritized: false,
            title: "...".to_string(),
        };
        let task = Task::fetch_url_contents_at(
            task_id,
            task_created_at,
            job_id,
            new_job.url.as_str(),
            new_job.format.as_str(),
            "",
        );
        proof {
            reveal_strlit("");
            assert(""@ =~= Seq::<char>::empty());
        }
        let ghost store = old(self)@.after_job_creation(
            job_id,
            created_at,
            task_id,
            task_created_at,
            new_job.url@,
            new_job.format@,
        )->Ok_0;
        self.jobs.push(row.clone());
        self.tasks.push(task.clone());
        assert(self@.jobs =~= store.jobs);
        assert(self@.tasks =~= store.tasks);
        proof {
            assert(store.jobs.drop_last() =~= old(self)@.jobs);
            assert(store.tasks.drop_last() =~= old(self)@.tasks);
            laws::lemma_job_creation_keeps_well_formed(old(self)@, store);
        }
        let mut tasks: Vec<Task> = Vec::new();
        tasks.push(task);
        assert(task_views(tasks@) =~= seq![store.tasks.last()]);
        Ok(Job::new(row, tasks))
    }

    /// Creates a job for `new_job`, with freshly drawn identifiers and the current
    /// time. See [`ServerDatabase::create_job_at`].
    pub fn create_job(&mut self, new_job: &NewJobForm) -> (result: Result<Job, DatabaseError>)
        requires
            old(self)@.wf(),
        ensures
            exists|job_id: u128, created_at: i64, task_id: u128, task_created_at: i64|
                match #[trigger] old(self)@.after_job_creation(
                    job_id,
                    created_at,
                    task_id,
                    task_created_at,
                    new_job.url@,
                    new_job.format@,
                ) {
                    Ok(store) => {
                        &&& final(self)@ == store
                        &&& result matches Ok(job)
                        &&& job@ == assembled_job(store.jobs.last(), seq![store.tasks.last()])
                    },
                    Err(e) => result == Err::<Job, DatabaseError>(e) && final(self)@ == old(
                        self,
                    )@,
                },
            final(self)@.wf(),
    {
        let job_id = fresh_id();
        let created_at = current_time();
        let task_created_at = current_time();
        let task_id = fresh_id();
        self.create_job_at(new_job, job_id, created_at, task_id, task_created_at)
    }

    /// Sends `command` at time `now` to every job in turn, from the newest to the
    /// oldest, and stops at the first job that refuses it.
    pub fn modify_all_jobs_at(&mut self, command: QueueCommand, now: i64) -> (result: Result<
        (),
        DatabaseError,
    >)
        requires
            old(self)@.wf(),
        ensures
            final(self)@ == old(self)@.after_command_on_all_jobs(command@, now).store,
            match old(self)@.after_command_on_all_jobs(command@, now).error {
                None => result is Ok,
                Some(e) => result == Err::<(), DatabaseError>(e),
            },
            final(self)@.wf(),
    {
        let rows = order::jobs_newest_first(&self.jobs);
        let ghost ids = self@.job_ids_newest_first();
        assert(ids.len() == rows.len());
        let mut i: usize = 0;
        while i < rows.len()
            invariant
                i <= rows.len(),
                ids.len() == rows.len(),
                ids == old(self)@.job_ids_newest_first(),
                forall|k: int| 0 <= k < rows.len() ==> ids[k] == (#[trigger] rows[k]).job_id,
                self@.wf(),
                old(self)@.after_command_on_jobs(ids.take(i as int), command@, now)
                    == (model::BatchOutcome { store: self@, error: None }),
            decreases rows.len() - i,
        {
            let copy = command.clone();
            proof {
                assert(ids.take(i + 1).drop_last() =~= ids.take(i as int));
                assert(ids.take(i + 1).last() == rows[i as int].job_id);
            }
            let ghost before = self@;
            match self.modify_job_at(rows[i].job_id, copy, now) {
                Ok(()) => {},
                Err(e) => {
                    proof {
                        assert(before.after_job_command(ids.take(i + 1).last(), command@, now)
                            == Err::<StoreView, DatabaseError>(e));
                        assert(old(self)@.after_command_on_jobs(ids.take(i + 1), command@, now)
                            == (model::BatchOutcome { store: before, error: Some(e) }));
                        lemma_batch_stops(
                            old(self)@,
                            ids,
                            command@,
                            now,
                            i as int + 1,
                        );
                    }
                    return Err(e);
                },
            }
            i += 1;
        }
        assert(ids.take(i as int) =~= ids);
        Ok(())
    }

    /// Sends `command` at the current time to every job. See
    /// [`ServerDatabase::modify_all_jobs_at`].
    pub fn modify_all_jobs(&mut self, command: QueueCommand) -> (result: Result<(), DatabaseError>)
        requires
            old(self)@.wf(),
        ensures
            exists|now: i64|
                {
                    &&& final(self)@ == #[trigger] old(self)@.after_command_on_all_jobs(
                        command@,
                        now,
                    ).store
                    &&& match old(self)@.after_command_on_all_jobs(command@, now).error {
                        None => result is Ok,
                        Some(e) => result == Err::<(), DatabaseError>(e),
                    }
                },
            final(self)@.wf(),
    {
        let now = current_time();
        self.modify_all_jobs_at(command, now)
    }

    /// Applies `command` to job `job_id` at time `now`.
    ///
    /// A state command acts on every task of the job that is in a state the
    /// command applies to. `JobUpdated` rewrites the job's title and thumbnail and
    /// appends the new tasks, numbered from one past the job's greatest task
    /// index; it is refused, and changes nothing, if the job owns no task, if the
    /// indices would overflow, or if a new task's identifier is taken.
    pub fn modify_job_at(&mut self, job_id: u128, command: QueueCommand, now: i64) -> (result:
        Result<(), DatabaseError>)
        requires
            old(self)@.wf(),
        ensures
            match old(self)@.after_job_command(job_id, command@, now) {
                Ok(store) => result is Ok && final(self)@ == store,
                Err(e) => result == Err::<(), DatabaseError>(e) && final(self)@ == old(self)@,
            },
            final(self)@.wf(),
    {
        match command {
            QueueCommand::JobUpdated { job_title, job_thumbnail, new_tasks } => {
                self.update_job(job_id, job_title, job_thumbnail, new_tasks)
            },
            _ => {
                tables::apply_job_command(&mut self.tasks, job_id, &command, now);
                proof {
                    tables::lemma_same_keys_well_formed(old(self)@, self@);
                    assert(self@.tasks =~= old(self)@.after_job_state_command(
                        job_id,
                        command@,
                        now,
                    ).tasks);
                }
                Ok(())
            },
        }
    }

    /// Rewrites the header of job `job_id` and appends `new_tasks` to it.
    fn update_job(
        &mut self,
        job_id: u128,
        job_title: String,
        job_thumbnail: String,
        new_tasks: Vec<Task>,
    ) -> (result: Result<(), DatabaseError>)
        requires
            old(self)@.wf(),
        ensures
            match old(self)@.after_job_update(
                job_id,
                job_title@,
                job_thumbnail@,
                task_views(new_tasks@),
            ) {
                Ok(store) => result is Ok && final(self)@ == store,
                Err(e) => result == Err::<(), DatabaseError>(e) && final(self)@ == old(self)@,
            },
            final(self)@.wf(),
    {
        let last = match tables::find_last_task_index(&self.tasks, job_id) {
            None => {
                return Err(DatabaseError::JobHasNoTasks);
            },
            Some(last) => last,
        };
        if new_tasks.len() > (0x7fff_ffff - last as i64) as usize {
            return Err(DatabaseError::TaskIndexOverflow);
        }
        let ghost new_views = task_views(new_tasks@);
        let ghost rows = appended_rows(new_views, job_id, last + 1);
        let ghost start = self@.tasks;
        // the rows to append, checked against the table and against each other
        let mut fresh: Vec<Task> = Vec::new();
        let mut k: usize = 0;
        while k < new_tasks.len()
            invariant
                k <= new_tasks.len(),
                self@ == old(self)@,
                old(self)@.wf(),
                start == self@.tasks,
                last_task_index(start, job_id) == Some(last),
                distinct_task_ids(start),
                new_views == task_views(new_tasks@),
                rows == appended_rows(new_views, job_id, last + 1),
                last + new_tasks.len() <= i32::MAX,
                fresh.len() == k,
                task_views(fresh@) == rows.take(k as int),
                distinct_task_ids(start + rows.take(k as int)),
            decreases new_tasks.len() - k,
        {
            let id = new_tasks[k].task_id;
            let in_table = tables::holds_task_id(&self.tasks, id);
            let in_fresh = tables::holds_task_id(&fresh, id);
            if in_table || in_fresh {
                proof {
                    let both = start + rows.take(k as int);
                    assert(rows[k as int].task_id == id);
                    if in_table {
                        let w = choose|w: int|
                            0 <= w < start.len() && (#[trigger] start[w]).task_id == id;
                        assert(both[w].task_id == id);
                    } else {
                        let w = choose|w: int|
                            0 <= w < fresh.len() && (#[trigger] task_views(fresh@)[w]).task_id
                                == id;
                        assert(both[start.len() + w] == rows.take(k as int)[w]);
                        assert(both[start.len() + w].task_id == id);
                    }
                    laws::lemma_taken_id_breaks_distinct(start, rows, k as int);
                }
                return Err(DatabaseError::DuplicateId);
            }
            let mut row = new_tasks[k].clone();
            row.owner_job_id = job_id;
            row.task_index = (last as i64 + 1 + k as i64) as i32;
            row.started_at = None;
            row.prioritized = false;
            row.is_resumed = false;
            row.pending_cleanup = false;
            row.pending_delete = false;
            proof {
                assert(row@ == rows[k as int]);
                tables::lemma_take_next(rows, k as int);
                laws::lemma_fresh_id_keeps_distinct(start + rows.take(k as int), row@);
                assert((start + rows.take(k as int)).push(row@) =~= start + rows.take(k + 1));
            }
            let ghost before = fresh@;
            fresh.push(row);
            assert(task_views(fresh@) =~= task_views(before).push(rows[k as int]));
            k += 1;
        }
        assert(rows.take(k as int) =~= rows);
        let mut i: usize = 0;
        while i < self.jobs.len()
            invariant
                i <= self.jobs.len(),
                self.jobs.len() == old(self).jobs.len(),
                self.tasks == old(self).tasks,
                self.users == old(self).users,
                self.sessions == old(self).sessions,
                forall|j: int|
                    0 <= j < i ==> (#[trigger] self.jobs[j])@ == if old(self).jobs[j].job_id
                        == job_id {
                        JobFetchView {
                            title: job_title@,
                            thumbnail: job_thumbnail@,
                            ..old(self).jobs[j]@
                        }
                    } else {
                        old(self).jobs[j]@
                    },
                forall|j: int| i <= j < self.jobs.len() ==> (#[trigger] self.jobs[j]) == old(
                    self,
                ).jobs[j],
            decreases self.jobs.len() - i,
        {
            if self.jobs[i].job_id == job_id {
                self.jobs[i].title = job_title.clone();
                self.jobs[i].thumbnail = job_thumbnail.clone();
            }
            i += 1;
        }
        self.tasks.append(&mut fresh);
        proof {
            let store = old(self)@.after_job_update(
                job_id,
                job_title@,
                job_thumbnail@,
                new_views,
            )->Ok_0;
            assert(self@.tasks =~= start + rows);
            assert(self@.jobs =~= store.jobs);
            laws::lemma_job_update_keeps_well_formed(old(self)@, self@, job_id, rows);
        }
        Ok(())
    }

    /// Applies `command` to job `job_id` at the current time. See
    /// [`ServerDatabase::modify_job_at`].
    pub fn modify_job(&mut self, job_id: u128, command: QueueCommand) -> (result: Result<
        (),
        DatabaseError,
    >)
        requires
            old(self)@.wf(),
        ensures
            exists|now: i64|
                match #[trigger] old(self)@.after_job_command(job_id, command@, now) {
                    Ok(store) => result is Ok && final(self)@ == store,
                    Err(e) => result == Err::<(), DatabaseError>(e) && final(self)@ == old(
                        self,
                    )@,
                },
            final(self)@.wf(),
    {
        let finished_at = current_time();
        self.modify_job_at(job_id, command, finished_at)
    }

    /// Applies `command` to the task `task_id` at time `now`. A command that does
    /// not apply to the task's state changes nothing; neither does one for a task
    /// that the store does not hold.
    pub fn modify_task_at(&mut self, task_id: u128, command: QueueCommand, now: i64)
        requires
            old(self)@.wf(),
        ensures
            final(self)@ == old(self)@.after_task_command(task_id, command@, now),
            final(self)@.wf(),
    {
        tables::apply_task_command(&mut self.tasks, task_id, &command, now);
        proof {
            tables::lemma_same_keys_well_formed(old(self)@, self@);
            assert(self@.tasks =~= old(self)@.after_task_command(task_id, command@, now).tasks);
        }
    }

    /// Applies `command` to the task `task_id` at the current time. See
    /// [`ServerDatabase::modify_task_at`].
    pub fn modify_task(&mut self, task_id: u128, command: QueueCommand)
        requires
            old(self)@.wf(),
        ensures
            exists|now: i64|
                final(self)@ == #[trigger] old(self)@.after_task_command(task_id, command@, now),
            final(self)@.wf(),
    {
        let finished_at = current_time();
        self.modify_task_at(task_id, command, finished_at)
    }

    /// The job `job_id` as it is reported, with its tasks in stored order.
    pub fn get_job(&self, job_id: u128) -> (result: Result<Job, DatabaseError>)
        ensures
            match result {
                Ok(job) => self@.job(job_id) == Some(job@) && job@.status == crate::job::job_status(
                    job@.tasks,
                ),
                Err(e) => e == DatabaseError::JobNotFound && self@.job(job_id) is None,
            },
    {
        let ghost rows = self@.jobs;
        let mut i: usize = 0;
        while i < self.jobs.len()
            invariant
                i <= self.jobs.len(),
                rows == self@.jobs,
                forall|k: int| 0 <= k < i ==> !job_with_id(job_id)(#[trigger] rows[k]),
            decreases self.jobs.len() - i,
        {
            if self.jobs[i].job_id == job_id {
                proof {
                    assert(is_first(rows, job_with_id(job_id), i as int));
                    lemma_first_is(rows, job_with_id(job_id), i as int);
                }
                let tasks = tables::tasks_owned_by(&self.tasks, job_id);
                return Ok(Job::new(self.jobs[i].clone(), tasks));
            }
            i += 1;
        }
        proof {
            assert forall|k: int| !is_first(rows, job_with_id(job_id), k) by {
                if 0 <= k < rows.len() {
                    assert(!job_with_id(job_id)(rows[k]));
                }
            }
        }
        Err(DatabaseError::JobNotFound)
    }

    /// Every job as it is reported, from the newest to the oldest, each with its
    /// tasks in the order of their task indices.
    pub fn get_all_jobs(&self) -> (jobs: Vec<Job>)
        ensures
            job_views(jobs@) == self@.all_jobs(),
            forall|k: int|
                0 <= k < jobs.len() ==> (#[trigger] jobs[k])@.status == crate::job::job_status(
                    jobs[k]@.tasks,
                ),
    {
        let rows = order::jobs_newest_first(&self.jobs);
        let tasks = order::tasks_by_index(&self.tasks);
        let ghost row_views = job_fetch_views(rows@);
        let ghost sorted_tasks = task_views(tasks@);
        let mut jobs: Vec<Job> = Vec::new();
        let mut i: usize = 0;
        while i < rows.len()
            invariant
                i <= rows.len(),
                row_views == job_fetch_views(rows@),
                sorted_tasks == task_views(tasks@),
                jobs.len() == i,
                forall|k: int|
                    0 <= k < i ==> (#[trigger] jobs[k])@ == assembled_job(
                        row_views[k],
                        sorted_tasks.filter(owned_by(row_views[k].job_id)),
                    ),
            decreases rows.len() - i,
        {
            let owned = tables::tasks_owned_by(&tasks, rows[i].job_id);
            jobs.push(Job::new(rows[i].clone(), owned));
            i += 1;
        }
        assert(job_views(jobs@) =~= self@.all_jobs());
        jobs
    }

    /// The first user that holds `api_token`.
    pub fn get_user_by_api_token(&self, api_token: &str) -> (user: Option<User>)
        ensures
            match user {
                Some(u) => first_where(self@.users, holds_token(api_token@)) == Some(u@),
                None => first_where(self@.users, holds_token(api_token@)) is None,
            },
    {
        let ghost rows = self@.users;
        let ghost pred = holds_token(api_token@);
        let mut i: usize = 0;
        while i < self.users.len()
            invariant
                i <= self.users.len(),
                rows == self@.users,
                pred == holds_token(api_token@),
                forall|k: int| 0 <= k < i ==> !pred(#[trigger] rows[k]),
            decreases self.users.len() - i,
        {
            if same_text(self.users[i].get_api_token(), api_token) {
                proof {
                    assert(is_first(rows, pred, i as int));
                    lemma_first_is(rows, pred, i as int);
                }
                return Some(self.users[i].clone());
            }
            i += 1;
        }
        proof {
            assert forall|k: int| !is_first(rows, pred, k) by {
                if 0 <= k < rows.len() {
                    assert(!pred(rows[k]));
                }
            }
        }
        None
    }

    /// The first user called `username`.
    pub fn get_user_by_name(&self, username: &str) -> (user: Option<User>)
        ensures
            match user {
                Some(u) => first_where(self@.users, called(username@)) == Some(u@),
                None => first_where(self@.users, called(username@)) is None,
            },
    {
        let ghost rows = self@.users;
        let ghost pred = called(username@);
        let mut i: usize = 0;
        while i < self.users.len()
            invariant
                i <= self.users.len(),
                rows == self@.users,
                pred == called(username@),
                forall|k: int| 0 <= k < i ==> !pred(#[trigger] rows[k]),
            decreases self.users.len() - i,
        {
            if same_text(self.users[i].get_name(), username) {
                proof {
                    assert(is_first(rows, pred, i as int));
                    lemma_first_is(rows, pred, i as int);
                }
                return Some(self.users[i].clone());
            }
            i += 1;
        }
        proof {
            assert forall|k: int| !is_first(rows, pred, k) by {
                if 0 <= k < rows.len() {
                    assert(!pred(rows[k]));
                }
            }
        }
        None
    }

    /// Adds a user with a freshly drawn identifier, and returns the identifier.
    pub fn add_user(&mut self, username: &str, api_token: &str) -> (user_id: u128)
        ensures
            final(self)@ == old(self)@.after_new_user(
                UserView { user_id, name: username@, api_token: api_token@ },
            ),
    {
        let user_id = fresh_id();
        self.users.push(User::new(user_id, username.to_string(), api_token.to_string()));
        assert(self@.users =~= old(self)@.users.push(
            UserView { user_id, name: username@, api_token: api_token@ },
        ));
        user_id
    }

    /// Opens a session with the given token for the first user that holds
    /// `api_token`. Refused if no user holds it.
    pub fn new_session_with(&mut self, api_token: &str, session_token: u128) -> (result: Result<
        u128,
        DatabaseError,
    >)
        ensures
            match old(self)@.after_new_session(api_token@, session_token) {
                Ok(store) => result == Ok::<u128, DatabaseError>(session_token) && final(self)@
                    == store,
                Err(e) => result == Err::<u128, DatabaseError>(e) && final(self)@ == old(self)@,
            },
    {
        match self.get_user_by_api_token(api_token) {
            None => Err(DatabaseError::InvalidApiToken),
            Some(user) => {
                self.sessions.push(Session { session_token, user_id: user.get_user_id() });
                Ok(session_token)
            },
        }
    }

    /// Opens a session with a random 128-bit token for the first user that holds
    /// `api_token`, and returns the token. Refused if no user holds `api_token`.
    pub fn new_session(&mut self, api_token: &str) -> (result: Result<u128, DatabaseError>)
        ensures
            match result {
                Ok(session_token) => old(self)@.after_new_session(api_token@, session_token)
                    == Ok::<StoreView, DatabaseError>(final(self)@),
                Err(e) => {
                    &&& e == DatabaseError::InvalidApiToken
                    &&& first_where(old(self)@.users, holds_token(api_token@)) is None
                    &&& final(self)@ == old(self)@
                },
            },
    {
        let session_token = random_token(&mut self.rng);
        self.new_session_with(api_token, session_token)
    }

    /// Closes every session.
    pub fn expire_all_sessions(&mut self)
        ensures
            final(self)@ == old(self)@.after_session_expiry(),
    {
        self.sessions.clear();
    }

    /// The user that a request with these two tokens acts for: the first user
    /// that holds `api_token` and to whom session `session_token` is bound.
    pub fn validate_session(&self, api_token: &str, session_token: u128) -> (user: Option<User>)
        ensures
            match user {
                Some(u) => self@.session_user(api_token@, session_token) == Some(u@),
                None => self@.session_user(api_token@, session_token) is None,
            },
    {
        let ghost rows = self@.users;
        let ghost pred = holds_session(self@.sessions, api_token@, session_token);
        let mut i: usize = 0;
        while i < self.users.len()
            invariant
                i <= self.users.len(),
                rows == self@.users,
                pred == holds_session(self@.sessions, api_token@, session_token),
                forall|k: int| 0 <= k < i ==> !pred(#[trigger] rows[k]),
            decreases self.users.len() - i,
        {
            if same_text(self.users[i].get_api_token(), api_token) && self.is_bound(
                session_token,
                self.users[i].get_user_id(),
            ) {
                proof {
                    assert(is_first(rows, pred, i as int));
                    lemma_first_is(rows, pred, i as int);
                }
                return Some(self.users[i].clone());
            }
            i += 1;
        }
        proof {
            assert forall|k: int| !is_first(rows, pred, k) by {
                if 0 <= k < rows.len() {
                    assert(!pred(rows[k]));
                }
            }
        }
        None
    }

    /// Whether session `session_token` is bound to user `user_id`.
    fn is_bound(&self, session_token: u128, user_id: u128) -> (bound: bool)
        ensures
            bound == session_bound(self@.sessions, session_token, user_id),
    {
        let mut i: usize = 0;
        while i < self.sessions.len()
            invariant
                i <= self.sessions.len(),
                forall|k: int|
                    0 <= k < i ==> !((#[trigger] self.sessions[k]).session_token == session_token
                        && self.sessions[k].user_id == user_id),
            decreases self.sessions.len() - i,
        {
            if self.sessions[i].session_token == session_token && self.sessions[i].user_id
                == user_id {
                return true;
            }
            i += 1;
        }
        false
    }
}

} // verus!
