//! The scheduler: it reconciles what the store says should happen with what the
//! workers are doing.
//!
//! One tick of the scheduler has two halves. The first looks at the stop flag
//! and asks the store what is to be swept. Between the halves the process
//! removes the scratch directories that the sweep names. The second half
//! confirms the sweep, collects the workers that have ended, and admits new
//! tasks up to the pool's capacity.

pub mod dirty_marker;

use std::sync::Arc;
use vstd::prelude::*;
use crate::announce::{announcement_views, AnnounceSystem, Announcement, AnnouncementView};
use crate::database::model::{admission, task_stats};
use crate::database::tables::contains_id;
use crate::database::{DatabaseError, PendingOperations, ServerDatabase, StoreView, TaskStats};
use crate::download_manager::worker::JoinOutcome;
use crate::download_manager::{
    finished_results,
    DownloadManager,
    PoolView,
    WorkerSelector,
};
use crate::env::EnvironmentManager;
use crate::filesystem::FilesystemDriver;
use crate::job::{job_views, Job, JobView};
use crate::playlist::{video_views, VideoInfo, VideoInfoView};
use crate::platform::current_time;
use crate::process::GenericStopHandle;
use crate::queue_command::{QueueCommand, QueueCommandView};
use crate::task::{
    result_views,
    task_views,
    Task,
    TaskKind,
    TaskProgress,
    TaskResult,
    TaskResultData,
    TaskResultDataView,
    TaskResultView,
    TaskStatus,
    TaskView,
};
use crate::web_api::NewJobForm;

pub use dirty_marker::DirtyMarker;

verus! {

broadcast use vstd::std_specs::hash::group_hash_axioms;

/// The scheduler.
pub struct JobManager {
    announcements: AnnounceSystem,
    db: ServerDatabase,
    dload_manager: DownloadManager,
    stop_handle: GenericStopHandle,
    jobs_dirty: DirtyMarker,
    cleanup_dirty: DirtyMarker,
    did_send_stop_signals: bool,
}

/// The mathematical content of a [`JobManager`].
pub ghost struct SchedulerView {
    pub store: StoreView,
    pub pool: PoolView,
    /// Whether a stop was requested.
    pub stop_requested: bool,
    /// Whether the scheduler has cancelled all jobs because of that request.
    pub stop_signals_sent: bool,
    /// Whether there may be tasks to admit.
    pub jobs_dirty: bool,
    /// Whether there may be cleanup or deletion to do.
    pub cleanup_dirty: bool,
}

impl SchedulerView {
    /// The scheduler's invariant: the store's identifiers are keys, and the pool
    /// holds no more workers than it may.
    pub open spec fn wf(self) -> bool {
        self.store.wf() && self.pool.wf()
    }

    /// The scheduler after a sweep was confirmed: `cleanup`, `delete` and
    /// `num_busy` are what the sweep found due, `removed` names the tasks whose
    /// scratch directory is gone. Their cleanup is confirmed. The tasks that
    /// were due for deletion are deleted, but for those whose scratch directory
    /// was to be removed and was not. The cleanup mark stays only if a task
    /// with such work pending was still running.
    pub open spec fn after_sweep(
        self,
        cleanup: Seq<u128>,
        delete: Seq<u128>,
        num_busy: u32,
        removed: Seq<u128>,
    ) -> SchedulerView {
        SchedulerView {
            store: if cleanup.len() == 0 && delete.len() == 0 {
                self.store
            } else {
                self.store.after_cleanup(removed).after_deletion(
                    deletable(delete, cleanup, removed),
                )
            },
            cleanup_dirty: self.cleanup_dirty && num_busy > 0,
            ..self
        }
    }

    /// The scheduler after the sweep that the first half of a tick asked for, if
    /// it asked for one, was confirmed.
    pub open spec fn after_pending_sweep(
        self,
        pending: Option<PendingOperations>,
        removed: Seq<u128>,
    ) -> SchedulerView {
        match pending {
            Some(pending) => self.after_sweep(
                pending.cleanup@,
                pending.delete@,
                pending.num_busy,
                removed,
            ),
            None => self,
        }
    }
}

/// What the first half of a tick found.
pub struct TickStart {
    /// Whether the scheduler is stopping.
    pub stopping: bool,
    /// What is to be swept, if the scheduler looked.
    pub pending: Option<PendingOperations>,
}

/// What the second half of a tick asks the process to do.
pub struct TickActions {
    /// The announcements to show.
    pub announcements: Vec<Announcement>,
    /// Why the store refused the tasks of an expansion, once for each expansion
    /// that it refused.
    pub refusals: Vec<DatabaseError>,
    /// The tasks that were admitted: each needs a worker.
    pub started: Vec<Task>,
    /// Whether the scheduler is done: it is stopping and no worker is left.
    pub exit: bool,
}

/// What collecting the workers that have ended led to.
pub struct Harvest {
    /// Whether any worker had ended.
    pub any: bool,
    /// The announcements to show.
    pub announcements: Vec<Announcement>,
    /// Why the store refused the tasks of an expansion, once for each expansion
    /// that it refused.
    pub refusals: Vec<DatabaseError>,
}

/// What handling one result led to.
pub struct Handled {
    /// The announcement to show, if any.
    pub announcement: Option<Announcement>,
    /// Why the store refused the tasks of an expansion, if it did.
    pub error: Option<DatabaseError>,
}

/// The store after the statuses of `results` were written at `now`, in order.
pub open spec fn after_reports(store: StoreView, results: Seq<TaskResultView>, now: i64) -> StoreView
    decreases results.len(),
{
    if results.len() == 0 {
        store
    } else {
        after_reports(store, results.drop_last(), now).after_task_command(
            results.last().task.task_id,
            QueueCommandView::TaskStatusChange(results.last().status),
            now,
        )
    }
}

/// The pool after workers were started on `tasks`, in order.
pub open spec fn after_starts(pool: PoolView, tasks: Seq<TaskView>) -> PoolView
    decreases tasks.len(),
{
    if tasks.len() == 0 {
        pool
    } else {
        after_starts(pool, tasks.drop_last()).after_start(tasks.last())
    }
}

/// Starting workers adds one worker for each task and leaves the capacity as
/// it is.
pub proof fn lemma_after_starts(pool: PoolView, tasks: Seq<TaskView>)
    ensures
        after_starts(pool, tasks).workers.len() == pool.workers.len() + tasks.len(),
        after_starts(pool, tasks).capacity == pool.capacity,
    decreases tasks.len(),
{
    if tasks.len() > 0 {
        lemma_after_starts(pool, tasks.drop_last());
    }
}

/// Whether `tasks` are the download tasks that an expansion of job `job_id` into
/// `videos` creates for `format`: one for each video, in order, each with an
/// identifier and a creation time of its own.
pub open spec fn expands(
    tasks: Seq<TaskView>,
    job_id: u128,
    videos: Seq<VideoInfoView>,
    format: Seq<char>,
) -> bool {
    &&& tasks.len() == videos.len()
    &&& forall|k: int|
        0 <= k < tasks.len() ==> (#[trigger] tasks[k]) == TaskView::download(
            tasks[k].task_id,
            tasks[k].created_at,
            job_id,
            videos[k],
            format,
        )
}

/// Whether the result of a URL expansion was handled: from the store `before`
/// to the store `after`, with this announcement and this refusal. Items become
/// download tasks of the job, which also takes the title and the thumbnail of
/// what was found; the store may refuse them. An expansion without items is
/// announced. A result without a product leads to nothing.
pub open spec fn fetch_result_handled(
    before: StoreView,
    after: StoreView,
    announces: bool,
    result: TaskResultView,
    announcement: Option<AnnouncementView>,
    error: Option<DatabaseError>,
) -> bool {
    match result.data {
        Some(TaskResultDataView::FetchUrlContents(content)) => if content.videos().len() == 0 {
            &&& after == before
            &&& error is None
            &&& announcement == if announces {
                crate::announce::empty_announcement(before, result.task.owner_job_id)
            } else {
                None
            }
        } else {
            &&& announcement is None
            &&& exists|new_tasks: Seq<TaskView>|
                {
                    &&& expands(
                        new_tasks,
                        result.task.owner_job_id,
                        content.videos(),
                        result.task.format,
                    )
                    &&& match #[trigger] before.after_job_update(
                        result.task.owner_job_id,
                        content.title(),
                        content.thumbnail_or_empty(),
                        new_tasks,
                    ) {
                        Ok(store) => after == store && error is None,
                        Err(e) => after == before && error == Some(e),
                    }
                }
        },
        _ => {
            &&& after == before
            &&& announcement is None
            &&& error is None
        },
    }
}

/// What the first look at a result finds to announce: that the job has come to
/// rest, or that its URL expansion failed.
pub open spec fn first_announcement(
    store: StoreView,
    announces: bool,
    result: TaskResultView,
) -> Option<AnnouncementView> {
    if announces {
        crate::announce::result_announcement(
            store,
            result.task.kind,
            result.status,
            result.task.owner_job_id,
        )
    } else {
        None
    }
}

/// Whether one result was handled, from the store `before` to the store
/// `after`, with this announcement and this refusal. A download's result leaves
/// the store as it is. A URL expansion's is handled as
/// [`fetch_result_handled`] says; what it announces counts only if the first
/// look found nothing to announce.
pub open spec fn result_handled(
    before: StoreView,
    after: StoreView,
    announces: bool,
    result: TaskResultView,
    announcement: Option<AnnouncementView>,
    error: Option<DatabaseError>,
) -> bool {
    let first = first_announcement(before, announces, result);
    if result.task.kind == TaskKind::DownloadAndConvert {
        after == before && error is None && announcement == first
    } else {
        exists|second: Option<AnnouncementView>|
            {
                &&& #[trigger] fetch_result_handled(before, after, announces, result, second, error)
                &&& announcement == if first is Some {
                    first
                } else {
                    second
                }
            }
    }
}

/// A run of announcements with one more at its end, if there is one more.
pub open spec fn with_announcement(
    earlier: Seq<AnnouncementView>,
    last: Option<AnnouncementView>,
) -> Seq<AnnouncementView> {
    match last {
        Some(a) => earlier.push(a),
        None => earlier,
    }
}

/// A run of refusals with one more at its end, if there is one more.
pub open spec fn with_refusal(earlier: Seq<DatabaseError>, last: Option<DatabaseError>) -> Seq<
    DatabaseError,
> {
    match last {
        Some(e) => earlier.push(e),
        None => earlier,
    }
}

/// Whether `results` were handled one after the other, from the store `before`
/// to the store `after`, with these announcements and these refusals, each in
/// the order of the results.
pub open spec fn results_handled(
    before: StoreView,
    after: StoreView,
    announces: bool,
    results: Seq<TaskResultView>,
    announcements: Seq<AnnouncementView>,
    refusals: Seq<DatabaseError>,
) -> bool
    decreases results.len(),
{
    if results.len() == 0 {
        after == before && announcements.len() == 0 && refusals.len() == 0
    } else {
        exists|
            between: StoreView,
            earlier: Seq<AnnouncementView>,
            last: Option<AnnouncementView>,
            refused: Seq<DatabaseError>,
            error: Option<DatabaseError>,
        |
            #![trigger
                result_handled(between, after, announces, results.last(), last, error),
                with_announcement(earlier, last),
                with_refusal(refused, error)
            ]
            {
                &&& results_handled(
                    before,
                    between,
                    announces,
                    results.drop_last(),
                    earlier,
                    refused,
                )
                &&& result_handled(between, after, announces, results.last(), last, error)
                &&& announcements == with_announcement(earlier, last)
                &&& refusals == with_refusal(refused, error)
            }
    }
}

/// A sweep that removed every scratch directory it was to remove leaves nothing
/// pending among the tasks that do not run: none of them is marked for cleanup
/// or for deletion any more. What is pending for a running task waits for the
/// sweep after the task has settled.
pub proof fn law_full_sweep_leaves_nothing_pending(scheduler: SchedulerView, num_busy: u32)
    ensures
        ({
            let pending = scheduler.store.pending_operations();
            let swept = scheduler.after_sweep(
                pending.cleanup,
                pending.delete,
                num_busy,
                pending.cleanup,
            );
            forall|i: int|
                0 <= i < swept.store.tasks.len() && (#[trigger] swept.store.tasks[i]).status
                    != TaskStatus::Processing ==> !swept.store.tasks[i].pending_cleanup
                    && !swept.store.tasks[i].pending_delete
        }),
{
    let store = scheduler.store;
    let pending = store.pending_operations();
    let swept = scheduler.after_sweep(pending.cleanup, pending.delete, num_busy, pending.cleanup);
    let cleanup_due = crate::database::model::cleanup_due();
    let delete_due = crate::database::model::delete_due();
    let due_cleanup = store.tasks.filter(cleanup_due);
    let due_delete = store.tasks.filter(delete_due);
    if pending.cleanup.len() == 0 && pending.delete.len() == 0 {
        assert forall|i: int|
            0 <= i < store.tasks.len() && (#[trigger] store.tasks[i]).status
                != TaskStatus::Processing implies !store.tasks[i].pending_cleanup
            && !store.tasks[i].pending_delete by {
            if store.tasks[i].pending_cleanup {
                assert(cleanup_due(store.tasks[i]));
                store.tasks.lemma_filter_contains(cleanup_due, i);
            }
            if store.tasks[i].pending_delete {
                assert(delete_due(store.tasks[i]));
                store.tasks.lemma_filter_contains(delete_due, i);
            }
        }
    } else {
        let cleaned = store.after_cleanup(pending.cleanup);
        let ids = deletable(pending.delete, pending.cleanup, pending.cleanup);
        let keep = crate::database::model::not_among(ids);
        assert forall|i: int|
            0 <= i < swept.store.tasks.len() && (#[trigger] swept.store.tasks[i]).status
                != TaskStatus::Processing implies !swept.store.tasks[i].pending_cleanup
            && !swept.store.tasks[i].pending_delete by {
            let task = swept.store.tasks[i];
            cleaned.tasks.lemma_filter_contains_rev(keep, task);
            cleaned.tasks.lemma_filter_pred(keep, i);
            let w = choose|w: int| 0 <= w < cleaned.tasks.len() && cleaned.tasks[w] == task;
            let row = store.tasks[w];
            if row.pending_cleanup {
                assert(cleanup_due(row));
                store.tasks.lemma_filter_contains(cleanup_due, w);
                let v = choose|v: int| 0 <= v < due_cleanup.len() && due_cleanup[v] == row;
                assert(pending.cleanup[v] == row.task_id);
            }
            if row.pending_delete {
                assert(delete_due(row));
                store.tasks.lemma_filter_contains(delete_due, w);
                let v = choose|v: int| 0 <= v < due_delete.len() && due_delete[v] == row;
                assert(pending.delete[v] == row.task_id);
                let passes = |id: u128|
                    !pending.cleanup.contains(id) || pending.cleanup.contains(id);
                assert(passes(pending.delete[v]));
                pending.delete.lemma_filter_contains(passes, v);
                assert(ids.contains(row.task_id));
            }
        }
    }
}

/// Handling one more result extends a run of handled results.
pub proof fn lemma_results_handled_next(
    before: StoreView,
    between: StoreView,
    after: StoreView,
    announces: bool,
    results: Seq<TaskResultView>,
    earlier: Seq<AnnouncementView>,
    last: Option<AnnouncementView>,
    refused: Seq<DatabaseError>,
    error: Option<DatabaseError>,
)
    requires
        results.len() > 0,
        results_handled(before, between, announces, results.drop_last(), earlier, refused),
        result_handled(between, after, announces, results.last(), last, error),
    ensures
        results_handled(
            before,
            after,
            announces,
            results,
            with_announcement(earlier, last),
            with_refusal(refused, error),
        ),
{
}

/// Whether the workers that have ended were collected and their results
/// handled, from the scheduler `before` to the scheduler `after`, with these
/// announcements. Where no worker has ended nothing changes. Else the statuses
/// of the tasks are written, all at one time, the results are handled in the
/// order of their collection, and both kinds of work are marked as possibly due.
pub open spec fn collected(
    before: SchedulerView,
    after: SchedulerView,
    announces: bool,
    announcements: Seq<AnnouncementView>,
    refusals: Seq<DatabaseError>,
) -> bool {
    let results = finished_results(before.pool.workers);
    if results.len() == 0 {
        after == before && announcements.len() == 0 && refusals.len() == 0
    } else {
        &&& after.pool == before.pool.after_collection()
        &&& after.stop_requested == before.stop_requested
        &&& after.stop_signals_sent == before.stop_signals_sent
        &&& after.jobs_dirty
        &&& after.cleanup_dirty
        &&& exists|now: i64|
            #[trigger] results_handled(
                after_reports(before.store, results, now),
                after.store,
                announces,
                results,
                announcements,
                refusals,
            )
    }
}

/// Whether as many waiting tasks as the pool had free places were admitted,
/// oldest first, and a worker for each was taken into the pool: from the
/// scheduler `before` to the scheduler `after`, leaving aside the mark for
/// tasks to be admitted.
pub open spec fn admitted_into(
    before: SchedulerView,
    after: SchedulerView,
    started: Seq<TaskView>,
) -> bool {
    &&& exists|now: i64|
        {
            &&& after.store == #[trigger] before.store.after_admission(before.pool.free(), now)
            &&& started == admission(before.store.tasks, before.pool.free(), now).admitted
        }
    &&& after.pool == after_starts(before.pool, started)
    &&& after.cleanup_dirty == before.cleanup_dirty
    &&& after.stop_requested == before.stop_requested
    &&& after.stop_signals_sent == before.stop_signals_sent
}

/// The ids to delete in a sweep: those that are due, but for the tasks whose
/// scratch directory was to be removed and was not.
pub open spec fn deletable(pending_delete: Seq<u128>, pending_cleanup: Seq<u128>, removed: Seq<u128>) -> Seq<u128> {
    pending_delete.filter(|id: u128| !pending_cleanup.contains(id) || removed.contains(id))
}

/// The progress that the pool knows for the running ones among `tasks`, added
/// to `base`.
pub open spec fn with_progress(
    base: Map<u128, TaskProgress>,
    pool: PoolView,
    tasks: Seq<TaskView>,
) -> Map<u128, TaskProgress>
    decreases tasks.len(),
{
    if tasks.len() == 0 {
        base
    } else {
        let earlier = with_progress(base, pool, tasks.drop_last());
        let task = tasks.last();
        if task.status == TaskStatus::Processing && exists|i: int|
            pool.is_worker_of(task.task_id, i) {
            earlier.insert(
                task.task_id,
                pool.workers[choose|i: int| pool.is_worker_of(task.task_id, i)].progress,
            )
        } else {
            earlier
        }
    }
}

/// A job with the progress of its running tasks attached.
pub open spec fn job_with_progress(job: JobView, pool: PoolView) -> JobView {
    JobView { progress: with_progress(job.progress, pool, job.tasks), ..job }
}

impl View for JobManager {
    type V = SchedulerView;

    closed spec fn view(&self) -> SchedulerView {
        SchedulerView {
            store: self.db@,
            pool: self.dload_manager@,
            stop_requested: self.stop_handle.value,
            stop_signals_sent: self.did_send_stop_signals,
            jobs_dirty: self.jobs_dirty.value,
            cleanup_dirty: self.cleanup_dirty.value,
        }
    }
}

impl JobManager {
    /// Whether the scheduler announces.
    pub closed spec fn announces(&self) -> bool {
        self.announcements.enabled()
    }

    /// A scheduler over `db` with an empty pool. Both dirty marks are set, so that
    /// the first tick sweeps and admits.
    pub fn new(
        announcements: AnnounceSystem,
        env: Arc<EnvironmentManager>,
        fs: Arc<FilesystemDriver>,
        db: ServerDatabase,
    ) -> (manager: JobManager)
        requires
            db@.wf(),
        ensures
            manager@.store == db@,
            manager@.pool.workers.len() == 0,
            manager@.pool.capacity == env.config.num_download_workers,
            manager@.jobs_dirty && manager@.cleanup_dirty,
            !manager@.stop_requested && !manager@.stop_signals_sent,
            manager.announces() == announcements.enabled(),
            manager@.wf(),
    {
        JobManager {
            announcements,
            db,
            dload_manager: DownloadManager::new(env, fs),
            stop_handle: GenericStopHandle::new(),
            jobs_dirty: DirtyMarker::new(),
            cleanup_dirty: DirtyMarker::new(),
            did_send_stop_signals: false,
        }
    }

    /// Whether the scheduler's invariant holds. It does for every scheduler that
    /// was built by [`JobManager::new`].
    pub fn is_well_formed(&self) -> (wf: bool)
        ensures
            wf == self@.wf(),
    {
        self.db.is_well_formed() && self.dload_manager.is_well_formed()
    }

    /// Opens a session for the holder of `api_token` and returns its token.
    /// Refused if no user holds `api_token`.
    pub fn new_session(&mut self, api_token: &str) -> (result: Result<u128, DatabaseError>)
        ensures
            final(self)@ == (SchedulerView { store: final(self)@.store, ..old(self)@ }),
            final(self).announces() == old(self).announces(),
            match result {
                Ok(session_token) => old(self)@.store.after_new_session(api_token@, session_token)
                    == Ok::<StoreView, DatabaseError>(final(self)@.store),
                Err(e) => e == DatabaseError::InvalidApiToken && final(self)@.store == old(
                    self,
                )@.store,
            },
    {
        crate::auth::AuthSystem::attempt_new_session(&mut self.db, api_token)
    }

    /// Closes every session.
    pub fn expire_all_sessions(&mut self)
        ensures
            final(self)@ == (SchedulerView {
                store: old(self)@.store.after_session_expiry(),
                ..old(self)@
            }),
            final(self).announces() == old(self).announces(),
    {
        crate::auth::AuthSystem::expire_all_sessions(&mut self.db)
    }

    /// The store.
    pub fn database(&self) -> (db: &ServerDatabase)
        ensures
            db@ == self@.store,
    {
        &self.db
    }

    /// The pool.
    pub fn download_manager(&self) -> (pool: &DownloadManager)
        ensures
            pool@ == self@.pool,
    {
        &self.dload_manager
    }

    fn mark_dirty(&mut self)
        ensures
            final(self)@ == (SchedulerView { jobs_dirty: true, cleanup_dirty: true, ..old(self)@ }),
            final(self).announces() == old(self).announces(),
    {
        self.jobs_dirty.mark_dirty();
        self.cleanup_dirty.mark_dirty();
    }

    /// Creates a job for `data` and marks both kinds of work as possibly due.
    pub fn create_job(&mut self, data: &NewJobForm) -> (result: Result<Job, DatabaseError>)
        requires
            old(self)@.wf(),
        ensures
            final(self)@.pool == old(self)@.pool,
            final(self)@.jobs_dirty && final(self)@.cleanup_dirty,
            final(self)@.stop_requested == old(self)@.stop_requested,
            final(self)@.stop_signals_sent == old(self)@.stop_signals_sent,
            exists|job_id: u128, created_at: i64, task_id: u128, task_created_at: i64|
                match #[trigger] old(self)@.store.after_job_creation(
                    job_id,
                    created_at,
                    task_id,
                    task_created_at,
                    data.url@,
                    data.format@,
                ) {
                    Ok(store) => {
                        &&& final(self)@.store == store
                        &&& result matches Ok(job)
                        &&& job@ == crate::job::assembled_job(
                            store.jobs.last(),
                            seq![store.tasks.last()],
                        )
                    },
                    Err(e) => result == Err::<Job, DatabaseError>(e) && final(self)@.store == old(
                        self,
                    )@.store,
                },
            final(self)@.wf(),
    {
        let ret = self.db.create_job(data);
        self.mark_dirty();
        ret
    }

    /// Sends `command` to every worker and to every job. If the store accepts it
    /// for every job, both kinds of work are marked as possibly due.
    pub fn modify_all_jobs(&mut self, command: QueueCommand) -> (result: Result<(), DatabaseError>)
        requires
            old(self)@.wf(),
        ensures
            final(self)@.pool == old(self)@.pool.signalled(WorkerSelector::All, command@),
            final(self)@.stop_requested == old(self)@.stop_requested,
            final(self)@.stop_signals_sent == old(self)@.stop_signals_sent,
            final(self).announces() == old(self).announces(),
            exists|now: i64|
                {
                    let outcome = #[trigger] old(self)@.store.after_command_on_all_jobs(
                        command@,
                        now,
                    );
                    &&& final(self)@.store == outcome.store
                    &&& match outcome.error {
                        None => result is Ok,
                        Some(e) => result == Err::<(), DatabaseError>(e),
                    }
                },
            result is Ok ==> final(self)@.jobs_dirty && final(self)@.cleanup_dirty,
            result is Err ==> final(self)@.jobs_dirty == old(self)@.jobs_dirty
                && final(self)@.cleanup_dirty == old(self)@.cleanup_dirty,
            final(self)@.wf(),
    {
        self.dload_manager.modify_all_tasks(&command);
        match self.db.modify_all_jobs(command) {
            Ok(()) => {
                self.mark_dirty();
                Ok(())
            },
            Err(e) => Err(e),
        }
    }

    /// Sends `command` to the workers of job `id` and to the job itself. If the
    /// store accepts it, both kinds of work are marked as possibly due.
    pub fn modify_job(&mut self, id: u128, command: QueueCommand) -> (result: Result<
        (),
        DatabaseError,
    >)
        requires
            old(self)@.wf(),
        ensures
            final(self)@.pool == old(self)@.pool.signalled(WorkerSelector::Job(id), command@),
            final(self)@.stop_requested == old(self)@.stop_requested,
            final(self)@.stop_signals_sent == old(self)@.stop_signals_sent,
            final(self).announces() == old(self).announces(),
            exists|now: i64|
                match #[trigger] old(self)@.store.after_job_command(id, command@, now) {
                    Ok(store) => result is Ok && final(self)@.store == store,
                    Err(e) => result == Err::<(), DatabaseError>(e) && final(self)@.store == old(
                        self,
                    )@.store,
                },
            result is Ok ==> final(self)@.jobs_dirty && final(self)@.cleanup_dirty,
            result is Err ==> final(self)@.jobs_dirty == old(self)@.jobs_dirty
                && final(self)@.cleanup_dirty == old(self)@.cleanup_dirty,
            final(self)@.wf(),
    {
        self.dload_manager.modify_tasks_by_job(id, &command);
        match self.db.modify_job(id, command) {
            Ok(()) => {
                self.mark_dirty();
                Ok(())
            },
            Err(e) => Err(e),
        }
    }

    /// Sends `command` to the worker of task `id` and to the task itself, and
    /// marks both kinds of work as possibly due.
    pub fn modify_task(&mut self, id: u128, command: QueueCommand)
        requires
            old(self)@.wf(),
        ensures
            final(self)@.pool == old(self)@.pool.signalled(WorkerSelector::Task(id), command@),
            final(self)@.stop_requested == old(self)@.stop_requested,
            final(self)@.stop_signals_sent == old(self)@.stop_signals_sent,
            final(self).announces() == old(self).announces(),
            exists|now: i64|
                final(self)@.store == #[trigger] old(self)@.store.after_task_command(
                    id,
                    command@,
                    now,
                ),
            final(self)@.jobs_dirty && final(self)@.cleanup_dirty,
            final(self)@.wf(),
    {
        self.dload_manager.modify_task(id, &command);
        self.db.modify_task(id, command);
        self.mark_dirty();
    }

    /// Attaches to `job` the progress of its running tasks, as far as the pool
    /// knows it.
    pub fn populate_job_progress(dload_manager: &DownloadManager, job: &mut Job)
        ensures
            final(job)@ == job_with_progress(old(job)@, dload_manager@),
    {
        let ghost pool = dload_manager@;
        let ghost tasks = old(job)@.tasks;
        let ghost base = old(job)@.progress;
        let mut i: usize = 0;
        while i < job.tasks.len()
            invariant
                i <= job.tasks.len(),
                pool == dload_manager@,
                tasks == job@.tasks,
                job@ == (JobView { progress: job@.progress, ..old(job)@ }),
                job@.progress == with_progress(base, pool, tasks.take(i as int)),
            decreases job.tasks.len() - i,
        {
            proof {
                assert(tasks.take(i + 1).drop_last() =~= tasks.take(i as int));
                assert(tasks.take(i + 1).last() == job.tasks[i as int]@);
            }
            if job.tasks[i].status == TaskStatus::Processing {
                let task_id = job.tasks[i].task_id;
                match dload_manager.get_worker_progress(task_id) {
                    Some(progress) => {
                        proof {
                            let a = choose|a: int|
                                pool.is_worker_of(task_id, a) && pool.workers[a].progress
                                    == progress;
                            let b = choose|b: int| pool.is_worker_of(task_id, b);
                            if a < b {
                                assert(pool.workers[a].task.task_id != task_id);
                            } else if b < a {
                                assert(pool.workers[b].task.task_id != task_id);
                            }
                        }
                        job.progress.insert(task_id, progress);
                    },
                    None => {},
                }
            }
            i += 1;
        }
        assert(tasks.take(i as int) =~= tasks);
    }

    /// The job `id` as it is reported, with the progress of its running tasks.
    pub fn get_job(&self, id: u128) -> (result: Result<Job, DatabaseError>)
        ensures
            match result {
                Ok(job) => self@.store.job(id) matches Some(stored) && job@ == job_with_progress(
                    stored,
                    self@.pool,
                ),
                Err(e) => e == DatabaseError::JobNotFound && self@.store.job(id) is None,
            },
    {
        match self.db.get_job(id) {
            Ok(job) => {
                let mut job = job;
                Self::populate_job_progress(&self.dload_manager, &mut job);
                Ok(job)
            },
            Err(e) => Err(e),
        }
    }

    /// Every job as it is reported, from the newest to the oldest, each with the
    /// progress of its running tasks.
    pub fn get_all_jobs(&self) -> (jobs: Vec<Job>)
        ensures
            job_views(jobs@) == self@.store.all_jobs().map_values(
                |job: JobView| job_with_progress(job, self@.pool),
            ),
    {
        let mut jobs = self.db.get_all_jobs();
        let ghost stored = job_views(jobs@);
        let mut i: usize = 0;
        while i < jobs.len()
            invariant
                i <= jobs.len(),
                jobs.len() == stored.len(),
                stored == self@.store.all_jobs(),
                forall|k: int|
                    0 <= k < i ==> (#[trigger] jobs[k])@ == job_with_progress(stored[k], self@.pool),
                forall|k: int| i <= k < jobs.len() ==> (#[trigger] jobs[k])@ == stored[k],
            decreases jobs.len() - i,
        {
            Self::populate_job_progress(&self.dload_manager, &mut jobs[i]);
            i += 1;
        }
        assert(job_views(jobs@) =~= self@.store.all_jobs().map_values(
            |job: JobView| job_with_progress(job, self@.pool),
        ));
        jobs
    }

    /// The task counts of the whole store.
    pub fn get_overall_stats(&self) -> (stats: TaskStats)
        ensures
            stats == task_stats(self@.store.tasks),
    {
        self.db.get_global_task_stats()
    }

    /// The stop flag, as it stands.
    pub fn get_stop_handle(&self) -> (handle: GenericStopHandle)
        ensures
            handle.value == self@.stop_requested,
    {
        self.stop_handle
    }

    /// Asks the scheduler to stop. It cancels all jobs at its next tick and is
    /// done once the pool is empty.
    pub fn stop(&mut self)
        ensures
            final(self)@ == (SchedulerView { stop_requested: true, ..old(self)@ }),
            final(self).announces() == old(self).announces(),
    {
        self.stop_handle.stop();
    }

    /// Records that the first running worker of task `task_id` has ended, and how.
    pub fn report_finished(&mut self, task_id: u128, outcome: JoinOutcome)
        ensures
            final(self)@ == (SchedulerView {
                pool: old(self)@.pool.after_report(task_id, outcome@.collected()),
                ..old(self)@
            }),
            final(self).announces() == old(self).announces(),
            final(self)@.wf() == old(self)@.wf(),
    {
        self.dload_manager.report_finished(task_id, outcome);
    }

    /// Records the progress that the worker of task `task_id` reported.
    pub fn record_progress(&mut self, task_id: u128, progress: TaskProgress)
        ensures
            final(self)@ == (SchedulerView {
                pool: old(self)@.pool.after_progress(task_id, progress),
                ..old(self)@
            }),
            final(self).announces() == old(self).announces(),
            final(self)@.wf() == old(self)@.wf(),
    {
        self.dload_manager.record_progress(task_id, progress);
    }

    /// The first half of a tick. On the first tick after a stop was requested,
    /// every job and every worker is sent `Cancel`. If there may be cleanup or
    /// deletion to do, the store is asked what is due.
    pub fn begin_tick(&mut self) -> (start: TickStart)
        requires
            old(self)@.wf(),
        ensures
            start.stopping == old(self)@.stop_requested,
            final(self)@.stop_requested == old(self)@.stop_requested,
            final(self)@.stop_signals_sent == (old(self)@.stop_signals_sent || old(
                self,
            )@.stop_requested),
            final(self).announces() == old(self).announces(),
            old(self)@.stop_requested && !old(self)@.stop_signals_sent ==> {
                &&& final(self)@.pool == old(self)@.pool.signalled(
                    WorkerSelector::All,
                    QueueCommandView::Cancel,
                )
                &&& exists|now: i64|
                    final(self)@.store == #[trigger] old(self)@.store.after_command_on_all_jobs(
                        QueueCommandView::Cancel,
                        now,
                    ).store
                &&& final(self)@.jobs_dirty
                &&& final(self)@.cleanup_dirty
            },
            !(old(self)@.stop_requested && !old(self)@.stop_signals_sent) ==> final(self)@
                == (SchedulerView {
                stop_signals_sent: final(self)@.stop_signals_sent,
                ..old(self)@
            }),
            match start.pending {
                Some(pending) => {
                    &&& final(self)@.cleanup_dirty
                    &&& pending.cleanup@ == final(self)@.store.pending_operations().cleanup
                    &&& pending.delete@ == final(self)@.store.pending_operations().delete
                    &&& pending.num_busy == crate::database::model::capped_u32(
                        final(self)@.store.pending_operations().num_busy,
                    )
                },
                None => !final(self)@.cleanup_dirty,
            },
            final(self)@.wf(),
    {
        let do_stop = self.stop_handle.is_stopped();
        if do_stop && !self.did_send_stop_signals {
            self.did_send_stop_signals = true;
            let sent = self.modify_all_jobs(QueueCommand::Cancel);
            proof {
                let now = choose|now: i64|
                    {
                        let outcome = #[trigger] old(self)@.store.after_command_on_all_jobs(
                            QueueCommandView::Cancel,
                            now,
                        );
                        &&& self@.store == outcome.store
                        &&& match outcome.error {
                            None => sent is Ok,
                            Some(e) => sent == Err::<(), DatabaseError>(e),
                        }
                    };
                crate::database::laws::law_command_on_all_jobs(
                    old(self)@.store,
                    QueueCommandView::Cancel,
                    now,
                );
            }
        } else if do_stop {
            self.did_send_stop_signals = true;
        }
        let pending = if self.cleanup_dirty.is_dirty() {
            Some(self.db.get_pending_operations())
        } else {
            None
        };
        TickStart { stopping: do_stop, pending }
    }

    /// The ids of `pending.delete` whose deletion may go ahead: all but those of
    /// tasks whose scratch directory was to be removed and was not.
    fn deletable_ids(pending: &PendingOperations, removed: &[u128]) -> (ids: Vec<u128>)
        ensures
            ids@ == deletable(pending.delete@, pending.cleanup@, removed@),
    {
        let ghost pred = |id: u128| !pending.cleanup@.contains(id) || removed@.contains(id);
        let mut ids: Vec<u128> = Vec::new();
        let mut i: usize = 0;
        assert(pending.delete@.take(0).filter(pred) =~= Seq::empty()) by {
            reveal(Seq::filter);
        }
        while i < pending.delete.len()
            invariant
                i <= pending.delete.len(),
                pred == (|id: u128| !pending.cleanup@.contains(id) || removed@.contains(id)),
                ids@ == pending.delete@.take(i as int).filter(pred),
            decreases pending.delete.len() - i,
        {
            let id = pending.delete[i];
            proof {
                crate::database::tables::lemma_take_next(pending.delete@, i as int);
                pending.delete@.take(i as int).lemma_filter_push(id, pred);
            }
            if !contains_id(pending.cleanup.as_slice(), id) || contains_id(removed, id) {
                ids.push(id);
            }
            i += 1;
        }
        assert(pending.delete@.take(i as int) =~= pending.delete@);
        ids
    }

    /// Confirms a sweep: `removed` names the tasks whose scratch directory is
    /// gone. Their cleanup is confirmed. The tasks that were due for deletion are
    /// deleted, but for those whose scratch directory was to be removed and was
    /// not. The cleanup mark is cleared exactly if no task with such work pending
    /// was still running.
    pub fn poll_pending_operations(&mut self, pending: &PendingOperations, removed: &[u128])
        requires
            old(self)@.wf(),
        ensures
            final(self)@ == old(self)@.after_sweep(
                pending.cleanup@,
                pending.delete@,
                pending.num_busy,
                removed@,
            ),
            final(self).announces() == old(self).announces(),
            final(self)@.wf(),
    {
        if !pending.is_empty() {
            self.db.confirm_cleanup(removed);
            let ids = Self::deletable_ids(pending, removed);
            self.db.confirm_deletion(ids.as_slice());
        }
        if !(pending.num_busy > 0) {
            self.cleanup_dirty.mark_clean();
        }
    }

    /// Collects the workers that have ended and writes the status of each of
    /// their tasks to the store, all at one time.
    pub fn collect_finished_tasks(&mut self) -> (results: Vec<TaskResult>)
        requires
            old(self)@.wf(),
        ensures
            final(self)@.pool == old(self)@.pool.after_collection(),
            result_views(results@) == finished_results(old(self)@.pool.workers),
            exists|now: i64|
                final(self)@.store == #[trigger] after_reports(
                    old(self)@.store,
                    result_views(results@),
                    now,
                ),
            final(self)@.jobs_dirty == old(self)@.jobs_dirty,
            final(self)@.cleanup_dirty == old(self)@.cleanup_dirty,
            final(self)@.stop_requested == old(self)@.stop_requested,
            final(self)@.stop_signals_sent == old(self)@.stop_signals_sent,
            final(self).announces() == old(self).announces(),
            final(self)@.wf(),
    {
        let now = current_time();
        let task_results = self.dload_manager.poll_done();
        let ghost views = result_views(task_results@);
        let mut i: usize = 0;
        while i < task_results.len()
            invariant
                i <= task_results.len(),
                views == result_views(task_results@),
                self.announcements == old(self).announcements,
                self.dload_manager@ == old(self)@.pool.after_collection(),
                self.db@ == after_reports(old(self)@.store, views.take(i as int), now),
                self.db@.wf(),
                self.dload_manager@.wf(),
                self.stop_handle == old(self).stop_handle,
                self.jobs_dirty == old(self).jobs_dirty,
                self.cleanup_dirty == old(self).cleanup_dirty,
                self.did_send_stop_signals == old(self).did_send_stop_signals,
            decreases task_results.len() - i,
        {
            proof {
                assert(views.take(i + 1).drop_last() =~= views.take(i as int));
                assert(views.take(i + 1).last() == task_results[i as int]@);
            }
            let db_command = QueueCommand::TaskStatusChange(task_results[i].status);
            self.db.modify_task_at(task_results[i].task.task_id, db_command, now);
            i += 1;
        }
        assert(views.take(i as int) =~= views);
        task_results
    }

    /// The download tasks that an expansion of job `job_id` into `videos` creates
    /// for `format`.
    pub fn expansion_tasks(job_id: u128, videos: &[VideoInfo], format: &str) -> (tasks: Vec<Task>)
        ensures
            expands(task_views(tasks@), job_id, video_views(videos@), format@),
    {
        let mut tasks: Vec<Task> = Vec::new();
        let mut i: usize = 0;
        while i < videos.len()
            invariant
                i <= videos.len(),
                tasks.len() == i,
                forall|k: int|
                    0 <= k < i ==> (#[trigger] tasks[k])@ == TaskView::download(
                        tasks[k]@.task_id,
                        tasks[k]@.created_at,
                        job_id,
                        videos[k]@,
                        format@,
                    ),
            decreases videos.len() - i,
        {
            tasks.push(Task::new_from_video_info(job_id, &videos[i], format.to_owned()));
            i += 1;
        }
        tasks
    }

    /// Handles the result of a URL expansion that the store knows about already.
    /// Items become download tasks of the job, which also takes the title and the
    /// thumbnail of what was found. An expansion without items is announced.
    /// A result without a product leads to nothing.
    pub fn handle_result_fetch_url_contents(&mut self, result: TaskResult) -> (handled: Handled)
        requires
            old(self)@.wf(),
        ensures
            final(self)@.pool == old(self)@.pool,
            final(self)@.jobs_dirty == old(self)@.jobs_dirty,
            final(self)@.cleanup_dirty == old(self)@.cleanup_dirty,
            final(self)@.stop_requested == old(self)@.stop_requested,
            final(self)@.stop_signals_sent == old(self)@.stop_signals_sent,
            final(self).announces() == old(self).announces(),
            fetch_result_handled(
                old(self)@.store,
                final(self)@.store,
                old(self).announces(),
                result@,
                crate::announce::announced(handled.announcement),
                handled.error,
            ),
            final(self)@.wf(),
    {
        let TaskResult { task, status: _, data } = result;
        let content = match data {
            Some(TaskResultData::FetchUrlContents(content)) => content,
            _ => {
                return Handled { announcement: None, error: None };
            },
        };
        if content.is_empty() {
            let announcement = self.announcements.on_contents_empty(&self.db, task.owner_job_id);
            return Handled { announcement, error: None };
        }
        let job_id = task.owner_job_id;
        let job_title = content.title().to_owned();
        let job_thumbnail = match content.thumbnail() {
            Some(t) => t.to_owned(),
            None => String::new(),
        };
        let new_tasks = Self::expansion_tasks(job_id, content.videos(), task.format.as_str());
        let command = QueueCommand::JobUpdated { job_title, job_thumbnail, new_tasks };
        let now = current_time();
        match self.db.modify_job_at(job_id, command, now) {
            Ok(()) => Handled { announcement: None, error: None },
            Err(e) => Handled { announcement: None, error: Some(e) },
        }
    }

    /// Handles one result that the store knows about already: decides what to
    /// announce, and takes the items of a URL expansion in.
    pub fn handle_task_result(&mut self, result: TaskResult) -> (handled: Handled)
        requires
            old(self)@.wf(),
        ensures
            final(self)@.pool == old(self)@.pool,
            final(self)@.jobs_dirty == old(self)@.jobs_dirty,
            final(self)@.cleanup_dirty == old(self)@.cleanup_dirty,
            final(self)@.stop_requested == old(self)@.stop_requested,
            final(self)@.stop_signals_sent == old(self)@.stop_signals_sent,
            final(self).announces() == old(self).announces(),
            result_handled(
                old(self)@.store,
                final(self)@.store,
                old(self).announces(),
                result@,
                crate::announce::announced(handled.announcement),
                handled.error,
            ),
            final(self)@.wf(),
    {
        let announcement = self.announcements.on_task_result(&self.db, &result);
        if result.task.kind == TaskKind::FetchUrlContents {
            let contents = self.handle_result_fetch_url_contents(result);
            match announcement {
                Some(a) => Handled { announcement: Some(a), error: contents.error },
                None => contents,
            }
        } else {
            Handled { announcement, error: None }
        }
    }

    /// Collects the workers that have ended, writes their tasks' statuses, and
    /// handles each result. If there was any, both kinds of work are marked as
    /// possibly due. Returns whether there was any, and what to announce.
    pub fn poll_done(&mut self) -> (done: Harvest)
        requires
            old(self)@.wf(),
        ensures
            done.any == (finished_results(old(self)@.pool.workers).len() > 0),
            collected(
                old(self)@,
                final(self)@,
                old(self).announces(),
                announcement_views(done.announcements@),
                done.refusals@,
            ),
            final(self)@.pool == old(self)@.pool.after_collection(),
            final(self).announces() == old(self).announces(),
            final(self)@.wf(),
    {
        let mut task_results = self.collect_finished_tasks();
        let ghost results = result_views(task_results@);
        let ghost reported = self@.store;
        let mut announcements: Vec<Announcement> = Vec::new();
        let mut refusals: Vec<DatabaseError> = Vec::new();
        if task_results.len() == 0 {
            proof {
                crate::download_manager::lemma_nothing_finished(old(self)@.pool.workers);
                assert(self@.pool.workers =~= old(self)@.pool.workers);
                assert(self@ == old(self)@);
            }
            return Harvest { any: false, announcements, refusals };
        }
        // results are handled in the order in which they were collected
        let mut pending: Vec<TaskResult> = Vec::new();
        let ghost n = results.len() as int;
        while task_results.len() > 0
            invariant
                n == results.len(),
                n > 0,
                results == finished_results(old(self)@.pool.workers),
                exists|now: i64| reported == #[trigger] after_reports(old(self)@.store, results, now),
                task_results.len() + pending.len() == n,
                result_views(task_results@) == results.take(task_results.len() as int),
                forall|k: int|
                    0 <= k < pending.len() ==> (#[trigger] pending[k])@ == results[n - 1 - k],
            decreases task_results.len(),
        {
            let ghost before = task_results@;
            match task_results.pop() {
                Some(r) => {
                    assert(r@ == result_views(before)[before.len() - 1]);
                    assert(result_views(task_results@) =~= results.take(task_results.len() as int));
                    pending.push(r);
                },
                None => {},
            }
        }
        proof {
            assert(results.take(0) =~= Seq::empty());
            assert(announcement_views(announcements@) =~= Seq::empty());
        }
        while pending.len() > 0
            invariant
                n == results.len(),
                n > 0,
                results == finished_results(old(self)@.pool.workers),
                exists|now: i64| reported == #[trigger] after_reports(old(self)@.store, results, now),
                pending.len() <= n,
                forall|k: int|
                    0 <= k < pending.len() ==> (#[trigger] pending[k])@ == results[n - 1 - k],
                results_handled(
                    reported,
                    self@.store,
                    self.announces(),
                    results.take(n - pending.len()),
                    announcement_views(announcements@),
                    refusals@,
                ),
                self@.pool == old(self)@.pool.after_collection(),
                self@.jobs_dirty == old(self)@.jobs_dirty,
                self@.cleanup_dirty == old(self)@.cleanup_dirty,
                self@.stop_requested == old(self)@.stop_requested,
                self@.stop_signals_sent == old(self)@.stop_signals_sent,
                self.announces() == old(self).announces(),
                self@.wf(),
            decreases pending.len(),
        {
            let ghost between = self@.store;
            let ghost done = n - pending.len();
            let ghost earlier = announcement_views(announcements@);
            let ghost refused = refusals@;
            match pending.pop() {
                Some(result) => {
                    let ghost view = result@;
                    assert(view == results[done]);
                    let handled = self.handle_task_result(result);
                    let ghost last = crate::announce::announced(handled.announcement);
                    proof {
                        assert(results.take(done + 1).drop_last() =~= results.take(done));
                        assert(results.take(done + 1).last() == view);
                        assert(results.take(done + 1).len() > 0);
                        lemma_results_handled_next(
                            reported,
                            between,
                            self@.store,
                            self.announces(),
                            results.take(done + 1),
                            earlier,
                            last,
                            refused,
                            handled.error,
                        );
                    }
                    match handled.error {
                        Some(e) => {
                            refusals.push(e);
                        },
                        None => {},
                    }
                    match handled.announcement {
                        Some(a) => {
                            announcements.push(a);
                            assert(announcement_views(announcements@) =~= with_announcement(
                                earlier,
                                last,
                            ));
                        },
                        None => {},
                    }
                },
                None => {},
            }
        }
        assert(results.take(n) =~= results);
        self.mark_dirty();
        proof {
            let now = choose|now: i64|
                reported == #[trigger] after_reports(old(self)@.store, results, now);
            assert(results_handled(
                after_reports(old(self)@.store, results, now),
                self@.store,
                old(self).announces(),
                results,
                announcement_views(announcements@),
                refusals@,
            ));
        }
        Harvest { any: true, announcements, refusals }
    }

    /// Admits as many waiting tasks as the pool has free places, oldest first,
    /// and takes a worker for each into the pool. Returns the admitted tasks.
    pub fn poll_start(&mut self) -> (started: Vec<Task>)
        requires
            old(self)@.wf(),
        ensures
            admitted_into(old(self)@, final(self)@, task_views(started@)),
            final(self)@.jobs_dirty == old(self)@.jobs_dirty,
            final(self).announces() == old(self).announces(),
            final(self)@.wf(),
    {
        let free_slots = self.dload_manager.num_free_workers();
        let now = current_time();
        let tasks = self.db.acquire_tasks_at(free_slots, now);
        proof {
            crate::database::laws::law_admission_is_fifo(
                old(self)@.store.tasks,
                free_slots as nat,
                now,
            );
        }
        let ghost views = task_views(tasks@);
        let mut i: usize = 0;
        while i < tasks.len()
            invariant
                i <= tasks.len(),
                views == task_views(tasks@),
                tasks.len() <= free_slots,
                free_slots + old(self)@.pool.workers.len() == old(self)@.pool.capacity,
                views == admission(old(self)@.store.tasks, free_slots as nat, now).admitted,
                self.dload_manager@ == after_starts(old(self)@.pool, views.take(i as int)),
                self.db@ == old(self)@.store.after_admission(free_slots as nat, now),
                self.db@.wf(),
                self.announcements == old(self).announcements,
                self.stop_handle == old(self).stop_handle,
                self.jobs_dirty == old(self).jobs_dirty,
                self.cleanup_dirty == old(self).cleanup_dirty,
                self.did_send_stop_signals == old(self).did_send_stop_signals,
            decreases tasks.len() - i,
        {
            proof {
                lemma_after_starts(old(self)@.pool, views.take(i as int));
                assert(views.take(i + 1).drop_last() =~= views.take(i as int));
                assert(views.take(i + 1).last() == tasks[i as int]@);
            }
            self.dload_manager.start_task(tasks[i].clone());
            i += 1;
        }
        proof {
            assert(views.take(i as int) =~= views);
            lemma_after_starts(old(self)@.pool, views);
            assert(free_slots as nat == old(self)@.pool.free());
            assert(self@.store == old(self)@.store.after_admission(old(self)@.pool.free(), now));
        }
        tasks
    }

    /// The second half of a tick. Confirms the sweep that the first half asked
    /// for, with `removed` naming the tasks whose scratch directory is gone;
    /// collects the workers that have ended and handles their results; and,
    /// unless the scheduler is stopping, admits new tasks if there may be any.
    /// The scheduler is done when it is stopping and no worker is left.
    pub fn finish_tick(&mut self, start: TickStart, removed: &[u128]) -> (actions: TickActions)
        requires
            old(self)@.wf(),
        ensures
            exists|gathered: SchedulerView|
                {
                    &&& #[trigger] collected(
                        old(self)@.after_pending_sweep(start.pending, removed@),
                        gathered,
                        old(self).announces(),
                        announcement_views(actions.announcements@),
                        actions.refusals@,
                    )
                    &&& if !start.stopping && gathered.jobs_dirty {
                        &&& admitted_into(gathered, final(self)@, task_views(actions.started@))
                        &&& !final(self)@.jobs_dirty
                    } else {
                        &&& final(self)@ == gathered
                        &&& actions.started@.len() == 0
                    }
                },
            actions.exit == (start.stopping && final(self)@.pool.workers.len() == 0),
            final(self).announces() == old(self).announces(),
            final(self)@.wf(),
    {
        match &start.pending {
            Some(pending) => {
                self.poll_pending_operations(pending, removed);
            },
            None => {},
        }
        let ghost swept = self@;
        assert(swept == old(self)@.after_pending_sweep(start.pending, removed@));
        let Harvest { any: _, announcements, refusals } = self.poll_done();
        let ghost gathered = self@;
        let started = if !start.stopping && self.jobs_dirty.is_dirty() {
            let started = self.poll_start();
            let ghost begun = self@;
            self.jobs_dirty.mark_clean();
            proof {
                let now = choose|now: i64|
                    {
                        &&& begun.store == #[trigger] gathered.store.after_admission(
                            gathered.pool.free(),
                            now,
                        )
                        &&& task_views(started@) == admission(
                            gathered.store.tasks,
                            gathered.pool.free(),
                            now,
                        ).admitted
                    };
                assert(self@.store == gathered.store.after_admission(gathered.pool.free(), now));
                assert(admitted_into(gathered, self@, task_views(started@)));
            }
            started
        } else {
            Vec::new()
        };
        let exit = start.stopping && self.dload_manager.num_workers() == 0;
        let actions = TickActions { announcements, refusals, started, exit };
        proof {
            assert(actions.announcements@ == announcements@);
            assert(actions.refusals@ == refusals@);
            assert(actions.started@ == started@);
            assert(collected(
                swept,
                gathered,
                old(self).announces(),
                announcement_views(actions.announcements@),
                actions.refusals@,
            ));
        }
        actions
    }
}

} // verus!
