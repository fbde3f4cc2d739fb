//! The pool of running workers.
//!
//! The pool owns one entry for every task that a worker is running. It never
//! holds more entries than the configured number of download workers. The
//! process that runs the workers reports to the pool when one has ended; the
//! scheduler collects what has ended and routes commands to what is running.

pub mod command;
pub mod worker;
pub mod worker_handle;

use std::sync::Arc;
use vstd::prelude::*;
use crate::env::EnvironmentManager;
use crate::filesystem::{worker_root_dir, FilesystemDriver};
use crate::queue_command::{QueueCommand, QueueCommandView};
use crate::task::{result_views, Task, TaskProgress, TaskResult, TaskResultView, TaskView};
use worker::{worker_views, JoinOutcome, TaskFailure, WorkerCollectResultView, WorkerView};

pub use command::WorkerError;
pub use worker::{DownloadWorker, WorkerCollectResult};
pub use worker_handle::WorkerControlHandle;

verus! {

/// The pool of running workers.
#[derive(Debug)]
pub struct DownloadManager {
    workers: Vec<DownloadWorker>,
    env: Arc<EnvironmentManager>,
    fs: Arc<FilesystemDriver>,
}

/// The mathematical content of a [`DownloadManager`]: its workers in the order in
/// which they were started, and the greatest number of workers it may hold.
pub ghost struct PoolView {
    pub workers: Seq<WorkerView>,
    pub capacity: nat,
}

/// Selects the workers that have not ended.
pub open spec fn still_running() -> spec_fn(WorkerView) -> bool {
    |w: WorkerView| w.outcome is None
}

/// Which workers a command is for.
#[derive(Clone, Copy, Debug, PartialEq, Eq, Structural)]
pub enum WorkerSelector {
    /// The worker of one task.
    Task(u128),
    /// The workers of the tasks of one job.
    Job(u128),
    /// Every worker.
    All,
}

impl WorkerSelector {
    /// Whether the selector picks a worker on `task`.
    pub open spec fn picks(self, task: TaskView) -> bool {
        match self {
            WorkerSelector::Task(task_id) => task.task_id == task_id,
            WorkerSelector::Job(job_id) => task.owner_job_id == job_id,
            WorkerSelector::All => true,
        }
    }

    /// Whether the selector picks a worker on `task`.
    pub fn matches(&self, task: &Task) -> (picked: bool)
        ensures
            picked == self.picks(task@),
    {
        match self {
            WorkerSelector::Task(task_id) => task.task_id == *task_id,
            WorkerSelector::Job(job_id) => task.owner_job_id == *job_id,
            WorkerSelector::All => true,
        }
    }
}

/// The results of the workers that have ended, the one that was started last
/// first.
pub open spec fn finished_results(workers: Seq<WorkerView>) -> Seq<TaskResultView>
    decreases workers.len(),
{
    if workers.len() == 0 {
        Seq::empty()
    } else {
        let earlier = finished_results(workers.drop_last());
        match workers.last().outcome {
            Some(outcome) => seq![workers.last().result(outcome)] + earlier,
            None => earlier,
        }
    }
}

impl PoolView {
    /// The pool's invariant: it holds no more workers than it may.
    pub open spec fn wf(self) -> bool {
        self.workers.len() <= self.capacity
    }

    /// How many more workers the pool may hold.
    pub open spec fn free(self) -> nat {
        (self.capacity - self.workers.len()) as nat
    }

    /// The pool after `command` reached the workers that `selector` picks.
    pub open spec fn signalled(self, selector: WorkerSelector, command: QueueCommandView) -> PoolView {
        PoolView {
            workers: self.workers.map_values(
                |w: WorkerView|
                    if selector.picks(w.task) {
                        w.signalled(command)
                    } else {
                        w
                    },
            ),
            ..self
        }
    }

    /// The pool after a worker was started on `task`.
    pub open spec fn after_start(self, task: TaskView) -> PoolView {
        PoolView { workers: self.workers.push(WorkerView::started(task)), ..self }
    }

    /// Whether `workers[i]` is the first running worker of task `task_id`.
    pub open spec fn is_running_worker_of(self, task_id: u128, i: int) -> bool {
        &&& 0 <= i < self.workers.len()
        &&& self.workers[i].task.task_id == task_id
        &&& self.workers[i].outcome is None
        &&& forall|j: int|
            0 <= j < i ==> !((#[trigger] self.workers[j]).task.task_id == task_id
                && self.workers[j].outcome is None)
    }

    /// The pool after the first running worker of task `task_id` was reported to
    /// have ended as `outcome`. A report for a task without a running worker
    /// changes nothing.
    pub open spec fn after_report(self, task_id: u128, outcome: WorkerCollectResultView) -> PoolView {
        if exists|i: int| self.is_running_worker_of(task_id, i) {
            let i = choose|i: int| self.is_running_worker_of(task_id, i);
            PoolView {
                workers: self.workers.update(
                    i,
                    WorkerView { outcome: Some(outcome), ..self.workers[i] },
                ),
                ..self
            }
        } else {
            self
        }
    }

    /// The pool after the worker of task `task_id` reported `progress`.
    pub open spec fn after_progress(self, task_id: u128, progress: TaskProgress) -> PoolView {
        PoolView {
            workers: self.workers.map_values(
                |w: WorkerView|
                    if w.task.task_id == task_id {
                        WorkerView { progress, ..w }
                    } else {
                        w
                    },
            ),
            ..self
        }
    }

    /// The pool after the workers that have ended were collected.
    pub open spec fn after_collection(self) -> PoolView {
        PoolView { workers: self.workers.filter(still_running()), ..self }
    }

    /// Whether `workers[i]` is the first worker of task `task_id`.
    pub open spec fn is_worker_of(self, task_id: u128, i: int) -> bool {
        &&& 0 <= i < self.workers.len()
        &&& self.workers[i].task.task_id == task_id
        &&& forall|j: int| 0 <= j < i ==> (#[trigger] self.workers[j]).task.task_id != task_id
    }
}

/// Putting a worker in front of others puts its result, if it has ended, behind
/// theirs.
pub proof fn lemma_finished_results_prepend(first: WorkerView, others: Seq<WorkerView>)
    ensures
        finished_results(seq![first] + others) == finished_results(others) + match first.outcome {
            Some(outcome) => seq![first.result(outcome)],
            None => Seq::empty(),
        },
    decreases others.len(),
{
    let all = seq![first] + others;
    let tail = match first.outcome {
        Some(outcome) => seq![first.result(outcome)],
        None => Seq::empty(),
    };
    if others.len() == 0 {
        assert(all.drop_last() =~= Seq::empty());
        assert(finished_results(all.drop_last()) =~= Seq::empty());
        assert(finished_results(all) =~= finished_results(others) + tail);
    } else {
        assert(all.drop_last() =~= seq![first] + others.drop_last());
        assert(all.last() == others.last());
        lemma_finished_results_prepend(first, others.drop_last());
        assert(finished_results(all) =~= finished_results(others) + tail);
    }
}

/// Where no worker has ended there is nothing to report, and collecting
/// changes nothing.
pub proof fn lemma_nothing_finished(workers: Seq<WorkerView>)
    ensures
        finished_results(workers).len() == 0 <==> forall|i: int|
            0 <= i < workers.len() ==> (#[trigger] workers[i]).outcome is None,
        finished_results(workers).len() == 0 ==> workers.filter(still_running()) == workers,
    decreases workers.len(),
{
    reveal(Seq::filter);
    if workers.len() > 0 {
        let front = workers.drop_last();
        lemma_nothing_finished(front);
        assert(forall|i: int| 0 <= i < front.len() ==> front[i] == workers[i]);
        if finished_results(workers).len() == 0 {
            assert(workers.last().outcome is None);
            assert(workers.filter(still_running()) =~= workers);
        } else {
            if workers.last().outcome is None {
                let w = choose|w: int| 0 <= w < front.len() && !((#[trigger] front[w]).outcome is None);
                assert(workers[w].outcome is Some);
            } else {
                assert(workers[workers.len() - 1].outcome is Some);
            }
        }
    } else {
        assert(workers.filter(still_running()) =~= workers);
    }
}

/// The pool never holds more workers than it may: a start into a free place
/// keeps the bound, and so does every other change.
pub proof fn law_worker_cap(
    pool: PoolView,
    task: TaskView,
    selector: WorkerSelector,
    command: QueueCommandView,
    task_id: u128,
    outcome: WorkerCollectResultView,
    progress: TaskProgress,
)
    requires
        pool.wf(),
    ensures
        pool.workers.len() < pool.capacity ==> pool.after_start(task).wf(),
        pool.signalled(selector, command).wf(),
        pool.after_report(task_id, outcome).wf(),
        pool.after_progress(task_id, progress).wf(),
        pool.after_collection().wf(),
{
    pool.workers.lemma_filter_len(still_running());
}

/// A second `Pause` for the same workers changes nothing; nor does a second
/// `Cancel`.
pub proof fn law_signal_is_idempotent(pool: PoolView, selector: WorkerSelector)
    ensures
        pool.signalled(selector, QueueCommandView::Pause).signalled(
            selector,
            QueueCommandView::Pause,
        ) == pool.signalled(selector, QueueCommandView::Pause),
        pool.signalled(selector, QueueCommandView::Cancel).signalled(
            selector,
            QueueCommandView::Cancel,
        ) == pool.signalled(selector, QueueCommandView::Cancel),
{
    let paused = pool.signalled(selector, QueueCommandView::Pause);
    assert(paused.signalled(selector, QueueCommandView::Pause).workers =~= paused.workers);
    let stopped = pool.signalled(selector, QueueCommandView::Cancel);
    assert(stopped.signalled(selector, QueueCommandView::Cancel).workers =~= stopped.workers);
}

impl View for DownloadManager {
    type V = PoolView;

    closed spec fn view(&self) -> PoolView {
        PoolView {
            workers: worker_views(self.workers@),
            capacity: self.env.config.num_download_workers as nat,
        }
    }
}

impl DownloadManager {
    /// An empty pool for the configured number of download workers.
    pub fn new(env: Arc<EnvironmentManager>, fs: Arc<FilesystemDriver>) -> (pool: DownloadManager)
        ensures
            pool@.workers.len() == 0,
            pool@.capacity == env.config.num_download_workers,
            pool.fs() == fs,
            pool@.wf(),
    {
        DownloadManager { workers: Vec::new(), env, fs }
    }

    /// The paths that the pool's workers use.
    pub closed spec fn fs(&self) -> Arc<FilesystemDriver> {
        self.fs
    }

    /// How many more workers the pool may hold.
    pub fn num_free_workers(&self) -> (free: u32)
        requires
            self@.wf(),
        ensures
            free + self@.workers.len() == self@.capacity,
    {
        self.env.config.num_download_workers - self.workers.len() as u32
    }

    /// Whether the pool holds no more workers than it may. Every pool does.
    pub fn is_well_formed(&self) -> (wf: bool)
        ensures
            wf == self@.wf(),
    {
        self.workers.len() <= self.env.config.num_download_workers as usize
    }

    /// How many workers the pool holds.
    pub fn num_workers(&self) -> (count: usize)
        ensures
            count == self@.workers.len(),
    {
        self.workers.len()
    }

    /// Takes a worker for `task` into the pool, with fresh progress and both
    /// control flags down. The pool must have a free place.
    pub fn start_task(&mut self, task: Task)
        requires
            old(self)@.workers.len() < old(self)@.capacity,
        ensures
            final(self)@ == old(self)@.after_start(task@),
            final(self).fs() == old(self).fs(),
            final(self)@.wf(),
    {
        let progress = TaskProgress::default();
        let control_handle = WorkerControlHandle::new();
        self.workers.push(DownloadWorker { task, progress, control_handle, outcome: None });
        assert(self@.workers =~= old(self)@.after_start(task@).workers);
    }

    /// The last reported progress of the first worker of task `task_id`, if the
    /// pool holds one.
    pub fn get_worker_progress(&self, task_id: u128) -> (progress: Option<TaskProgress>)
        ensures
            match progress {
                Some(p) => exists|i: int| self@.is_worker_of(task_id, i) && self@.workers[i].progress == p,
                None => forall|i: int| !self@.is_worker_of(task_id, i),
            },
    {
        match self.find_worker(task_id) {
            Some(i) => Some(self.workers[i].progress),
            None => None,
        }
    }

    /// The control flags of the first worker of task `task_id`, if the pool holds
    /// one. A supervisor reads them at every poll.
    pub fn get_worker_by_task_id(&self, task_id: u128) -> (handle: Option<WorkerControlHandle>)
        ensures
            match handle {
                Some(h) => exists|i: int|
                    self@.is_worker_of(task_id, i) && self@.workers[i].control_handle == h,
                None => forall|i: int| !self@.is_worker_of(task_id, i),
            },
    {
        match self.find_worker(task_id) {
            Some(i) => Some(self.workers[i].control_handle),
            None => None,
        }
    }

    /// The position of the first worker of task `task_id`.
    fn find_worker(&self, task_id: u128) -> (position: Option<usize>)
        ensures
            match position {
                Some(i) => self@.is_worker_of(task_id, i as int),
                None => forall|i: int| !self@.is_worker_of(task_id, i),
            },
    {
        let ghost views = self@.workers;
        let mut i: usize = 0;
        while i < self.workers.len()
            invariant
                i <= self.workers.len(),
                views == self@.workers,
                forall|j: int| 0 <= j < i ==> (#[trigger] views[j]).task.task_id != task_id,
            decreases self.workers.len() - i,
        {
            if self.workers[i].task.task_id == task_id {
                return Some(i);
            }
            i += 1;
        }
        assert forall|k: int| !self@.is_worker_of(task_id, k) by {
            if 0 <= k < views.len() {
                assert(views[k].task.task_id != task_id);
            }
        }
        None
    }

    /// How the pool sees what became of a worker's background task.
    pub fn join_worker_thread(outcome: JoinOutcome) -> (result: WorkerCollectResult)
        ensures
            result@ == outcome@.collected(),
    {
        match outcome {
            JoinOutcome::Returned(Ok(data)) => WorkerCollectResult::Done(data),
            JoinOutcome::Returned(Err(failure)) => match failure {
                TaskFailure::Worker(WorkerError::Aborted) => WorkerCollectResult::Cancelled,
                TaskFailure::Worker(WorkerError::Paused) => WorkerCollectResult::Paused,
                TaskFailure::Worker(e) => WorkerCollectResult::Failed(e.message()),
                TaskFailure::Other(e) => WorkerCollectResult::Failed(e),
            },
            JoinOutcome::Crashed(e) => WorkerCollectResult::Crashed(e),
        }
    }

    /// Records that the first running worker of task `task_id` has ended, and how.
    pub fn report_finished(&mut self, task_id: u128, outcome: JoinOutcome)
        ensures
            final(self)@ == old(self)@.after_report(task_id, outcome@.collected()),
            final(self).fs() == old(self).fs(),
            final(self)@.wf() == old(self)@.wf(),
    {
        let ghost start = self@;
        let mut i: usize = 0;
        while i < self.workers.len()
            invariant
                i <= self.workers.len(),
                *self == *old(self),
                start == self@,
                forall|j: int|
                    0 <= j < i ==> !((#[trigger] start.workers[j]).task.task_id == task_id
                        && start.workers[j].outcome is None),
            decreases self.workers.len() - i,
        {
            if self.workers[i].task.task_id == task_id && self.workers[i].outcome.is_none() {
                proof {
                    assert(start.is_running_worker_of(task_id, i as int));
                    let c = choose|c: int| start.is_running_worker_of(task_id, c);
                    if c < i {
                        assert(!(start.workers[c].task.task_id == task_id
                            && start.workers[c].outcome is None));
                    } else if i < c {
                        assert(!(start.workers[i as int].task.task_id == task_id
                            && start.workers[i as int].outcome is None));
                    }
                }
                self.workers[i].outcome = Some(Self::join_worker_thread(outcome));
                assert(self@.workers =~= start.after_report(task_id, outcome@.collected()).workers);
                return ;
            }
            i += 1;
        }
        assert forall|k: int| !start.is_running_worker_of(task_id, k) by {
            if 0 <= k < start.workers.len() {
                assert(!(start.workers[k].task.task_id == task_id
                    && start.workers[k].outcome is None));
            }
        }
    }

    /// Collects every worker that has ended: takes it out of the pool and reports
    /// its task, the status that the task takes, and its product if it has one.
    /// The results come in reverse order of the workers' start.
    pub fn poll_done(&mut self) -> (results: Vec<TaskResult>)
        ensures
            final(self)@ == old(self)@.after_collection(),
            result_views(results@) == finished_results(old(self)@.workers),
            final(self).fs() == old(self).fs(),
            old(self)@.wf() ==> final(self)@.wf(),
    {
        let ghost start = self@.workers;
        let mut res: Vec<TaskResult> = Vec::new();
        let mut idx: usize = self.workers.len();
        proof {
            assert(start.skip(idx as int) =~= Seq::empty());
            assert(start.skip(idx as int).filter(still_running()) =~= Seq::empty()) by {
                reveal(Seq::filter);
            }
            assert(self@.workers =~= start.take(idx as int) + start.skip(idx as int).filter(
                still_running(),
            ));
            assert(result_views(res@) =~= finished_results(start.skip(idx as int)));
        }
        while idx > 0
            invariant
                idx <= start.len(),
                idx <= self.workers.len(),
                self.env == old(self).env,
                self.fs == old(self).fs,
                start == old(self)@.workers,
                self@.workers == start.take(idx as int) + start.skip(idx as int).filter(
                    still_running(),
                ),
                result_views(res@) == finished_results(start.skip(idx as int)),
            decreases idx,
        {
            idx -= 1;
            let ghost later = start.skip(idx + 1);
            proof {
                assert(start.skip(idx as int) =~= seq![start[idx as int]] + later);
                later.lemma_filter_prepend(start[idx as int], still_running());
                lemma_finished_results_prepend(start[idx as int], later);
                assert(self@.workers[idx as int] == start[idx as int]);
            }
            if self.workers[idx].outcome.is_some() {
                let ghost before = self.workers@;
                let ghost reported = result_views(res@);
                let worker = self.workers.remove(idx);
                assert(worker_views(self.workers@) =~= worker_views(before).remove(idx as int));
                assert(self@.workers =~= start.take(idx as int) + later.filter(still_running()));
                let DownloadWorker { task, outcome, .. } = worker;
                match outcome {
                    Some(worker_result) => {
                        let status = worker_result.task_status();
                        let data = worker_result.task_data();
                        res.push(TaskResult { task, status, data });
                        assert(result_views(res@) =~= reported.push(
                            start[idx as int].result(start[idx as int].outcome->0),
                        ));
                    },
                    None => {},
                }
            } else {
                assert(self@.workers =~= start.take(idx as int) + (seq![start[idx as int]]
                    + later.filter(still_running())));
            }
        }
        proof {
            assert(start.skip(0) =~= start);
            assert(self@.workers =~= start.filter(still_running()));
            start.lemma_filter_len(still_running());
        }
        res
    }

    /// Passes `command` on to the workers that `selector` picks: `Pause` raises
    /// their pause flags, `Cancel` and `Delete` their stop flags. No other command
    /// concerns a worker.
    pub fn signal_worker(&mut self, command: &QueueCommand, selector: WorkerSelector)
        ensures
            final(self)@ == old(self)@.signalled(selector, command@),
            final(self).fs() == old(self).fs(),
            final(self)@.wf() == old(self)@.wf(),
    {
        let ghost start = self@.workers;
        let mut i: usize = 0;
        while i < self.workers.len()
            invariant
                i <= self.workers.len(),
                self.workers.len() == old(self).workers.len(),
                self.env == old(self).env,
                self.fs == old(self).fs,
                start == old(self)@.workers,
                forall|k: int|
                    0 <= k < i ==> (#[trigger] self.workers[k])@ == if selector.picks(
                        start[k].task,
                    ) {
                        start[k].signalled(command@)
                    } else {
                        start[k]
                    },
                forall|k: int| i <= k < self.workers.len() ==> (#[trigger] self.workers[k])@
                    == start[k],
            decreases self.workers.len() - i,
        {
            if selector.matches(&self.workers[i].task) {
                match command {
                    QueueCommand::Pause => {
                        self.workers[i].control_handle.pause();
                    },
                    QueueCommand::Cancel => {
                        self.workers[i].control_handle.stop();
                    },
                    QueueCommand::Delete => {
                        self.workers[i].control_handle.stop();
                    },
                    _ => {},
                }
            }
            i += 1;
        }
        assert(self@.workers =~= old(self)@.signalled(selector, command@).workers);
    }

    /// Passes `command` on to the workers of the tasks of job `job_id`.
    pub fn modify_tasks_by_job(&mut self, job_id: u128, command: &QueueCommand)
        ensures
            final(self)@ == old(self)@.signalled(WorkerSelector::Job(job_id), command@),
            final(self).fs() == old(self).fs(),
            final(self)@.wf() == old(self)@.wf(),
    {
        self.signal_worker(command, WorkerSelector::Job(job_id));
    }

    /// Passes `command` on to the worker of task `task_id`.
    pub fn modify_task(&mut self, task_id: u128, command: &QueueCommand)
        ensures
            final(self)@ == old(self)@.signalled(WorkerSelector::Task(task_id), command@),
            final(self).fs() == old(self).fs(),
            final(self)@.wf() == old(self)@.wf(),
    {
        self.signal_worker(command, WorkerSelector::Task(task_id));
    }

    /// Passes `command` on to every worker.
    pub fn modify_all_tasks(&mut self, command: &QueueCommand)
        ensures
            final(self)@ == old(self)@.signalled(WorkerSelector::All, command@),
            final(self).fs() == old(self).fs(),
            final(self)@.wf() == old(self)@.wf(),
    {
        self.signal_worker(command, WorkerSelector::All);
    }

    /// Records the progress that the worker of task `task_id` reported.
    pub fn record_progress(&mut self, task_id: u128, progress: TaskProgress)
        ensures
            final(self)@ == old(self)@.after_progress(task_id, progress),
            final(self).fs() == old(self).fs(),
            final(self)@.wf() == old(self)@.wf(),
    {
        let ghost start = self@.workers;
        let mut i: usize = 0;
        while i < self.workers.len()
            invariant
                i <= self.workers.len(),
                self.workers.len() == old(self).workers.len(),
                self.env == old(self).env,
                self.fs == old(self).fs,
                start == old(self)@.workers,
                forall|k: int|
                    0 <= k < i ==> (#[trigger] self.workers[k])@ == if start[k].task.task_id
                        == task_id {
                        WorkerView { progress, ..start[k] }
                    } else {
                        start[k]
                    },
                forall|k: int| i <= k < self.workers.len() ==> (#[trigger] self.workers[k])@
                    == start[k],
            decreases self.workers.len() - i,
        {
            if self.workers[i].task.task_id == task_id {
                self.workers[i].progress = progress;
            }
            i += 1;
        }
        assert(self@.workers =~= old(self)@.after_progress(task_id, progress).workers);
    }

    /// The scratch directory of task `task_id`, which is to be removed once the
    /// task's worker is gone.
    pub fn clean_up_after_worker(&self, task_id: u128) -> (dir: String)
        ensures
            dir@ == worker_root_dir(self.fs().env().paths.worker_dir@, task_id),
    {
        self.fs.get_worker_root_dir_for_task(task_id)
    }
}

} // verus!
