//! One running worker, as the pool keeps it.

use vstd::prelude::*;
use crate::queue_command::QueueCommandView;
use crate::task::{
    Task,
    TaskProgress,
    TaskResultData,
    TaskResultDataView,
    TaskResultView,
    TaskStatus,
    TaskView,
};
use super::command::WorkerError;
use super::worker_handle::WorkerControlHandle;

verus! {

/// Why a task's run ended without a product.
#[derive(Debug)]
pub enum TaskFailure {
    /// The supervisor ended the run, or the child exited badly.
    Worker(WorkerError),
    /// Anything else went wrong; the text says what.
    Other(String),
}

/// What became of a worker's background task.
#[derive(Debug)]
pub enum JoinOutcome {
    /// The task ran to its end and returned this.
    Returned(Result<TaskResultData, TaskFailure>),
    /// The task panicked or could not be joined; the text says why.
    Crashed(String),
}

/// How a worker ended, as the pool sees it.
#[derive(Debug)]
pub enum WorkerCollectResult {
    Done(TaskResultData),
    Cancelled,
    Paused,
    Failed(String),
    Crashed(String),
}

/// The mathematical content of a [`WorkerCollectResult`].
pub ghost enum WorkerCollectResultView {
    Done(TaskResultDataView),
    Cancelled,
    Paused,
    Failed(Seq<char>),
    Crashed(Seq<char>),
}

impl View for WorkerCollectResult {
    type V = WorkerCollectResultView;

    open spec fn view(&self) -> WorkerCollectResultView {
        match self {
            WorkerCollectResult::Done(data) => WorkerCollectResultView::Done(data@),
            WorkerCollectResult::Cancelled => WorkerCollectResultView::Cancelled,
            WorkerCollectResult::Paused => WorkerCollectResultView::Paused,
            WorkerCollectResult::Failed(e) => WorkerCollectResultView::Failed(e@),
            WorkerCollectResult::Crashed(e) => WorkerCollectResultView::Crashed(e@),
        }
    }
}

/// The mathematical content of a [`JoinOutcome`].
pub ghost enum JoinOutcomeView {
    Finished(TaskResultDataView),
    Worker(WorkerError),
    Other(Seq<char>),
    Crashed(Seq<char>),
}

impl View for JoinOutcome {
    type V = JoinOutcomeView;

    open spec fn view(&self) -> JoinOutcomeView {
        match self {
            JoinOutcome::Returned(Ok(data)) => JoinOutcomeView::Finished(data@),
            JoinOutcome::Returned(Err(TaskFailure::Worker(e))) => JoinOutcomeView::Worker(*e),
            JoinOutcome::Returned(Err(TaskFailure::Other(e))) => JoinOutcomeView::Other(e@),
            JoinOutcome::Crashed(e) => JoinOutcomeView::Crashed(e@),
        }
    }
}

impl WorkerCollectResultView {
    /// The status that the task takes: a product makes it `Done`, a stop on
    /// request `Cancelled`, a pause on request `Paused`, anything else `Failed`.
    pub open spec fn task_status(self) -> TaskStatus {
        match self {
            WorkerCollectResultView::Done(_) => TaskStatus::Done,
            WorkerCollectResultView::Cancelled => TaskStatus::Cancelled,
            WorkerCollectResultView::Paused => TaskStatus::Paused,
            _ => TaskStatus::Failed,
        }
    }

    /// The product, if there is one.
    pub open spec fn task_data(self) -> Option<TaskResultDataView> {
        match self {
            WorkerCollectResultView::Done(data) => Some(data),
            _ => None,
        }
    }
}

impl JoinOutcomeView {
    /// How the pool sees this outcome.
    pub open spec fn collected(self) -> WorkerCollectResultView {
        match self {
            JoinOutcomeView::Finished(data) => WorkerCollectResultView::Done(data),
            JoinOutcomeView::Worker(WorkerError::Aborted) => WorkerCollectResultView::Cancelled,
            JoinOutcomeView::Worker(WorkerError::Paused) => WorkerCollectResultView::Paused,
            JoinOutcomeView::Worker(e) => WorkerCollectResultView::Failed(e.message_text()),
            JoinOutcomeView::Other(e) => WorkerCollectResultView::Failed(e),
            JoinOutcomeView::Crashed(e) => WorkerCollectResultView::Crashed(e),
        }
    }
}

impl WorkerCollectResult {
    /// The status that the task takes.
    pub fn task_status(&self) -> (status: TaskStatus)
        ensures
            status == self@.task_status(),
    {
        match self {
            WorkerCollectResult::Done(_) => TaskStatus::Done,
            WorkerCollectResult::Cancelled => TaskStatus::Cancelled,
            WorkerCollectResult::Paused => TaskStatus::Paused,
            _ => TaskStatus::Failed,
        }
    }

    /// The product, if there is one.
    pub fn task_data(self) -> (data: Option<TaskResultData>)
        ensures
            crate::task::data_view(data) == self@.task_data(),
    {
        match self {
            WorkerCollectResult::Done(data) => Some(data),
            _ => None,
        }
    }
}

/// One worker of the pool: the task as it was admitted, its progress, its
/// control flags, and how it ended once it has.
#[derive(Debug)]
pub struct DownloadWorker {
    pub task: Task,
    pub progress: TaskProgress,
    pub control_handle: WorkerControlHandle,
    pub outcome: Option<WorkerCollectResult>,
}

/// The mathematical content of a [`DownloadWorker`].
pub ghost struct WorkerView {
    pub task: TaskView,
    pub progress: TaskProgress,
    pub control_handle: WorkerControlHandle,
    pub outcome: Option<WorkerCollectResultView>,
}

impl View for DownloadWorker {
    type V = WorkerView;

    open spec fn view(&self) -> WorkerView {
        WorkerView {
            task: self.task@,
            progress: self.progress,
            control_handle: self.control_handle,
            outcome: match self.outcome {
                Some(o) => Some(o@),
                None => None,
            },
        }
    }
}

/// The models of a run of workers, in order.
pub open spec fn worker_views(workers: Seq<DownloadWorker>) -> Seq<WorkerView> {
    workers.map_values(|w: DownloadWorker| w@)
}

impl WorkerView {
    /// A worker that was just started on `task`.
    pub open spec fn started(task: TaskView) -> WorkerView {
        WorkerView {
            task,
            progress: TaskProgress { percent: 0, bytes_estimate: 0, bytes_downloaded: 0 },
            control_handle: WorkerControlHandle { stop_value: false, pause_value: false },
            outcome: None,
        }
    }

    /// The worker after `command` reached it: `Pause` raises the pause flag,
    /// `Cancel` and `Delete` raise the stop flag, nothing else concerns a worker.
    pub open spec fn signalled(self, command: QueueCommandView) -> WorkerView {
        match command {
            QueueCommandView::Pause => WorkerView {
                control_handle: WorkerControlHandle { pause_value: true, ..self.control_handle },
                ..self
            },
            QueueCommandView::Cancel | QueueCommandView::Delete => WorkerView {
                control_handle: WorkerControlHandle { stop_value: true, ..self.control_handle },
                ..self
            },
            _ => self,
        }
    }

    /// What the pool reports for this worker once it has ended as `outcome`.
    pub open spec fn result(self, outcome: WorkerCollectResultView) -> TaskResultView {
        TaskResultView { task: self.task, status: outcome.task_status(), data: outcome.task_data() }
    }
}

} // verus!
