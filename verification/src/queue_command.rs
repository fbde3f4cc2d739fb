//! The commands that move jobs and tasks between states.

use vstd::prelude::*;
use crate::task::{clone_tasks, task_views, Task, TaskStatus, TaskView};

verus! {

/// A command addressed to a task or to a job.
#[derive(Debug)]
pub enum QueueCommand {
    Pause,
    Resume,
    Cancel,
    Retry,
    Delete,
    SetPrioritized(bool),
    TaskStatusChange(TaskStatus),
    JobUpdated { job_title: String, job_thumbnail: String, new_tasks: Vec<Task> },
}

/// The mathematical content of a [`QueueCommand`].
pub ghost enum QueueCommandView {
    Pause,
    Resume,
    Cancel,
    Retry,
    Delete,
    SetPrioritized(bool),
    TaskStatusChange(TaskStatus),
    JobUpdated { job_title: Seq<char>, job_thumbnail: Seq<char>, new_tasks: Seq<TaskView> },
}

impl View for QueueCommand {
    type V = QueueCommandView;

    open spec fn view(&self) -> QueueCommandView {
        match self {
            QueueCommand::Pause => QueueCommandView::Pause,
            QueueCommand::Resume => QueueCommandView::Resume,
            QueueCommand::Cancel => QueueCommandView::Cancel,
            QueueCommand::Retry => QueueCommandView::Retry,
            QueueCommand::Delete => QueueCommandView::Delete,
            QueueCommand::SetPrioritized(p) => QueueCommandView::SetPrioritized(*p),
            QueueCommand::TaskStatusChange(s) => QueueCommandView::TaskStatusChange(*s),
            QueueCommand::JobUpdated { job_title, job_thumbnail, new_tasks } => {
                QueueCommandView::JobUpdated {
                    job_title: job_title@,
                    job_thumbnail: job_thumbnail@,
                    new_tasks: task_views(new_tasks@),
                }
            },
        }
    }
}

impl Clone for QueueCommand {
    fn clone(&self) -> (copy: Self)
        ensures
            copy@ == self@,
    {
        match self {
            QueueCommand::Pause => QueueCommand::Pause,
            QueueCommand::Resume => QueueCommand::Resume,
            QueueCommand::Cancel => QueueCommand::Cancel,
            QueueCommand::Retry => QueueCommand::Retry,
            QueueCommand::Delete => QueueCommand::Delete,
            QueueCommand::SetPrioritized(p) => QueueCommand::SetPrioritized(*p),
            QueueCommand::TaskStatusChange(s) => QueueCommand::TaskStatusChange(*s),
            QueueCommand::JobUpdated { job_title, job_thumbnail, new_tasks } => {
                QueueCommand::JobUpdated {
                    job_title: job_title.clone(),
                    job_thumbnail: job_thumbnail.clone(),
                    new_tasks: clone_tasks(new_tasks),
                }
            },
        }
    }
}

} // verus!
