//! Which desktop announcement a finished task calls for.

use vstd::prelude::*;
use crate::database::model::TaskStats;
use crate::database::{ServerDatabase, StoreView};
use crate::job::JobStatus;
use crate::task::{TaskKind, TaskResult, TaskStatus};

verus! {

/// A desktop announcement: a summary line and a body.
#[derive(Debug)]
pub struct Announcement {
    pub summary: String,
    pub body: String,
}

/// The mathematical content of an [`Announcement`].
pub ghost struct AnnouncementView {
    pub summary: Seq<char>,
    pub body: Seq<char>,
}

impl View for Announcement {
    type V = AnnouncementView;

    open spec fn view(&self) -> AnnouncementView {
        AnnouncementView { summary: self.summary@, body: self.body@ }
    }
}

/// The contents of a run of announcements, in order.
pub open spec fn announcement_views(announcements: Seq<Announcement>) -> Seq<AnnouncementView> {
    announcements.map_values(|a: Announcement| a@)
}

/// The content of an optional announcement.
pub open spec fn announced(announcement: Option<Announcement>) -> Option<AnnouncementView> {
    match announcement {
        Some(a) => Some(a@),
        None => None,
    }
}

/// The announcer. It announces nothing unless it is enabled.
#[derive(Debug)]
pub struct AnnounceSystem {
    enabled: bool,
}

/// How a job's end is worded.
pub open spec fn completion_text(status: JobStatus) -> Seq<char> {
    match status {
        JobStatus::Done => "YouTube download complete"@,
        JobStatus::PartiallyDone => "YouTube download partially complete"@,
        JobStatus::Paused => "YouTube download paused"@,
        JobStatus::Failed => "YouTube download failed"@,
        JobStatus::Cancelled => "YouTube download cancelled"@,
        _ => "YouTube ERROR_STATUS"@,
    }
}

/// Whether a job with these task counts has come to rest: it had more to do
/// than expand its URL, and none of its tasks waits or runs.
pub open spec fn at_rest(stats: TaskStats) -> bool {
    stats.num_total > 1 && stats.num_waiting == 0 && stats.num_active == 0
}

/// Whether a result may bring its job to rest: a URL expansion that is done, or
/// a download that has ended in whatever way.
pub open spec fn may_complete(kind: TaskKind, status: TaskStatus) -> bool {
    if kind == TaskKind::FetchUrlContents {
        status == TaskStatus::Done
    } else {
        status.spec_is_terminal()
    }
}

/// The announcement that a result for a task of job `job_id` calls for, given
/// the store after the task's status was written.
///
/// A result that may bring its job to rest is announced when the job is at
/// rest, worded after the job's status, with the job's title. A URL expansion
/// that failed is announced with the job's URL. Nothing is announced for a job
/// that the store does not hold.
pub open spec fn result_announcement(
    store: StoreView,
    kind: TaskKind,
    status: TaskStatus,
    job_id: u128,
) -> Option<AnnouncementView> {
    match store.job(job_id) {
        None => None,
        Some(job) => if may_complete(kind, status) && at_rest(store.job_task_stats(job_id)) {
            Some(AnnouncementView { summary: completion_text(job.status), body: job.title })
        } else if kind == TaskKind::FetchUrlContents && status == TaskStatus::Failed {
            Some(AnnouncementView { summary: "Failed to fetch video data"@, body: job.url })
        } else {
            None
        },
    }
}

/// The announcement that an expansion without items calls for.
pub open spec fn empty_announcement(store: StoreView, job_id: u128) -> Option<AnnouncementView> {
    match store.job(job_id) {
        None => None,
        Some(job) => Some(AnnouncementView { summary: "No videos available."@, body: job.url }),
    }
}

impl AnnounceSystem {
    pub closed spec fn enabled(&self) -> bool {
        self.enabled
    }

    pub fn new(enabled: bool) -> (announcer: AnnounceSystem)
        ensures
            announcer.enabled() == enabled,
    {
        AnnounceSystem { enabled }
    }

    /// Whether the job `job_id` has come to rest.
    fn check_needs_completion_announcement(db: &ServerDatabase, job_id: u128) -> (needed: bool)
        ensures
            needed == at_rest(db@.job_task_stats(job_id)),
    {
        let stats = db.get_job_task_stats(job_id);
        stats.num_total > 1 && stats.num_waiting == 0 && stats.num_active == 0
    }

    /// The summary line for a job that has come to rest in state `status`.
    pub fn completion_summary(status: JobStatus) -> (summary: String)
        ensures
            summary@ == completion_text(status),
    {
        let text = match status {
            JobStatus::Done => "YouTube download complete",
            JobStatus::PartiallyDone => "YouTube download partially complete",
            JobStatus::Paused => "YouTube download paused",
            JobStatus::Failed => "YouTube download failed",
            JobStatus::Cancelled => "YouTube download cancelled",
            _ => "YouTube ERROR_STATUS",
        };
        text.to_string()
    }

    /// The announcement that `task_result` calls for, if any. The store must
    /// hold the task's new status already.
    pub fn on_task_result(&self, db: &ServerDatabase, task_result: &TaskResult) -> (announcement:
        Option<Announcement>)
        ensures
            announced(announcement) == if self.enabled() {
                result_announcement(
                    db@,
                    task_result.task.kind,
                    task_result.status,
                    task_result.task.owner_job_id,
                )
            } else {
                None
            },
    {
        if !self.enabled {
            return None;
        }
        let job_id = task_result.task.owner_job_id;
        let job = match db.get_job(job_id) {
            Ok(job) => job,
            Err(_) => {
                return None;
            },
        };
        let may_complete = match task_result.task.kind {
            TaskKind::FetchUrlContents => task_result.status == TaskStatus::Done,
            TaskKind::DownloadAndConvert => task_result.status.is_terminal(),
        };
        if may_complete && Self::check_needs_completion_announcement(db, job_id) {
            Some(Announcement { summary: Self::completion_summary(job.status), body: job.title })
        } else if task_result.task.kind == TaskKind::FetchUrlContents && task_result.status
            == TaskStatus::Failed {
            Some(Announcement { summary: "Failed to fetch video data".to_string(), body: job.url })
        } else {
            None
        }
    }

    /// The announcement that an expansion of job `job_id` without items calls
    /// for, if any.
    pub fn on_contents_empty(&self, db: &ServerDatabase, job_id: u128) -> (announcement: Option<
        Announcement,
    >)
        ensures
            announced(announcement) == if self.enabled() {
                empty_announcement(db@, job_id)
            } else {
                None
            },
    {
        if !self.enabled {
            return None;
        }
        match db.get_job(job_id) {
            Ok(job) => Some(
                Announcement { summary: "No videos available.".to_string(), body: job.url },
            ),
            Err(_) => None,
        }
    }
}

} // verus!
