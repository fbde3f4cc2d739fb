//! Tasks: the atomic units of work, their states, and the effect that each
//! command has on a single task.

pub mod download_and_convert;
pub mod fetch_url_contents;

use vstd::prelude::*;
use crate::download_manager::worker::TaskFailure;
use crate::env::ytdlp::{fetch_argument, is_format, rendered_download, texts};
use crate::filesystem::{worker_data_dir, worker_log_dir, FilesystemDriver};
use crate::text::joined_path;
use crate::platform::{current_time, fresh_id};
use crate::job::Job;
use crate::playlist::{VideoInfo, VideoInfoView, VideoOrPlaylist, VideoOrPlaylistView};
use crate::queue_command::{QueueCommand, QueueCommandView};

verus! {

/// Where a task stands. `Done`, `Failed` and `Cancelled` are terminal.
#[derive(Clone, Copy, Debug, PartialEq, Eq, Structural)]
pub enum TaskStatus {
    Waiting,
    Processing,
    Done,
    Paused,
    Failed,
    Cancelled,
}

/// What a task does: expand a URL into items, or download one item.
#[derive(Clone, Copy, Debug, PartialEq, Eq, Structural)]
pub enum TaskKind {
    FetchUrlContents,
    DownloadAndConvert,
}

impl TaskStatus {
    /// The number under which the state is stored.
    pub open spec fn spec_discriminant(self) -> i64 {
        match self {
            TaskStatus::Waiting => 0,
            TaskStatus::Processing => 1,
            TaskStatus::Done => 2,
            TaskStatus::Paused => 3,
            TaskStatus::Failed => 4,
            TaskStatus::Cancelled => 5,
        }
    }

    /// The number under which the state is stored.
    #[verifier::when_used_as_spec(spec_discriminant)]
    pub fn discriminant(self) -> (code: i64)
        ensures
            code == self.spec_discriminant(),
    {
        match self {
            TaskStatus::Waiting => 0,
            TaskStatus::Processing => 1,
            TaskStatus::Done => 2,
            TaskStatus::Paused => 3,
            TaskStatus::Failed => 4,
            TaskStatus::Cancelled => 5,
        }
    }

    /// The state that is stored under `code`, if `code` stands for one.
    pub fn from_discriminant(code: i64) -> (status: Option<TaskStatus>)
        ensures
            match status {
                Some(s) => s.spec_discriminant() == code,
                None => forall|s: TaskStatus| s.spec_discriminant() != code,
            },
    {
        match code {
            0 => Some(TaskStatus::Waiting),
            1 => Some(TaskStatus::Processing),
            2 => Some(TaskStatus::Done),
            3 => Some(TaskStatus::Paused),
            4 => Some(TaskStatus::Failed),
            5 => Some(TaskStatus::Cancelled),
            _ => None,
        }
    }

    pub open spec fn spec_is_terminal(self) -> bool {
        self == TaskStatus::Done || self == TaskStatus::Failed || self == TaskStatus::Cancelled
    }

    /// Whether no further work happens in this state unless a command asks for it.
    #[verifier::when_used_as_spec(spec_is_terminal)]
    pub fn is_terminal(self) -> (terminal: bool)
        ensures
            terminal == self.spec_is_terminal(),
    {
        match self {
            TaskStatus::Done | TaskStatus::Failed | TaskStatus::Cancelled => true,
            _ => false,
        }
    }
}

impl TaskKind {
    /// The number under which the kind is stored.
    pub open spec fn spec_discriminant(self) -> i64 {
        match self {
            TaskKind::FetchUrlContents => 0,
            TaskKind::DownloadAndConvert => 1,
        }
    }

    /// The number under which the kind is stored.
    #[verifier::when_used_as_spec(spec_discriminant)]
    pub fn discriminant(self) -> (code: i64)
        ensures
            code == self.spec_discriminant(),
    {
        match self {
            TaskKind::FetchUrlContents => 0,
            TaskKind::DownloadAndConvert => 1,
        }
    }

    /// The kind that is stored under `code`, if `code` stands for one.
    pub fn from_discriminant(code: i64) -> (kind: Option<TaskKind>)
        ensures
            match kind {
                Some(k) => k.spec_discriminant() == code,
                None => forall|k: TaskKind| k.spec_discriminant() != code,
            },
    {
        match code {
            0 => Some(TaskKind::FetchUrlContents),
            1 => Some(TaskKind::DownloadAndConvert),
            _ => None,
        }
    }
}

/// A state or a kind that is stored and read back is the same again: different
/// states have different numbers, and so have different kinds.
pub proof fn law_discriminants_are_distinct(a: TaskStatus, b: TaskStatus, j: TaskKind, k: TaskKind)
    ensures
        a.spec_discriminant() == b.spec_discriminant() ==> a == b,
        j.spec_discriminant() == k.spec_discriminant() ==> j == k,
{
}

/// One row of the task table.
#[derive(Debug)]
pub struct Task {
    pub task_id: u128,
    pub status: TaskStatus,
    pub kind: TaskKind,
    pub thumbnail: String,
    pub owner_job_id: u128,
    pub url: String,
    pub format: String,
    pub created_at: i64,
    pub started_at: Option<i64>,
    pub finished_at: Option<i64>,
    pub task_index: i32,
    pub prioritized: bool,
    pub is_resumed: bool,
    pub pending_cleanup: bool,
    pub pending_delete: bool,
    pub title: String,
}

/// The mathematical content of a [`Task`].
pub ghost struct TaskView {
    pub task_id: u128,
    pub status: TaskStatus,
    pub kind: TaskKind,
    pub thumbnail: Seq<char>,
    pub owner_job_id: u128,
    pub url: Seq<char>,
    pub format: Seq<char>,
    pub created_at: i64,
    pub started_at: Option<i64>,
    pub finished_at: Option<i64>,
    pub task_index: i32,
    pub prioritized: bool,
    pub is_resumed: bool,
    pub pending_cleanup: bool,
    pub pending_delete: bool,
    pub title: Seq<char>,
}

impl View for Task {
    type V = TaskView;

    open spec fn view(&self) -> TaskView {
        TaskView {
            task_id: self.task_id,
            status: self.status,
            kind: self.kind,
            thumbnail: self.thumbnail@,
            owner_job_id: self.owner_job_id,
            url: self.url@,
            format: self.format@,
            created_at: self.created_at,
            started_at: self.started_at,
            finished_at: self.finished_at,
            task_index: self.task_index,
            prioritized: self.prioritized,
            is_resumed: self.is_resumed,
            pending_cleanup: self.pending_cleanup,
            pending_delete: self.pending_delete,
            title: self.title@,
        }
    }
}

/// The models of a run of tasks, in order.
pub open spec fn task_views(tasks: Seq<Task>) -> Seq<TaskView> {
    tasks.map_values(|t: Task| t@)
}

impl Clone for Task {
    fn clone(&self) -> (copy: Self)
        ensures
            copy == *self,
    {
        Task {
            task_id: self.task_id,
            status: self.status,
            kind: self.kind,
            thumbnail: self.thumbnail.clone(),
            owner_job_id: self.owner_job_id,
            url: self.url.clone(),
            format: self.format.clone(),
            created_at: self.created_at,
            started_at: self.started_at,
            finished_at: self.finished_at,
            task_index: self.task_index,
            prioritized: self.prioritized,
            is_resumed: self.is_resumed,
            pending_cleanup: self.pending_cleanup,
            pending_delete: self.pending_delete,
            title: self.title.clone(),
        }
    }
}

impl PartialEq for Task {
    fn eq(&self, other: &Task) -> (same: bool) {
        self.task_id == other.task_id && self.status == other.status && self.kind == other.kind
            && self.thumbnail == other.thumbnail && self.owner_job_id == other.owner_job_id
            && self.url == other.url && self.format == other.format && self.created_at
            == other.created_at && self.started_at == other.started_at && self.finished_at
            == other.finished_at && self.task_index == other.task_index && self.prioritized
            == other.prioritized && self.is_resumed == other.is_resumed && self.pending_cleanup
            == other.pending_cleanup && self.pending_delete == other.pending_delete && self.title
            == other.title
    }
}

impl vstd::std_specs::cmp::PartialEqSpecImpl for Task {
    open spec fn obeys_eq_spec() -> bool {
        true
    }

    open spec fn eq_spec(&self, other: &Task) -> bool {
        self@ == other@
    }
}

/// Copies a run of tasks.
pub fn clone_tasks(tasks: &Vec<Task>) -> (copy: Vec<Task>)
    ensures
        copy@ == tasks@,
{
    let mut copy: Vec<Task> = Vec::new();
    let mut i: usize = 0;
    while i < tasks.len()
        invariant
            i <= tasks.len(),
            copy@ == tasks@.take(i as int),
        decreases tasks.len() - i,
    {
        copy.push(tasks[i].clone());
        assert(copy@ =~= tasks@.take(i + 1));
        i += 1;
    }
    assert(copy@ =~= tasks@);
    copy
}

impl TaskView {
    /// A download task as it is first created for one item of a job.
    pub open spec fn download(
        task_id: u128,
        created_at: i64,
        owner_job_id: u128,
        video: VideoInfoView,
        format: Seq<char>,
    ) -> TaskView {
        TaskView {
            task_id,
            status: TaskStatus::Waiting,
            kind: TaskKind::DownloadAndConvert,
            thumbnail: match video.thumbnail {
                Some(t) => t,
                None => Seq::empty(),
            },
            owner_job_id,
            url: video.url,
            format,
            created_at,
            started_at: None,
            finished_at: None,
            task_index: 0,
            prioritized: false,
            is_resumed: false,
            pending_cleanup: false,
            pending_delete: false,
            title: video.title,
        }
    }

    /// The URL-expansion task as it is first created for a job.
    pub open spec fn fetch(
        task_id: u128,
        created_at: i64,
        job_id: u128,
        url: Seq<char>,
        format: Seq<char>,
        thumbnail: Seq<char>,
    ) -> TaskView {
        TaskView {
            task_id,
            status: TaskStatus::Waiting,
            kind: TaskKind::FetchUrlContents,
            thumbnail,
            owner_job_id: job_id,
            url,
            format,
            created_at,
            started_at: None,
            finished_at: None,
            task_index: 0,
            prioritized: false,
            is_resumed: false,
            pending_cleanup: false,
            pending_delete: false,
            title: "[Fetch Contents]"@,
        }
    }

    /// `Pause`: a waiting task is parked; any other task is left alone.
    pub open spec fn paused(self) -> TaskView {
        if self.status == TaskStatus::Waiting {
            TaskView { status: TaskStatus::Paused, ..self }
        } else {
            self
        }
    }

    /// `Resume`: a paused task waits again and is marked as resumed.
    pub open spec fn resumed(self) -> TaskView {
        if self.status == TaskStatus::Paused {
            TaskView { status: TaskStatus::Waiting, is_resumed: true, ..self }
        } else {
            self
        }
    }

    /// `Cancel`: a waiting or paused task is cancelled at `now`.
    pub open spec fn cancelled(self, now: i64) -> TaskView {
        if self.status == TaskStatus::Waiting || self.status == TaskStatus::Paused {
            TaskView { status: TaskStatus::Cancelled, finished_at: Some(now), ..self }
        } else {
            self
        }
    }

    /// `Retry`: a failed or cancelled task waits again.
    pub open spec fn retried(self) -> TaskView {
        if self.status == TaskStatus::Failed || self.status == TaskStatus::Cancelled {
            TaskView { status: TaskStatus::Waiting, ..self }
        } else {
            self
        }
    }

    /// `Delete`: the task is scheduled for cleanup and removal, whatever its state.
    pub open spec fn marked_for_delete(self) -> TaskView {
        TaskView { pending_delete: true, pending_cleanup: true, ..self }
    }

    /// A worker's report: the task takes the reported status. A terminal status
    /// stamps `finished_at`, any other clears it; reaching `Done` asks for cleanup.
    pub open spec fn with_status(self, status: TaskStatus, now: i64) -> TaskView {
        TaskView {
            status,
            finished_at: if status.spec_is_terminal() {
                Some(now)
            } else {
                None
            },
            pending_cleanup: status == TaskStatus::Done || self.pending_cleanup,
            ..self
        }
    }

    /// Admission: the task is handed to a worker at `now`.
    pub open spec fn admitted(self, now: i64) -> TaskView {
        TaskView {
            status: TaskStatus::Processing,
            started_at: Some(now),
            finished_at: None,
            ..self
        }
    }

    /// Startup reconciliation: work that was queued or running when the process
    /// stopped is failed, with `finished_at` set to `started_at`.
    pub open spec fn reset(self) -> TaskView {
        if self.status == TaskStatus::Waiting || self.status == TaskStatus::Processing {
            TaskView { status: TaskStatus::Failed, finished_at: self.started_at, ..self }
        } else {
            self
        }
    }

    /// Whether a scheduler may hand the task to a worker.
    pub open spec fn admissible(self) -> bool {
        self.status == TaskStatus::Waiting && !self.pending_delete
    }

    /// The effect on the task of a command addressed to it.
    pub open spec fn after_task_command(self, command: QueueCommandView, now: i64) -> TaskView {
        match command {
            QueueCommandView::Pause => self.paused(),
            QueueCommandView::Resume => self.resumed(),
            QueueCommandView::Cancel => self.cancelled(now),
            QueueCommandView::Retry => self.retried(),
            QueueCommandView::Delete => self.marked_for_delete(),
            QueueCommandView::TaskStatusChange(status) => self.with_status(status, now),
            QueueCommandView::SetPrioritized(_) => self,
            QueueCommandView::JobUpdated { .. } => self,
        }
    }

    /// The effect on the task of a command addressed to the job that owns it.
    /// A status report is never addressed to a job, and new tasks that the command
    /// carries do not touch the existing ones.
    pub open spec fn after_job_command(self, command: QueueCommandView, now: i64) -> TaskView {
        match command {
            QueueCommandView::Pause => self.paused(),
            QueueCommandView::Resume => self.resumed(),
            QueueCommandView::Cancel => self.cancelled(now),
            QueueCommandView::Retry => self.retried(),
            QueueCommandView::Delete => self.marked_for_delete(),
            QueueCommandView::TaskStatusChange(_) => self,
            QueueCommandView::SetPrioritized(_) => self,
            QueueCommandView::JobUpdated { .. } => self,
        }
    }

    /// The row that the store keeps when the task is appended to job `job_id` at
    /// `index`: the identity and description are kept, the job owns the task,
    /// and the bookkeeping starts afresh.
    pub open spec fn inserted_at(self, job_id: u128, index: i32) -> TaskView {
        TaskView {
            owner_job_id: job_id,
            task_index: index,
            started_at: None,
            prioritized: false,
            is_resumed: false,
            pending_cleanup: false,
            pending_delete: false,
            ..self
        }
    }
}

impl Task {
    /// A download task for `video` under job `owner_job_id`, with the given
    /// identity and creation time.
    pub fn from_video_info_at(
        task_id: u128,
        created_at: i64,
        owner_job_id: u128,
        video: &VideoInfo,
        format: String,
    ) -> (task: Task)
        ensures
            task@ == TaskView::download(task_id, created_at, owner_job_id, video@, format@),
    {
        let thumbnail = match &video.thumbnail {
            Some(t) => t.clone(),
            None => String::new(),
        };
        Task {
            task_id,
            status: TaskStatus::Waiting,
            kind: TaskKind::DownloadAndConvert,
            thumbnail,
            owner_job_id,
            url: video.url.clone(),
            format,
            created_at,
            started_at: None,
            finished_at: None,
            task_index: 0,
            prioritized: false,
            is_resumed: false,
            pending_cleanup: false,
            pending_delete: false,
            title: video.title.clone(),
        }
    }

    /// A download task for `video` under job `owner_job_id`, with a freshly drawn
    /// identifier and the current time as its creation time.
    pub fn new_from_video_info(owner_job_id: u128, video: &VideoInfo, format: String) -> (task:
        Task)
        ensures
            task@ == TaskView::download(
                task@.task_id,
                task@.created_at,
                owner_job_id,
                video@,
                format@,
            ),
    {
        let created_at = current_time();
        let task_id = fresh_id();
        Task::from_video_info_at(task_id, created_at, owner_job_id, video, format)
    }

    /// The URL-expansion task of a job, with the given identity and creation time.
    pub fn fetch_url_contents_at(
        task_id: u128,
        created_at: i64,
        job_id: u128,
        url: &str,
        format: &str,
        thumbnail: &str,
    ) -> (task: Task)
        ensures
            task@ == TaskView::fetch(task_id, created_at, job_id, url@, format@, thumbnail@),
    {
        Task {
            task_id,
            status: TaskStatus::Waiting,
            kind: TaskKind::FetchUrlContents,
            thumbnail: thumbnail.to_string(),
            owner_job_id: job_id,
            url: url.to_string(),
            format: format.to_string(),
            created_at,
            started_at: None,
            finished_at: None,
            task_index: 0,
            prioritized: false,
            is_resumed: false,
            pending_cleanup: false,
            pending_delete: false,
            title: "[Fetch Contents]".to_string(),
        }
    }

    /// The URL-expansion task of `job`, with a freshly drawn identifier and the
    /// current time as its creation time.
    pub fn new_fetch_url_contents(job: &Job) -> (task: Task)
        ensures
            task@ == TaskView::fetch(
                task@.task_id,
                task@.created_at,
                job@.job_id,
                job@.url,
                job@.format,
                job@.thumbnail,
            ),
    {
        let created_at = current_time();
        let task_id = fresh_id();
        Task::fetch_url_contents_at(
            task_id,
            created_at,
            job.job_id,
            job.url.as_str(),
            job.format.as_str(),
            job.thumbnail.as_str(),
        )
    }

    /// Applies a command addressed to the task.
    pub fn apply_task_command(&mut self, command: &QueueCommand, now: i64)
        ensures
            final(self)@ == old(self)@.after_task_command(command@, now),
    {
        match command {
            QueueCommand::Pause => {
                if self.status == TaskStatus::Waiting {
                    self.status = TaskStatus::Paused;
                }
            },
            QueueCommand::Resume => {
                if self.status == TaskStatus::Paused {
                    self.status = TaskStatus::Waiting;
                    self.is_resumed = true;
                }
            },
            QueueCommand::Cancel => {
                if self.status == TaskStatus::Waiting || self.status == TaskStatus::Paused {
                    self.status = TaskStatus::Cancelled;
                    self.finished_at = Some(now);
                }
            },
            QueueCommand::Retry => {
                if self.status == TaskStatus::Failed || self.status == TaskStatus::Cancelled {
                    self.status = TaskStatus::Waiting;
                }
            },
            QueueCommand::Delete => {
                self.pending_delete = true;
                self.pending_cleanup = true;
            },
            QueueCommand::TaskStatusChange(status) => {
                self.finished_at = if status.is_terminal() {
                    Some(now)
                } else {
                    None
                };
                if *status == TaskStatus::Done {
                    self.pending_cleanup = true;
                }
                self.status = *status;
            },
            QueueCommand::SetPrioritized(_) => {},
            QueueCommand::JobUpdated { .. } => {},
        }
    }

    /// Applies to the task a command addressed to the job that owns it.
    pub fn apply_job_command(&mut self, command: &QueueCommand, now: i64)
        ensures
            final(self)@ == old(self)@.after_job_command(command@, now),
    {
        match command {
            QueueCommand::TaskStatusChange(_) => {},
            _ => {
                self.apply_task_command(command, now);
            },
        }
    }
}

/// What is removed before a task's tool runs.
#[derive(Debug)]
pub enum PreRunCleanup {
    /// Nothing.
    Nothing,
    /// The output file of an earlier run, which may be half written: the task
    /// was paused and is resumed.
    RemoveOutputFile(String),
    /// The whole data directory, which an earlier attempt may have left behind.
    RemoveDataDir(String),
}

/// What to do to run a task: what to remove first, which directories to make,
/// where the logs go, and the tool's arguments. There are no arguments if the
/// task's format is not on offer: the run then fails once it is prepared.
#[derive(Debug)]
pub struct TaskPlan {
    pub cleanup: PreRunCleanup,
    pub data_dir: String,
    pub log_dir: String,
    pub stdout_file: String,
    pub stderr_file: String,
    /// Whether the tool's standard output is the task's product, to be kept in
    /// memory as well as logged.
    pub capture_stdout: bool,
    pub args: Option<Vec<String>>,
}

impl TaskPlan {
    /// Whether the plan names the scratch paths of task `task_id` under
    /// `worker_dir`.
    pub open spec fn uses_scratch_of(&self, worker_dir: Seq<char>, task_id: u128) -> bool {
        &&& self.data_dir@ == worker_data_dir(worker_dir, task_id)
        &&& self.log_dir@ == worker_log_dir(worker_dir, task_id)
        &&& self.stdout_file@ == joined_path(worker_log_dir(worker_dir, task_id), "stdout.log"@)
        &&& self.stderr_file@ == joined_path(worker_log_dir(worker_dir, task_id), "stderr.log"@)
    }

    /// The texts of the plan's arguments, if it has arguments.
    pub open spec fn arg_texts(&self) -> Option<Seq<Seq<char>>> {
        match self.args {
            Some(args) => Some(texts(args@)),
            None => None,
        }
    }
}

/// Plans the run of `task`.
///
/// A URL expansion removes nothing, captures the tool's output, and runs the
/// fetch command on the task's URL. A download removes the old output file if
/// the task is resumed, else the whole data directory, and runs the download
/// command for the task's format with `main.%(ext)s` in the data directory as
/// destination. A resumed download whose format is not on offer cannot be
/// planned.
pub fn run_task(task: &Task, fs: &FilesystemDriver) -> (plan: Result<TaskPlan, TaskFailure>)
    ensures
        plan is Err <==> task.kind == TaskKind::DownloadAndConvert && task.is_resumed
            && !fs.env().ytdlp.offers(task.format@),
        plan matches Err(failure) ==> failure matches TaskFailure::Other(message) && message@
            == "Unknown format: "@ + task.format@,
        plan matches Ok(p) ==> {
            let worker_dir = fs.env().paths.worker_dir@;
            &&& p.uses_scratch_of(worker_dir, task.task_id)
            &&& p.capture_stdout == (task.kind == TaskKind::FetchUrlContents)
            &&& task.kind == TaskKind::FetchUrlContents ==> {
                &&& p.cleanup is Nothing
                &&& p.arg_texts() == Some(
                    fs.env().ytdlp@.command_fetch_url.map_values(
                        |a: Seq<char>| fetch_argument(a, task.url@),
                    ),
                )
            }
            &&& task.kind == TaskKind::DownloadAndConvert && !task.is_resumed ==> {
                &&& p.cleanup matches PreRunCleanup::RemoveDataDir(d)
                &&& d@ == worker_data_dir(worker_dir, task.task_id)
            }
            &&& task.kind == TaskKind::DownloadAndConvert ==> {
                if fs.env().ytdlp.offers(task.format@) {
                    exists|i: int|
                        {
                            &&& is_format(fs.env().ytdlp@.formats, task.format@, i)
                            &&& p.arg_texts() == Some(
                                rendered_download(
                                    fs.env().ytdlp@.command_download,
                                    task.url@,
                                    fs.env().ytdlp@.formats[i].args,
                                    joined_path(
                                        worker_data_dir(worker_dir, task.task_id),
                                        "main.%(ext)s"@,
                                    ),
                                ),
                            )
                            &&& task.is_resumed ==> {
                                &&& p.cleanup matches PreRunCleanup::RemoveOutputFile(f)
                                &&& f@ == joined_path(
                                    worker_data_dir(worker_dir, task.task_id),
                                    "main."@ + fs.env().ytdlp@.formats[i].ext,
                                )
                            }
                        }
                } else {
                    p.args is None
                }
            }
        },
{
    let ytdlp = fs.ytdlp();
    let data_dir = fs.get_worker_data_dir_for_task(task.task_id);
    let log_dir = fs.get_worker_log_dir_for_task(task.task_id);
    let stdout_file = fs.get_ytdlp_stdout_file(task.task_id);
    let stderr_file = fs.get_ytdlp_stderr_file(task.task_id);
    match task.kind {
        TaskKind::FetchUrlContents => {
            let args = ytdlp.render_fetch_url_command(task.url.as_str());
            Ok(
                TaskPlan {
                    cleanup: PreRunCleanup::Nothing,
                    data_dir,
                    log_dir,
                    stdout_file,
                    stderr_file,
                    capture_stdout: true,
                    args: Some(args),
                },
            )
        },
        TaskKind::DownloadAndConvert => {
            match ytdlp.try_get_format(task.format.as_str()) {
                None => {
                    if task.is_resumed {
                        Err(
                            TaskFailure::Other(
                                crate::text::joined("Unknown format: ", task.format.as_str()),
                            ),
                        )
                    } else {
                        Ok(
                            TaskPlan {
                                cleanup: PreRunCleanup::RemoveDataDir(data_dir.clone()),
                                data_dir,
                                log_dir,
                                stdout_file,
                                stderr_file,
                                capture_stdout: false,
                                args: None,
                            },
                        )
                    }
                },
                Some(format) => {
                    let ghost i = choose|i: int|
                        is_format(ytdlp@.formats, task.format@, i) && ytdlp@.formats[i] == format@;
                    let cleanup = if task.is_resumed {
                        let file = fs.get_ytdlp_output_file(task);
                        proof {
                            let j = choose|j: int|
                                is_format(ytdlp@.formats, task.format@, j) && file@ == joined_path(
                                    worker_data_dir(fs.env().paths.worker_dir@, task.task_id),
                                    "main."@ + ytdlp@.formats[j].ext,
                                );
                            if i < j {
                                assert(ytdlp@.formats[i].id != task.format@);
                            } else if j < i {
                                assert(ytdlp@.formats[j].id != task.format@);
                            }
                        }
                        PreRunCleanup::RemoveOutputFile(file)
                    } else {
                        PreRunCleanup::RemoveDataDir(data_dir.clone())
                    };
                    let dst_file = fs.get_ytdlp_output_template(task.task_id);
                    let args = ytdlp.render_download_command(
                        task.url.as_str(),
                        format,
                        dst_file.as_str(),
                    );
                    Ok(
                        TaskPlan {
                            cleanup,
                            data_dir,
                            log_dir,
                            stdout_file,
                            stderr_file,
                            capture_stdout: false,
                            args: Some(args),
                        },
                    )
                },
            }
        },
    }
}

/// Progress of one running download, as last reported by the tool.
#[derive(Clone, Copy, Debug, PartialEq, Eq, Structural)]
pub struct TaskProgress {
    pub percent: i32,
    pub bytes_estimate: i32,
    pub bytes_downloaded: i32,
}

impl Default for TaskProgress {
    fn default() -> (progress: Self)
        ensures
            progress == (TaskProgress { percent: 0, bytes_estimate: 0, bytes_downloaded: 0 }),
    {
        TaskProgress { percent: 0, bytes_estimate: 0, bytes_downloaded: 0 }
    }
}

/// What a finished worker produced.
#[derive(Debug)]
pub enum TaskResultData {
    DownloadAndConvert,
    FetchUrlContents(VideoOrPlaylist),
}

/// The mathematical content of a [`TaskResultData`].
pub ghost enum TaskResultDataView {
    DownloadAndConvert,
    FetchUrlContents(VideoOrPlaylistView),
}

impl View for TaskResultData {
    type V = TaskResultDataView;

    open spec fn view(&self) -> TaskResultDataView {
        match self {
            TaskResultData::DownloadAndConvert => TaskResultDataView::DownloadAndConvert,
            TaskResultData::FetchUrlContents(c) => TaskResultDataView::FetchUrlContents(c@),
        }
    }
}

/// The content of an optional product.
pub open spec fn data_view(data: Option<TaskResultData>) -> Option<TaskResultDataView> {
    match data {
        Some(d) => Some(d@),
        None => None,
    }
}

/// A finished worker's task, the status it ended in, and its product if it
/// succeeded.
pub struct TaskResult {
    pub task: Task,
    pub status: TaskStatus,
    pub data: Option<TaskResultData>,
}

/// The mathematical content of a [`TaskResult`].
pub ghost struct TaskResultView {
    pub task: TaskView,
    pub status: TaskStatus,
    pub data: Option<TaskResultDataView>,
}

impl View for TaskResult {
    type V = TaskResultView;

    open spec fn view(&self) -> TaskResultView {
        TaskResultView { task: self.task@, status: self.status, data: data_view(self.data) }
    }
}

/// The models of a run of results, in order.
pub open spec fn result_views(results: Seq<TaskResult>) -> Seq<TaskResultView> {
    results.map_values(|r: TaskResult| r@)
}

} // verus!
