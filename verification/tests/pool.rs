use std::sync::Arc;
use youtube_dl_server::download_manager::command::{
    new_downloader_command, ChildState, ChildWorker, ExitInfo, RunFailure, SupervisorStep,
    WorkerError, POLL_INTERVAL_MS,
};
use youtube_dl_server::download_manager::worker::{JoinOutcome, TaskFailure};
use youtube_dl_server::download_manager::{
    DownloadManager, WorkerCollectResult, WorkerControlHandle, WorkerSelector,
};
use youtube_dl_server::env::ytdlp::DownloadFormat;
use youtube_dl_server::env::{Cli, CliCommand, Config, EnvironmentManager, SystemDirs, YtdlpConfig};
use youtube_dl_server::filesystem::FilesystemDriver;
use youtube_dl_server::playlist::VideoInfo;
use youtube_dl_server::queue_command::QueueCommand;
use youtube_dl_server::task::{Task, TaskProgress, TaskResultData, TaskStatus};

fn env(workers: u32) -> Arc<EnvironmentManager> {
    let cli = Cli {
        workdir: None,
        dev_mode: true,
        log_file: false,
        log_none: false,
        command: CliCommand::Run { service: false },
    };
    let config = Config {
        download_folder: "out".to_string(),
        temp_folder: "tmp".to_string(),
        start_with_os: false,
        show_announcements: true,
        num_automatic_retries: 0,
        timeout_before_retry: 0,
        num_download_workers: workers,
    };
    let format = DownloadFormat {
        id: "mp4-720".to_string(),
        display: "MP4".to_string(),
        ext: "mp4".to_string(),
        args: vec![],
    };
    let ytdlp = YtdlpConfig::new(vec![], vec![], vec![format]);
    let dirs = SystemDirs { project: None, download_dir: None };
    Arc::new(EnvironmentManager::init_from_cli(cli, config, ytdlp, &dirs).unwrap())
}

fn pool(workers: u32) -> DownloadManager {
    let env = env(workers);
    let fs = Arc::new(FilesystemDriver::new(env.clone()));
    DownloadManager::new(env, fs)
}

fn task(task_id: u128, job_id: u128) -> Task {
    let video = VideoInfo { url: "u".to_string(), thumbnail: None, title: "t".to_string() };
    Task::from_video_info_at(task_id, 0, job_id, &video, "mp4-720".to_string())
}

fn handle(pool: &DownloadManager, task_id: u128) -> WorkerControlHandle {
    pool.get_worker_by_task_id(task_id).unwrap()
}

#[test]
fn a_new_pool_is_empty() {
    let p = pool(3);
    assert_eq!(p.num_workers(), 0);
    assert_eq!(p.num_free_workers(), 3);
    assert!(p.get_worker_progress(1).is_none());
    assert!(p.get_worker_by_task_id(1).is_none());
}

#[test]
fn starting_a_task_takes_a_place() {
    let mut p = pool(2);
    p.start_task(task(1, 7));
    assert_eq!(p.num_workers(), 1);
    assert_eq!(p.num_free_workers(), 1);
    p.start_task(task(2, 7));
    assert_eq!(p.num_free_workers(), 0);
    assert_eq!(p.get_worker_progress(2), Some(TaskProgress::default()));
    let h = handle(&p, 1);
    assert!(!h.is_stopped() && !h.is_paused());
}

#[test]
fn commands_raise_the_flags_of_the_workers_they_are_for() {
    let mut p = pool(4);
    p.start_task(task(1, 7));
    p.start_task(task(2, 7));
    p.start_task(task(3, 8));
    p.modify_task(1, &QueueCommand::Pause);
    assert!(handle(&p, 1).is_paused() && !handle(&p, 1).is_stopped());
    assert!(!handle(&p, 2).is_paused());
    p.modify_tasks_by_job(7, &QueueCommand::Cancel);
    assert!(handle(&p, 1).is_stopped() && handle(&p, 1).is_paused());
    assert!(handle(&p, 2).is_stopped());
    assert!(!handle(&p, 3).is_stopped());
    p.modify_all_tasks(&QueueCommand::Delete);
    assert!(handle(&p, 3).is_stopped() && !handle(&p, 3).is_paused());
    p.signal_worker(&QueueCommand::Pause, WorkerSelector::Job(8));
    assert!(handle(&p, 3).is_paused());
}

#[test]
fn commands_that_concern_no_worker_change_nothing() {
    let mut p = pool(4);
    p.start_task(task(1, 7));
    for command in [
        QueueCommand::Resume,
        QueueCommand::Retry,
        QueueCommand::SetPrioritized(true),
        QueueCommand::TaskStatusChange(TaskStatus::Done),
    ] {
        p.modify_all_tasks(&command);
        assert!(!handle(&p, 1).is_stopped() && !handle(&p, 1).is_paused());
    }
}

#[test]
fn a_second_pause_changes_nothing_in_the_pool() {
    let mut p = pool(4);
    p.start_task(task(1, 7));
    p.modify_task(1, &QueueCommand::Pause);
    let once = handle(&p, 1);
    p.modify_task(1, &QueueCommand::Pause);
    assert_eq!(handle(&p, 1), once);
}

#[test]
fn finished_workers_are_collected_last_started_first() {
    let mut p = pool(4);
    for id in 1..=4 {
        p.start_task(task(id, 7));
    }
    p.report_finished(1, JoinOutcome::Returned(Ok(TaskResultData::DownloadAndConvert)));
    p.report_finished(3, JoinOutcome::Returned(Err(TaskFailure::Worker(WorkerError::Aborted))));
    p.report_finished(4, JoinOutcome::Returned(Err(TaskFailure::Worker(WorkerError::Paused))));
    p.report_finished(404, JoinOutcome::Crashed("x".to_string()));
    assert_eq!(p.num_workers(), 4);
    let results = p.poll_done();
    assert_eq!(results.iter().map(|r| r.task.task_id).collect::<Vec<_>>(), vec![4, 3, 1]);
    assert_eq!(
        results.iter().map(|r| r.status).collect::<Vec<_>>(),
        vec![TaskStatus::Paused, TaskStatus::Cancelled, TaskStatus::Done]
    );
    assert!(matches!(results[2].data, Some(TaskResultData::DownloadAndConvert)));
    assert!(results[0].data.is_none() && results[1].data.is_none());
    assert_eq!(p.num_workers(), 1);
    assert_eq!(p.num_free_workers(), 3);
    assert!(p.get_worker_by_task_id(2).is_some());
    assert!(p.get_worker_by_task_id(1).is_none());
    assert!(p.poll_done().is_empty());
    assert_eq!(p.num_workers(), 1);
}

#[test]
fn every_other_ending_fails_the_task() {
    let mut p = pool(4);
    for id in 1..=3 {
        p.start_task(task(id, 7));
    }
    p.report_finished(
        1,
        JoinOutcome::Returned(Err(TaskFailure::Worker(WorkerError::BadExitCode(Some(2))))),
    );
    p.report_finished(2, JoinOutcome::Returned(Err(TaskFailure::Other("disk full".to_string()))));
    p.report_finished(3, JoinOutcome::Crashed("panicked".to_string()));
    let results = p.poll_done();
    assert_eq!(results.len(), 3);
    assert!(results.iter().all(|r| r.status == TaskStatus::Failed && r.data.is_none()));
}

#[test]
fn what_became_of_a_worker_is_told_apart() {
    let done = DownloadManager::join_worker_thread(JoinOutcome::Returned(Ok(
        TaskResultData::DownloadAndConvert,
    )));
    assert!(matches!(done, WorkerCollectResult::Done(TaskResultData::DownloadAndConvert)));
    assert_eq!(done.task_status(), TaskStatus::Done);
    assert!(done.task_data().is_some());
    let failed = DownloadManager::join_worker_thread(JoinOutcome::Returned(Err(
        TaskFailure::Worker(WorkerError::BadExitCode(Some(-3))),
    )));
    match &failed {
        WorkerCollectResult::Failed(message) => assert_eq!(message, "child exited with code: -3"),
        _ => panic!("a bad exit code fails the task"),
    }
    assert!(failed.task_data().is_none());
    let crashed = DownloadManager::join_worker_thread(JoinOutcome::Crashed("boom".to_string()));
    assert!(matches!(&crashed, WorkerCollectResult::Crashed(m) if m == "boom"));
    assert_eq!(crashed.task_status(), TaskStatus::Failed);
    assert_eq!(WorkerCollectResult::Cancelled.task_status(), TaskStatus::Cancelled);
    assert_eq!(WorkerCollectResult::Paused.task_status(), TaskStatus::Paused);
}

#[test]
fn progress_is_kept_per_worker() {
    let mut p = pool(4);
    p.start_task(task(1, 7));
    p.start_task(task(2, 7));
    let progress = TaskProgress { percent: 50, bytes_estimate: 200, bytes_downloaded: 100 };
    p.record_progress(2, progress);
    assert_eq!(p.get_worker_progress(2), Some(progress));
    assert_eq!(p.get_worker_progress(1), Some(TaskProgress::default()));
    assert_eq!(p.get_worker_progress(3), None);
}

#[test]
fn the_scratch_directory_of_a_worker_is_named_after_its_task() {
    let p = pool(1);
    assert_eq!(
        p.clean_up_after_worker(0x0123_4567_89ab_cdef_0123_4567_89ab_cdef),
        "tmp/workers/01234567-89ab-cdef-0123-456789abcdef"
    );
}

#[test]
fn worker_errors_have_messages() {
    assert_eq!(WorkerError::Aborted.message(), "task has been cancelled");
    assert_eq!(WorkerError::Paused.message(), "task has been paused");
    assert_eq!(WorkerError::BadExitCode(Some(1)).message(), "child exited with code: 1");
    assert_eq!(
        WorkerError::BadExitCode(Some(i32::MIN)).message(),
        "child exited with code: -2147483648"
    );
    assert_eq!(
        WorkerError::BadExitCode(None).message(),
        "child exited with code: None (terminated?)"
    );
}

#[test]
fn a_supervisor_obeys_its_flags_first() {
    let mut h = WorkerControlHandle::new();
    assert_eq!(ChildWorker::next_step(&h, ChildState::Running), SupervisorStep::Sleep);
    assert_eq!(ChildWorker::next_step(&h, ChildState::Exited), SupervisorStep::Collect);
    assert_eq!(ChildWorker::next_step(&h, ChildState::Unknown), SupervisorStep::Collect);
    h.pause();
    for child in [ChildState::Running, ChildState::Exited, ChildState::Unknown] {
        assert_eq!(
            ChildWorker::next_step(&h, child),
            SupervisorStep::Terminate(WorkerError::Paused)
        );
    }
    h.stop();
    assert_eq!(
        ChildWorker::next_step(&h, ChildState::Exited),
        SupervisorStep::Terminate(WorkerError::Aborted)
    );
    assert_eq!(POLL_INTERVAL_MS, 250);
}

#[test]
fn a_run_ends_with_the_exit_status_unless_something_failed() {
    let exit = ExitInfo { success: true, code: Some(0) };
    assert_eq!(ChildWorker::run(true, true, Some(exit)), Ok(exit));
    assert_eq!(ChildWorker::run(false, false, None), Err(RunFailure::StdoutReader));
    assert_eq!(ChildWorker::run(true, false, None), Err(RunFailure::StderrReader));
    assert_eq!(ChildWorker::run(true, true, None), Err(RunFailure::Wait));
}

#[test]
fn the_downloader_program_depends_on_the_platform() {
    assert_eq!(new_downloader_command(true), "yt-dlp.exe");
    assert_eq!(new_downloader_command(false), "yt-dlp");
}
