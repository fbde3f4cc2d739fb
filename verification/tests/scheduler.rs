use std::sync::Arc;
use youtube_dl_server::announce::AnnounceSystem;
use youtube_dl_server::database::{DatabaseError, ServerDatabase};
use youtube_dl_server::download_manager::command::WorkerError;
use youtube_dl_server::download_manager::worker::{JoinOutcome, TaskFailure};
use youtube_dl_server::env::ytdlp::DownloadFormat;
use youtube_dl_server::env::{Cli, CliCommand, Config, EnvironmentManager, SystemDirs, YtdlpConfig};
use youtube_dl_server::filesystem::FilesystemDriver;
use youtube_dl_server::job::JobStatus;
use youtube_dl_server::job_manager::JobManager;
use youtube_dl_server::playlist::{PlaylistInfo, VideoInfo, VideoOrPlaylist};
use youtube_dl_server::queue_command::QueueCommand;
use youtube_dl_server::task::{Task, TaskKind, TaskProgress, TaskResultData, TaskStatus};
use youtube_dl_server::web_api::NewJobForm;

fn manager(workers: u32, announce: bool) -> JobManager {
    let cli = Cli {
        workdir: None,
        dev_mode: true,
        log_file: false,
        log_none: false,
        command: CliCommand::Run { service: false },
    };
    let config = Config {
        download_folder: "out".to_string(),
        temp_folder: "tmp".to_string(),
        start_with_os: false,
        show_announcements: announce,
        num_automatic_retries: 0,
        timeout_before_retry: 0,
        num_download_workers: workers,
    };
    let format = DownloadFormat {
        id: "mp4-720".to_string(),
        display: "MP4".to_string(),
        ext: "mp4".to_string(),
        args: vec![],
    };
    let ytdlp = YtdlpConfig::new(vec![], vec![], vec![format]);
    let dirs = SystemDirs { project: None, download_dir: None };
    let env = Arc::new(EnvironmentManager::init_from_cli(cli, config, ytdlp, &dirs).unwrap());
    let fs = Arc::new(FilesystemDriver::new(env.clone()));
    let db = ServerDatabase::open(vec![], vec![], vec![], vec![]).unwrap();
    JobManager::new(AnnounceSystem::new(announce), env, fs, db)
}

fn form() -> NewJobForm {
    NewJobForm { url: "https://example/one".to_string(), format: "mp4-720".to_string() }
}

fn video(name: &str) -> VideoInfo {
    VideoInfo {
        url: format!("https://example/{name}"),
        thumbnail: Some("thumb".to_string()),
        title: name.to_string(),
    }
}

fn single(name: &str) -> JoinOutcome {
    JoinOutcome::Returned(Ok(TaskResultData::FetchUrlContents(VideoOrPlaylist::Video(video(name)))))
}

fn playlist(names: &[&str]) -> JoinOutcome {
    JoinOutcome::Returned(Ok(TaskResultData::FetchUrlContents(VideoOrPlaylist::Playlist(
        PlaylistInfo {
            url: "https://example/list".to_string(),
            thumbnail: None,
            title: "List".to_string(),
            videos: names.iter().map(|n| video(n)).collect(),
        },
    ))))
}

fn downloaded() -> JoinOutcome {
    JoinOutcome::Returned(Ok(TaskResultData::DownloadAndConvert))
}

fn failed(code: i32) -> JoinOutcome {
    JoinOutcome::Returned(Err(TaskFailure::Worker(WorkerError::BadExitCode(Some(code)))))
}

struct Tick {
    started: Vec<Task>,
    summaries: Vec<String>,
    bodies: Vec<String>,
    exit: bool,
    swept: Vec<u128>,
}

// one tick in which every scratch directory that the sweep names is removed
fn tick(m: &mut JobManager) -> Tick {
    let start = m.begin_tick();
    let swept = match &start.pending {
        Some(p) => p.cleanup.clone(),
        None => vec![],
    };
    let actions = m.finish_tick(start, &swept);
    Tick {
        started: actions.started,
        summaries: actions.announcements.iter().map(|a| a.summary.clone()).collect(),
        bodies: actions.announcements.iter().map(|a| a.body.clone()).collect(),
        exit: actions.exit,
        swept,
    }
}

fn status(m: &JobManager, task_id: u128) -> TaskStatus {
    m.database().tasks().iter().find(|t| t.task_id == task_id).unwrap().status
}

#[test]
fn single_video_happy_path() {
    let mut m = manager(2, true);
    let job = m.create_job(&form()).unwrap();
    assert_eq!(job.tasks.len(), 1);
    assert_eq!(job.tasks[0].kind, TaskKind::FetchUrlContents);
    let fetch = job.tasks[0].task_id;

    let t = tick(&mut m);
    assert_eq!(t.started.iter().map(|t| t.task_id).collect::<Vec<_>>(), vec![fetch]);
    assert!(t.summaries.is_empty());
    assert_eq!(status(&m, fetch), TaskStatus::Processing);
    assert_eq!(m.get_job(job.job_id).unwrap().status, JobStatus::Processing);

    m.report_finished(fetch, single("Hello"));
    let t = tick(&mut m);
    assert_eq!(status(&m, fetch), TaskStatus::Done);
    assert_eq!(t.started.len(), 1);
    let download = &t.started[0];
    assert_eq!(download.kind, TaskKind::DownloadAndConvert);
    assert_eq!(download.task_index, 1);
    assert_eq!(download.title, "Hello");
    assert_eq!(download.url, "https://example/Hello");
    assert_eq!(download.thumbnail, "thumb");
    assert_eq!(download.format, "mp4-720");
    let reported = m.get_job(job.job_id).unwrap();
    assert_eq!(reported.title, "Hello");
    assert_eq!(reported.thumbnail, "thumb");
    assert_eq!(reported.tasks.len(), 2);
    assert_eq!(reported.status, JobStatus::Processing);
    assert!(t.summaries.is_empty());

    let download = download.task_id;
    m.record_progress(download, TaskProgress { percent: 10, bytes_estimate: 100, bytes_downloaded: 10 });
    let running = m.get_job(job.job_id).unwrap();
    assert_eq!(running.progress.len(), 1);
    assert_eq!(running.progress[&download].percent, 10);
    assert_eq!(m.get_all_jobs()[0].progress[&download].bytes_downloaded, 10);

    m.report_finished(download, downloaded());
    let t = tick(&mut m);
    // the expansion is done since the tick before: its scratch directory goes now
    assert_eq!(t.swept, vec![fetch]);
    assert_eq!(t.summaries, vec!["YouTube download complete".to_string()]);
    assert_eq!(t.bodies, vec!["Hello".to_string()]);
    let done = m.get_job(job.job_id).unwrap();
    assert_eq!(done.status, JobStatus::Done);
    assert!(done.progress.is_empty());
    let stats = m.get_overall_stats();
    assert_eq!(stats.num_done, 2);
    assert_eq!(stats.num_total, 2);
    assert_eq!(stats.num_active, 0);

    // the download is done: the next sweep removes what it left behind
    let t = tick(&mut m);
    assert_eq!(t.swept, vec![download]);
    assert!(m.database().tasks().iter().all(|t| !t.pending_cleanup));
    assert!(tick(&mut m).swept.is_empty());
}

#[test]
fn playlist_with_a_failure_is_partially_done() {
    let mut m = manager(4, true);
    let job = m.create_job(&form()).unwrap();
    let fetch = tick(&mut m).started[0].task_id;
    m.report_finished(fetch, playlist(&["A", "B"]));
    let t = tick(&mut m);
    assert_eq!(t.started.iter().map(|t| t.title.as_str()).collect::<Vec<_>>(), vec!["A", "B"]);
    assert_eq!(t.started.iter().map(|t| t.task_index).collect::<Vec<_>>(), vec![1, 2]);
    let (a, b) = (t.started[0].task_id, t.started[1].task_id);
    assert_eq!(m.get_job(job.job_id).unwrap().title, "List");
    m.report_finished(a, downloaded());
    let t = tick(&mut m);
    assert!(t.summaries.is_empty());
    m.report_finished(b, failed(1));
    let t = tick(&mut m);
    assert_eq!(t.summaries, vec!["YouTube download partially complete".to_string()]);
    assert_eq!(t.bodies, vec!["List".to_string()]);
    assert_eq!(status(&m, a), TaskStatus::Done);
    assert_eq!(status(&m, b), TaskStatus::Failed);
    assert_eq!(m.get_job(job.job_id).unwrap().status, JobStatus::PartiallyDone);
}

#[test]
fn the_pool_never_holds_more_workers_than_configured() {
    let mut m = manager(2, false);
    m.create_job(&form()).unwrap();
    let fetch = tick(&mut m).started[0].task_id;
    m.report_finished(fetch, playlist(&["A", "B", "C", "D", "E"]));
    let t = tick(&mut m);
    assert_eq!(t.started.iter().map(|t| t.title.as_str()).collect::<Vec<_>>(), vec!["A", "B"]);
    assert_eq!(m.download_manager().num_workers(), 2);
    assert_eq!(m.download_manager().num_free_workers(), 0);
    assert!(tick(&mut m).started.is_empty());
    m.report_finished(t.started[1].task_id, downloaded());
    let next = tick(&mut m);
    assert_eq!(next.started.iter().map(|t| t.title.as_str()).collect::<Vec<_>>(), vec!["C"]);
    assert_eq!(m.download_manager().num_workers(), 2);
    assert_eq!(m.get_overall_stats().num_active, 2);
    assert_eq!(m.get_overall_stats().num_waiting, 2);
}

#[test]
fn cancel_mid_download() {
    let mut m = manager(2, true);
    let job = m.create_job(&form()).unwrap();
    let fetch = tick(&mut m).started[0].task_id;
    m.report_finished(fetch, single("Hello"));
    let download = tick(&mut m).started[0].task_id;
    m.modify_task(download, QueueCommand::Cancel);
    // a running task is cancelled through its worker only
    assert_eq!(status(&m, download), TaskStatus::Processing);
    let flags = m.download_manager().get_worker_by_task_id(download).unwrap();
    assert!(flags.is_stopped() && !flags.is_paused());
    m.report_finished(
        download,
        JoinOutcome::Returned(Err(TaskFailure::Worker(WorkerError::Aborted))),
    );
    let t = tick(&mut m);
    assert_eq!(status(&m, download), TaskStatus::Cancelled);
    assert_eq!(m.get_job(job.job_id).unwrap().status, JobStatus::Cancelled);
    assert_eq!(t.summaries, vec!["YouTube download cancelled".to_string()]);
    assert!(m.database().tasks().iter().find(|t| t.task_id == download).unwrap().finished_at.is_some());
}

#[test]
fn pause_then_resume() {
    let mut m = manager(2, false);
    m.create_job(&form()).unwrap();
    let fetch = tick(&mut m).started[0].task_id;
    m.report_finished(fetch, single("Hello"));
    let download = tick(&mut m).started[0].task_id;
    m.modify_task(download, QueueCommand::Pause);
    assert!(m.download_manager().get_worker_by_task_id(download).unwrap().is_paused());
    m.report_finished(
        download,
        JoinOutcome::Returned(Err(TaskFailure::Worker(WorkerError::Paused))),
    );
    let t = tick(&mut m);
    assert!(t.started.is_empty());
    assert_eq!(status(&m, download), TaskStatus::Paused);
    m.modify_task(download, QueueCommand::Resume);
    assert_eq!(status(&m, download), TaskStatus::Waiting);
    let t = tick(&mut m);
    assert_eq!(t.started.len(), 1);
    assert_eq!(t.started[0].task_id, download);
    assert!(t.started[0].is_resumed);
    assert_eq!(status(&m, download), TaskStatus::Processing);
}

#[test]
fn a_paused_download_is_not_announced() {
    let mut m = manager(2, true);
    m.create_job(&form()).unwrap();
    let fetch = tick(&mut m).started[0].task_id;
    m.report_finished(fetch, single("Hello"));
    let download = tick(&mut m).started[0].task_id;
    m.report_finished(
        download,
        JoinOutcome::Returned(Err(TaskFailure::Worker(WorkerError::Paused))),
    );
    let t = tick(&mut m);
    assert!(t.summaries.is_empty());
    assert_eq!(status(&m, download), TaskStatus::Paused);
}

#[test]
fn a_job_that_rests_with_a_paused_task_is_announced_as_paused() {
    let mut m = manager(1, true);
    let job = m.create_job(&form()).unwrap();
    let fetch = tick(&mut m).started[0].task_id;
    m.report_finished(fetch, playlist(&["A", "B"]));
    let a = tick(&mut m).started[0].task_id;
    let b = m.database().tasks().iter().find(|t| t.title == "B").unwrap().task_id;
    m.modify_task(b, QueueCommand::Pause);
    assert_eq!(status(&m, b), TaskStatus::Paused);
    m.report_finished(a, downloaded());
    let t = tick(&mut m);
    assert_eq!(t.summaries, vec!["YouTube download paused".to_string()]);
    assert_eq!(m.get_job(job.job_id).unwrap().status, JobStatus::Paused);
}

#[test]
fn no_task_is_lost_between_states() {
    let mut m = manager(2, false);
    m.create_job(&form()).unwrap();
    let fetch = tick(&mut m).started[0].task_id;
    m.report_finished(fetch, playlist(&["A", "B", "C", "D"]));
    let started = tick(&mut m).started;
    m.report_finished(started[0].task_id, downloaded());
    m.report_finished(started[1].task_id, failed(1));
    let c = m.database().tasks().iter().find(|t| t.title == "C").unwrap().task_id;
    let d = m.database().tasks().iter().find(|t| t.title == "D").unwrap().task_id;
    m.modify_task(c, QueueCommand::Pause);
    m.modify_task(d, QueueCommand::Cancel);
    tick(&mut m);
    assert_eq!(m.get_overall_stats().num_active, 0);
    for t in m.database().tasks() {
        assert!(t.status.is_terminal() || t.status == TaskStatus::Waiting || t.status == TaskStatus::Paused);
        assert!(t.started_at.is_none() || t.status.is_terminal());
        assert!(!t.status.is_terminal() || t.finished_at.is_some());
    }
    assert_eq!(status(&m, c), TaskStatus::Paused);
    assert_eq!(status(&m, d), TaskStatus::Cancelled);
}

#[test]
fn a_failed_expansion_is_announced() {
    let mut m = manager(2, true);
    let job = m.create_job(&form()).unwrap();
    let fetch = tick(&mut m).started[0].task_id;
    m.report_finished(fetch, failed(2));
    let t = tick(&mut m);
    assert_eq!(t.summaries, vec!["Failed to fetch video data".to_string()]);
    assert_eq!(t.bodies, vec!["https://example/one".to_string()]);
    assert_eq!(m.get_job(job.job_id).unwrap().status, JobStatus::Failed);
    assert!(t.started.is_empty());
}

#[test]
fn an_empty_playlist_is_announced() {
    let mut m = manager(2, true);
    let job = m.create_job(&form()).unwrap();
    let fetch = tick(&mut m).started[0].task_id;
    m.report_finished(fetch, playlist(&[]));
    let t = tick(&mut m);
    assert_eq!(t.summaries, vec!["No videos available.".to_string()]);
    assert_eq!(t.bodies, vec!["https://example/one".to_string()]);
    assert_eq!(m.get_job(job.job_id).unwrap().tasks.len(), 1);
    assert_eq!(m.get_job(job.job_id).unwrap().status, JobStatus::Done);
}

#[test]
fn nothing_is_announced_when_announcements_are_off() {
    let mut m = manager(2, false);
    m.create_job(&form()).unwrap();
    let fetch = tick(&mut m).started[0].task_id;
    m.report_finished(fetch, failed(2));
    assert!(tick(&mut m).summaries.is_empty());
}

#[test]
fn a_deleted_job_disappears() {
    let mut m = manager(2, false);
    let job = m.create_job(&form()).unwrap();
    let fetch = tick(&mut m).started[0].task_id;
    m.report_finished(fetch, playlist(&["A", "B", "C"]));
    let started = tick(&mut m).started;
    assert_eq!(started.len(), 2);
    m.modify_job(job.job_id, QueueCommand::Delete).unwrap();
    for t in &started {
        assert!(m.download_manager().get_worker_by_task_id(t.task_id).unwrap().is_stopped());
    }
    // the tasks that do not run go with the next sweep; the job stays while two still run
    let t = tick(&mut m);
    assert!(t.started.is_empty());
    assert_eq!(m.database().tasks().len(), 2);
    assert!(m.get_job(job.job_id).is_ok());
    for t in &started {
        m.report_finished(
            t.task_id,
            JoinOutcome::Returned(Err(TaskFailure::Worker(WorkerError::Aborted))),
        );
    }
    tick(&mut m);
    tick(&mut m);
    assert!(m.database().tasks().is_empty());
    assert_eq!(m.get_job(job.job_id).err(), Some(DatabaseError::JobNotFound));
    assert!(m.get_all_jobs().is_empty());
}

#[test]
fn a_task_whose_scratch_directory_stays_is_not_deleted() {
    let mut m = manager(2, false);
    let job = m.create_job(&form()).unwrap();
    let fetch = job.tasks[0].task_id;
    m.modify_job(job.job_id, QueueCommand::Delete).unwrap();
    let start = m.begin_tick();
    let pending = start.pending.as_ref().unwrap();
    assert_eq!(pending.cleanup, vec![fetch]);
    assert_eq!(pending.delete, vec![fetch]);
    m.finish_tick(start, &[]);
    assert_eq!(m.database().tasks().len(), 1);
    assert!(m.database().tasks()[0].pending_cleanup);
    // nothing is swept again before something marks the work as due
    assert!(m.begin_tick().pending.is_none());
    m.modify_task(fetch, QueueCommand::Delete);
    let t = tick(&mut m);
    assert_eq!(t.swept, vec![fetch]);
    assert!(m.database().tasks().is_empty());
    assert!(m.database().jobs().is_empty());
}

#[test]
fn stopping_cancels_everything_and_waits_for_the_workers() {
    let mut m = manager(1, false);
    m.create_job(&form()).unwrap();
    let fetch = tick(&mut m).started[0].task_id;
    m.report_finished(fetch, playlist(&["A", "B"]));
    let running = tick(&mut m).started[0].task_id;
    assert!(!m.get_stop_handle().is_stopped());
    m.stop();
    assert!(m.get_stop_handle().is_stopped());
    let t = tick(&mut m);
    assert!(!t.exit);
    assert!(t.started.is_empty());
    assert!(m.download_manager().get_worker_by_task_id(running).unwrap().is_stopped());
    assert_eq!(m.get_overall_stats().num_waiting, 0);
    assert_eq!(m.get_overall_stats().num_cancelled, 1);
    assert!(!tick(&mut m).exit);
    m.report_finished(
        running,
        JoinOutcome::Returned(Err(TaskFailure::Worker(WorkerError::Aborted))),
    );
    let t = tick(&mut m);
    assert!(t.exit);
    assert!(t.started.is_empty());
    assert_eq!(status(&m, running), TaskStatus::Cancelled);
    assert_eq!(m.get_overall_stats().num_active, 0);
}

#[test]
fn commands_for_all_jobs_reach_every_job() {
    let mut m = manager(1, false);
    let a = m.create_job(&form()).unwrap();
    let b = m.create_job(&form()).unwrap();
    m.modify_all_jobs(QueueCommand::Pause).unwrap();
    assert_eq!(m.get_job(a.job_id).unwrap().status, JobStatus::Paused);
    assert_eq!(m.get_job(b.job_id).unwrap().status, JobStatus::Paused);
    assert!(tick(&mut m).started.is_empty());
    m.modify_job(a.job_id, QueueCommand::Resume).unwrap();
    let started = tick(&mut m).started;
    assert_eq!(started.len(), 1);
    assert_eq!(started[0].owner_job_id, a.job_id);
}

#[test]
fn sessions_go_through_the_scheduler() {
    let mut m = manager(1, false);
    assert!(m.is_well_formed());
    let token = m.database().users()[0].get_api_token().to_string();
    assert_eq!(m.new_session("wrong"), Err(DatabaseError::InvalidApiToken));
    let session = m.new_session(&token).unwrap();
    assert!(m.database().validate_session(&token, session).is_some());
    m.expire_all_sessions();
    assert!(m.database().validate_session(&token, session).is_none());
    assert!(m.is_well_formed());
    assert!(m.download_manager().is_well_formed());
}

#[test]
fn tasks_of_an_expansion_keep_the_order_of_the_items() {
    let videos = vec![video("A"), video("B"), video("C")];
    let tasks = JobManager::expansion_tasks(7, &videos, "mp4-720");
    assert_eq!(tasks.iter().map(|t| t.title.as_str()).collect::<Vec<_>>(), vec!["A", "B", "C"]);
    assert!(tasks.iter().all(|t| t.owner_job_id == 7 && t.format == "mp4-720"));
    assert!(tasks.iter().all(|t| t.status == TaskStatus::Waiting));
    assert_ne!(tasks[0].task_id, tasks[1].task_id);
}
