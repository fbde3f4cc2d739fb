use youtube_dl_server::playlist::VideoInfo;
use youtube_dl_server::queue_command::QueueCommand;
use youtube_dl_server::task::{Task, TaskKind, TaskProgress, TaskStatus};

const ALL: [TaskStatus; 6] = [
    TaskStatus::Waiting,
    TaskStatus::Processing,
    TaskStatus::Done,
    TaskStatus::Paused,
    TaskStatus::Failed,
    TaskStatus::Cancelled,
];

fn task(status: TaskStatus) -> Task {
    let video = VideoInfo {
        url: "https://example/one".to_string(),
        thumbnail: Some("thumb".to_string()),
        title: "Hello".to_string(),
    };
    let mut t = Task::from_video_info_at(11, 100, 7, &video, "mp4-720".to_string());
    t.status = status;
    t
}

fn after(status: TaskStatus, command: QueueCommand) -> Task {
    let mut t = task(status);
    t.apply_task_command(&command, 500);
    t
}

#[test]
fn a_new_download_task_waits() {
    let t = task(TaskStatus::Waiting);
    assert_eq!(t.task_id, 11);
    assert_eq!(t.owner_job_id, 7);
    assert_eq!(t.kind, TaskKind::DownloadAndConvert);
    assert_eq!(t.status, TaskStatus::Waiting);
    assert_eq!(t.url, "https://example/one");
    assert_eq!(t.title, "Hello");
    assert_eq!(t.thumbnail, "thumb");
    assert_eq!(t.format, "mp4-720");
    assert_eq!(t.created_at, 100);
    assert_eq!(t.started_at, None);
    assert_eq!(t.finished_at, None);
    assert!(!t.is_resumed && !t.pending_cleanup && !t.pending_delete && !t.prioritized);
}

#[test]
fn a_video_without_thumbnail_gives_an_empty_one() {
    let video = VideoInfo { url: "u".to_string(), thumbnail: None, title: "t".to_string() };
    let t = Task::from_video_info_at(1, 2, 3, &video, "f".to_string());
    assert_eq!(t.thumbnail, "");
}

#[test]
fn a_new_fetch_task_has_its_fixed_title() {
    let t = Task::fetch_url_contents_at(1, 2, 3, "https://example/one", "mp4-720", "");
    assert_eq!(t.kind, TaskKind::FetchUrlContents);
    assert_eq!(t.title, "[Fetch Contents]");
    assert_eq!(t.status, TaskStatus::Waiting);
    assert_eq!(t.owner_job_id, 3);
    assert_eq!(t.task_index, 0);
}

#[test]
fn fresh_tasks_differ_in_their_identifiers() {
    let video = VideoInfo { url: "u".to_string(), thumbnail: None, title: "t".to_string() };
    let a = Task::new_from_video_info(3, &video, "f".to_string());
    let b = Task::new_from_video_info(3, &video, "f".to_string());
    assert_ne!(a.task_id, b.task_id);
    assert_eq!((a.task_id >> 76) & 0xf, 4);
    assert_eq!((a.task_id >> 62) & 0x3, 2);
    assert!(a.created_at > 1_600_000_000_000_000);
    assert_eq!(a.status, TaskStatus::Waiting);
}

#[test]
fn pause_applies_to_waiting_only() {
    for s in ALL {
        let expected = if s == TaskStatus::Waiting { TaskStatus::Paused } else { s };
        assert_eq!(after(s, QueueCommand::Pause).status, expected);
    }
}

#[test]
fn resume_applies_to_paused_only_and_marks_the_task() {
    for s in ALL {
        let t = after(s, QueueCommand::Resume);
        if s == TaskStatus::Paused {
            assert_eq!(t.status, TaskStatus::Waiting);
            assert!(t.is_resumed);
        } else {
            assert_eq!(t.status, s);
            assert!(!t.is_resumed);
        }
    }
}

#[test]
fn cancel_applies_to_waiting_and_paused_and_stamps_the_end() {
    for s in ALL {
        let t = after(s, QueueCommand::Cancel);
        if s == TaskStatus::Waiting || s == TaskStatus::Paused {
            assert_eq!(t.status, TaskStatus::Cancelled);
            assert_eq!(t.finished_at, Some(500));
        } else {
            assert_eq!(t.status, s);
            assert_eq!(t.finished_at, None);
        }
    }
}

#[test]
fn retry_applies_to_failed_and_cancelled() {
    for s in ALL {
        let expected = if s == TaskStatus::Failed || s == TaskStatus::Cancelled {
            TaskStatus::Waiting
        } else {
            s
        };
        assert_eq!(after(s, QueueCommand::Retry).status, expected);
    }
}

#[test]
fn delete_marks_any_task() {
    for s in ALL {
        let t = after(s, QueueCommand::Delete);
        assert_eq!(t.status, s);
        assert!(t.pending_delete);
        assert!(t.pending_cleanup);
    }
}

#[test]
fn a_status_report_sets_status_end_time_and_cleanup() {
    for s in ALL {
        let mut t = task(TaskStatus::Processing);
        t.finished_at = Some(1);
        t.apply_task_command(&QueueCommand::TaskStatusChange(s), 500);
        assert_eq!(t.status, s);
        assert_eq!(t.finished_at, if s.is_terminal() { Some(500) } else { None });
        assert_eq!(t.pending_cleanup, s == TaskStatus::Done);
    }
    let mut marked = task(TaskStatus::Processing);
    marked.pending_cleanup = true;
    marked.apply_task_command(&QueueCommand::TaskStatusChange(TaskStatus::Failed), 500);
    assert!(marked.pending_cleanup);
}

#[test]
fn other_commands_leave_a_task_alone() {
    for s in ALL {
        assert_eq!(after(s, QueueCommand::SetPrioritized(true)).status, s);
        let t = after(
            s,
            QueueCommand::JobUpdated {
                job_title: "x".to_string(),
                job_thumbnail: "y".to_string(),
                new_tasks: vec![],
            },
        );
        assert_eq!(t.status, s);
        assert_eq!(t.title, "Hello");
    }
}

#[test]
fn a_status_report_is_not_a_job_command() {
    let mut t = task(TaskStatus::Waiting);
    t.apply_job_command(&QueueCommand::TaskStatusChange(TaskStatus::Done), 500);
    assert_eq!(t.status, TaskStatus::Waiting);
    t.apply_job_command(&QueueCommand::Pause, 500);
    assert_eq!(t.status, TaskStatus::Paused);
}

#[test]
fn pause_then_resume_restores_a_waiting_task() {
    let before = task(TaskStatus::Waiting);
    let mut t = task(TaskStatus::Waiting);
    t.apply_task_command(&QueueCommand::Pause, 1);
    t.apply_task_command(&QueueCommand::Resume, 2);
    assert_eq!(t.status, before.status);
    assert!(t.is_resumed);
    assert_eq!(t.started_at, before.started_at);
    assert_eq!(t.finished_at, before.finished_at);
    assert_eq!(t.pending_cleanup, before.pending_cleanup);
    assert_eq!(t.pending_delete, before.pending_delete);
    assert_eq!(t.title, before.title);
}

#[test]
fn cancel_then_retry_requeues_failed_and_cancelled_tasks() {
    for s in [TaskStatus::Failed, TaskStatus::Cancelled] {
        let mut t = task(s);
        t.apply_task_command(&QueueCommand::Cancel, 1);
        t.apply_task_command(&QueueCommand::Retry, 2);
        assert_eq!(t.status, TaskStatus::Waiting);
    }
    let mut done = task(TaskStatus::Done);
    done.apply_task_command(&QueueCommand::Cancel, 1);
    done.apply_task_command(&QueueCommand::Retry, 2);
    assert_eq!(done.status, TaskStatus::Done);
}

#[test]
fn a_second_pause_changes_nothing() {
    for s in ALL {
        let once = after(s, QueueCommand::Pause);
        let mut twice = after(s, QueueCommand::Pause);
        twice.apply_task_command(&QueueCommand::Pause, 900);
        assert_eq!(once.status, twice.status);
        assert_eq!(once.finished_at, twice.finished_at);
        assert_eq!(once.is_resumed, twice.is_resumed);
    }
}

#[test]
fn states_and_kinds_are_stored_as_numbers() {
    let codes: Vec<i64> = ALL.iter().map(|s| s.discriminant()).collect();
    assert_eq!(codes, vec![0, 1, 2, 3, 4, 5]);
    for s in ALL {
        assert_eq!(TaskStatus::from_discriminant(s.discriminant()), Some(s));
    }
    assert_eq!(TaskStatus::from_discriminant(6), None);
    assert_eq!(TaskStatus::from_discriminant(-1), None);
    assert_eq!(TaskKind::FetchUrlContents.discriminant(), 0);
    assert_eq!(TaskKind::DownloadAndConvert.discriminant(), 1);
    assert_eq!(TaskKind::from_discriminant(1), Some(TaskKind::DownloadAndConvert));
    assert_eq!(TaskKind::from_discriminant(0), Some(TaskKind::FetchUrlContents));
    assert_eq!(TaskKind::from_discriminant(2), None);
}

#[test]
fn terminal_states_are_done_failed_cancelled() {
    for s in ALL {
        let expected =
            s == TaskStatus::Done || s == TaskStatus::Failed || s == TaskStatus::Cancelled;
        assert_eq!(s.is_terminal(), expected);
    }
}

#[test]
fn a_clone_is_equal_field_by_field() {
    let mut t = task(TaskStatus::Failed);
    t.started_at = Some(3);
    t.finished_at = Some(4);
    t.task_index = 9;
    t.is_resumed = true;
    let c = t.clone();
    assert!(c == t);
    let mut other = t.clone();
    other.title.push('!');
    assert!(other != t);
    assert_eq!(c.task_id, t.task_id);
    assert_eq!(c.status, t.status);
    assert_eq!(c.kind, t.kind);
    assert_eq!(c.url, t.url);
    assert_eq!(c.title, t.title);
    assert_eq!(c.format, t.format);
    assert_eq!(c.thumbnail, t.thumbnail);
    assert_eq!(c.started_at, Some(3));
    assert_eq!(c.finished_at, Some(4));
    assert_eq!(c.task_index, 9);
    assert!(c.is_resumed);
    let command = QueueCommand::JobUpdated {
        job_title: "a".to_string(),
        job_thumbnail: "b".to_string(),
        new_tasks: vec![t],
    };
    match command.clone() {
        QueueCommand::JobUpdated { job_title, job_thumbnail, new_tasks } => {
            assert_eq!(job_title, "a");
            assert_eq!(job_thumbnail, "b");
            assert_eq!(new_tasks.len(), 1);
            assert_eq!(new_tasks[0].task_id, 11);
        }
        _ => panic!("the copy is another command"),
    }
}

#[test]
fn default_progress_is_zero() {
    let p = TaskProgress::default();
    assert_eq!(p, TaskProgress { percent: 0, bytes_estimate: 0, bytes_downloaded: 0 });
}
