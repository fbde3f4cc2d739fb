use youtube_dl_server::auth::{Session, User};
use youtube_dl_server::database::{DatabaseError, JobFetch, ServerDatabase};
use youtube_dl_server::job::JobStatus;
use youtube_dl_server::playlist::VideoInfo;
use youtube_dl_server::queue_command::QueueCommand;
use youtube_dl_server::task::{Task, TaskKind, TaskStatus};
use youtube_dl_server::web_api::NewJobForm;

fn empty() -> ServerDatabase {
    ServerDatabase::open(vec![], vec![], vec![], vec![]).unwrap()
}

fn form() -> NewJobForm {
    NewJobForm { url: "https://example/one".to_string(), format: "mp4-720".to_string() }
}

fn row(task_id: u128, job_id: u128, status: TaskStatus, created_at: i64) -> Task {
    let video = VideoInfo { url: "u".to_string(), thumbnail: None, title: "t".to_string() };
    let mut t = Task::from_video_info_at(task_id, created_at, job_id, &video, "mp4-720".to_string());
    t.status = status;
    t
}

fn header(job_id: u128, created_at: i64) -> JobFetch {
    JobFetch {
        job_id,
        thumbnail: String::new(),
        url: "u".to_string(),
        format: "mp4-720".to_string(),
        created_at,
        prioritized: false,
        title: "...".to_string(),
    }
}

fn store(tasks: Vec<Task>, jobs: Vec<JobFetch>) -> ServerDatabase {
    ServerDatabase::open(tasks, jobs, vec![], vec![]).unwrap()
}

fn status_of(db: &ServerDatabase, task_id: u128) -> TaskStatus {
    db.tasks().iter().find(|t| t.task_id == task_id).unwrap().status
}

#[test]
fn a_new_store_has_an_administrator_with_a_token() {
    let db = empty();
    assert!(db.is_well_formed());
    assert_eq!(db.users().len(), 1);
    let admin = db.get_user_by_name(User::admin_user_name()).unwrap();
    assert_eq!(admin.get_name(), "admin");
    let token = admin.get_api_token();
    assert_eq!(token.chars().count(), 32);
    assert!(token.chars().all(|c| c.is_ascii_alphanumeric()));
    assert!(db.get_user_by_api_token(token).is_some());
    assert!(db.get_user_by_name("nobody").is_none());
}

#[test]
fn an_existing_administrator_is_kept() {
    let admin = User::new(5, "admin".to_string(), "secret".to_string());
    let db = ServerDatabase::open(vec![], vec![], vec![admin], vec![]).unwrap();
    assert_eq!(db.users().len(), 1);
    assert_eq!(db.users()[0].get_api_token(), "secret");
    assert_eq!(db.users()[0].get_user_id(), 5);
}

#[test]
fn rows_with_repeated_identifiers_are_refused() {
    let tasks = vec![row(1, 7, TaskStatus::Done, 0), row(1, 7, TaskStatus::Done, 1)];
    assert!(matches!(
        ServerDatabase::open(tasks, vec![header(7, 0)], vec![], vec![]),
        Err(DatabaseError::DuplicateId)
    ));
    assert!(matches!(
        ServerDatabase::open(vec![], vec![header(7, 0), header(7, 1)], vec![], vec![]),
        Err(DatabaseError::DuplicateId)
    ));
}

#[test]
fn task_rows_without_their_job_are_refused() {
    let tasks = vec![row(1, 7, TaskStatus::Done, 0), row(2, 8, TaskStatus::Done, 1)];
    assert!(matches!(
        ServerDatabase::open(tasks, vec![header(7, 0)], vec![], vec![]),
        Err(DatabaseError::TaskWithoutJob)
    ));
    let tasks = vec![row(1, 7, TaskStatus::Done, 0), row(1, 8, TaskStatus::Done, 1)];
    assert!(matches!(
        ServerDatabase::open(tasks, vec![header(7, 0)], vec![], vec![]),
        Err(DatabaseError::DuplicateId)
    ));
}

#[test]
fn new_tasks_belong_to_the_job_they_are_appended_to() {
    let mut db = store(vec![row(1, 7, TaskStatus::Done, 0)], vec![header(7, 0)]);
    db.modify_job_at(7, update(vec![row(2, 99, TaskStatus::Waiting, 5)]), 6).unwrap();
    assert_eq!(db.tasks()[1].owner_job_id, 7);
    assert_eq!(db.tasks()[1].task_index, 1);
    assert!(db.is_well_formed());
    assert_eq!(db.get_job(7).unwrap().tasks.len(), 2);
}

#[test]
fn startup_fails_what_was_queued_or_running() {
    let mut running = row(1, 7, TaskStatus::Processing, 0);
    running.started_at = Some(44);
    running.finished_at = None;
    let waiting = row(2, 7, TaskStatus::Waiting, 1);
    let mut paused = row(3, 7, TaskStatus::Paused, 2);
    paused.started_at = Some(9);
    let mut done = row(4, 7, TaskStatus::Done, 3);
    done.finished_at = Some(50);
    let sessions = vec![Session { session_token: 99, user_id: 5 }];
    let db = ServerDatabase::open(
        vec![running, waiting, paused, done],
        vec![header(7, 0)],
        vec![],
        sessions,
    )
    .unwrap();
    let tasks = db.tasks();
    assert_eq!(tasks[0].status, TaskStatus::Failed);
    assert_eq!(tasks[0].finished_at, Some(44));
    assert_eq!(tasks[0].started_at, Some(44));
    assert_eq!(tasks[1].status, TaskStatus::Failed);
    assert_eq!(tasks[1].finished_at, None);
    assert_eq!(tasks[2].status, TaskStatus::Paused);
    assert_eq!(tasks[3].status, TaskStatus::Done);
    assert_eq!(tasks[3].finished_at, Some(50));
    assert_eq!(db.sessions().len(), 1);
    assert_eq!(db.jobs().len(), 1);
}

#[test]
fn creating_a_job_adds_its_header_and_its_fetch_task() {
    let mut db = empty();
    let job = db.create_job_at(&form(), 7, 100, 8, 101).unwrap();
    assert_eq!(job.job_id, 7);
    assert_eq!(job.title, "...");
    assert_eq!(job.thumbnail, "");
    assert_eq!(job.url, "https://example/one");
    assert_eq!(job.format, "mp4-720");
    assert_eq!(job.created_at, 100);
    assert_eq!(job.status, JobStatus::Waiting);
    assert_eq!(job.started_at, None);
    assert_eq!(job.finished_at, None);
    assert!(!job.prioritized);
    assert_eq!(job.tasks.len(), 1);
    let task = &job.tasks[0];
    assert_eq!(task.task_id, 8);
    assert_eq!(task.kind, TaskKind::FetchUrlContents);
    assert_eq!(task.status, TaskStatus::Waiting);
    assert_eq!(task.task_index, 0);
    assert_eq!(task.owner_job_id, 7);
    assert_eq!(task.created_at, 101);
    assert_eq!(task.title, "[Fetch Contents]");
    assert_eq!(task.url, "https://example/one");
    assert_eq!(db.jobs().len(), 1);
    assert_eq!(db.tasks().len(), 1);
    assert!(db.is_well_formed());
}

#[test]
fn a_job_with_a_taken_identifier_is_refused() {
    let mut db = empty();
    db.create_job_at(&form(), 7, 100, 8, 101).unwrap();
    assert!(matches!(db.create_job_at(&form(), 7, 100, 9, 101), Err(DatabaseError::DuplicateId)));
    assert!(matches!(db.create_job_at(&form(), 6, 100, 8, 101), Err(DatabaseError::DuplicateId)));
    assert_eq!(db.jobs().len(), 1);
    assert_eq!(db.tasks().len(), 1);
}

#[test]
fn a_job_created_now_gets_fresh_identifiers() {
    let mut db = empty();
    let a = db.create_job(&form()).unwrap();
    let b = db.create_job(&form()).unwrap();
    assert_ne!(a.job_id, b.job_id);
    assert_ne!(a.tasks[0].task_id, b.tasks[0].task_id);
    assert_eq!(db.jobs().len(), 2);
    assert!(a.created_at > 1_600_000_000_000_000);
}

#[test]
fn admission_takes_the_oldest_waiting_tasks() {
    let mut deleted = row(5, 7, TaskStatus::Waiting, 1);
    deleted.pending_delete = true;
    let mut db = store(
        vec![
            row(1, 7, TaskStatus::Waiting, 30),
            row(2, 7, TaskStatus::Waiting, 10),
            row(3, 7, TaskStatus::Paused, 5),
            row(4, 7, TaskStatus::Waiting, 20),
            deleted,
            row(6, 7, TaskStatus::Waiting, 10),
        ],
        vec![header(7, 0)],
    );
    for id in [1, 2, 4, 5, 6] {
        db.modify_task_at(id, QueueCommand::Retry, 0);
    }
    // the startup check failed the waiting tasks; they wait again now
    assert_eq!(status_of(&db, 1), TaskStatus::Waiting);
    let admitted = db.acquire_tasks_at(3, 777);
    let ids: Vec<u128> = admitted.iter().map(|t| t.task_id).collect();
    assert_eq!(ids, vec![2, 6, 4]);
    for t in &admitted {
        assert_eq!(t.status, TaskStatus::Waiting);
    }
    for id in [2, 6, 4] {
        let t = db.tasks().iter().find(|t| t.task_id == id).unwrap();
        assert_eq!(t.status, TaskStatus::Processing);
        assert_eq!(t.started_at, Some(777));
        assert_eq!(t.finished_at, None);
    }
    assert_eq!(status_of(&db, 1), TaskStatus::Waiting);
    assert_eq!(status_of(&db, 5), TaskStatus::Waiting);
    assert_eq!(status_of(&db, 3), TaskStatus::Paused);
    let rest = db.acquire_tasks_at(10, 800);
    assert_eq!(rest.iter().map(|t| t.task_id).collect::<Vec<_>>(), vec![1]);
    assert!(db.acquire_tasks_at(10, 900).is_empty());
    assert!(db.acquire_tasks(4).is_empty());
}

#[test]
fn admitting_none_changes_nothing() {
    let mut db = empty();
    db.create_job_at(&form(), 7, 100, 8, 101).unwrap();
    assert!(db.acquire_tasks_at(0, 5).is_empty());
    assert_eq!(status_of(&db, 8), TaskStatus::Waiting);
}

#[test]
fn a_task_command_reaches_its_task_only() {
    let mut db = empty();
    db.create_job_at(&form(), 7, 100, 8, 101).unwrap();
    db.create_job_at(&form(), 17, 100, 18, 101).unwrap();
    db.modify_task_at(8, QueueCommand::Pause, 5);
    assert_eq!(status_of(&db, 8), TaskStatus::Paused);
    assert_eq!(status_of(&db, 18), TaskStatus::Waiting);
    db.modify_task_at(404, QueueCommand::Cancel, 5);
    assert_eq!(status_of(&db, 18), TaskStatus::Waiting);
    db.modify_task(8, QueueCommand::Resume);
    assert_eq!(status_of(&db, 8), TaskStatus::Waiting);
    assert!(db.tasks()[0].is_resumed);
}

#[test]
fn a_job_command_reaches_the_tasks_of_the_job() {
    let mut db = store(
        vec![
            row(1, 7, TaskStatus::Failed, 0),
            row(2, 7, TaskStatus::Done, 0),
            row(3, 8, TaskStatus::Failed, 0),
            row(4, 7, TaskStatus::Cancelled, 0),
        ],
        vec![header(7, 0), header(8, 0)],
    );
    db.modify_job_at(7, QueueCommand::Retry, 5).unwrap();
    assert_eq!(status_of(&db, 1), TaskStatus::Waiting);
    assert_eq!(status_of(&db, 2), TaskStatus::Done);
    assert_eq!(status_of(&db, 3), TaskStatus::Failed);
    assert_eq!(status_of(&db, 4), TaskStatus::Waiting);
    db.modify_job_at(7, QueueCommand::TaskStatusChange(TaskStatus::Failed), 5).unwrap();
    assert_eq!(status_of(&db, 1), TaskStatus::Waiting);
    db.modify_job(7, QueueCommand::Cancel).unwrap();
    assert_eq!(status_of(&db, 1), TaskStatus::Cancelled);
    assert!(db.tasks()[0].finished_at.is_some());
    db.modify_job_at(7, QueueCommand::Delete, 5).unwrap();
    assert!(db.tasks()[0].pending_delete && db.tasks()[1].pending_delete);
    assert!(!db.tasks()[2].pending_delete);
}

#[test]
fn a_command_for_all_jobs_reaches_every_job() {
    let mut db = store(
        vec![row(1, 7, TaskStatus::Failed, 0), row(3, 8, TaskStatus::Failed, 0)],
        vec![header(7, 0), header(8, 0)],
    );
    db.modify_all_jobs_at(QueueCommand::Retry, 5).unwrap();
    assert_eq!(status_of(&db, 1), TaskStatus::Waiting);
    assert_eq!(status_of(&db, 3), TaskStatus::Waiting);
    db.modify_all_jobs(QueueCommand::Pause).unwrap();
    assert_eq!(status_of(&db, 1), TaskStatus::Paused);
    assert_eq!(status_of(&db, 3), TaskStatus::Paused);
}

fn update(new_tasks: Vec<Task>) -> QueueCommand {
    QueueCommand::JobUpdated {
        job_title: "Hello".to_string(),
        job_thumbnail: "thumb".to_string(),
        new_tasks,
    }
}

#[test]
fn new_tasks_are_numbered_from_one_past_the_greatest_index() {
    let mut db = empty();
    db.create_job_at(&form(), 7, 100, 8, 101).unwrap();
    db.create_job_at(&form(), 17, 100, 18, 101).unwrap();
    let mut dirty = row(21, 7, TaskStatus::Waiting, 200);
    dirty.started_at = Some(1);
    dirty.is_resumed = true;
    dirty.pending_cleanup = true;
    dirty.pending_delete = true;
    dirty.task_index = 55;
    db.modify_job_at(7, update(vec![dirty, row(22, 7, TaskStatus::Waiting, 201)]), 5).unwrap();
    assert_eq!(db.tasks().len(), 4);
    let a = &db.tasks()[2];
    assert_eq!((a.task_id, a.task_index), (21, 1));
    assert_eq!(a.started_at, None);
    assert!(!a.is_resumed && !a.pending_cleanup && !a.pending_delete);
    assert_eq!(a.created_at, 200);
    let b = &db.tasks()[3];
    assert_eq!((b.task_id, b.task_index), (22, 2));
    assert_eq!(db.jobs()[0].title, "Hello");
    assert_eq!(db.jobs()[0].thumbnail, "thumb");
    assert_eq!(db.jobs()[1].title, "...");
    db.modify_job_at(7, update(vec![row(23, 7, TaskStatus::Waiting, 300)]), 5).unwrap();
    assert_eq!(db.tasks()[4].task_index, 3);
    assert!(db.is_well_formed());
}

#[test]
fn new_tasks_for_a_job_without_tasks_are_refused() {
    let mut db = empty();
    db.create_job_at(&form(), 7, 100, 8, 101).unwrap();
    assert_eq!(
        db.modify_job_at(99, update(vec![row(21, 99, TaskStatus::Waiting, 0)]), 5),
        Err(DatabaseError::JobHasNoTasks)
    );
    assert_eq!(db.tasks().len(), 1);
    assert_eq!(db.jobs()[0].title, "...");
}

#[test]
fn new_tasks_with_taken_identifiers_are_refused() {
    let mut db = empty();
    db.create_job_at(&form(), 7, 100, 8, 101).unwrap();
    assert_eq!(
        db.modify_job_at(7, update(vec![row(8, 7, TaskStatus::Waiting, 0)]), 5),
        Err(DatabaseError::DuplicateId)
    );
    assert_eq!(
        db.modify_job_at(
            7,
            update(vec![row(21, 7, TaskStatus::Waiting, 0), row(21, 7, TaskStatus::Waiting, 0)]),
            5
        ),
        Err(DatabaseError::DuplicateId)
    );
    assert_eq!(db.tasks().len(), 1);
    assert_eq!(db.jobs()[0].title, "...");
}

#[test]
fn new_tasks_beyond_the_last_index_are_refused() {
    let mut last = row(1, 7, TaskStatus::Done, 0);
    last.task_index = i32::MAX;
    let mut db = store(vec![last], vec![header(7, 0)]);
    assert_eq!(
        db.modify_job_at(7, update(vec![row(2, 7, TaskStatus::Waiting, 0)]), 5),
        Err(DatabaseError::TaskIndexOverflow)
    );
    assert_eq!(db.modify_job_at(7, update(vec![]), 5), Ok(()));
    assert_eq!(db.jobs()[0].title, "Hello");
}

#[test]
fn pending_operations_skip_running_tasks() {
    let mut a = row(1, 7, TaskStatus::Done, 0);
    a.pending_cleanup = true;
    let mut b = row(2, 7, TaskStatus::Processing, 0);
    b.pending_cleanup = true;
    b.pending_delete = true;
    let mut c = row(3, 7, TaskStatus::Failed, 0);
    c.pending_cleanup = true;
    c.pending_delete = true;
    let d = row(4, 7, TaskStatus::Processing, 0);
    let mut db = store(vec![a, c, row(5, 7, TaskStatus::Done, 0)], vec![header(7, 0)]);
    let pending = db.get_pending_operations();
    assert_eq!(pending.cleanup, vec![1, 3]);
    assert_eq!(pending.delete, vec![3]);
    assert_eq!(pending.num_busy, 0);
    assert!(!pending.is_empty());
    // running tasks come from admission
    db.modify_job_at(7, update(vec![b, d]), 5).unwrap();
    db.acquire_tasks_at(5, 6);
    db.modify_task_at(2, QueueCommand::Delete, 7);
    let pending = db.get_pending_operations();
    assert_eq!(pending.cleanup, vec![1, 3]);
    assert_eq!(pending.delete, vec![3]);
    assert_eq!(pending.num_busy, 1);
    assert!(empty().get_pending_operations().is_empty());
}

#[test]
fn confirming_cleanup_clears_the_mark() {
    let mut a = row(1, 7, TaskStatus::Done, 0);
    a.pending_cleanup = true;
    let mut b = row(2, 7, TaskStatus::Done, 0);
    b.pending_cleanup = true;
    let mut db = store(vec![a, b], vec![header(7, 0)]);
    db.confirm_cleanup(&[1, 404]);
    assert!(!db.tasks()[0].pending_cleanup);
    assert!(db.tasks()[1].pending_cleanup);
    assert_eq!(db.get_pending_operations().cleanup, vec![2]);
}

#[test]
fn a_done_task_is_listed_for_cleanup_and_then_cleared() {
    let mut db = store(vec![row(1, 7, TaskStatus::Failed, 0)], vec![header(7, 0)]);
    db.modify_task_at(1, QueueCommand::Retry, 1);
    db.acquire_tasks_at(1, 2);
    db.modify_task_at(1, QueueCommand::TaskStatusChange(TaskStatus::Done), 3);
    let pending = db.get_pending_operations();
    assert_eq!(pending.cleanup, vec![1]);
    db.confirm_cleanup(&pending.cleanup);
    assert!(!db.tasks()[0].pending_cleanup);
    assert_eq!(db.tasks()[0].status, TaskStatus::Done);
    assert_eq!(db.tasks()[0].finished_at, Some(3));
    assert!(db.get_pending_operations().is_empty());
}

#[test]
fn deleting_the_last_task_deletes_the_job() {
    let mut db = store(
        vec![
            row(1, 7, TaskStatus::Done, 0),
            row(2, 7, TaskStatus::Done, 0),
            row(3, 8, TaskStatus::Done, 0),
        ],
        vec![header(7, 0), header(8, 0)],
    );
    db.confirm_deletion(&[1]);
    assert_eq!(db.tasks().len(), 2);
    assert_eq!(db.jobs().len(), 2);
    db.confirm_deletion(&[2, 404]);
    assert_eq!(db.tasks().len(), 1);
    assert_eq!(db.jobs().len(), 1);
    assert_eq!(db.jobs()[0].job_id, 8);
    assert_eq!(db.get_job(7).err(), Some(DatabaseError::JobNotFound));
}

#[test]
fn a_deleted_job_disappears_with_the_sweep() {
    let mut db = store(
        vec![row(1, 7, TaskStatus::Done, 0), row(2, 7, TaskStatus::Failed, 0), row(3, 8, TaskStatus::Done, 0)],
        vec![header(7, 0), header(8, 0)],
    );
    db.modify_job_at(7, QueueCommand::Delete, 5).unwrap();
    let pending = db.get_pending_operations();
    assert_eq!(pending.delete, vec![1, 2]);
    db.confirm_cleanup(&pending.cleanup);
    db.confirm_deletion(&pending.delete);
    assert!(db.get_job(7).is_err());
    assert!(db.tasks().iter().all(|t| t.owner_job_id != 7));
    assert!(db.get_job(8).is_ok());
}

#[test]
fn statistics_count_tasks_by_state() {
    let mut db = store(
        vec![
            row(1, 7, TaskStatus::Failed, 0),
            row(2, 7, TaskStatus::Done, 0),
            row(3, 8, TaskStatus::Cancelled, 0),
            row(4, 7, TaskStatus::Paused, 0),
            row(5, 7, TaskStatus::Failed, 0),
            row(6, 8, TaskStatus::Failed, 0),
        ],
        vec![header(7, 0), header(8, 0)],
    );
    db.modify_task_at(5, QueueCommand::Retry, 1);
    db.modify_task_at(6, QueueCommand::Retry, 1);
    db.acquire_tasks_at(1, 2);
    let all = db.get_global_task_stats();
    assert_eq!(all.num_total, 6);
    assert_eq!(all.num_active, 1);
    assert_eq!(all.num_waiting, 1);
    assert_eq!(all.num_done, 1);
    assert_eq!(all.num_failed, 1);
    assert_eq!(all.num_cancelled, 1);
    let job = db.get_job_task_stats(7);
    assert_eq!(job.num_total, 4);
    assert_eq!(job.num_active, 1);
    assert_eq!(job.num_waiting, 0);
    assert_eq!(job.num_done, 1);
    assert_eq!(job.num_failed, 1);
    assert_eq!(job.num_cancelled, 0);
    let none = db.get_job_task_stats(404);
    assert_eq!(none.num_total, 0);
}

#[test]
fn a_job_is_reported_with_its_tasks_and_status() {
    let mut db = store(
        vec![
            row(1, 7, TaskStatus::Done, 0),
            row(3, 8, TaskStatus::Failed, 0),
            row(2, 7, TaskStatus::Failed, 0),
        ],
        vec![header(7, 11), header(8, 12)],
    );
    let job = db.get_job(7).unwrap();
    assert_eq!(job.tasks.iter().map(|t| t.task_id).collect::<Vec<_>>(), vec![1, 2]);
    assert_eq!(job.status, JobStatus::PartiallyDone);
    assert_eq!(job.created_at, 11);
    db.modify_task_at(2, QueueCommand::Retry, 0);
    assert_eq!(db.get_job(7).unwrap().status, JobStatus::Waiting);
}

#[test]
fn all_jobs_come_newest_first_with_tasks_by_index() {
    let mut a = row(1, 7, TaskStatus::Done, 0);
    a.task_index = 2;
    let mut b = row(2, 7, TaskStatus::Done, 0);
    b.task_index = 0;
    let mut c = row(3, 8, TaskStatus::Failed, 0);
    c.task_index = 0;
    let mut d = row(4, 7, TaskStatus::Done, 0);
    d.task_index = 1;
    let db = store(vec![a, b, c, d], vec![header(7, 10), header(8, 30), header(9, 20), header(6, 30)]);
    let jobs = db.get_all_jobs();
    assert_eq!(jobs.iter().map(|j| j.job_id).collect::<Vec<_>>(), vec![8, 6, 9, 7]);
    assert_eq!(jobs[3].tasks.iter().map(|t| t.task_id).collect::<Vec<_>>(), vec![2, 4, 1]);
    assert_eq!(jobs[0].tasks.len(), 1);
    assert!(jobs[1].tasks.is_empty());
    assert_eq!(jobs[1].status, JobStatus::Done);
    assert_eq!(jobs[0].status, JobStatus::Failed);
    assert_eq!(jobs[3].status, JobStatus::Done);
}

#[test]
fn sessions_are_bound_to_the_holder_of_the_token() {
    let users = vec![
        User::new(5, "admin".to_string(), "secret".to_string()),
        User::new(6, "guest".to_string(), "other".to_string()),
    ];
    let mut db = ServerDatabase::open(vec![], vec![], users, vec![]).unwrap();
    assert_eq!(db.new_session("wrong"), Err(DatabaseError::InvalidApiToken));
    assert_eq!(db.new_session_with("wrong", 1), Err(DatabaseError::InvalidApiToken));
    assert!(db.sessions().is_empty());
    assert_eq!(db.new_session_with("secret", 77), Ok(77));
    assert_eq!(db.sessions(), &vec![Session { session_token: 77, user_id: 5 }]);
    let token = db.new_session("other").unwrap();
    assert_eq!(db.sessions().len(), 2);
    assert_eq!(db.sessions()[1], Session { session_token: token, user_id: 6 });
    assert_eq!(db.validate_session("secret", 77).unwrap().get_user_id(), 5);
    assert_eq!(db.validate_session("other", token).unwrap().get_user_id(), 6);
    assert!(db.validate_session("other", 77).is_none());
    assert!(db.validate_session("secret", 78).is_none());
    assert!(db.validate_session("wrong", 77).is_none());
    db.expire_all_sessions();
    assert!(db.sessions().is_empty());
    assert!(db.validate_session("secret", 77).is_none());
    assert_eq!(db.users().len(), 2);
}

#[test]
fn session_tokens_are_drawn_anew() {
    let mut db = empty();
    let token = db.users()[0].get_api_token().to_string();
    let a = db.new_session(&token).unwrap();
    let b = db.new_session(&token).unwrap();
    assert_ne!(a, b);
}

#[test]
fn adding_a_user_appends_it() {
    let mut db = empty();
    let id = db.add_user("guest", "token");
    assert_eq!(db.users().len(), 2);
    let user = db.get_user_by_name("guest").unwrap();
    assert_eq!(user.get_user_id(), id);
    assert_eq!(user.get_api_token(), "token");
}
