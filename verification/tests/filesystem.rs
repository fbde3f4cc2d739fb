use std::sync::Arc;
use youtube_dl_server::env::ytdlp::DownloadFormat;
use youtube_dl_server::env::{Cli, CliCommand, Config, EnvironmentManager, SystemDirs, YtdlpConfig};
use youtube_dl_server::filesystem::{
    nth_candidate_name, output_file_name_from, pick_free_file_name, FilesystemDriver,
};
use youtube_dl_server::playlist::VideoInfo;
use youtube_dl_server::task::{run_task, PreRunCleanup, Task, TaskKind};

const ID: u128 = 0x0123_4567_89ab_cdef_0123_4567_89ab_cdef;
const ROOT: &str = "tmp/workers/01234567-89ab-cdef-0123-456789abcdef";

fn strings(items: &[&str]) -> Vec<String> {
    items.iter().map(|s| s.to_string()).collect()
}

fn ytdlp() -> YtdlpConfig {
    YtdlpConfig::new(
        strings(&["-J", "--flat-playlist", "{{source_url}}", "{{format_args}}"]),
        strings(&[
            "--newline",
            "{{format_args}}",
            "-o",
            "{{destination_file}}",
            "{{source_url}}",
            "{{unknown}}",
            "{{source_url}} ",
        ]),
        vec![
            DownloadFormat {
                id: "mp4-720".to_string(),
                display: "MP4 720p".to_string(),
                ext: "mp4".to_string(),
                args: strings(&["-f", "best[height<=720]"]),
            },
            DownloadFormat {
                id: "archive".to_string(),
                display: "Archive".to_string(),
                ext: "tar.gz".to_string(),
                args: vec![],
            },
            DownloadFormat {
                id: "mp4-720".to_string(),
                display: "shadowed".to_string(),
                ext: "mkv".to_string(),
                args: vec![],
            },
        ],
    )
}

fn fs() -> FilesystemDriver {
    let cli = Cli {
        workdir: None,
        dev_mode: true,
        log_file: false,
        log_none: false,
        command: CliCommand::Run { service: false },
    };
    let config = Config {
        download_folder: "out".to_string(),
        temp_folder: "tmp".to_string(),
        start_with_os: false,
        show_announcements: true,
        num_automatic_retries: 0,
        timeout_before_retry: 0,
        num_download_workers: 2,
    };
    let dirs = SystemDirs { project: None, download_dir: None };
    let env = EnvironmentManager::init_from_cli(cli, config, ytdlp(), &dirs).unwrap();
    FilesystemDriver::new(Arc::new(env))
}

fn task(title: &str, format: &str) -> Task {
    let video = VideoInfo {
        url: "https://example/one?x=1".to_string(),
        thumbnail: None,
        title: title.to_string(),
    };
    Task::from_video_info_at(ID, 0, 7, &video, format.to_string())
}

#[test]
fn scratch_paths_are_named_after_the_task() {
    let fs = fs();
    assert_eq!(fs.get_worker_root_dir_for_task(ID), ROOT);
    assert_eq!(fs.get_worker_data_dir_for_task(ID), format!("{ROOT}/data"));
    assert_eq!(fs.get_worker_log_dir_for_task(ID), format!("{ROOT}/log"));
    assert_eq!(fs.get_ytdlp_stdout_file(ID), format!("{ROOT}/log/stdout.log"));
    assert_eq!(fs.get_ytdlp_stderr_file(ID), format!("{ROOT}/log/stderr.log"));
    assert_eq!(fs.get_ytdlp_output_template(ID), format!("{ROOT}/data/main.%(ext)s"));
    assert_eq!(fs.get_ytdlp_output_file(&task("Hello", "mp4-720")), format!("{ROOT}/data/main.mp4"));
    assert_eq!(fs.get_ytdlp_output_file(&task("Hello", "archive")), format!("{ROOT}/data/main.tar.gz"));
    assert_eq!(fs.get_worker_root_dir_for_task(0), "tmp/workers/00000000-0000-0000-0000-000000000000");
    assert_eq!(fs.get_database_file(), "debug/db/state.db");
    assert_eq!(fs.init_directories(), strings(&["tmp/workers", "out", "debug/db"]));
}

#[test]
fn a_download_is_named_after_its_title() {
    let fs = fs();
    assert_eq!(fs.output_file_name(&task("Hello", "mp4-720")), "Hello.mp4");
    assert_eq!(fs.output_file_name(&task("a/b: c?", "mp4-720")), "a_b_ c_.mp4");
    assert_eq!(fs.output_file_name(&task("", "mp4-720")), "https_example_one_x=1.mp4");
    assert_eq!(fs.output_file_name(&task("Hello", "archive")), "Hello.gz");
    assert_eq!(output_file_name_from("Hello", "mp4"), "Hello.mp4");
    assert_eq!(output_file_name_from("Hello", ""), "Hello.");
    assert_eq!(output_file_name_from("a.b", "x.y.z"), "a.b.z");
}

#[test]
fn name_collision_on_output() {
    let fs = fs();
    let hello = task("Hello", "mp4-720");
    let (from, to) = fs.move_output_file(&hello, &vec![]);
    assert_eq!(from, format!("{ROOT}/data/main.mp4"));
    assert_eq!(to, "out/Hello.mp4");
    let (_, to) = fs.move_output_file(&hello, &strings(&["Hello.mp4"]));
    assert_eq!(to, "out/Hello (1).mp4");
    let taken = strings(&["Hello (1).mp4", "other.mp4", "Hello.mp4", "Hello (3).mp4"]);
    let (_, to) = fs.move_output_file(&hello, &taken);
    assert_eq!(to, "out/Hello (2).mp4");
    assert_ne!(to, "out/Hello (0).mp4");
}

#[test]
fn a_free_name_is_the_first_that_is_not_taken() {
    assert_eq!(pick_free_file_name("Hello.mp4", &vec![]), "Hello.mp4");
    assert_eq!(
        pick_free_file_name("Hello.mp4", &strings(&["Hello (1).mp4"])),
        "Hello.mp4"
    );
    let mut taken = strings(&["server.yaml_old"]);
    for i in 1..=11 {
        taken.push(format!("server ({i}).yaml_old"));
    }
    assert_eq!(pick_free_file_name("server.yaml_old", &taken), "server (12).yaml_old");
    assert_eq!(pick_free_file_name("README", &strings(&["README"])), "README (1).");
    assert_eq!(pick_free_file_name(".bashrc", &strings(&[".bashrc"])), ".bashrc (1).");
    assert_eq!(pick_free_file_name("a.tar.gz", &strings(&["a.tar.gz"])), "a.tar (1).gz");
}

#[test]
fn candidate_names_are_numbered_in_decimal() {
    assert_eq!(nth_candidate_name("Hello.mp4", 0), "Hello.mp4");
    assert_eq!(nth_candidate_name("Hello.mp4", 1), "Hello (1).mp4");
    assert_eq!(nth_candidate_name("Hello.mp4", 10), "Hello (10).mp4");
    assert_eq!(nth_candidate_name("Hello.mp4", 1234567890), "Hello (1234567890).mp4");
    assert_eq!(
        nth_candidate_name("x.y", u64::MAX),
        "x (18446744073709551615).y"
    );
}

#[test]
fn the_fetch_command_gets_the_url() {
    let args = ytdlp().render_fetch_url_command("https://example/one");
    assert_eq!(args, strings(&["-J", "--flat-playlist", "https://example/one", "{{format_args}}"]));
}

#[test]
fn the_download_command_gets_url_format_and_destination() {
    let config = ytdlp();
    let format = config.get_format("mp4-720");
    assert_eq!(format.ext, "mp4");
    let args = config.render_download_command("https://example/one", format, "dir/main.%(ext)s");
    assert_eq!(
        args,
        strings(&[
            "--newline",
            "-f",
            "best[height<=720]",
            "-o",
            "dir/main.%(ext)s",
            "https://example/one",
            "{{unknown}}",
            "{{source_url}} ",
        ])
    );
    let archive = config.try_get_format("archive").unwrap();
    let args = config.render_download_command("u", archive, "d");
    assert_eq!(args, strings(&["--newline", "-o", "d", "u", "{{unknown}}", "{{source_url}} "]));
}

#[test]
fn formats_are_found_by_their_identifier() {
    let config = ytdlp();
    assert_eq!(config.get_all_formats().len(), 3);
    assert_eq!(config.try_get_format("mp4-720").unwrap().display, "MP4 720p");
    assert!(config.try_get_format("mp3").is_none());
    assert!(config.try_get_format("MP4-720").is_none());
    assert_eq!(config.fetch_url_template().len(), 4);
    assert_eq!(config.download_template().len(), 7);
}

#[test]
fn a_fetch_is_planned_without_cleanup() {
    let fs = fs();
    let mut t = task("Hello", "nothing on offer");
    t.kind = TaskKind::FetchUrlContents;
    let plan = run_task(&t, &fs).ok().unwrap();
    assert!(matches!(plan.cleanup, PreRunCleanup::Nothing));
    assert!(plan.capture_stdout);
    assert_eq!(plan.data_dir, format!("{ROOT}/data"));
    assert_eq!(plan.log_dir, format!("{ROOT}/log"));
    assert_eq!(plan.stdout_file, format!("{ROOT}/log/stdout.log"));
    assert_eq!(plan.stderr_file, format!("{ROOT}/log/stderr.log"));
    assert_eq!(
        plan.args.unwrap(),
        strings(&["-J", "--flat-playlist", "https://example/one?x=1", "{{format_args}}"])
    );
}

#[test]
fn a_first_download_removes_the_data_directory() {
    let fs = fs();
    let plan = run_task(&task("Hello", "mp4-720"), &fs).ok().unwrap();
    assert!(matches!(&plan.cleanup, PreRunCleanup::RemoveDataDir(d) if d == &format!("{ROOT}/data")));
    assert!(!plan.capture_stdout);
    let args = plan.args.unwrap();
    assert_eq!(args[1], "-f");
    assert_eq!(args[4], format!("{ROOT}/data/main.%(ext)s"));
    assert_eq!(args[5], "https://example/one?x=1");
}

#[test]
fn a_resumed_download_removes_the_old_output_only() {
    let fs = fs();
    let mut t = task("Hello", "mp4-720");
    t.is_resumed = true;
    let plan = run_task(&t, &fs).ok().unwrap();
    assert!(
        matches!(&plan.cleanup, PreRunCleanup::RemoveOutputFile(f) if f == &format!("{ROOT}/data/main.mp4"))
    );
    assert!(plan.args.is_some());
}

#[test]
fn a_download_in_an_unknown_format_cannot_run() {
    let fs = fs();
    let mut t = task("Hello", "mp3");
    let plan = run_task(&t, &fs).ok().unwrap();
    assert!(plan.args.is_none());
    assert!(matches!(plan.cleanup, PreRunCleanup::RemoveDataDir(_)));
    t.is_resumed = true;
    match run_task(&t, &fs) {
        Err(youtube_dl_server::download_manager::worker::TaskFailure::Other(m)) => {
            assert_eq!(m, "Unknown format: mp3")
        }
        _ => panic!("a resumed download in an unknown format cannot be planned"),
    }
}
