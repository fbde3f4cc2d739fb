use youtube_dl_server::env::cli::LoggingMode;
use youtube_dl_server::env::config::{MAX_AUTOMATIC_RETRIES, MAX_DOWNLOAD_WORKERS, MAX_RETRY_TIMEOUT};
use youtube_dl_server::env::config_trait::{
    init, neutralize_broken_config_file, ConfigFileState, ConfigInit,
};
use youtube_dl_server::env::{
    Cli, CliCommand, Config, EnvironmentManager, ProjectDirs, SystemDirs, YtdlpConfig,
};
use youtube_dl_server::exit_status::{ExitStatus, ExitStatusHandle};
use youtube_dl_server::job_manager::DirtyMarker;
use youtube_dl_server::process::external_shutdown::WatchStep;
use youtube_dl_server::process::{ExternalShutdownFairing, GenericStopHandle};
use youtube_dl_server::text::{
    joined, format_decimal, format_signed_decimal, join_path, parent_dir, split_file_name,
};

fn config(workers: u32, retries: u32, timeout: u32) -> Config {
    Config {
        download_folder: "out".to_string(),
        temp_folder: "tmp".to_string(),
        start_with_os: false,
        show_announcements: true,
        num_automatic_retries: retries,
        timeout_before_retry: timeout,
        num_download_workers: workers,
    }
}

fn cli(dev_mode: bool) -> Cli {
    Cli {
        workdir: None,
        dev_mode,
        log_file: false,
        log_none: false,
        command: CliCommand::Run { service: false },
    }
}

fn system() -> SystemDirs {
    SystemDirs {
        project: Some(ProjectDirs {
            config_dir: "/home/u/.config/app".to_string(),
            data_dir: "/home/u/.local/share/app".to_string(),
            cache_dir: "/home/u/.cache/app/".to_string(),
        }),
        download_dir: Some("/home/u/Downloads".to_string()),
    }
}

fn nowhere() -> SystemDirs {
    SystemDirs { project: None, download_dir: None }
}

#[test]
fn a_configuration_is_valid_within_its_limits() {
    assert!(Config::check_validity(&config(32, 50, 3600)));
    assert!(Config::check_validity(&config(0, 0, 0)));
    assert!(!Config::check_validity(&config(33, 0, 0)));
    assert!(!Config::check_validity(&config(1, 51, 0)));
    assert!(!Config::check_validity(&config(1, 0, 3601)));
    assert!(!EnvironmentManager::check_config_validity(&config(u32::MAX, 0, 0)));
    assert!(EnvironmentManager::check_config_validity(&config(1, 1, 1)));
    assert_eq!((MAX_DOWNLOAD_WORKERS, MAX_AUTOMATIC_RETRIES, MAX_RETRY_TIMEOUT), (32, 50, 3600));
}

#[test]
fn the_default_configuration_takes_the_folders() {
    let c = Config::new(config(3, 2, 1), "d".to_string(), "t".to_string());
    assert_eq!(c.download_folder, "d");
    assert_eq!(c.temp_folder, "t");
    assert_eq!(c.num_download_workers, 3);
    assert_eq!(c.num_automatic_retries, 2);
    assert_eq!(c.timeout_before_retry, 1);
    assert!(c.show_announcements && !c.start_with_os);
}

#[test]
fn development_mode_keeps_everything_under_the_working_directory() {
    let dirs = nowhere();
    assert_eq!(EnvironmentManager::get_config_dir(&dirs, true).unwrap(), "debug/config/");
    assert_eq!(EnvironmentManager::get_server_config_file(&dirs, true).unwrap(), "debug/config/server.yaml");
    assert_eq!(EnvironmentManager::get_ytdlp_config_file(&dirs, true).unwrap(), "debug/config/ytdlp.yaml");
    assert_eq!(EnvironmentManager::get_default_userconf_download_dir(&dirs, true).unwrap(), "download");
    assert_eq!(EnvironmentManager::get_default_userconf_temp_dir(&dirs, true).unwrap(), "temp");
    assert_eq!(EnvironmentManager::get_database_dir(&dirs, true).unwrap(), "debug/db");
    assert_eq!(EnvironmentManager::get_database_file(&dirs, true).unwrap(), "debug/db/state.db");
    let c = config(1, 0, 0);
    assert_eq!(EnvironmentManager::get_logs_dir(&c, &dirs, true).unwrap(), "tmp/debug/logs");
    assert_eq!(EnvironmentManager::get_worker_dir(&c, true), "tmp/workers");
    assert_eq!(EnvironmentManager::get_output_dir(&c), "out");
}

#[test]
fn otherwise_the_system_says_where_files_go() {
    let dirs = system();
    assert_eq!(EnvironmentManager::get_config_dir(&dirs, false).unwrap(), "/home/u/.config/app");
    assert_eq!(
        EnvironmentManager::get_server_config_file(&dirs, false).unwrap(),
        "/home/u/.config/app/server.yaml"
    );
    assert_eq!(
        EnvironmentManager::get_ytdlp_config_file(&dirs, false).unwrap(),
        "/home/u/.config/app/ytdlp.yaml"
    );
    assert_eq!(
        EnvironmentManager::get_default_userconf_download_dir(&dirs, false).unwrap(),
        "/home/u/Downloads"
    );
    assert_eq!(
        EnvironmentManager::get_default_userconf_temp_dir(&dirs, false).unwrap(),
        "/home/u/.local/share/app"
    );
    assert_eq!(
        EnvironmentManager::get_database_file(&dirs, false).unwrap(),
        "/home/u/.local/share/app/db/state.db"
    );
    let c = config(1, 0, 0);
    assert_eq!(EnvironmentManager::get_logs_dir(&c, &dirs, false).unwrap(), "/home/u/.cache/app/logs");
    assert_eq!(EnvironmentManager::get_worker_dir(&c, false), "tmp/Youtube-DL In-Progress");
    let none = nowhere();
    assert!(EnvironmentManager::get_config_dir(&none, false).is_none());
    assert!(EnvironmentManager::get_database_file(&none, false).is_none());
    assert!(EnvironmentManager::get_logs_dir(&c, &none, false).is_none());
    assert!(EnvironmentManager::get_default_userconf_download_dir(&none, false).is_none());
    assert!(EnvironmentManager::get_default_userconf_temp_dir(&none, false).is_none());
}

#[test]
fn the_environment_is_assembled_from_its_parts() {
    let ytdlp = YtdlpConfig::new(vec![], vec![], vec![]);
    let env = EnvironmentManager::init_from_cli(cli(false), config(4, 0, 0), ytdlp, &system()).unwrap();
    assert!(!env.dev_mode);
    assert_eq!(env.config.num_download_workers, 4);
    assert_eq!(env.paths.database_file, "/home/u/.local/share/app/db/state.db");
    assert_eq!(env.paths.server_config_file, "/home/u/.config/app/server.yaml");
    assert_eq!(env.paths.ytdlp_config_file, "/home/u/.config/app/ytdlp.yaml");
    assert_eq!(env.paths.worker_dir, "tmp/Youtube-DL In-Progress");
    assert_eq!(env.paths.logs_dir, "/home/u/.cache/app/logs");
    assert_eq!(env.paths.output_dir, "out");
    let ytdlp = YtdlpConfig::new(vec![], vec![], vec![]);
    assert!(EnvironmentManager::init_from_cli(cli(false), config(4, 0, 0), ytdlp, &nowhere()).is_none());
    let ytdlp = YtdlpConfig::new(vec![], vec![], vec![]);
    let dev = EnvironmentManager::init_from_cli(cli(true), config(4, 0, 0), ytdlp, &nowhere()).unwrap();
    assert_eq!(dev.paths.worker_dir, "tmp/workers");
    let mut moved = config(4, 0, 0);
    moved.temp_folder = "elsewhere".to_string();
    let ytdlp = YtdlpConfig::new(vec![], vec![], vec![]);
    let other = EnvironmentManager::init_from_cli(cli(true), moved, ytdlp, &nowhere()).unwrap();
    assert!(dev.save_config(&other));
    assert!(!dev.save_config(&dev));
}

#[test]
fn the_system_is_asked_without_failing() {
    let dirs = SystemDirs::detect();
    if let Some(p) = dirs.project {
        assert!(p.config_dir.contains("youtube-dl-server"));
        assert!(p.data_dir.contains("youtube-dl-server"));
    }
}

#[test]
fn logging_goes_where_the_command_line_says() {
    let mut c = cli(false);
    assert_eq!(c.logging_mode(), LoggingMode::Terminal);
    c.log_none = true;
    assert_eq!(c.logging_mode(), LoggingMode::Silent);
    c.log_file = true;
    assert_eq!(c.logging_mode(), LoggingMode::File);
    assert_eq!(Cli::service_logging_flag(true), "--log-file");
    assert_eq!(Cli::service_logging_flag(false), "--log-none");
    let copy = c.clone();
    assert!(copy.log_file && copy.log_none && !copy.dev_mode);
    assert_eq!(copy.command, CliCommand::Run { service: false });
}

#[test]
fn only_an_accepted_configuration_file_is_used() {
    assert_eq!(init(ConfigFileState::Valid), ConfigInit::UseLoaded);
    assert_eq!(init(ConfigFileState::Invalid), ConfigInit::WriteDefaults);
    assert_eq!(init(ConfigFileState::Missing), ConfigInit::WriteDefaults);
    assert_eq!(init(ConfigFileState::Broken), ConfigInit::NeutralizeAndWriteDefaults);
    assert_eq!(neutralize_broken_config_file("server.yaml"), "server.yaml_old");
}

#[test]
fn paths_are_joined_with_one_separator() {
    assert_eq!(join_path("a", "b"), "a/b");
    assert_eq!(join_path("a/", "b"), "a/b");
    assert_eq!(join_path("", "b"), "b");
    assert_eq!(join_path("a", "/b"), "/b");
    assert_eq!(join_path("a", ""), "a/");
    assert_eq!(join_path("/", "b"), "/b");
    assert_eq!(join_path("a/b", "c/d"), "a/b/c/d");
    assert_eq!(parent_dir("a/b/c.txt"), "a/b");
    assert_eq!(parent_dir("/c.txt"), "/");
    assert_eq!(parent_dir("c.txt"), "");
    assert_eq!(parent_dir(""), "");
    assert_eq!(parent_dir("a/b/"), "a/b");
    assert_eq!(joined("ab", "cd"), "abcd");
}

#[test]
fn file_names_split_at_their_last_dot() {
    let split = |name: &str| {
        let (stem, ext) = split_file_name(name);
        (stem, ext)
    };
    assert_eq!(split("Hello.mp4"), ("Hello".to_string(), "mp4".to_string()));
    assert_eq!(split("a.tar.gz"), ("a.tar".to_string(), "gz".to_string()));
    assert_eq!(split("README"), ("README".to_string(), "".to_string()));
    assert_eq!(split(".bashrc"), (".bashrc".to_string(), "".to_string()));
    assert_eq!(split("a."), ("a".to_string(), "".to_string()));
    assert_eq!(split(""), ("".to_string(), "".to_string()));
    assert_eq!(split("é.ü"), ("é".to_string(), "ü".to_string()));
}

#[test]
fn numbers_are_written_in_decimal() {
    assert_eq!(format_decimal(0), "0");
    assert_eq!(format_decimal(9), "9");
    assert_eq!(format_decimal(10), "10");
    assert_eq!(format_decimal(1203), "1203");
    assert_eq!(format_decimal(u64::MAX), "18446744073709551615");
    assert_eq!(format_signed_decimal(0), "0");
    assert_eq!(format_signed_decimal(-1), "-1");
    assert_eq!(format_signed_decimal(i32::MAX), "2147483647");
    assert_eq!(format_signed_decimal(i32::MIN), "-2147483648");
}

#[test]
fn a_stop_flag_stays_raised() {
    let mut h = GenericStopHandle::new();
    assert!(!h.is_stopped());
    assert!(!GenericStopHandle::default().is_stopped());
    h.stop();
    assert!(h.is_stopped());
    h.stop();
    assert!(h.is_stopped());
}

#[test]
fn a_fresh_mark_is_dirty() {
    let mut m = DirtyMarker::new();
    assert!(m.is_dirty());
    m.mark_clean();
    assert!(!m.is_dirty());
    m.mark_dirty();
    assert!(m.is_dirty());
}

#[test]
fn the_exit_status_is_taken_once() {
    let mut h = ExitStatusHandle::new();
    assert!(h.take().is_none());
    h.store(ExitStatus::ChangeConfig(config(1, 0, 0)));
    h.store(ExitStatus::ChangeConfig(config(2, 0, 0)));
    match h.take() {
        Some(ExitStatus::ChangeConfig(c)) => assert_eq!(c.num_download_workers, 2),
        None => panic!("a status was stored"),
    }
    assert!(h.take().is_none());
}

#[test]
fn a_stop_from_outside_is_passed_on() {
    let mut outside = GenericStopHandle::new();
    let inside = GenericStopHandle::new();
    let mut watcher = ExternalShutdownFairing::new(outside, inside);
    assert_eq!(watcher.on_liftoff(), WatchStep::Sleep);
    assert!(!watcher.internal_handle.is_stopped());
    outside.stop();
    watcher.external_handle = outside;
    assert_eq!(watcher.on_liftoff(), WatchStep::ShutDown);
    assert!(watcher.internal_handle.is_stopped());
    assert_eq!(watcher.on_liftoff(), WatchStep::End);
}
