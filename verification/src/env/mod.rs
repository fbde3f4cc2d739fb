//! The environment of one run: command line, configuration and paths.

pub mod cli;
pub mod config;
pub mod config_trait;
pub mod paths;
pub mod ytdlp;

use std::sync::Arc;
use vstd::prelude::*;
use crate::platform::same_text;
use crate::text::{join_path, joined_path};

pub use cli::{Cli, CliCommand};
pub use config::Config;
pub use paths::Paths;
pub use ytdlp::{DownloadFormat, YtdlpConfig};

verus! {

/// The directories that the operating system assigns to this program.
#[derive(Debug)]
pub struct ProjectDirs {
    pub config_dir: String,
    pub data_dir: String,
    pub cache_dir: String,
}

/// What the operating system says about where files belong. Either part is
/// missing where the system has no answer.
#[derive(Debug)]
pub struct SystemDirs {
    pub project: Option<ProjectDirs>,
    pub download_dir: Option<String>,
}

/// Asks `directories::ProjectDirs::from` for this program's directories and
/// copies its configuration, data and cache directory as texts.
///
/// The answer depends on the machine and the user, so nothing is claimed
/// about it.
#[verifier::external_body]
pub(crate) fn project_dirs() -> (dirs: Option<ProjectDirs>) {
    directories::ProjectDirs::from("com", "youtube-dl-server", "youtube-dl-server").map(
        |d| ProjectDirs {
            config_dir: d.config_dir().to_string_lossy().into_owned(),
            data_dir: d.data_dir().to_string_lossy().into_owned(),
            cache_dir: d.cache_dir().to_string_lossy().into_owned(),
        },
    )
}

/// Asks `directories::UserDirs::new` for the user's download directory and
/// copies it as a text.
///
/// The answer depends on the machine and the user, so nothing is claimed
/// about it.
#[verifier::external_body]
pub(crate) fn user_download_dir() -> (dir: Option<String>) {
    directories::UserDirs::new().and_then(
        |u| u.download_dir().map(|p| p.to_string_lossy().into_owned()),
    )
}

impl SystemDirs {
    /// Asks the operating system.
    pub fn detect() -> (dirs: SystemDirs) {
        SystemDirs { project: project_dirs(), download_dir: user_download_dir() }
    }
}

/// The environment of one run.
#[derive(Debug)]
pub struct EnvironmentManager {
    pub cli: Cli,
    pub config: Config,
    pub ytdlp: Arc<YtdlpConfig>,
    pub dev_mode: bool,
    pub paths: Paths,
}

/// The text of an optional string.
pub open spec fn some_text(s: Option<String>) -> Option<Seq<char>> {
    match s {
        Some(s) => Some(s@),
        None => None,
    }
}

impl EnvironmentManager {
    /// The directory of the configuration files: under the working directory in
    /// development mode, else where the system puts this program's configuration.
    pub open spec fn config_dir(dirs: SystemDirs, dev_mode: bool) -> Option<Seq<char>> {
        if dev_mode {
            Some("debug/config/"@)
        } else {
            match dirs.project {
                Some(p) => Some(p.config_dir@),
                None => None,
            }
        }
    }

    /// The directory of the database.
    pub open spec fn database_dir(dirs: SystemDirs, dev_mode: bool) -> Option<Seq<char>> {
        if dev_mode {
            Some("debug/db"@)
        } else {
            match dirs.project {
                Some(p) => Some(joined_path(p.data_dir@, "db"@)),
                None => None,
            }
        }
    }

    /// The directory in which the workers keep their scratch directories. It is
    /// never the folder that the user configured itself, so that emptying it
    /// cannot touch the user's files.
    pub open spec fn worker_dir(config: Config, dev_mode: bool) -> Seq<char> {
        if dev_mode {
            joined_path(config.temp_folder@, "workers"@)
        } else {
            joined_path(config.temp_folder@, "Youtube-DL In-Progress"@)
        }
    }

    /// The directory of the log files.
    pub open spec fn logs_dir(config: Config, dirs: SystemDirs, dev_mode: bool) -> Option<Seq<char>> {
        if dev_mode {
            Some(joined_path(config.temp_folder@, "debug/logs"@))
        } else {
            match dirs.project {
                Some(p) => Some(joined_path(p.cache_dir@, "logs"@)),
                None => None,
            }
        }
    }

    /// The directory of the configuration files, if the system names one.
    pub fn get_config_dir(dirs: &SystemDirs, dev_mode: bool) -> (dir: Option<String>)
        ensures
            some_text(dir) == Self::config_dir(*dirs, dev_mode),
    {
        if dev_mode {
            Some("debug/config/".to_string())
        } else {
            match &dirs.project {
                Some(p) => Some(p.config_dir.clone()),
                None => None,
            }
        }
    }

    /// The server's configuration file.
    pub fn get_server_config_file(dirs: &SystemDirs, dev_mode: bool) -> (file: Option<String>)
        ensures
            some_text(file) == match Self::config_dir(*dirs, dev_mode) {
                Some(d) => Some(joined_path(d, "server.yaml"@)),
                None => None,
            },
    {
        match Self::get_config_dir(dirs, dev_mode) {
            Some(d) => Some(join_path(d.as_str(), "server.yaml")),
            None => None,
        }
    }

    /// The downloader tool's configuration file.
    pub fn get_ytdlp_config_file(dirs: &SystemDirs, dev_mode: bool) -> (file: Option<String>)
        ensures
            some_text(file) == match Self::config_dir(*dirs, dev_mode) {
                Some(d) => Some(joined_path(d, "ytdlp.yaml"@)),
                None => None,
            },
    {
        match Self::get_config_dir(dirs, dev_mode) {
            Some(d) => Some(join_path(d.as_str(), "ytdlp.yaml")),
            None => None,
        }
    }

    /// The download folder that a fresh configuration proposes.
    pub fn get_default_userconf_download_dir(dirs: &SystemDirs, dev_mode: bool) -> (dir: Option<
        String,
    >)
        ensures
            some_text(dir) == if dev_mode {
                Some("download"@)
            } else {
                some_text(dirs.download_dir)
            },
    {
        if dev_mode {
            Some("download".to_string())
        } else {
            match &dirs.download_dir {
                Some(d) => Some(d.clone()),
                None => None,
            }
        }
    }

    /// The temporary folder that a fresh configuration proposes.
    pub fn get_default_userconf_temp_dir(dirs: &SystemDirs, dev_mode: bool) -> (dir: Option<String>)
        ensures
            some_text(dir) == if dev_mode {
                Some("temp"@)
            } else {
                match dirs.project {
                    Some(p) => Some(p.data_dir@),
                    None => None,
                }
            },
    {
        if dev_mode {
            Some("temp".to_string())
        } else {
            match &dirs.project {
                Some(p) => Some(p.data_dir.clone()),
                None => None,
            }
        }
    }

    /// Where finished downloads go: the configured download folder.
    pub fn get_output_dir(config: &Config) -> (dir: String)
        ensures
            dir@ == config.download_folder@,
    {
        config.download_folder.clone()
    }

    /// The directory of the log files.
    pub fn get_logs_dir(config: &Config, dirs: &SystemDirs, dev_mode: bool) -> (dir: Option<String>)
        ensures
            some_text(dir) == Self::logs_dir(*config, *dirs, dev_mode),
    {
        if dev_mode {
            Some(join_path(config.temp_folder.as_str(), "debug/logs"))
        } else {
            match &dirs.project {
                Some(p) => Some(join_path(p.cache_dir.as_str(), "logs")),
                None => None,
            }
        }
    }

    /// The directory in which the workers keep their scratch directories.
    pub fn get_worker_dir(config: &Config, dev_mode: bool) -> (dir: String)
        ensures
            dir@ == Self::worker_dir(*config, dev_mode),
    {
        if dev_mode {
            join_path(config.temp_folder.as_str(), "workers")
        } else {
            join_path(config.temp_folder.as_str(), "Youtube-DL In-Progress")
        }
    }

    /// The directory of the database.
    pub fn get_database_dir(dirs: &SystemDirs, dev_mode: bool) -> (dir: Option<String>)
        ensures
            some_text(dir) == Self::database_dir(*dirs, dev_mode),
    {
        if dev_mode {
            Some("debug/db".to_string())
        } else {
            match &dirs.project {
                Some(p) => Some(join_path(p.data_dir.as_str(), "db")),
                None => None,
            }
        }
    }

    /// The database file.
    pub fn get_database_file(dirs: &SystemDirs, dev_mode: bool) -> (file: Option<String>)
        ensures
            some_text(file) == match Self::database_dir(*dirs, dev_mode) {
                Some(d) => Some(joined_path(d, "state.db"@)),
                None => None,
            },
    {
        match Self::get_database_dir(dirs, dev_mode) {
            Some(d) => Some(join_path(d.as_str(), "state.db")),
            None => None,
        }
    }

    /// Assembles the environment from the command line, the two configurations
    /// as they were brought up, and the system's directories. There is no
    /// environment where the system names no directory that is needed.
    pub fn init_from_cli(cli: Cli, config: Config, ytdlp: YtdlpConfig, dirs: &SystemDirs) -> (env:
        Option<EnvironmentManager>)
        ensures
            match env {
                Some(env) => {
                    &&& env.cli == cli
                    &&& env.config == config
                    &&& *env.ytdlp == ytdlp
                    &&& env.dev_mode == cli.dev_mode
                    &&& Self::database_dir(*dirs, cli.dev_mode) matches Some(db)
                    &&& Self::config_dir(*dirs, cli.dev_mode) matches Some(cfg)
                    &&& env.paths.database_file@ == joined_path(db, "state.db"@)
                    &&& env.paths.server_config_file@ == joined_path(cfg, "server.yaml"@)
                    &&& env.paths.ytdlp_config_file@ == joined_path(cfg, "ytdlp.yaml"@)
                    &&& env.paths.worker_dir@ == Self::worker_dir(config, cli.dev_mode)
                    &&& env.paths.output_dir@ == config.download_folder@
                    &&& Self::logs_dir(config, *dirs, cli.dev_mode) == Some(env.paths.logs_dir@)
                },
                None => !cli.dev_mode && dirs.project is None,
            },
    {
        let dev_mode = cli.dev_mode;
        let database_file = match Self::get_database_file(dirs, dev_mode) {
            Some(f) => f,
            None => {
                return None;
            },
        };
        let server_config_file = match Self::get_server_config_file(dirs, dev_mode) {
            Some(f) => f,
            None => {
                return None;
            },
        };
        let ytdlp_config_file = match Self::get_ytdlp_config_file(dirs, dev_mode) {
            Some(f) => f,
            None => {
                return None;
            },
        };
        let logs_dir = match Self::get_logs_dir(&config, dirs, dev_mode) {
            Some(f) => f,
            None => {
                return None;
            },
        };
        let paths = Paths {
            database_file,
            server_config_file,
            ytdlp_config_file,
            worker_dir: Self::get_worker_dir(&config, dev_mode),
            logs_dir,
            output_dir: Self::get_output_dir(&config),
        };
        Some(EnvironmentManager { cli, config, ytdlp: Arc::new(ytdlp), dev_mode, paths })
    }

    /// Whether the numbers of `new_config` are within their limits.
    pub fn check_config_validity(new_config: &Config) -> (valid: bool)
        ensures
            valid == new_config.within_limits(),
    {
        Config::check_validity(new_config)
    }

    /// After a new configuration was saved and the environment rebuilt as
    /// `new_env`: whether the old worker directory is left behind and is to be
    /// removed.
    pub fn save_config(&self, new_env: &EnvironmentManager) -> (remove_old_worker_dir: bool)
        ensures
            remove_old_worker_dir == (self.paths.worker_dir@ != new_env.paths.worker_dir@),
    {
        !same_text(self.paths.worker_dir.as_str(), new_env.paths.worker_dir.as_str())
    }
}

} // verus!
