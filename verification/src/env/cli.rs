//! The command line, as parsed.

use vstd::prelude::*;

verus! {

/// What the program was asked to do.
#[derive(Clone, Copy, Debug, PartialEq, Eq, Structural)]
pub enum CliCommand {
    /// Run the server, possibly as a system service.
    Run { service: bool },
    /// Print the API token and exit.
    GetToken,
    /// Install the program as a system service.
    InstallService { verbose: bool },
    /// Remove the system service.
    UninstallService,
}

/// Where the log goes.
#[derive(Clone, Copy, Debug, PartialEq, Eq, Structural)]
pub enum LoggingMode {
    /// To an hourly rolling file in the log directory.
    File,
    /// Nowhere.
    Silent,
    /// To the terminal.
    Terminal,
}

/// The parsed command line.
#[derive(Debug)]
pub struct Cli {
    /// The working directory to change to, if one was given.
    pub workdir: Option<String>,
    /// In development mode all internal files live under the working directory.
    pub dev_mode: bool,
    pub log_file: bool,
    pub log_none: bool,
    pub command: CliCommand,
}

impl Clone for Cli {
    fn clone(&self) -> (copy: Self)
        ensures
            copy == *self,
    {
        Cli {
            workdir: match &self.workdir {
                Some(w) => Some(w.clone()),
                None => None,
            },
            dev_mode: self.dev_mode,
            log_file: self.log_file,
            log_none: self.log_none,
            command: self.command,
        }
    }
}

impl Cli {
    /// Where the log goes: a log file wins over silence, silence over the
    /// terminal.
    pub fn logging_mode(&self) -> (mode: LoggingMode)
        ensures
            mode == if self.log_file {
                LoggingMode::File
            } else if self.log_none {
                LoggingMode::Silent
            } else {
                LoggingMode::Terminal
            },
    {
        if self.log_file {
            LoggingMode::File
        } else if self.log_none {
            LoggingMode::Silent
        } else {
            LoggingMode::Terminal
        }
    }

    /// The flag that makes an installed service log as this installation was
    /// asked to.
    pub fn service_logging_flag(verbose: bool) -> (flag: &'static str)
        ensures
            flag@ == if verbose {
                "--log-file"@
            } else {
                "--log-none"@
            },
    {
        if verbose {
            "--log-file"
        } else {
            "--log-none"
        }
    }
}

} // verus!
