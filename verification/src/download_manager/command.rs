//! The supervision of one child process: what to do at each poll, and what the
//! run amounts to when the child is gone.

use vstd::prelude::*;
use vstd::string::StringExecFns;
use crate::text::{format_signed_decimal, signed_decimal_text};
use super::worker_handle::WorkerControlHandle;

verus! {

/// Why a worker ended without a product.
#[derive(Clone, Copy, Debug, PartialEq, Eq, Structural)]
pub enum WorkerError {
    /// The worker was asked to stop.
    Aborted,
    /// The worker was asked to pause.
    Paused,
    /// The child exited with this code, or was terminated without one.
    BadExitCode(Option<i32>),
}

/// How often a supervisor looks at its control flags and its child, in
/// milliseconds.
pub const POLL_INTERVAL_MS: u64 = 250;

/// What a supervisor finds when it looks at its child without blocking.
#[derive(Clone, Copy, Debug, PartialEq, Eq, Structural)]
pub enum ChildState {
    /// The child is still running.
    Running,
    /// The child has exited.
    Exited,
    /// The child's state could not be read.
    Unknown,
}

/// What a supervisor does next.
#[derive(Clone, Copy, Debug, PartialEq, Eq, Structural)]
pub enum SupervisorStep {
    /// Terminate the child and everything it started, wait for it, and end with
    /// this error.
    Terminate(WorkerError),
    /// Wait for the two stream readers and the child, and end with the child's
    /// exit status.
    Collect,
    /// Sleep for the poll interval and look again.
    Sleep,
}

/// How a child process exited.
#[derive(Clone, Copy, Debug, PartialEq, Eq, Structural)]
pub struct ExitInfo {
    pub success: bool,
    pub code: Option<i32>,
}

/// Which part of a run failed, when the child was not terminated on request.
#[derive(Clone, Copy, Debug, PartialEq, Eq, Structural)]
pub enum RunFailure {
    /// The reader of the child's standard output failed.
    StdoutReader,
    /// The reader of the child's standard error failed.
    StderrReader,
    /// Waiting for the child failed.
    Wait,
}

/// The supervisor of one child process.
pub struct ChildWorker {}

impl WorkerError {
    /// The message of this error.
    pub open spec fn message_text(self) -> Seq<char> {
        match self {
            WorkerError::Aborted => "task has been cancelled"@,
            WorkerError::Paused => "task has been paused"@,
            WorkerError::BadExitCode(Some(code)) => "child exited with code: "@
                + signed_decimal_text(code as int),
            WorkerError::BadExitCode(None) => "child exited with code: None (terminated?)"@,
        }
    }

    /// The message of this error.
    pub fn message(&self) -> (text: String)
        ensures
            text@ == self.message_text(),
    {
        match self {
            WorkerError::Aborted => "task has been cancelled".to_string(),
            WorkerError::Paused => "task has been paused".to_string(),
            WorkerError::BadExitCode(Some(code)) => {
                let mut text = "child exited with code: ".to_string();
                let number = format_signed_decimal(*code);
                text.append(number.as_str());
                text
            },
            WorkerError::BadExitCode(None) => {
                "child exited with code: None (terminated?)".to_string()
            },
        }
    }
}

impl ChildWorker {
    /// Decides what the supervisor does at one poll. A request to stop wins over a
    /// request to pause, and either wins over whatever the child does. A child
    /// whose state cannot be read is treated as gone.
    pub fn next_step(control_handle: &WorkerControlHandle, child: ChildState) -> (step:
        SupervisorStep)
        ensures
            step == if control_handle.stop_value {
                SupervisorStep::Terminate(WorkerError::Aborted)
            } else if control_handle.pause_value {
                SupervisorStep::Terminate(WorkerError::Paused)
            } else if child == ChildState::Running {
                SupervisorStep::Sleep
            } else {
                SupervisorStep::Collect
            },
    {
        let is_stopped = control_handle.is_stopped();
        let is_paused = control_handle.is_paused();
        if is_stopped || is_paused {
            let err = if is_stopped {
                WorkerError::Aborted
            } else {
                WorkerError::Paused
            };
            return SupervisorStep::Terminate(err);
        }
        match child {
            ChildState::Running => SupervisorStep::Sleep,
            _ => SupervisorStep::Collect,
        }
    }

    /// What a run that was not terminated on request amounts to: the child's exit
    /// status, unless a stream reader failed or the child could not be waited
    /// for. A failure of the output reader is reported before one of the error
    /// reader, and that before a failed wait.
    pub fn run(stdout_ok: bool, stderr_ok: bool, exit: Option<ExitInfo>) -> (result: Result<
        ExitInfo,
        RunFailure,
    >)
        ensures
            result == if !stdout_ok {
                Err::<ExitInfo, RunFailure>(RunFailure::StdoutReader)
            } else if !stderr_ok {
                Err(RunFailure::StderrReader)
            } else {
                match exit {
                    Some(status) => Ok(status),
                    None => Err(RunFailure::Wait),
                }
            },
    {
        if !stdout_ok {
            return Err(RunFailure::StdoutReader);
        }
        if !stderr_ok {
            return Err(RunFailure::StderrReader);
        }
        match exit {
            Some(status) => Ok(status),
            None => Err(RunFailure::Wait),
        }
    }
}

/// The name of the downloader tool's program.
pub fn new_downloader_command(windows: bool) -> (program: &'static str)
    ensures
        program@ == if windows {
            "yt-dlp.exe"@
        } else {
            "yt-dlp"@
        },
{
    if windows {
        "yt-dlp.exe"
    } else {
        "yt-dlp"
    }
}

} // verus!
