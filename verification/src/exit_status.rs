//! What a server run hands to the process when it ends.

use vstd::prelude::*;
use crate::env::Config;

verus! {

/// Why the server ended, if it did not simply stop.
#[derive(Debug)]
pub enum ExitStatus {
    /// A new configuration is to be applied before the server starts again.
    ChangeConfig(Config),
}

/// The place where a request leaves the exit status for the process to take.
#[derive(Debug)]
pub struct ExitStatusHandle {
    data: Option<ExitStatus>,
}

impl ExitStatusHandle {
    /// The exit status that is stored, if any.
    pub closed spec fn stored(&self) -> Option<ExitStatus> {
        self.data
    }

    pub fn new() -> (handle: ExitStatusHandle)
        ensures
            handle.stored() is None,
    {
        ExitStatusHandle { data: None }
    }

    /// Stores `status`, in place of what was stored.
    pub fn store(&mut self, status: ExitStatus)
        ensures
            final(self).stored() == Some(status),
    {
        self.data = Some(status);
    }

    /// Takes out what is stored.
    pub fn take(&mut self) -> (status: Option<ExitStatus>)
        ensures
            status == old(self).stored(),
            final(self).stored() is None,
    {
        self.data.take()
    }
}

} // verus!
