//! A flag that asks a long-running part of the program to stop.

use vstd::prelude::*;

verus! {

/// A stop flag. Once raised it stays raised.
#[derive(Clone, Copy, Debug, PartialEq, Eq, Structural)]
pub struct GenericStopHandle {
    pub value: bool,
}

impl Default for GenericStopHandle {
    fn default() -> (handle: Self)
        ensures
            !handle.value,
    {
        Self::new()
    }
}

impl GenericStopHandle {
    /// A flag that is down.
    pub fn new() -> (handle: GenericStopHandle)
        ensures
            !handle.value,
    {
        GenericStopHandle { value: false }
    }

    /// Raises the flag.
    pub fn stop(&mut self)
        ensures
            final(self).value,
    {
        self.value = true;
    }

    pub fn is_stopped(&self) -> (stopped: bool)
        ensures
            stopped == self.value,
    {
        self.value
    }
}

} // verus!
