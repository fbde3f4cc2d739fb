//! The two flags through which a running worker is asked to stop or to pause.

use vstd::prelude::*;

verus! {

/// The control flags of one worker. A flag that was raised stays raised.
#[derive(Clone, Copy, Debug, Default, PartialEq, Eq, Structural)]
pub struct WorkerControlHandle {
    pub stop_value: bool,
    pub pause_value: bool,
}

impl WorkerControlHandle {
    /// A handle with both flags down.
    pub fn new() -> (handle: WorkerControlHandle)
        ensures
            !handle.stop_value,
            !handle.pause_value,
    {
        WorkerControlHandle { stop_value: false, pause_value: false }
    }

    /// Asks the worker to stop.
    pub fn stop(&mut self)
        ensures
            final(self).stop_value,
            final(self).pause_value == old(self).pause_value,
    {
        self.stop_value = true;
    }

    /// Asks the worker to pause.
    pub fn pause(&mut self)
        ensures
            final(self).pause_value,
            final(self).stop_value == old(self).stop_value,
    {
        self.pause_value = true;
    }

    pub fn is_stopped(&self) -> (stopped: bool)
        ensures
            stopped == self.stop_value,
    {
        self.stop_value
    }

    pub fn is_paused(&self) -> (paused: bool)
        ensures
            paused == self.pause_value,
    {
        self.pause_value
    }
}

} // verus!
