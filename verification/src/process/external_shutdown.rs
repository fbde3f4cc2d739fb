//! Passing a stop request from outside the server on to the server.

use vstd::prelude::*;
use super::generic_stop_handle::GenericStopHandle;

verus! {

/// How often the watcher looks at the outside flag, in milliseconds.
pub const WATCH_INTERVAL_MS: u64 = 1000;

/// What the watcher does next.
#[derive(Clone, Copy, Debug, PartialEq, Eq, Structural)]
pub enum WatchStep {
    /// The server is stopping already: end.
    End,
    /// The outside asked for a stop: shut the server down, then end.
    ShutDown,
    /// Sleep for the watch interval and look again.
    Sleep,
}

/// The watcher of the outside stop flag.
#[derive(Debug)]
pub struct ExternalShutdownFairing {
    pub external_handle: GenericStopHandle,
    pub internal_handle: GenericStopHandle,
}

impl ExternalShutdownFairing {
    pub fn new(external_handle: GenericStopHandle, internal_handle: GenericStopHandle) -> (watcher:
        ExternalShutdownFairing)
        ensures
            watcher.external_handle == external_handle,
            watcher.internal_handle == internal_handle,
    {
        ExternalShutdownFairing { external_handle, internal_handle }
    }

    /// One look at the two flags. A stop request from outside raises the inner
    /// flag.
    pub fn on_liftoff(&mut self) -> (step: WatchStep)
        ensures
            final(self).external_handle == old(self).external_handle,
            step == if old(self).internal_handle.value {
                WatchStep::End
            } else if old(self).external_handle.value {
                WatchStep::ShutDown
            } else {
                WatchStep::Sleep
            },
            final(self).internal_handle.value == (old(self).internal_handle.value || old(
                self,
            ).external_handle.value),
    {
        if self.internal_handle.is_stopped() {
            WatchStep::End
        } else if self.external_handle.is_stopped() {
            self.internal_handle.stop();
            WatchStep::ShutDown
        } else {
            WatchStep::Sleep
        }
    }
}

} // verus!
