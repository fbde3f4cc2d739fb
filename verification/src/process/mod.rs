//! Stop flags and captured command output.

pub mod capture;
pub mod external_shutdown;
pub mod generic_stop_handle;

pub use capture::RunResult;
pub use external_shutdown::ExternalShutdownFairing;
pub use generic_stop_handle::GenericStopHandle;
