//! How a configuration file is brought up at start: which file wins, and what
//! becomes of a file that cannot be used.

use vstd::prelude::*;
use crate::text::joined;

verus! {

/// What reading a configuration file gave.
#[derive(Clone, Copy, Debug, PartialEq, Eq, Structural)]
pub enum ConfigFileState {
    /// There is no such file.
    Missing,
    /// The file could not be read or parsed.
    Broken,
    /// The file was parsed, but its content was rejected.
    Invalid,
    /// The file was parsed and its content accepted.
    Valid,
}

/// What to do about a configuration at start.
#[derive(Clone, Copy, Debug, PartialEq, Eq, Structural)]
pub enum ConfigInit {
    /// Use what the file holds.
    UseLoaded,
    /// Write the defaults to the file and use them.
    WriteDefaults,
    /// Move the file out of the way first, then write the defaults and use them.
    NeutralizeAndWriteDefaults,
}

/// Decides how to bring a configuration up: only an accepted file is used, and
/// only a file that cannot be read or parsed is moved out of the way.
pub fn init(state: ConfigFileState) -> (decision: ConfigInit)
    ensures
        decision == match state {
            ConfigFileState::Valid => ConfigInit::UseLoaded,
            ConfigFileState::Broken => ConfigInit::NeutralizeAndWriteDefaults,
            ConfigFileState::Invalid => ConfigInit::WriteDefaults,
            ConfigFileState::Missing => ConfigInit::WriteDefaults,
        },
{
    match state {
        ConfigFileState::Valid => ConfigInit::UseLoaded,
        ConfigFileState::Broken => ConfigInit::NeutralizeAndWriteDefaults,
        ConfigFileState::Invalid | ConfigFileState::Missing => ConfigInit::WriteDefaults,
    }
}

/// The name under which a broken configuration file is kept: its own name with
/// `_old` behind it. The caller picks a free name next to it if that one is
/// taken.
pub fn neutralize_broken_config_file(file_name: &str) -> (renamed: String)
    ensures
        renamed@ == file_name@ + "_old"@,
{
    joined(file_name, "_old")
}

} // verus!
