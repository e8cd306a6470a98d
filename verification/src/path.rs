//! Validation of the directory that the game is installed in.
//!
//! The library does not touch the file system: the caller looks the path up
//! and hands over what it found.

use vstd::prelude::*;
use crate::error::CliError;

verus! {

/// Where the game is installed when the user has not said otherwise.
pub const DEFAULT_GTA_PATH: &'static str = "C:/Program Files/Rockstar Games/Grand Theft Auto V";

/// The file that an installation directory must hold.
pub const GAME_EXECUTABLE: &'static str = "GTA5.exe";

/// What a look at the file system found at a candidate path.
#[derive(Debug, Clone, Copy, PartialEq, Eq, Structural)]
pub struct PathProbe {
    /// Something exists at the path.
    pub exists: bool,
    /// The path names a directory.
    pub is_dir: bool,
    /// The directory holds the game executable.
    pub has_executable: bool,
}

impl PathProbe {
    /// The path names a directory that exists.
    pub open spec fn is_directory(self) -> bool {
        self.exists && self.is_dir
    }
}

/// Accepts `path` as installation directory and returns it, or says why
/// not: `PathNotFound` where nothing exists at the path or it is no
/// directory, `ExecutableNotFound` where the directory lacks the game
/// executable. Both errors carry the path.
pub fn validate_gta_path(path: String, probe: &PathProbe) -> (checked: Result<String, CliError>)
    ensures
        !probe.is_directory() ==> (checked matches Err(CliError::PathNotFound(at)) && at@
            == path@),
        probe.is_directory() && !probe.has_executable ==> (checked matches Err(
            CliError::ExecutableNotFound(at),
        ) && at@ == path@),
        probe.is_directory() && probe.has_executable ==> (checked matches Ok(at) && at@ == path@),
{
    if !probe.exists || !probe.is_dir {
        Err(CliError::PathNotFound(path))
    } else if !probe.has_executable {
        Err(CliError::ExecutableNotFound(path))
    } else {
        Ok(path)
    }
}

} // verus!
