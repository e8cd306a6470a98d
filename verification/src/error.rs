//! The failures that the supervisor reports to its caller.

use vstd::prelude::*;
use vstd::string::*;

verus! {

/// `std::io::Error`, carried through as it is: nothing is known of what
/// it holds.
#[verifier::external_type_specification]
#[verifier::external_body]
pub struct ExIoError(std::io::Error);

/// Why an operation on the supervised tool was refused or failed.
#[derive(Debug)]
pub enum CliError {
    /// A session exists already.
    AlreadyRunning,
    /// The installation directory is unusable; the text says why.
    InvalidInstallation(String),
    /// The installation path does not name a directory; the path is kept.
    PathNotFound(String),
    /// The directory lacks the game executable; the path is kept.
    ExecutableNotFound(String),
    /// No session exists, or its process handle is gone.
    NotRunning,
    /// The tool has not yet announced that it is initialised.
    NotReady,
    /// A command is still in flight.
    Busy,
    /// The shared state could not be locked.
    LockError(String),
    /// Spawning, writing to or killing the process failed.
    CommandError(String),
    /// A file system operation failed.
    IoError(std::io::Error),
}

impl CliError {
    /// The fixed part of the message, which the payload, if any, follows.
    pub open spec fn message_head(&self) -> Seq<char> {
        match self {
            CliError::AlreadyRunning => "CLI is already running"@,
            CliError::InvalidInstallation(_) => "Invalid GTA V installation: "@,
            CliError::PathNotFound(_) => "GTA V path not found at path: "@,
            CliError::ExecutableNotFound(_) => "GTA5.exe not found in GTA V path: "@,
            CliError::NotRunning => "CLI is not running"@,
            CliError::NotReady => "CLI is not ready"@,
            CliError::Busy => "CLI is busy processing"@,
            CliError::LockError(_) => "Lock acquisition failed: "@,
            CliError::CommandError(_) => "Command failed: "@,
            CliError::IoError(_) => "IO error: "@,
        }
    }

    /// The text that the variant carries, where it carries one.
    pub open spec fn detail(&self) -> Option<Seq<char>> {
        match self {
            CliError::InvalidInstallation(text) => Some(text@),
            CliError::PathNotFound(text) => Some(text@),
            CliError::ExecutableNotFound(text) => Some(text@),
            CliError::LockError(text) => Some(text@),
            CliError::CommandError(text) => Some(text@),
            _ => None,
        }
    }

    /// The message shown to the user: the head, then the payload. For
    /// `IoError` the payload is the operating system's wording, of which
    /// nothing is stated.
    pub fn message(&self) -> (text: String)
        ensures
            self.detail() matches Some(detail) ==> text@ == self.message_head() + detail,
            self.detail() is None && !(self is IoError) ==> text@ == self.message_head(),
            self is IoError ==> crate::text::has_prefix(text@, self.message_head()),
    {
        match self {
            CliError::AlreadyRunning => String::from_str("CLI is already running"),
            CliError::InvalidInstallation(text) => String::from_str(
                "Invalid GTA V installation: ",
            ).concat(text.as_str()),
            CliError::PathNotFound(text) => String::from_str(
                "GTA V path not found at path: ",
            ).concat(text.as_str()),
            CliError::ExecutableNotFound(text) => String::from_str(
                "GTA5.exe not found in GTA V path: ",
            ).concat(text.as_str()),
            CliError::NotRunning => String::from_str("CLI is not running"),
            CliError::NotReady => String::from_str("CLI is not ready"),
            CliError::Busy => String::from_str("CLI is busy processing"),
            CliError::LockError(text) => String::from_str("Lock acquisition failed: ").concat(
                text.as_str(),
            ),
            CliError::CommandError(text) => String::from_str("Command failed: ").concat(
                text.as_str(),
            ),
            CliError::IoError(error) => {
                let head = String::from_str("IO error: ");
                let text = head.concat(error.to_string().as_str());
                assert(text@.subrange(0, "IO error: "@.len() as int) == "IO error: "@);
                text
            },
        }
    }
}

} // verus!
