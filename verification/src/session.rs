//! One supervised run of the tool: its process handle and the two flags
//! that decide whether a command may be sent.
//!
//! The handle is whatever the caller uses to write to the process and to
//! kill it. The library never looks inside: it keeps the handle, says when
//! the caller should write, and hands it back to be killed.

use vstd::prelude::*;
use vstd::string::*;
use crate::command::line_break;
use crate::error::CliError;
use crate::path::{validate_gta_path, PathProbe};
use crate::protocol::LineKind;

verus! {

/// The program that is run.
pub const CLI_PROGRAM: &'static str = "CodeWalkerCli";

/// The environment variable that selects how the tool talks.
pub const CLI_MODE_VAR: &'static str = "CLIMODE";

/// Its value: the tool reads commands from its input and answers on its output.
pub const CLI_MODE_PIPED: &'static str = "PIPED";

/// The environment variable that tells the tool where the game is installed.
pub const GTA_PATH_VAR: &'static str = "GTA_PATH";

/// What the caller has to spawn to begin a session.
#[derive(Debug, Clone)]
pub struct SpawnRequest {
    /// The program to run.
    pub program: String,
    /// The environment variables to set, name and value, in this order.
    pub env: Vec<(String, String)>,
}

impl SpawnRequest {
    /// The request for an installation at `gta_path`.
    pub open spec fn is_for(self, gta_path: Seq<char>) -> bool {
        &&& self.program@ == CLI_PROGRAM@
        &&& self.env.deep_view() == seq![
            (CLI_MODE_VAR@, CLI_MODE_PIPED@),
            (GTA_PATH_VAR@, gta_path),
        ]
    }
}

/// Maps the outcome of spawning, writing or killing, as the caller reports
/// it, to the library's error: a failure becomes `CommandError` with the
/// caller's wording.
pub fn command_outcome<T>(outcome: Result<T, String>) -> (mapped: Result<T, CliError>)
    ensures
        outcome matches Ok(value) ==> mapped == Ok::<T, CliError>(value),
        outcome matches Err(reason) ==> (mapped matches Err(CliError::CommandError(text))
            && text == reason),
{
    match outcome {
        Ok(value) => Ok(value),
        Err(reason) => Err(CliError::CommandError(reason)),
    }
}

/// A session with the tool.
#[derive(Debug)]
pub struct CliProcess<H> {
    /// The handle of the child process; `None` once stopped.
    pub command: Option<H>,
    /// The tool has announced that it is initialised. Never reverts.
    pub ready: bool,
    /// The tool is working on a command.
    pub processing_command: bool,
}

impl<H> CliProcess<H> {
    /// The session after a line of kind `kind` has arrived.
    pub open spec fn after_line(self, kind: LineKind) -> CliProcess<H> {
        match kind {
            LineKind::CommandComplete => CliProcess { processing_command: false, ..self },
            LineKind::Ready => CliProcess { ready: true, ..self },
            LineKind::Processing => CliProcess { processing_command: true, ..self },
            _ => self,
        }
    }

    /// Why the session takes no command now, if it does not: the first of
    /// not ready, busy, and without a process handle.
    pub open spec fn refusal(self) -> Option<CliError> {
        if !self.ready {
            Some(CliError::NotReady)
        } else if self.processing_command {
            Some(CliError::Busy)
        } else if self.command is None {
            Some(CliError::NotRunning)
        } else {
            None
        }
    }

    /// A session around a freshly spawned process: not ready, not busy.
    pub fn new(command: H) -> (session: Self)
        ensures
            session == (CliProcess { command: Some(command), ready: false, processing_command: false }),
    {
        Self { command: Some(command), ready: false, processing_command: false }
    }

    /// Marks the session ready.
    pub fn set_ready(&mut self)
        ensures
            *final(self) == (CliProcess { ready: true, ..*old(self) }),
    {
        self.ready = true;
    }

    /// Marks the session busy or idle.
    pub fn set_processing(&mut self, processing: bool)
        ensures
            *final(self) == (CliProcess { processing_command: processing, ..*old(self) }),
    {
        self.processing_command = processing;
    }

    /// Whether the tool has announced that it is initialised.
    pub fn is_ready(&self) -> (ready: bool)
        ensures
            ready == self.ready,
    {
        self.ready
    }

    /// Checks the installation and says what to spawn for it. Fails as
    /// `validate_gta_path` does.
    pub fn start(gta_path: String, probe: &PathProbe) -> (request: Result<SpawnRequest, CliError>)
        ensures
            !probe.is_directory() ==> (request matches Err(CliError::PathNotFound(at)) && at@
                == gta_path@),
            probe.is_directory() && !probe.has_executable ==> (request matches Err(
                CliError::ExecutableNotFound(at),
            ) && at@ == gta_path@),
            probe.is_directory() && probe.has_executable ==> (request matches Ok(spawn)
                && spawn.is_for(gta_path@)),
    {
        match validate_gta_path(gta_path, probe) {
            Ok(gta_path) => {
                let mut env: Vec<(String, String)> = Vec::new();
                env.push((String::from_str(CLI_MODE_VAR), String::from_str(CLI_MODE_PIPED)));
                env.push((String::from_str(GTA_PATH_VAR), gta_path));
                let spawn = SpawnRequest { program: String::from_str(CLI_PROGRAM), env };
                assert(spawn.env.deep_view() =~= seq![
                    (CLI_MODE_VAR@, CLI_MODE_PIPED@),
                    (GTA_PATH_VAR@, gta_path@),
                ]);
                Ok(spawn)
            },
            Err(error) => Err(error),
        }
    }

    /// Decides whether `command` may be sent and, if so, returns the text
    /// to write to the process: the command and a line break. The session
    /// is not changed; `command_written` records the write.
    pub fn send_command(&self, command: &str) -> (payload: Result<String, CliError>)
        ensures
            self.refusal() matches Some(error) ==> payload == Err::<String, CliError>(error),
            self.refusal() is None ==> (payload matches Ok(text) && text@ == command@
                + line_break()),
    {
        if !self.ready {
            return Err(CliError::NotReady);
        }
        if self.processing_command {
            return Err(CliError::Busy);
        }
        if self.command.is_some() {
            proof {
                reveal_strlit("\n");
                assert("\n"@ == line_break());
            }
            Ok(String::from_str(command).concat("\n"))
        } else {
            Err(CliError::NotRunning)
        }
    }

    /// Records how the write of a command went: after a successful write
    /// the session is busy; a failed one changes nothing and is reported as
    /// `CommandError`.
    pub fn command_written(&mut self, outcome: Result<(), String>) -> (sent: Result<(), CliError>)
        ensures
            outcome is Ok ==> sent is Ok && *final(self) == (CliProcess {
                processing_command: true,
                ..*old(self)
            }),
            outcome matches Err(reason) ==> *final(self) == *old(self) && (sent matches Err(
                CliError::CommandError(text),
            ) && text == reason),
    {
        match outcome {
            Ok(()) => {
                self.set_processing(true);
                Ok(())
            },
            Err(reason) => Err(CliError::CommandError(reason)),
        }
    }

    /// Gives up the process handle, for the caller to kill the process
    /// with. Without a handle the session is unchanged and the answer is
    /// `NotRunning`.
    pub fn stop(&mut self) -> (handle: Result<H, CliError>)
        ensures
            old(self).command matches Some(command) ==> handle == Ok::<H, CliError>(command)
                && *final(self) == (CliProcess { command: None, ..*old(self) }),
            old(self).command is None ==> handle == Err::<H, CliError>(CliError::NotRunning)
                && *final(self) == *old(self),
    {
        match self.command.take() {
            Some(command) => Ok(command),
            None => Err(CliError::NotRunning),
        }
    }
}

} // verus!
