//! The supervisor's shared state and the decisions taken on it.
//!
//! The state is one value, owned by whoever runs the supervisor and kept
//! behind one lock: the session, if any, and the output of the command in
//! flight. The functions here decide; the caller does the work in between.
//! To start, it asks `start_codewalker` what to spawn, spawns it, and
//! reports with `process_started`. To send, it asks `send_command` what to
//! write, writes it, reports with `command_written`, and then asks
//! `poll_command` at intervals until the response is there. To stop, it
//! takes the handle from `stop_codewalker` and kills the process. The task
//! that reads the process's output hands each event to `handle_event`,
//! emits the notifications it gets back, and ends when told to.

use vstd::prelude::*;
use crate::command::{line_break, CommandResult, PendingCommand};
use crate::error::CliError;
use crate::path::PathProbe;
use crate::protocol::{classify, classify_line, LineKind};
use crate::session::{CliProcess, SpawnRequest};

verus! {

/// What the host application is told.
#[derive(Debug, Clone)]
pub enum Notification {
    /// A line of output that belongs to no command in flight.
    Output(String),
    /// The tool is initialised.
    Ready,
    /// The command in flight has finished.
    CommandComplete,
    /// The process wrote to its error stream, or the stream failed.
    Error(String),
}

/// A notification as contracts see it.
pub enum Notice {
    Output(Seq<char>),
    Ready,
    CommandComplete,
    Error(Seq<char>),
}

impl View for Notification {
    type V = Notice;

    open spec fn view(&self) -> Notice {
        match self {
            Notification::Output(line) => Notice::Output(line@),
            Notification::Ready => Notice::Ready,
            Notification::CommandComplete => Notice::CommandComplete,
            Notification::Error(text) => Notice::Error(text@),
        }
    }
}

/// The notices of a list of notifications, in order.
pub open spec fn notices(notifications: Seq<Notification>) -> Seq<Notice> {
    notifications.map_values(|notification: Notification| notification@)
}

/// What the process did, as the reading task saw it.
#[derive(Debug, Clone)]
pub enum ProcessEvent {
    /// A line on the output stream.
    Stdout(String),
    /// A line on the error stream.
    Stderr(String),
    /// The stream failed; the text says how.
    Error(String),
    /// The process ended, with its exit code if it had one.
    Terminated(Option<i32>),
    /// Anything else.
    Other,
}

/// What the reading task does after an event.
#[derive(Debug, Clone)]
pub struct EventOutcome {
    /// What to tell the host application, in this order.
    pub notifications: Vec<Notification>,
    /// Whether to go on reading; `false` ends the task.
    pub keep_reading: bool,
}

/// What `handle_stdout` found in a line.
#[derive(Debug, Clone)]
pub struct LineOutcome {
    /// What the line meant.
    pub kind: LineKind,
    /// The line itself, where it is to be passed on to the host application.
    pub output: Option<String>,
}

/// What the host application is told about a line of kind `kind` that left
/// the session busy or not: first the change of state, if any, then the
/// line itself unless a command is in flight.
pub open spec fn line_notices(line: Seq<char>, kind: LineKind, busy: bool) -> Seq<Notice> {
    let change = match kind {
        LineKind::Ready => seq![Notice::Ready],
        LineKind::CommandComplete => seq![Notice::CommandComplete],
        _ => Seq::<Notice>::empty(),
    };
    if busy {
        change
    } else {
        change.push(Notice::Output(line))
    }
}

/// The shared state as contracts see it.
pub struct SupervisorState<H> {
    /// The session, if one exists.
    pub process: Option<CliProcess<H>>,
    /// The output of the command in flight.
    pub current: PendingCommand,
}

impl<H> SupervisorState<H> {
    /// The state after a line of output. Without a session the line is dropped.
    pub open spec fn after_line(self, line: Seq<char>) -> SupervisorState<H> {
        match self.process {
            Some(cli) => {
                let kind = classify_line(line, cli.ready);
                SupervisorState {
                    process: Some(cli.after_line(kind)),
                    current: self.current.absorb(line, kind),
                }
            },
            None => self,
        }
    }

    /// What the host application is told about a line of output.
    pub open spec fn line_notices(self, line: Seq<char>) -> Seq<Notice> {
        match self.process {
            Some(cli) => {
                let kind = classify_line(line, cli.ready);
                line_notices(line, kind, cli.after_line(kind).processing_command)
            },
            None => Seq::empty(),
        }
    }

    /// The state after a run of output lines, taken in order.
    pub open spec fn after_lines(self, lines: Seq<Seq<char>>) -> SupervisorState<H>
        decreases lines.len(),
    {
        if lines.len() == 0 {
            self
        } else {
            self.after_lines(lines.drop_last()).after_line(lines.last())
        }
    }

    /// What the host application is told over a run of output lines.
    pub open spec fn lines_notices(self, lines: Seq<Seq<char>>) -> Seq<Notice>
        decreases lines.len(),
    {
        if lines.len() == 0 {
            Seq::empty()
        } else {
            self.lines_notices(lines.drop_last()) + self.after_lines(
                lines.drop_last(),
            ).line_notices(lines.last())
        }
    }

    /// The state after an event of the process. Only output changes it: a
    /// process that ended leaves its session in place.
    pub open spec fn after_event(self, event: ProcessEvent) -> SupervisorState<H> {
        match event {
            ProcessEvent::Stdout(line) => self.after_line(line@),
            _ => self,
        }
    }

    /// What the host application is told about an event of the process.
    pub open spec fn event_notices(self, event: ProcessEvent) -> Seq<Notice> {
        match event {
            ProcessEvent::Stdout(line) => self.line_notices(line@),
            ProcessEvent::Stderr(line) => seq![Notice::Error(line@)],
            ProcessEvent::Error(text) => seq![Notice::Error(text@)],
            _ => Seq::empty(),
        }
    }

    /// Why a command is refused now, if it is: no session, or the
    /// session's own reason.
    pub open spec fn refusal(self) -> Option<CliError> {
        match self.process {
            Some(cli) => cli.refusal(),
            None => Some(CliError::NotRunning),
        }
    }

    /// The state after a command was accepted: the buffer starts anew.
    pub open spec fn after_accept(self) -> SupervisorState<H> {
        SupervisorState { process: self.process, current: PendingCommand::empty() }
    }

    /// The state after the write of an accepted command succeeded: the
    /// session, if it is still there, is busy.
    pub open spec fn after_write(self) -> SupervisorState<H> {
        match self.process {
            Some(cli) => SupervisorState {
                process: Some(CliProcess { processing_command: true, ..cli }),
                current: self.current,
            },
            None => self,
        }
    }

    /// The state after a stop: no session; the buffer stays.
    pub open spec fn after_stop(self) -> SupervisorState<H> {
        SupervisorState { process: None, current: self.current }
    }
}

/// The supervisor's shared state: the single session and the output of the
/// single command in flight.
#[derive(Debug)]
pub struct Supervisor<H> {
    /// The session, if one exists.
    pub process: Option<CliProcess<H>>,
    /// The output of the command in flight.
    pub current: CommandResult,
}

impl<H> View for Supervisor<H> {
    type V = SupervisorState<H>;

    open spec fn view(&self) -> SupervisorState<H> {
        SupervisorState { process: self.process, current: self.current@ }
    }
}

impl<H> Supervisor<H> {
    /// No session, an empty buffer.
    pub fn new() -> (state: Self)
        ensures
            state@ == (SupervisorState::<H> { process: None, current: PendingCommand::empty() }),
    {
        Supervisor { process: None, current: CommandResult::new() }
    }
}

/// Takes one line of output into the buffer and applies what it means to
/// the session. The line is handed back for the host application exactly
/// if no command is in flight afterwards.
pub fn handle_stdout<H>(
    line_str: String,
    cli: &mut CliProcess<H>,
    cmd_result: &mut CommandResult,
) -> (outcome: LineOutcome)
    ensures
        outcome.kind == classify_line(line_str@, old(cli).ready),
        *final(cli) == old(cli).after_line(outcome.kind),
        final(cmd_result)@ == old(cmd_result)@.absorb(line_str@, outcome.kind),
        outcome.output is Some <==> !final(cli).processing_command,
        outcome.output matches Some(line) ==> line@ == line_str@,
{
    let kind = classify(line_str.as_str(), cli.is_ready());
    cmd_result.push_line(line_str.clone(), kind);
    match kind {
        LineKind::CommandComplete => cli.set_processing(false),
        LineKind::Ready => cli.set_ready(),
        LineKind::Processing => cli.set_processing(true),
        _ => {},
    }
    let output = if cli.processing_command {
        None
    } else {
        Some(line_str)
    };
    LineOutcome { kind, output }
}

/// Takes one event of the process: a line of output goes through
/// `handle_stdout`, unless the session is gone; a line on the error stream
/// or a failure of the stream is passed on as an error; the end of the
/// process ends the reading and leaves the session in place.
pub fn handle_event<H>(state: &mut Supervisor<H>, event: ProcessEvent) -> (outcome: EventOutcome)
    ensures
        final(state)@ == old(state)@.after_event(event),
        notices(outcome.notifications@) == old(state)@.event_notices(event),
        outcome.keep_reading == !(event is Terminated),
{
    let mut notifications: Vec<Notification> = Vec::new();
    let mut keep_reading = true;
    match event {
        ProcessEvent::Stdout(line) => {
            match &mut state.process {
                Some(cli) => {
                    let found = handle_stdout(line, cli, &mut state.current);
                    match found.kind {
                        LineKind::Ready => notifications.push(Notification::Ready),
                        LineKind::CommandComplete => notifications.push(
                            Notification::CommandComplete,
                        ),
                        _ => {},
                    }
                    match found.output {
                        Some(line) => notifications.push(Notification::Output(line)),
                        None => {},
                    }
                },
                None => {},
            }
        },
        ProcessEvent::Stderr(line) => notifications.push(Notification::Error(line)),
        ProcessEvent::Error(text) => notifications.push(Notification::Error(text)),
        ProcessEvent::Terminated(_) => {
            keep_reading = false;
        },
        ProcessEvent::Other => {},
    }
    assert(notices(notifications@) =~= old(state)@.event_notices(event));
    EventOutcome { notifications, keep_reading }
}

/// Decides whether a session may be started and says what to spawn for it:
/// `AlreadyRunning` where a session exists; else as `CliProcess::start`.
pub fn start_codewalker<H>(state: &Supervisor<H>, gta_path: String, probe: &PathProbe) -> (request:
    Result<SpawnRequest, CliError>)
    ensures
        state.process is Some ==> request matches Err(CliError::AlreadyRunning),
        state.process is None && !probe.is_directory() ==> (request matches Err(
            CliError::PathNotFound(at),
        ) && at@ == gta_path@),
        state.process is None && probe.is_directory() && !probe.has_executable ==> (
        request matches Err(CliError::ExecutableNotFound(at)) && at@ == gta_path@),
        state.process is None && probe.is_directory() && probe.has_executable ==> (
        request matches Ok(spawn) && spawn.is_for(gta_path@)),
{
    if state.process.is_some() {
        return Err(CliError::AlreadyRunning);
    }
    CliProcess::<H>::start(gta_path, probe)
}

/// Records how the spawn went. A spawned process becomes the session, not
/// yet ready and not busy, in place of whatever session there was; a failed
/// spawn changes nothing and is reported as `CommandError`.
pub fn process_started<H>(state: &mut Supervisor<H>, spawned: Result<H, String>) -> (started:
    Result<(), CliError>)
    ensures
        spawned matches Ok(command) ==> started is Ok && final(state)@ == (SupervisorState {
            process: Some(CliProcess { command: Some(command), ready: false, processing_command: false }),
            current: old(state)@.current,
        }),
        spawned matches Err(reason) ==> *final(state) == *old(state) && (started matches Err(
            CliError::CommandError(text),
        ) && text == reason),
{
    match spawned {
        Ok(command) => {
            state.process = Some(CliProcess::new(command));
            Ok(())
        },
        Err(reason) => Err(CliError::CommandError(reason)),
    }
}

/// Decides whether `command` may be sent: `NotRunning` without a session,
/// `NotReady` before the tool is initialised, `Busy` while a command is in
/// flight; a refusal changes nothing. Where the command is accepted, the
/// buffer starts anew and the text to write to the process is returned:
/// the command and a line break.
pub fn send_command<H>(state: &mut Supervisor<H>, command: String) -> (payload: Result<
    String,
    CliError,
>)
    ensures
        old(state)@.refusal() matches Some(error) ==> payload == Err::<String, CliError>(error)
            && *final(state) == *old(state),
        old(state)@.refusal() is None ==> (payload matches Ok(text) && text@ == command@
            + line_break()) && final(state)@ == old(state)@.after_accept(),
{
    let payload = match &state.process {
        Some(cli) => cli.send_command(command.as_str()),
        None => Err(CliError::NotRunning),
    };
    if payload.is_ok() {
        state.current = CommandResult::new();
    }
    payload
}

/// Records how the write of an accepted command went. After a successful
/// write the session is busy; a failed one changes nothing and is reported
/// as `CommandError`. Where the session is gone by then, the answer is
/// `NotRunning`.
pub fn command_written<H>(state: &mut Supervisor<H>, outcome: Result<(), String>) -> (sent: Result<
    (),
    CliError,
>)
    ensures
        outcome matches Err(reason) ==> *final(state) == *old(state) && (sent matches Err(
            CliError::CommandError(text),
        ) && text == reason),
        outcome is Ok ==> final(state)@ == old(state)@.after_write(),
        outcome is Ok && old(state).process is Some ==> sent is Ok,
        outcome is Ok && old(state).process is None ==> sent matches Err(CliError::NotRunning),
{
    match &mut state.process {
        Some(cli) => cli.command_written(outcome),
        None => match outcome {
            Ok(()) => Err(CliError::NotRunning),
            Err(reason) => Err(CliError::CommandError(reason)),
        },
    }
}

/// The response of the command in flight, once its completion marker has
/// been seen; `None` before.
pub fn poll_command<H>(state: &Supervisor<H>) -> (response: Option<String>)
    ensures
        response is Some <==> state@.current.complete,
        response matches Some(text) ==> text@ == state@.current.response(),
{
    if state.current.is_complete() {
        Some(state.current.command_output())
    } else {
        None
    }
}

/// Ends the session. Without a session nothing changes and there is
/// nothing to kill. Otherwise the session is removed and its process
/// handle returned, for the caller to kill the process with; a session
/// that had lost its handle is removed too, and the answer is `NotRunning`.
pub fn stop_codewalker<H>(state: &mut Supervisor<H>) -> (handle: Result<Option<H>, CliError>)
    ensures
        final(state)@ == old(state)@.after_stop(),
        old(state).process is None ==> handle == Ok::<Option<H>, CliError>(None) && *final(state)
            == *old(state),
        old(state).process matches Some(cli) ==> handle == match cli.command {
            Some(command) => Ok::<Option<H>, CliError>(Some(command)),
            None => Err::<Option<H>, CliError>(CliError::NotRunning),
        },
{
    match state.process.take() {
        Some(mut cli) => match cli.stop() {
            Ok(command) => Ok(Some(command)),
            Err(error) => Err(error),
        },
        None => Ok(None),
    }
}

} // verus!
