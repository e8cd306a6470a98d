//! The markers that the tool writes into its output, and what one line of
//! output means.
//!
//! The tool has no structured protocol: a line is classified by the fixed
//! texts it contains. Markers can overlap (the completion marker contains the
//! processing marker), so the order of the tests is part of the rule.

use vstd::prelude::*;
use crate::text::{contains, has_substring};

verus! {

/// Written once, when the tool has loaded its cache and accepts commands.
pub const CACHE_INITIALIZED_MSG: &'static str = "[INFO] Cache initialized";

/// Written by the tool on every line that reports on a command.
pub const PROCESSING_COMMAND_MSG: &'static str = "[CMD]";

/// Written when the command in flight has finished.
pub const COMMAND_COMPLETE_MSG: &'static str = "[CMD] Command completed";

/// Written before the lines that make up a command's response.
pub const OUTPUT_START_MSG: &'static str = "[OUTPUT_START]";

/// Written after the lines that make up a command's response.
pub const OUTPUT_END_MSG: &'static str = "[OUTPUT_END]";

/// What one line of output means to the supervisor.
#[derive(Debug, Clone, Copy, PartialEq, Eq, Structural)]
pub enum LineKind {
    /// The response begins after this line.
    OutputStart,
    /// The response ended before this line.
    OutputEnd,
    /// The command in flight has finished.
    CommandComplete,
    /// The tool is initialised; only a session that is not yet ready reads a line so.
    Ready,
    /// The tool is working on a command.
    Processing,
    /// Nothing the supervisor acts on.
    Plain,
}

/// The line opens the response.
pub open spec fn is_output_start(line: Seq<char>) -> bool {
    has_substring(line, OUTPUT_START_MSG@)
}

/// The line closes the response: it holds the end marker and not the start marker.
pub open spec fn is_output_end(line: Seq<char>) -> bool {
    !is_output_start(line) && has_substring(line, OUTPUT_END_MSG@)
}

/// The line reports completion: it holds the completion marker and neither
/// framing marker.
pub open spec fn is_command_complete(line: Seq<char>) -> bool {
    &&& !has_substring(line, OUTPUT_START_MSG@)
    &&& !has_substring(line, OUTPUT_END_MSG@)
    &&& has_substring(line, COMMAND_COMPLETE_MSG@)
}

/// The line has no part in framing a response or completing a command.
pub open spec fn is_unframed(line: Seq<char>) -> bool {
    &&& !has_substring(line, OUTPUT_START_MSG@)
    &&& !has_substring(line, OUTPUT_END_MSG@)
    &&& !has_substring(line, COMMAND_COMPLETE_MSG@)
}

/// The meaning of `line` for a session whose readiness is `ready`: the first
/// of the five tests that the line passes, in this order, decides.
pub open spec fn classify_line(line: Seq<char>, ready: bool) -> LineKind {
    if is_output_start(line) {
        LineKind::OutputStart
    } else if is_output_end(line) {
        LineKind::OutputEnd
    } else if is_command_complete(line) {
        LineKind::CommandComplete
    } else if !ready && has_substring(line, CACHE_INITIALIZED_MSG@) {
        LineKind::Ready
    } else if has_substring(line, PROCESSING_COMMAND_MSG@) {
        LineKind::Processing
    } else {
        LineKind::Plain
    }
}

/// Classifies one line of output for a session whose readiness is `ready`.
pub fn classify(line: &str, ready: bool) -> (kind: LineKind)
    ensures
        kind == classify_line(line@, ready),
{
    if contains(line, OUTPUT_START_MSG) {
        LineKind::OutputStart
    } else if contains(line, OUTPUT_END_MSG) {
        LineKind::OutputEnd
    } else if contains(line, COMMAND_COMPLETE_MSG) {
        LineKind::CommandComplete
    } else if !ready && contains(line, CACHE_INITIALIZED_MSG) {
        LineKind::Ready
    } else if contains(line, PROCESSING_COMMAND_MSG) {
        LineKind::Processing
    } else {
        LineKind::Plain
    }
}

} // verus!
