//! The output captured for the command in flight, and the response that is
//! cut out of it.
//!
//! Every line that the tool writes is appended to the buffer. The first line
//! classified as start marker and the first classified as end marker are
//! remembered by their positions; later markers of the same kind change
//! nothing. When both are known and the start comes first, the response is
//! made of the lines strictly between them; otherwise of the whole buffer.

use vstd::prelude::*;
use vstd::string::*;
use crate::protocol::LineKind;
use crate::text::{has_prefix, starts_with, trim, trimmed};

verus! {

/// A trimmed line that begins with this word is a progress message and no
/// part of a response.
pub const CHECKING_PREFIX: &'static str = "Checking";

/// What separates the lines of a response.
pub open spec fn line_break() -> Seq<char> {
    seq!['\n']
}

/// Whether a trimmed line belongs to a response: it is not blank, does not
/// begin with a bracket (a log line), and is no progress message.
pub open spec fn keeps_line(line: Seq<char>) -> bool {
    &&& line.len() > 0
    &&& line[0] != '['
    &&& !has_prefix(line, CHECKING_PREFIX@)
}

/// The lines of `lines` that belong to a response, each trimmed, in order.
pub open spec fn presentable(lines: Seq<Seq<char>>) -> Seq<Seq<char>> {
    lines.map_values(|line: Seq<char>| trimmed(line)).filter(|line: Seq<char>| keeps_line(line))
}

/// The lines joined into one text, a line break between neighbours.
pub open spec fn join_lines(lines: Seq<Seq<char>>) -> Seq<char>
    decreases lines.len(),
{
    if lines.len() == 0 {
        Seq::empty()
    } else if lines.len() == 1 {
        lines[0]
    } else {
        join_lines(lines.drop_last()) + line_break() + lines.last()
    }
}

/// The captured output of one command, as contracts see it.
pub struct PendingCommand {
    /// Every line seen since the command was submitted, in arrival order.
    pub lines: Seq<Seq<char>>,
    /// Position in `lines` of the first start marker line, once seen.
    pub start: Option<int>,
    /// Position in `lines` of the first end marker line, once seen.
    pub end: Option<int>,
    /// A completion marker line has been seen.
    pub complete: bool,
}

impl PendingCommand {
    /// The state right after a command was submitted.
    pub open spec fn empty() -> PendingCommand {
        PendingCommand { lines: Seq::empty(), start: None, end: None, complete: false }
    }

    /// Each remembered position names a line of the buffer.
    pub open spec fn wf(self) -> bool {
        &&& self.start matches Some(at) ==> 0 <= at < self.lines.len()
        &&& self.end matches Some(at) ==> 0 <= at < self.lines.len()
    }

    /// The state after `line`, classified as `kind`, has arrived.
    pub open spec fn absorb(self, line: Seq<char>, kind: LineKind) -> PendingCommand {
        PendingCommand {
            lines: self.lines.push(line),
            start: if kind == LineKind::OutputStart && self.start is None {
                Some(self.lines.len() as int)
            } else {
                self.start
            },
            end: if kind == LineKind::OutputEnd && self.end is None {
                Some(self.lines.len() as int)
            } else {
                self.end
            },
            complete: self.complete || kind == LineKind::CommandComplete,
        }
    }

    /// Both markers were seen, the start marker first.
    pub open spec fn framed(self) -> bool {
        &&& self.start is Some
        &&& self.end is Some
        &&& self.start->0 < self.end->0
    }

    /// The lines that the response is made from.
    pub open spec fn selected(self) -> Seq<Seq<char>> {
        if self.framed() {
            self.lines.subrange(self.start->0 + 1, self.end->0)
        } else {
            self.lines
        }
    }

    /// The command's textual result.
    pub open spec fn response(self) -> Seq<char> {
        join_lines(presentable(self.selected()))
    }
}

/// Appending a line to a buffer appends its trimmed form to the presentable
/// lines if it is kept, and leaves them unchanged if not.
pub proof fn lemma_presentable_push(lines: Seq<Seq<char>>, line: Seq<char>)
    ensures
        presentable(lines.push(line)) == if keeps_line(trimmed(line)) {
            presentable(lines).push(trimmed(line))
        } else {
            presentable(lines)
        },
{
    let trim_fn = |line: Seq<char>| trimmed(line);
    let keep_fn = |line: Seq<char>| keeps_line(line);
    lines.lemma_push_map_commute(trim_fn, line);
    lines.map_values(trim_fn).lemma_filter_push(trimmed(line), keep_fn);
}

/// Joining after one more line adds a line break, unless it is the first
/// line, and then the line.
pub proof fn lemma_join_push(lines: Seq<Seq<char>>, line: Seq<char>)
    ensures
        join_lines(lines.push(line)) == if lines.len() == 0 {
            line
        } else {
            join_lines(lines) + line_break() + line
        },
{
    assert(lines.push(line).drop_last() == lines);
    assert(lines.push(line).last() == line);
}

/// The output accumulated for the single command in flight.
#[derive(Debug)]
pub struct CommandResult {
    output: Vec<String>,
    complete: bool,
    start_index: Option<usize>,
    end_index: Option<usize>,
}

impl View for CommandResult {
    type V = PendingCommand;

    closed spec fn view(&self) -> PendingCommand {
        PendingCommand {
            lines: self.output.deep_view(),
            start: match self.start_index {
                Some(at) => Some(at as int),
                None => None,
            },
            end: match self.end_index {
                Some(at) => Some(at as int),
                None => None,
            },
            complete: self.complete,
        }
    }
}

impl Clone for CommandResult {
    fn clone(&self) -> (copy: Self)
        ensures
            copy@ == self@,
    {
        proof {
            use_type_invariant(self);
        }
        let output = self.output.clone();
        assert(output.deep_view() =~= self.output.deep_view());
        CommandResult {
            output,
            complete: self.complete,
            start_index: self.start_index,
            end_index: self.end_index,
        }
    }
}

impl CommandResult {
    #[verifier::type_invariant]
    spec fn positions_in_buffer(self) -> bool {
        &&& self.start_index matches Some(at) ==> at < self.output.len()
        &&& self.end_index matches Some(at) ==> at < self.output.len()
    }

    /// An empty buffer: no line, no marker, not complete.
    pub fn new() -> (fresh: Self)
        ensures
            fresh@ == PendingCommand::empty(),
    {
        let fresh = Self { output: Vec::new(), complete: false, start_index: None, end_index: None };
        assert(fresh.output.deep_view() =~= Seq::<Seq<char>>::empty());
        fresh
    }

    /// Appends `line`, which the caller has classified as `kind`, and
    /// remembers what the kind implies.
    pub fn push_line(&mut self, line: String, kind: LineKind)
        ensures
            final(self)@ == old(self)@.absorb(line@, kind),
    {
        proof {
            use_type_invariant(&*self);
        }
        let at = self.output.len();
        let start_index = self.start_index;
        let end_index = self.end_index;
        let ghost before = self.output.deep_view();
        // The positions are put aside while the buffer is out of its place.
        self.start_index = None;
        self.end_index = None;
        let mut output: Vec<String> = Vec::new();
        core::mem::swap(&mut output, &mut self.output);
        output.push(line);
        core::mem::swap(&mut output, &mut self.output);
        assert(self.output.deep_view() =~= before.push(line@));
        self.start_index = match kind {
            LineKind::OutputStart if start_index.is_none() => Some(at),
            _ => start_index,
        };
        self.end_index = match kind {
            LineKind::OutputEnd if end_index.is_none() => Some(at),
            _ => end_index,
        };
        match kind {
            LineKind::CommandComplete => {
                self.complete = true;
            },
            _ => {},
        }
    }

    /// Whether the completion marker has been seen.
    pub fn is_complete(&self) -> (complete: bool)
        ensures
            complete == self@.complete,
    {
        self.complete
    }

    /// The lines captured so far.
    pub fn output(&self) -> (lines: &Vec<String>)
        ensures
            lines.deep_view() == self@.lines,
    {
        &self.output
    }

    /// Position of the first start marker line, once seen.
    pub fn start_index(&self) -> (at: Option<usize>)
        ensures
            self@.wf(),
            at is Some <==> self@.start is Some,
            at matches Some(i) ==> self@.start == Some(i as int),
    {
        proof {
            use_type_invariant(self);
        }
        self.start_index
    }

    /// Position of the first end marker line, once seen.
    pub fn end_index(&self) -> (at: Option<usize>)
        ensures
            self@.wf(),
            at is Some <==> self@.end is Some,
            at matches Some(i) ==> self@.end == Some(i as int),
    {
        proof {
            use_type_invariant(self);
        }
        self.end_index
    }

    /// The command's textual result: the framed lines, or the whole buffer
    /// where the frame is missing or out of order; each line trimmed; blank
    /// lines, log lines and progress messages left out; joined by line breaks.
    pub fn command_output(&self) -> (text: String)
        ensures
            self@.wf(),
            text@ == self@.response(),
    {
        proof {
            use_type_invariant(self);
        }
        let (from, to) = match (self.start_index, self.end_index) {
            (Some(start), Some(end)) if start < end => (start + 1, end),
            _ => (0, self.output.len()),
        };
        assert(self@.selected() == self@.lines.subrange(from as int, to as int));
        let mut text = String::new();
        let mut kept: usize = 0;
        let mut at: usize = from;
        while at < to
            invariant
                from <= at <= to <= self.output.len(),
                kept == presentable(self.output.deep_view().subrange(from as int, at as int)).len(),
                text@ == join_lines(
                    presentable(self.output.deep_view().subrange(from as int, at as int)),
                ),
            decreases to - at,
        {
            let line = trim(self.output[at].as_str());
            proof {
                let seen = self.output.deep_view().subrange(from as int, at as int);
                let raw = self.output.deep_view()[at as int];
                assert(self.output.deep_view().subrange(from as int, at + 1) == seen.push(raw));
                assert(line@ == trimmed(raw));
                lemma_presentable_push(seen, raw);
                lemma_join_push(presentable(seen), trimmed(raw));
            }
            if !line.is_empty() && line.get_char(0) != '[' && !starts_with(line, CHECKING_PREFIX) {
                if kept > 0 {
                    proof {
                        reveal_strlit("\n");
                        assert("\n"@ == line_break());
                    }
                    text.append("\n");
                }
                text.append(line);
                kept = kept + 1;
            }
            at = at + 1;
        }
        text
    }
}

} // verus!
