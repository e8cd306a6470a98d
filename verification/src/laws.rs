//! What holds of the supervisor over whole runs, proved from the
//! transitions that the functions' contracts are stated with.

use vstd::prelude::*;
use crate::command::{join_lines, presentable, PendingCommand};
use crate::error::CliError;
use crate::protocol::{
    classify_line, is_command_complete, is_output_end, is_output_start, is_unframed, LineKind,
};
use crate::supervisor::{Notice, SupervisorState};

verus! {

/// How often readiness is announced in a list of notices.
pub open spec fn ready_count(notices: Seq<Notice>) -> nat {
    notices.filter(|notice: Notice| notice is Ready).len()
}

/// The first position in `lines` of a line that `wanted` holds of.
pub open spec fn first_where(lines: Seq<Seq<char>>, wanted: spec_fn(Seq<char>) -> bool) -> Option<
    int,
>
    decreases lines.len(),
{
    if lines.len() == 0 {
        None
    } else {
        match first_where(lines.drop_last(), wanted) {
            Some(at) => Some(at),
            None => if wanted(lines.last()) {
                Some(lines.len() - 1)
            } else {
                None
            },
        }
    }
}

/// `first_where` finds a line that `wanted` holds of, with none before it,
/// or there is no such line.
pub proof fn lemma_first_where(lines: Seq<Seq<char>>, wanted: spec_fn(Seq<char>) -> bool)
    ensures
        first_where(lines, wanted) matches Some(at) ==> 0 <= at < lines.len() && wanted(lines[at])
            && forall|before: int| 0 <= before < at ==> !wanted(#[trigger] lines[before]),
        first_where(lines, wanted) is None ==> forall|at: int|
            0 <= at < lines.len() ==> !wanted(#[trigger] lines[at]),
    decreases lines.len(),
{
    if lines.len() > 0 {
        lemma_first_where(lines.drop_last(), wanted);
        assert forall|at: int| 0 <= at < lines.len() - 1 implies lines.drop_last()[at]
            == lines[at] by {}
    }
}

/// A session survives output, and the buffer of a command that was just
/// accepted is decided by the lines alone: it holds them all, remembers
/// the first start marker line and the first end marker line, and is
/// complete once a completion line was among them.
pub proof fn lemma_buffer_after_lines<H>(state: SupervisorState<H>, lines: Seq<Seq<char>>)
    requires
        state.process is Some,
        state.current == PendingCommand::empty(),
    ensures
        state.after_lines(lines).process is Some,
        state.after_lines(lines).process->0.command == state.process->0.command,
        state.after_lines(lines).current.lines == lines,
        state.after_lines(lines).current.start == first_where(
            lines,
            |line: Seq<char>| is_output_start(line),
        ),
        state.after_lines(lines).current.end == first_where(
            lines,
            |line: Seq<char>| is_output_end(line),
        ),
        state.after_lines(lines).current.complete <==> exists|at: int|
            0 <= at < lines.len() && is_command_complete(#[trigger] lines[at]),
        state.after_lines(lines).current.wf(),
    decreases lines.len(),
{
    if lines.len() > 0 {
        let front = lines.drop_last();
        lemma_buffer_after_lines(state, front);
        let before = state.after_lines(front);
        assert(before.current.lines.push(lines.last()) == lines);
        lemma_first_where(front, |line: Seq<char>| is_output_start(line));
        lemma_first_where(front, |line: Seq<char>| is_output_end(line));
        if before.current.complete {
            let at = choose|at: int| 0 <= at < front.len() && is_command_complete(#[trigger] front[at]);
            assert(is_command_complete(lines[at]));
        } else if is_command_complete(lines.last()) {
            assert(is_command_complete(lines[lines.len() - 1]));
        } else {
            assert forall|at: int| 0 <= at < lines.len() implies !is_command_complete(
                #[trigger] lines[at],
            ) by {
                if at < front.len() {
                    assert(front[at] == lines[at]);
                }
            }
        }
    } else {
        assert(state.after_lines(lines).current.lines =~= lines);
    }
}

/// Readiness is announced at most once per session and never taken back.
/// Over any run of output, a session that was not ready is ready at the
/// end exactly if readiness was announced, which then happened once; until
/// then every command is refused with `NotReady`. A session that was ready
/// stays ready, and nothing is announced again.
pub proof fn law_ready_announced_once<H>(state: SupervisorState<H>, lines: Seq<Seq<char>>)
    requires
        state.process is Some,
    ensures
        state.after_lines(lines).process is Some,
        state.process->0.ready ==> state.after_lines(lines).process->0.ready && ready_count(
            state.lines_notices(lines),
        ) == 0,
        !state.process->0.ready ==> ready_count(state.lines_notices(lines)) == (if state.after_lines(
            lines,
        ).process->0.ready {
            1nat
        } else {
            0nat
        }),
        ready_count(state.lines_notices(lines)) == 0 && !state.process->0.ready
            ==> state.after_lines(lines).refusal() == Some(CliError::NotReady),
    decreases lines.len(),
{
    let is_ready = |notice: Notice| notice is Ready;
    if lines.len() == 0 {
        assert(state.lines_notices(lines).filter(is_ready).len() == 0) by {
            state.lines_notices(lines).lemma_filter_len(is_ready);
        }
    } else {
        let front = lines.drop_last();
        law_ready_announced_once(state, front);
        let before = state.after_lines(front);
        let earlier = state.lines_notices(front);
        let now = before.line_notices(lines.last());
        Seq::filter_distributes_over_add(earlier, now, is_ready);
        let kind = classify_line(lines.last(), before.process->0.ready);
        assert(now.filter(is_ready).len() == (if kind == LineKind::Ready {
            1nat
        } else {
            0nat
        })) by {
            reveal_with_fuel(Seq::filter, 3);
            let change = match kind {
                LineKind::Ready => seq![Notice::Ready],
                LineKind::CommandComplete => seq![Notice::CommandComplete],
                _ => Seq::<Notice>::empty(),
            };
            if now != change {
                assert(now == change.push(Notice::Output(lines.last())));
                change.lemma_filter_push(Notice::Output(lines.last()), is_ready);
            }
            assert(change.filter(is_ready).len() == (if kind == LineKind::Ready {
                1nat
            } else {
                0nat
            })) by {
                if kind == LineKind::Ready {
                    assert(change == Seq::<Notice>::empty().push(Notice::Ready));
                    Seq::<Notice>::empty().lemma_filter_push(Notice::Ready, is_ready);
                } else if kind == LineKind::CommandComplete {
                    assert(change == Seq::<Notice>::empty().push(Notice::CommandComplete));
                    Seq::<Notice>::empty().lemma_filter_push(Notice::CommandComplete, is_ready);
                }
            }
        }
    }
}

/// No step takes readiness back: a ready session is ready after a line
/// of output, after a command was accepted, and after it was written.
pub proof fn law_ready_never_reverts<H>(state: SupervisorState<H>, line: Seq<char>)
    requires
        state.process matches Some(cli) && cli.ready,
    ensures
        state.after_line(line).process matches Some(cli) && cli.ready,
        state.after_accept().process matches Some(cli) && cli.ready,
        state.after_write().process matches Some(cli) && cli.ready,
{
}

/// While a command is in flight no second one is taken. After a command
/// was accepted and written, and over any output that holds no completion
/// line, a further command is refused with `Busy`; the first completion
/// line ends that.
pub proof fn law_one_command_in_flight<H>(
    state: SupervisorState<H>,
    lines: Seq<Seq<char>>,
    done: Seq<char>,
)
    requires
        state.refusal() is None,
        forall|at: int| 0 <= at < lines.len() ==> !is_command_complete(#[trigger] lines[at]),
        is_command_complete(done),
    ensures
        state.after_accept().after_write().after_lines(lines).refusal() == Some(CliError::Busy),
        state.after_accept().after_write().after_lines(lines).after_line(done).refusal() is None,
{
    let sent = state.after_accept().after_write();
    lemma_busy_until_complete(sent, lines);
}

/// A ready session with a process handle that is busy stays so over
/// output that holds no completion line.
proof fn lemma_busy_until_complete<H>(state: SupervisorState<H>, lines: Seq<Seq<char>>)
    requires
        state.process matches Some(cli) && cli.ready && cli.processing_command && cli.command
            is Some,
        forall|at: int| 0 <= at < lines.len() ==> !is_command_complete(#[trigger] lines[at]),
    ensures
        state.after_lines(lines).process matches Some(cli) && cli.ready && cli.processing_command
            && cli.command is Some,
    decreases lines.len(),
{
    if lines.len() > 0 {
        let front = lines.drop_last();
        assert forall|at: int| 0 <= at < front.len() implies !is_command_complete(
            #[trigger] front[at],
        ) by {
            assert(front[at] == lines[at]);
        }
        lemma_busy_until_complete(state, front);
        assert(!is_command_complete(lines[lines.len() - 1]));
    }
}

/// Stopping twice is stopping once, and stopping without a session
/// changes nothing.
pub proof fn law_stop_idempotent<H>(state: SupervisorState<H>)
    ensures
        state.after_stop().after_stop() == state.after_stop(),
        state.process is None ==> state.after_stop() == state,
{
}

/// A well-framed response is its content. When a command was accepted and
/// written, and the tool then writes lines that hold no marker, a start
/// marker line, content lines that hold no marker, an end marker line,
/// lines that do not report completion, and a completion line, the
/// command is complete with the last line and not before, and its
/// response is the content: trimmed, without blank lines, log lines and
/// progress messages, joined by line breaks.
pub proof fn law_framed_response<H>(
    state: SupervisorState<H>,
    before: Seq<Seq<char>>,
    start: Seq<char>,
    content: Seq<Seq<char>>,
    end: Seq<char>,
    after: Seq<Seq<char>>,
    done: Seq<char>,
)
    requires
        state.refusal() is None,
        forall|at: int| 0 <= at < before.len() ==> is_unframed(#[trigger] before[at]),
        is_output_start(start),
        forall|at: int| 0 <= at < content.len() ==> is_unframed(#[trigger] content[at]),
        is_output_end(end),
        forall|at: int| 0 <= at < after.len() ==> !is_command_complete(#[trigger] after[at]),
        is_command_complete(done),
    ensures
        ({
            let sent = state.after_accept().after_write();
            let lines = before + seq![start] + content + seq![end] + after + seq![done];
            &&& sent.after_lines(lines).current.complete
            &&& sent.after_lines(lines).current.response() == join_lines(presentable(content))
            &&& forall|seen: int|
                0 <= seen < lines.len() ==> !(#[trigger] sent.after_lines(
                    lines.take(seen),
                )).current.complete
        }),
{
    let sent = state.after_accept().after_write();
    let lines = before + seq![start] + content + seq![end] + after + seq![done];
    let starts = |line: Seq<char>| is_output_start(line);
    let ends = |line: Seq<char>| is_output_end(line);
    let first = before.len() as int;
    let second = first + 1 + content.len();
    let last = lines.len() - 1;
    assert forall|at: int| 0 <= at < first implies lines[at] == before[at] by {}
    assert(lines[first] == start);
    assert forall|at: int| first < at < second implies lines[at] == content[at - first - 1] by {}
    assert(lines[second] == end);
    assert forall|at: int| second < at < last implies lines[at] == after[at - second - 1] by {}
    assert(lines[last] == done);
    lemma_buffer_after_lines(sent, lines);
    lemma_first_where(lines, starts);
    lemma_first_where(lines, ends);
    let buffer = sent.after_lines(lines).current;
    assert(buffer.start == Some(first)) by {
        assert(starts(lines[first]));
        assert forall|at: int| 0 <= at < first implies !starts(#[trigger] lines[at]) by {
            assert(is_unframed(before[at]));
        }
    }
    assert(buffer.end == Some(second)) by {
        assert(ends(lines[second]));
        assert forall|at: int| 0 <= at < second implies !ends(#[trigger] lines[at]) by {
            if at < first {
                assert(is_unframed(before[at]));
            } else if at > first {
                assert(is_unframed(content[at - first - 1]));
            }
        }
    }
    assert(is_command_complete(lines[last]));
    assert(buffer.selected() == content);
    assert forall|seen: int| 0 <= seen < lines.len() implies !(#[trigger] sent.after_lines(
        lines.take(seen),
    )).current.complete by {
        let front = lines.take(seen);
        lemma_buffer_after_lines(sent, front);
        assert forall|at: int| 0 <= at < front.len() implies !is_command_complete(
            #[trigger] front[at],
        ) by {
            assert(front[at] == lines[at]);
            if at < first {
                assert(is_unframed(before[at]));
            } else if first < at < second {
                assert(is_unframed(content[at - first - 1]));
            } else if second < at {
                assert(!is_command_complete(after[at - second - 1]));
            }
        }
    }
}

/// Without a frame the response is the whole buffer. When a command was
/// accepted and the output since holds no start marker line, or no end
/// marker line, or an end marker line with no start marker line before
/// it, the response is made from every line captured: trimmed, without
/// blank lines, log lines and progress messages, joined by line breaks.
pub proof fn law_unframed_response<H>(state: SupervisorState<H>, lines: Seq<Seq<char>>)
    requires
        state.refusal() is None,
        ({
            ||| forall|at: int| 0 <= at < lines.len() ==> !is_output_start(#[trigger] lines[at])
            ||| forall|at: int| 0 <= at < lines.len() ==> !is_output_end(#[trigger] lines[at])
            ||| exists|end: int|
                0 <= end < lines.len() && is_output_end(#[trigger] lines[end]) && forall|at: int|
                    0 <= at < end ==> !is_output_start(#[trigger] lines[at])
        }),
    ensures
        state.after_accept().after_write().after_lines(lines).current.response() == join_lines(
            presentable(lines),
        ),
{
    let sent = state.after_accept().after_write();
    let starts = |line: Seq<char>| is_output_start(line);
    let ends = |line: Seq<char>| is_output_end(line);
    lemma_buffer_after_lines(sent, lines);
    lemma_first_where(lines, starts);
    lemma_first_where(lines, ends);
    let buffer = sent.after_lines(lines).current;
    if buffer.start is Some && buffer.end is Some {
        let first_start = buffer.start->0;
        let first_end = buffer.end->0;
        assert(starts(lines[first_start]));
        assert(ends(lines[first_end]));
        let end = choose|end: int|
            0 <= end < lines.len() && is_output_end(#[trigger] lines[end]) && forall|at: int|
                0 <= at < end ==> !is_output_start(#[trigger] lines[at]);
        assert(first_end <= end) by {
            if end < first_end {
                assert(!ends(lines[end]));
            }
        }
        assert(first_start >= first_end) by {
            if first_start < first_end {
                assert(!is_output_start(lines[first_start]));
            }
        }
    }
}

} // verus!
