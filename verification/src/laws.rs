//! Proof functions stating the library-wide laws of the merge state machine.
//!
//! Each law is stated over [`IterView`], the model of a [`ParseIter`]
//! (`crate::iter::ParseIter`), and the model-level step function that
//! `ParseIter::next` is proved to implement: `next`'s contract says the
//! iterator after the call is `step` of the iterator before it, so a chain of
//! `n` calls is `run(m, n)` on the model.

use vstd::prelude::*;

use crate::iter::{apply_range, ready, run, step, wf, IterView, LineEvent, NEWLINE};
use crate::scope_stack::StackView;

verus! {

/// Event offsets are in non-decreasing order, as the tokenizer reports them.
pub open spec fn sorted_events(events: Seq<LineEvent>) -> bool {
    forall|i: int, j: int|
        0 <= i <= j < events.len() ==> #[trigger] events[i].offset <= #[trigger] events[j].offset
}

/// A line was just installed: both cursors at zero.
pub open spec fn fresh_line(m: IterView) -> bool {
    &&& wf(m)
    &&& m.cursor == 0
    &&& m.next_event == 0
}

/// The bytes the first `n` calls of `next` emit, in order.
pub open spec fn emitted_bytes(m: IterView, n: nat) -> Seq<u8> {
    Seq::new(n, |i: int| run(m, i as nat).line[run(m, i as nat).cursor])
}

/// The scope the call that emits byte `i` reports: the stack's top after
/// that call.
pub open spec fn emitted_scope(m: IterView, i: int) -> Option<syntect::parsing::Scope> {
    crate::scope_stack::top_of(run(m, (i + 1) as nat).stack)
}

/// What one consecutive stretch of applied events looks like.
proof fn lemma_ready_props(events: Seq<LineEvent>, j: int, c: int)
    requires
        0 <= j <= events.len(),
    ensures
        j <= ready(events, j, c) <= events.len(),
        forall|k: int| j <= k < ready(events, j, c) ==> #[trigger] events[k].offset <= c,
        ready(events, j, c) == events.len() || events[ready(events, j, c)].offset > c,
    decreases events.len() - j,
{
    if j < events.len() && events[j].offset <= c {
        lemma_ready_props(events, j + 1, c);
    }
}

/// Applying a range of events in two stretches is applying it in one.
proof fn lemma_apply_range_concat(v: StackView, events: Seq<LineEvent>, a: int, b: int, c: int)
    requires
        a <= b <= c,
    ensures
        apply_range(apply_range(v, events, a, b), events, b, c) == apply_range(v, events, a, c),
    decreases b - a,
{
    if a < b {
        lemma_apply_range_concat(
            crate::scope_stack::stack_after(v, events[a].op),
            events,
            a + 1,
            b,
            c,
        );
    }
}

/// The running state of the merge after `n` calls on a fresh line: the byte
/// cursor has advanced by `n`, the events applied so far are exactly a
/// prefix, every applied event's offset lay at or before the last emitted
/// byte's index, and the first unapplied event's offset lies beyond it.
proof fn lemma_run_merge(m0: IterView, n: int)
    requires
        fresh_line(m0),
        0 <= n <= m0.line.len(),
    ensures
        ({
            let m = run(m0, n as nat);
            &&& m.line == m0.line
            &&& m.events == m0.events
            &&& m.cursor == n
            &&& 0 <= m.next_event <= m0.events.len()
            &&& m.stack == apply_range(m0.stack, m0.events, 0, m.next_event)
            &&& (forall|k: int| 0 <= k < m.next_event ==> #[trigger] m0.events[k].offset <= n - 1)
            &&& (m.next_event == m0.events.len() || m0.events[m.next_event].offset > n - 1)
        }),
    decreases n,
{
    if n == 0 {
        assert(run(m0, 0) == m0);
    } else {
        lemma_run_merge(m0, n - 1);
        let m1 = run(m0, (n - 1) as nat);
        let m2 = run(m0, n as nat);
        assert(m2 == step(m1));
        lemma_ready_props(m1.events, m1.next_event, m1.cursor);
        lemma_apply_range_concat(m0.stack, m0.events, 0, m1.next_event, m2.next_event);
    }
}

/// For any grammar and submitted line whose event offsets are in order, the
/// scope emitted at each byte index `i` is the state of the scope stack
/// after applying, in order, exactly those events whose offset is at most
/// `i` — an event at offset `e` takes effect before the byte at index `e` is
/// emitted. The events applied by the first `i + 1` calls are precisely the
/// prefix `m0.events.take(j)` characterized below.
pub proof fn lemma_scope_at_index(m0: IterView, i: int)
    requires
        fresh_line(m0),
        sorted_events(m0.events),
        0 <= i < m0.line.len(),
    ensures
        ({
            let j = run(m0, (i + 1) as nat).next_event;
            &&& 0 <= j <= m0.events.len()
            &&& (forall|k: int| 0 <= k < j ==> #[trigger] m0.events[k].offset <= i)
            &&& (forall|k: int| j <= k < m0.events.len() ==> #[trigger] m0.events[k].offset > i)
            &&& run(m0, (i + 1) as nat).stack == apply_range(m0.stack, m0.events, 0, j)
            &&& emitted_scope(m0, i) == crate::scope_stack::top_of(
                apply_range(m0.stack, m0.events, 0, j),
            )
        }),
{
    lemma_run_merge(m0, i + 1);
    let j = run(m0, (i + 1) as nat).next_event;
    assert forall|k: int| j <= k < m0.events.len() implies #[trigger] m0.events[k].offset
        > i by {
        assert(m0.events[j].offset <= m0.events[k].offset);
    }
}

/// The iterator asks for a line exactly when it should: a successful
/// submission leaves it reading, each call before the line's terminator
/// keeps it reading, and the call that emits the final terminator byte puts
/// it back into the awaiting state, so that one further call would violate
/// `next`'s precondition — the protocol's contract violation.
pub proof fn lemma_line_drain(m0: IterView)
    requires
        fresh_line(m0),
        !m0.wants_next_line,
        m0.line.len() > 0,
        m0.line.last() == NEWLINE,
        forall|k: int| 0 <= k < m0.line.len() - 1 ==> m0.line[k] != NEWLINE,
    ensures
        forall|k: int|
            0 <= k < m0.line.len() ==> wf(#[trigger] run(m0, k as nat)) && !run(
                m0,
                k as nat,
            ).wants_next_line && run(m0, k as nat).cursor == k,
        run(m0, m0.line.len() as nat).wants_next_line,
        run(m0, m0.line.len() as nat).cursor == m0.line.len(),
{
    assert forall|k: int| 0 <= k <= m0.line.len() implies wf(#[trigger] run(m0, k as nat)) && run(
        m0,
        k as nat,
    ).cursor == k && run(m0, k as nat).line == m0.line by {
        lemma_run_merge(m0, k);
    }
    assert forall|k: int| 0 <= k < m0.line.len() implies !(#[trigger] run(
        m0,
        k as nat,
    )).wants_next_line by {
        if k > 0 {
            lemma_run_merge(m0, k - 1);
            assert(run(m0, k as nat) == step(run(m0, (k - 1) as nat)));
            assert(m0.line[k - 1] != NEWLINE);
        }
    }
    let len = m0.line.len() as int;
    lemma_run_merge(m0, len - 1);
    assert(run(m0, len as nat) == step(run(m0, (len - 1) as nat)));
    assert(m0.line[len - 1] == NEWLINE);
}

/// Draining a freshly submitted line emits exactly the line's bytes, in
/// order.
pub proof fn lemma_emitted_bytes(m0: IterView)
    requires
        fresh_line(m0),
    ensures
        emitted_bytes(m0, m0.line.len() as nat) == m0.line,
{
    assert forall|i: int| 0 <= i < m0.line.len() implies emitted_bytes(
        m0,
        m0.line.len() as nat,
    )[i] == m0.line[i] by {
        lemma_run_merge(m0, i);
    }
    assert(emitted_bytes(m0, m0.line.len() as nat) =~= m0.line);
}

/// All the submitted lines of a document, in order, as one byte sequence.
pub open spec fn concat_lines(lines: Seq<Seq<u8>>) -> Seq<u8>
    decreases lines.len(),
{
    if lines.len() == 0 {
        Seq::empty()
    } else {
        lines.first() + concat_lines(lines.drop_first())
    }
}

/// A successful line submission, seen on the model: the line and its events
/// are installed, the cursors reset, the scope stack carried over. This is
/// what `ParseIter::add_line` and `ParseIter::submit_line` ensure on
/// success.
pub open spec fn submitted(m: IterView, line: Seq<u8>, events: Seq<LineEvent>) -> IterView {
    IterView {
        wants_next_line: false,
        line: line,
        events: events,
        cursor: 0,
        next_event: 0,
        stack: m.stack,
    }
}

/// The bytes a whole document's run emits: submit each line in turn,
/// whatever events the tokenizer reports for it, and drain it fully.
pub open spec fn document_bytes(
    m: IterView,
    lines: Seq<Seq<u8>>,
    events: Seq<Seq<LineEvent>>,
) -> Seq<u8>
    decreases lines.len(),
{
    if lines.len() == 0 {
        Seq::empty()
    } else {
        let m1 = submitted(m, lines.first(), events.first());
        emitted_bytes(m1, lines.first().len()) + document_bytes(
            run(m1, lines.first().len()),
            lines.drop_first(),
            events.drop_first(),
        )
    }
}

/// The concatenation, in order, of all bytes emitted across a whole
/// document equals the concatenation of all submitted lines — whatever
/// events the tokenizer reported for each line.
pub proof fn lemma_document_bytes(m: IterView, lines: Seq<Seq<u8>>, events: Seq<Seq<LineEvent>>)
    ensures
        document_bytes(m, lines, events) == concat_lines(lines),
    decreases lines.len(),
{
    if lines.len() > 0 {
        let m1 = submitted(m, lines.first(), events.first());
        lemma_emitted_bytes(m1);
        lemma_document_bytes(run(m1, lines.first().len()), lines.drop_first(), events.drop_first());
    }
}

} // verus!
