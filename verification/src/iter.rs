//! The character/event merge state machine.
//!
//! A [`ParseIter`] owns a scope stack that persists across lines and, per
//! submitted line, the line's bytes and its tokenizer events. It exposes a
//! pull protocol: the caller submits one line, then requests one annotated
//! character at a time until the line is exhausted, at which point the
//! iterator again awaits a line.
//!
//! Boundary rule: an event queued at byte offset `e` is applied to the scope
//! stack before the character at index `e` is emitted, so the character at a
//! scope transition already carries the new scope.

use vstd::prelude::*;
use vstd::string::StrSliceExecFns;
use vstd::string::StringSliceAdditionalSpecFns;
use vstd::utf8::valid_utf8;

use syntect::parsing::{ParseState, Scope, SyntaxSet};

use crate::scope_stack::{stack_after, top_of, ScopeStack, StackView};
use crate::tokenizer;

verus! {

/// The line-terminator byte (`\n`). Emitting it puts the iterator back into
/// the awaiting-line state.
pub const NEWLINE: u8 = 10;

/// One tokenizer event for the current line: apply `op` to the scope stack
/// when the read cursor reaches byte `offset` of the line.
#[derive(Clone, Copy)]
pub struct LineEvent {
    pub offset: usize,
    pub op: crate::scope_stack::ScopeOperation,
}

/// The mathematical model of a [`ParseIter`].
#[verifier::ext_equal]
pub ghost struct IterView {
    /// True while the iterator awaits a line; false while one is being read.
    pub wants_next_line: bool,
    /// The current line's raw bytes.
    pub line: Seq<u8>,
    /// The current line's tokenizer events, in the order they were reported.
    pub events: Seq<LineEvent>,
    /// The index of the next byte to emit.
    pub cursor: int,
    /// The index of the first event not yet applied.
    pub next_event: int,
    /// The persistent stack of active scopes.
    pub stack: StackView,
}

/// The two cursors stay within the line and its event list.
pub open spec fn wf(m: IterView) -> bool {
    &&& 0 <= m.cursor <= m.line.len()
    &&& 0 <= m.next_event <= m.events.len()
}

/// The event cursor after applying, starting at index `j`, every consecutive
/// event whose offset has been reached by the byte cursor `c`.
pub open spec fn ready(events: Seq<LineEvent>, j: int, c: int) -> int
    decreases events.len() - j,
{
    if 0 <= j < events.len() && events[j].offset <= c {
        ready(events, j + 1, c)
    } else {
        j
    }
}

/// The stack after applying the events at indices `j0 <= k < j1`, in order.
pub open spec fn apply_range(v: StackView, events: Seq<LineEvent>, j0: int, j1: int) -> StackView
    decreases j1 - j0,
{
    if j0 < j1 {
        apply_range(stack_after(v, events[j0].op), events, j0 + 1, j1)
    } else {
        v
    }
}

/// One `next` call, seen on the model: apply every queued event whose offset
/// has been reached, advance the byte cursor past the emitted byte, and fall
/// back to awaiting a line when that byte is the terminator.
pub open spec fn step(m: IterView) -> IterView {
    let j1 = ready(m.events, m.next_event, m.cursor);
    IterView {
        wants_next_line: m.line[m.cursor] == NEWLINE,
        line: m.line,
        events: m.events,
        cursor: m.cursor + 1,
        next_event: j1,
        stack: apply_range(m.stack, m.events, m.next_event, j1),
    }
}

/// `n` consecutive `next` calls, seen on the model.
pub open spec fn run(m: IterView, n: nat) -> IterView
    decreases n,
{
    if n == 0 {
        m
    } else {
        step(run(m, (n - 1) as nat))
    }
}

/// Why a line submission failed. Either way the iterator still awaits a
/// line, unchanged, and the caller may retry or abort.
#[derive(Clone, Copy, PartialEq, Eq, Structural, Debug)]
pub enum SubmitError {
    /// The submitted bytes are not valid UTF-8.
    Encoding,
    /// The tokenizer failed on well-formed text.
    Tokenize,
}

/// A byte of the document paired with the scope that was innermost when it
/// was read, or none if no scope was active.
#[derive(Clone, Copy)]
pub struct ParseChar {
    byte: u8,
    scope: Option<Scope>,
}

impl ParseChar {
    /// The byte value.
    pub closed spec fn spec_byte(&self) -> u8 {
        self.byte
    }

    /// The innermost active scope at this byte's position.
    pub closed spec fn spec_scope(&self) -> Option<Scope> {
        self.scope
    }

    /// Reads the byte value.
    pub fn get_char(&self) -> (b: u8)
        ensures
            b == self.spec_byte(),
    {
        self.byte
    }

    /// Reads the active scope, or none.
    pub fn get_scope(&self) -> (s: Option<Scope>)
        ensures
            s == self.spec_scope(),
    {
        self.scope
    }

    /// Copies as much of the active scope's dotted name as fits into `buf`
    /// and returns the name's full byte length, so a caller may first ask
    /// with an empty buffer to learn the required size and then retry with a
    /// large enough one. Without an active scope the result is zero and the
    /// buffer is untouched.
    pub fn read_scope_name(&self, buf: &mut Vec<u8>) -> (n: usize)
        ensures
            final(buf)@.len() == old(buf)@.len(),
            self.spec_scope() is None ==> n == 0 && final(buf)@ == old(buf)@,
    {
        match &self.scope {
            Some(s) => {
                let name = tokenizer::scope_name(s);
                fill_prefix(name.as_str().as_bytes(), buf)
            },
            None => 0,
        }
    }
}

/// Copies the longest prefix of `src` that fits into `buf`, leaves the rest
/// of `buf` as it was, and reports `src`'s full length.
pub fn fill_prefix(src: &[u8], buf: &mut Vec<u8>) -> (n: usize)
    ensures
        n == src@.len(),
        final(buf)@.len() == old(buf)@.len(),
        forall|i: int|
            0 <= i < old(buf)@.len() ==> final(buf)@[i] == if i < src@.len() {
                src@[i]
            } else {
                old(buf)@[i]
            },
{
    let mut i: usize = 0;
    while i < src.len() && i < buf.len()
        invariant
            i <= src@.len(),
            i <= buf@.len(),
            buf@.len() == old(buf)@.len(),
            forall|k: int| 0 <= k < i ==> buf@[k] == src@[k],
            forall|k: int| i <= k < buf@.len() ==> buf@[k] == old(buf)@[k],
        decreases src@.len() - i,
    {
        buf.set(i, src[i]);
        i += 1;
    }
    src.len()
}

/// The core iterator: a persistent scope stack, the current line's bytes and
/// events, and the two cursors that merge them.
pub struct ParseIter {
    syntax_set: SyntaxSet,
    parse_state: ParseState,
    wants_next_line: bool,
    state: ScopeStack,
    line: Vec<u8>,
    events: Vec<LineEvent>,
    cursor: usize,
    next_event: usize,
}

impl View for ParseIter {
    type V = IterView;

    closed spec fn view(&self) -> IterView {
        IterView {
            wants_next_line: self.wants_next_line,
            line: self.line@,
            events: self.events@,
            cursor: self.cursor as int,
            next_event: self.next_event as int,
            stack: self.state@,
        }
    }
}

impl ParseIter {
    /// A fresh iterator over one document: empty scope stack, no line yet,
    /// awaiting the first one.
    pub fn init(syntax_set: SyntaxSet, parse_state: ParseState) -> (r: Option<ParseIter>)
        ensures
            r is Some,
            r.unwrap()@.wants_next_line,
            r.unwrap()@.line == Seq::<u8>::empty(),
            r.unwrap()@.events == Seq::<LineEvent>::empty(),
            r.unwrap()@.cursor == 0,
            r.unwrap()@.next_event == 0,
            r.unwrap()@.stack.scopes == Seq::<Scope>::empty(),
            r.unwrap()@.stack.cleared == Seq::<Seq<Scope>>::empty(),
            wf(r.unwrap()@),
    {
        let it = ParseIter {
            syntax_set,
            parse_state,
            wants_next_line: true,
            state: ScopeStack::new(),
            line: Vec::new(),
            events: Vec::new(),
            cursor: 0,
            next_event: 0,
        };
        proof {
            assert(it@.line =~= Seq::<u8>::empty());
            assert(it@.events =~= Seq::<LineEvent>::empty());
        }
        Some(it)
    }

    /// True iff the iterator awaits a line.
    pub fn wants_next_line(&self) -> (b: bool)
        ensures
            b == self@.wants_next_line,
    {
        self.wants_next_line
    }

    /// How many bytes of the current line are still to be emitted.
    pub fn remaining_in_line(&self) -> (n: usize)
        ensures
            n == if self@.cursor <= self@.line.len() {
                self@.line.len() - self@.cursor
            } else {
                0
            },
    {
        if self.cursor <= self.line.len() {
            self.line.len() - self.cursor
        } else {
            0
        }
    }

    /// Submits one line of text. On success the tokenizer's events for it are
    /// queued, both cursors are reset, the scope stack is carried over
    /// unchanged, and the iterator stops awaiting a line. On a tokenizer
    /// failure it reports `false` and keeps awaiting a line, unchanged.
    pub fn add_line(&mut self, line: &str) -> (ok: bool)
        requires
            old(self)@.wants_next_line,
            wf(old(self)@),
        ensures
            wf(final(self)@),
            final(self)@.stack == old(self)@.stack,
            ok ==> final(self)@ == (IterView {
                wants_next_line: false,
                line: line.spec_bytes(),
                events: final(self)@.events,
                cursor: 0,
                next_event: 0,
                stack: old(self)@.stack,
            }),
            !ok ==> final(self)@ == old(self)@,
    {
        let events = match tokenizer::tokenize_line(
            &mut self.parse_state,
            line,
            &self.syntax_set,
        ) {
            Ok(v) => v,
            Err(_) => {
                proof {
                    assert(final(self)@ =~= old(self)@);
                }
                return false;
            },
        };
        self.wants_next_line = false;
        self.line = line.as_bytes_vec();
        self.events = events;
        self.cursor = 0;
        self.next_event = 0;
        true
    }

    /// Submits one line given as raw bytes. The bytes must decode as text:
    /// on other bytes the submission fails with `Encoding` and nothing
    /// changes. A tokenizer failure is `Tokenize`, again changing nothing;
    /// either way the iterator still awaits a line and the caller may retry.
    pub fn submit_line(&mut self, line: &[u8]) -> (r: Result<(), SubmitError>)
        requires
            old(self)@.wants_next_line,
            wf(old(self)@),
        ensures
            wf(final(self)@),
            final(self)@.stack == old(self)@.stack,
            r == Err::<(), SubmitError>(SubmitError::Encoding) <==> !valid_utf8(line@),
            r is Ok ==> final(self)@ == (IterView {
                wants_next_line: false,
                line: line@,
                events: final(self)@.events,
                cursor: 0,
                next_event: 0,
                stack: old(self)@.stack,
            }),
            r is Err ==> final(self)@ == old(self)@,
    {
        let text = match tokenizer::decode_line(line) {
            Some(t) => t,
            None => {
                proof {
                    assert(final(self)@ =~= old(self)@);
                }
                return Err(SubmitError::Encoding);
            },
        };
        let events = match tokenizer::tokenize_line(
            &mut self.parse_state,
            text,
            &self.syntax_set,
        ) {
            Ok(v) => v,
            Err(_) => {
                proof {
                    assert(final(self)@ =~= old(self)@);
                }
                return Err(SubmitError::Tokenize);
            },
        };
        self.wants_next_line = false;
        self.line = vstd::slice::slice_to_vec(line);
        self.events = events;
        self.cursor = 0;
        self.next_event = 0;
        Ok(())
    }

    /// Emits the byte at the cursor together with the scope that is
    /// innermost once every event queued at an offset the cursor has reached
    /// is applied, in order. Emitting the line terminator puts the iterator
    /// back into the awaiting-line state. Calling this while the iterator
    /// awaits a line, or after a line without terminator is exhausted, is a
    /// protocol violation, excluded by contract.
    pub fn next(&mut self) -> (r: Option<ParseChar>)
        requires
            wf(old(self)@),
            !old(self)@.wants_next_line,
            old(self)@.cursor < old(self)@.line.len(),
        ensures
            wf(final(self)@),
            final(self)@ == step(old(self)@),
            r is Some,
            r.unwrap().spec_byte() == old(self)@.line[old(self)@.cursor],
            r.unwrap().spec_scope() == top_of(final(self)@.stack),
    {
        let b = self.line[self.cursor];
        let ghost m0 = self@;
        while self.next_event < self.events.len() && self.events[self.next_event].offset
            <= self.cursor
            invariant
                m0.next_event <= self.next_event as int <= self.events@.len(),
                self.line@ == m0.line,
                self.events@ == m0.events,
                self.cursor as int == m0.cursor,
                self.wants_next_line == m0.wants_next_line,
                self.state@ == apply_range(m0.stack, m0.events, m0.next_event, self.next_event as int),
                ready(m0.events, self.next_event as int, m0.cursor) == ready(
                    m0.events,
                    m0.next_event,
                    m0.cursor,
                ),
            decreases self.events@.len() - self.next_event,
        {
            let op = self.events[self.next_event].op;
            let ghost j = self.next_event as int;
            let _ = self.state.apply(&op);
            self.next_event = self.next_event + 1;
            proof {
                lemma_apply_range_snoc(m0.stack, m0.events, m0.next_event, j);
            }
        }
        proof {
            assert(ready(m0.events, self.next_event as int, m0.cursor) == self.next_event as int);
            assert(self.line@.len() <= usize::MAX) by {
                vstd::std_specs::vec::axiom_spec_len(&self.line);
            }
        }
        self.cursor = self.cursor + 1;
        if b == NEWLINE {
            self.wants_next_line = true;
        }
        let c = ParseChar { byte: b, scope: self.state.top() };
        proof {
            assert(final(self)@ =~= step(m0));
        }
        Some(c)
    }
}

/// Applying one more event is one more `stack_after` on the result.
proof fn lemma_apply_range_snoc(v: StackView, events: Seq<LineEvent>, j0: int, j1: int)
    requires
        j0 <= j1,
    ensures
        apply_range(v, events, j0, j1 + 1) == stack_after(
            apply_range(v, events, j0, j1),
            events[j1].op,
        ),
    decreases j1 - j0,
{
    if j0 < j1 {
        lemma_apply_range_snoc(stack_after(v, events[j0].op), events, j0 + 1, j1);
    } else {
        assert(apply_range(v, events, j0, j1 + 1) == stack_after(
            apply_range(v, events, j0, j1),
            events[j1].op,
        )) by {
            reveal_with_fuel(apply_range, 3);
        }
    }
}

} // verus!
