//! The nested stack of currently active highlighting scopes, and the
//! operations a grammar applies to it.

use vstd::prelude::*;

use syntect::parsing::{ClearAmount, Scope, ScopeStackOp};

verus! {

/// A change to apply to a [`ScopeStack`].
///
/// `Push` and `Pop` are the primitives. A grammar's clear-scopes feature is
/// expressed through the same stack discipline: `ClearTopN` and `ClearAll`
/// pop a group of scopes and set the group aside, and `Restore` pushes the
/// most recently set-aside group back, in its original order.
#[derive(Clone, Copy)]
pub enum ScopeOperation {
    Push(Scope),
    Pop(usize),
    ClearTopN(usize),
    ClearAll,
    Restore,
    Noop,
}

/// The library's reading of a raw tokenizer operation.
pub open spec fn op_model(op: ScopeStackOp) -> ScopeOperation {
    match op {
        ScopeStackOp::Push(s) => ScopeOperation::Push(s),
        ScopeStackOp::Pop(n) => ScopeOperation::Pop(n),
        ScopeStackOp::Clear(ClearAmount::TopN(n)) => ScopeOperation::ClearTopN(n),
        ScopeStackOp::Clear(ClearAmount::All) => ScopeOperation::ClearAll,
        ScopeStackOp::Restore => ScopeOperation::Restore,
        ScopeStackOp::Noop => ScopeOperation::Noop,
    }
}

/// Translates a raw tokenizer operation into the library's own form.
pub fn convert_op(op: ScopeStackOp) -> (r: ScopeOperation)
    ensures
        r == op_model(op),
{
    match op {
        ScopeStackOp::Push(s) => ScopeOperation::Push(s),
        ScopeStackOp::Pop(n) => ScopeOperation::Pop(n),
        ScopeStackOp::Clear(ClearAmount::TopN(n)) => ScopeOperation::ClearTopN(n),
        ScopeStackOp::Clear(ClearAmount::All) => ScopeOperation::ClearAll,
        ScopeStackOp::Restore => ScopeOperation::Restore,
        ScopeStackOp::Noop => ScopeOperation::Noop,
    }
}

/// The mathematical model of a [`ScopeStack`]: the active scopes, innermost
/// last, and the groups of scopes set aside by clear operations, most recent
/// last.
#[verifier::ext_equal]
pub ghost struct StackView {
    pub scopes: Seq<Scope>,
    pub cleared: Seq<Seq<Scope>>,
}

/// The stack state after one operation. An operation that is not admitted
/// (see [`op_admitted`]) leaves the stack unchanged.
pub open spec fn stack_after(v: StackView, op: ScopeOperation) -> StackView {
    match op {
        ScopeOperation::Push(s) => StackView { scopes: v.scopes.push(s), cleared: v.cleared },
        ScopeOperation::Pop(n) => {
            if n <= v.scopes.len() {
                StackView { scopes: v.scopes.take(v.scopes.len() - n as int), cleared: v.cleared }
            } else {
                v
            }
        },
        ScopeOperation::ClearTopN(n) => {
            let keep = if n <= v.scopes.len() {
                v.scopes.len() - n as int
            } else {
                0
            };
            StackView { scopes: v.scopes.take(keep), cleared: v.cleared.push(v.scopes.skip(keep)) }
        },
        ScopeOperation::ClearAll => {
            StackView { scopes: Seq::empty(), cleared: v.cleared.push(v.scopes) }
        },
        ScopeOperation::Restore => {
            if v.cleared.len() > 0 {
                StackView { scopes: v.scopes + v.cleared.last(), cleared: v.cleared.drop_last() }
            } else {
                v
            }
        },
        ScopeOperation::Noop => v,
    }
}

/// Whether the stack admits the operation. A well-formed grammar never
/// produces an operation its stack does not admit; rejecting the others is a
/// defensive invariant check, not a normal error path.
pub open spec fn op_admitted(v: StackView, op: ScopeOperation) -> bool {
    match op {
        ScopeOperation::Pop(n) => n <= v.scopes.len(),
        ScopeOperation::Restore => v.cleared.len() > 0,
        _ => true,
    }
}

/// The innermost active scope, or none if the stack is empty.
pub open spec fn top_of(v: StackView) -> Option<Scope> {
    if v.scopes.len() > 0 {
        Some(v.scopes.last())
    } else {
        None
    }
}

/// The nested stack of currently active scopes. Its top is the innermost
/// active category. A pop that would remove more scopes than the stack holds
/// is rejected and leaves the stack unchanged.
pub struct ScopeStack {
    scopes: Vec<Scope>,
    cleared: Vec<Vec<Scope>>,
}

impl View for ScopeStack {
    type V = StackView;

    closed spec fn view(&self) -> StackView {
        StackView {
            scopes: self.scopes@,
            cleared: self.cleared@.map_values(|v: Vec<Scope>| v@),
        }
    }
}

impl ScopeStack {
    /// An empty stack: no active scopes, nothing set aside.
    pub fn new() -> (s: ScopeStack)
        ensures
            s@.scopes == Seq::<Scope>::empty(),
            s@.cleared == Seq::<Seq<Scope>>::empty(),
    {
        let s = ScopeStack { scopes: Vec::new(), cleared: Vec::new() };
        proof {
            assert(s@.scopes =~= Seq::<Scope>::empty());
            assert(s@.cleared =~= Seq::<Seq<Scope>>::empty());
        }
        s
    }

    /// How many scopes are active.
    pub fn depth(&self) -> (n: usize)
        ensures
            n == self@.scopes.len(),
    {
        self.scopes.len()
    }

    /// Appends a scope as the new innermost one; always succeeds.
    pub fn push(&mut self, s: Scope)
        ensures
            final(self)@ == stack_after(old(self)@, ScopeOperation::Push(s)),
    {
        self.scopes.push(s);
        proof {
            assert(final(self)@ =~= stack_after(old(self)@, ScopeOperation::Push(s)));
        }
    }

    /// Removes the `count` innermost scopes. If `count` exceeds the current
    /// depth the stack is left unchanged and `false` signals the internal
    /// inconsistency.
    pub fn pop(&mut self, count: usize) -> (ok: bool)
        ensures
            final(self)@ == stack_after(old(self)@, ScopeOperation::Pop(count)),
            ok == op_admitted(old(self)@, ScopeOperation::Pop(count)),
    {
        if count > self.scopes.len() {
            proof {
                assert(final(self)@ =~= stack_after(old(self)@, ScopeOperation::Pop(count)));
            }
            return false;
        }
        let keep = self.scopes.len() - count;
        self.scopes.truncate(keep);
        proof {
            assert(final(self)@ =~= stack_after(old(self)@, ScopeOperation::Pop(count)));
        }
        true
    }

    /// Returns the innermost scope, or none if the stack is empty.
    pub fn top(&self) -> (r: Option<Scope>)
        ensures
            r == top_of(self@),
    {
        if self.scopes.len() == 0 {
            None
        } else {
            Some(self.scopes[self.scopes.len() - 1])
        }
    }

    /// Applies one operation. The result says whether the stack admitted it;
    /// an operation that was not admitted left the stack unchanged.
    pub fn apply(&mut self, op: &ScopeOperation) -> (ok: bool)
        ensures
            final(self)@ == stack_after(old(self)@, *op),
            ok == op_admitted(old(self)@, *op),
    {
        match *op {
            ScopeOperation::Push(s) => {
                self.scopes.push(s);
                proof {
                    assert(final(self)@ =~= stack_after(old(self)@, *op));
                }
                true
            },
            ScopeOperation::Pop(n) => self.pop(n),
            ScopeOperation::ClearTopN(n) => {
                let len = self.scopes.len();
                let keep = if n <= len {
                    len - n
                } else {
                    0
                };
                let part = self.scopes.split_off(keep);
                self.cleared.push(part);
                proof {
                    lemma_view_of_cleared_push(old(self).cleared@, part);
                    assert(final(self)@ =~= stack_after(old(self)@, *op));
                }
                true
            },
            ScopeOperation::ClearAll => {
                let part = self.scopes.split_off(0);
                self.cleared.push(part);
                proof {
                    lemma_view_of_cleared_push(old(self).cleared@, part);
                    assert(old(self)@.scopes =~= part@);
                    assert(final(self)@ =~= stack_after(old(self)@, *op));
                }
                true
            },
            ScopeOperation::Restore => {
                match self.cleared.pop() {
                    Some(part) => {
                        let ghost scopes0 = self.scopes@;
                        let ghost cleared1 = self.cleared@;
                        proof {
                            assert(scopes0 + part@.take(0) =~= scopes0);
                        }
                        let mut i: usize = 0;
                        while i < part.len()
                            invariant
                                i <= part.len(),
                                self.scopes@ == scopes0 + part@.take(i as int),
                                self.cleared@ == cleared1,
                            decreases part.len() - i,
                        {
                            self.scopes.push(part[i]);
                            i += 1;
                            proof {
                                assert(self.scopes@ =~= scopes0 + part@.take(i as int));
                            }
                        }
                        proof {
                            lemma_view_of_cleared_drop_last(old(self).cleared@);
                            assert(part@.take(part@.len() as int) =~= part@);
                            assert(final(self)@ =~= stack_after(old(self)@, *op));
                        }
                        true
                    },
                    None => {
                        proof {
                            assert(old(self).cleared@.len() == 0);
                            assert(final(self)@ =~= stack_after(old(self)@, *op));
                        }
                        false
                    },
                }
            },
            ScopeOperation::Noop => {
                proof {
                    assert(final(self)@ =~= stack_after(old(self)@, *op));
                }
                true
            },
        }
    }
}

/// Pushing one saved group is, seen through the view, a push of that group's
/// contents.
proof fn lemma_view_of_cleared_push(cs: Seq<Vec<Scope>>, v: Vec<Scope>)
    ensures
        cs.push(v).map_values(|x: Vec<Scope>| x@) == cs.map_values(|x: Vec<Scope>| x@).push(v@),
{
    assert(cs.push(v).map_values(|x: Vec<Scope>| x@) =~= cs.map_values(|x: Vec<Scope>| x@).push(
        v@,
    ));
}

/// Dropping the last saved group commutes with taking the view.
proof fn lemma_view_of_cleared_drop_last(cs: Seq<Vec<Scope>>)
    requires
        cs.len() > 0,
    ensures
        cs.subrange(0, cs.len() - 1).map_values(|x: Vec<Scope>| x@) == cs.map_values(
            |x: Vec<Scope>| x@,
        ).drop_last(),
{
    assert(cs.subrange(0, cs.len() - 1).map_values(|x: Vec<Scope>| x@) =~= cs.map_values(
        |x: Vec<Scope>| x@,
    ).drop_last());
}

} // verus!
