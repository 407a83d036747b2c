//! The boundary to the outside tokenizer.
//!
//! The grammar engine (syntect) is an opaque collaborator: given one line of
//! text and its continuation state it hands back an ordered list of
//! (byte offset, scope operation) events. This module declares the outside
//! types the library carries through its logic and holds the thin trusted
//! wrappers around the outside calls; everything else in the crate is
//! verified against the contracts stated here.

use vstd::prelude::*;
use vstd::string::StringSliceAdditionalSpecFns;
use vstd::utf8::valid_utf8;

use syntect::parsing::{ClearAmount, ParseState, ParsingError, Scope, ScopeStackOp, SyntaxSet};

use crate::iter::LineEvent;

verus! {

/// An opaque, comparable identifier for a named highlighting category.
#[verifier::external_type_specification]
#[verifier::external_body]
pub struct ExScope(Scope);

/// The tokenizer's raw form of a scope operation; its variants are visible so
/// that verified code can translate them into the library's own operations.
#[verifier::external_type_specification]
pub struct ExScopeStackOp(ScopeStackOp);

/// How many scopes a clear operation sets aside.
#[verifier::external_type_specification]
pub struct ExClearAmount(ClearAmount);

/// The compiled grammar table; read-only after construction.
#[verifier::external_type_specification]
#[verifier::external_body]
pub struct ExSyntaxSet(SyntaxSet);

/// The tokenizer's continuation state, advanced one line at a time.
#[verifier::external_type_specification]
#[verifier::external_body]
pub struct ExParseState(ParseState);

/// The tokenizer's failure report for a line it could not process.
#[verifier::external_type_specification]
#[verifier::external_body]
pub struct ExParsingError(ParsingError);

/// Relies on syntect's `ParseState::parse_line`: it advances the grammar's
/// continuation state by one line of text and returns that line's ordered
/// (byte offset, scope operation) events. Which events come back is the
/// grammar's business, so nothing is promised of the result; the library's
/// own functions state what holds whatever list came back.
#[verifier::external_body]
pub(crate) fn tokenize_line(
    parse_state: &mut ParseState,
    line: &str,
    syntax_set: &SyntaxSet,
) -> (r: Result<Vec<LineEvent>, ParsingError>) {
    match parse_state.parse_line(line, syntax_set) {
        Ok(ops) => Ok(ops
            .into_iter()
            .map(|(offset, op)| LineEvent { offset, op: crate::scope_stack::convert_op(op) })
            .collect()),
        Err(e) => Err(e),
    }
}

/// Relies on std's `str::from_utf8`: it succeeds exactly on bytes that are
/// valid UTF-8, and the returned string slice views those same bytes.
#[verifier::external_body]
pub(crate) fn decode_line(bytes: &[u8]) -> (r: Option<&str>)
    ensures
        r is Some <==> valid_utf8(bytes@),
        r is Some ==> r.unwrap().spec_bytes() == bytes@,
{
    core::str::from_utf8(bytes).ok()
}

/// Relies on syntect's `Scope::build_string`: the dotted textual name of the
/// scope. The name comes out of a process-global repository of interned
/// atoms, so nothing is promised of the bytes.
#[verifier::external_body]
pub(crate) fn scope_name(scope: &Scope) -> (r: String) {
    scope.build_string()
}

} // verus!
