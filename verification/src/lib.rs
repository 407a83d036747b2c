//! A pull-based, character-at-a-time view of syntax-highlighted text.
//!
//! A line tokenizer reports its findings as per-line lists of byte-offset
//! tagged scope operations; this library reconciles that with a caller that
//! consumes one byte at a time, maintaining the nested stack of active scopes
//! across line boundaries and applying each queued operation exactly when the
//! read cursor crosses its offset.

pub mod iter;
pub mod laws;
pub mod scope_stack;
pub mod tokenizer;
