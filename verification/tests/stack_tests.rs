use syntect::parsing::Scope;

use scopeiter::scope_stack::{ScopeOperation, ScopeStack};

fn scope(name: &str) -> Scope {
    Scope::new(name).unwrap()
}

#[test]
fn new_stack_is_empty() {
    let st = ScopeStack::new();
    assert_eq!(st.depth(), 0);
    assert_eq!(st.top(), None);
}

#[test]
fn push_sets_top() {
    let mut st = ScopeStack::new();
    st.push(scope("source.lang"));
    st.push(scope("meta.function"));
    assert_eq!(st.depth(), 2);
    assert_eq!(st.top(), Some(scope("meta.function")));
}

#[test]
fn pop_removes_innermost() {
    let mut st = ScopeStack::new();
    st.push(scope("source.lang"));
    st.push(scope("meta.function"));
    assert!(st.pop(1));
    assert_eq!(st.depth(), 1);
    assert_eq!(st.top(), Some(scope("source.lang")));
}

#[test]
fn pop_underflow_leaves_stack_unchanged() {
    let mut st = ScopeStack::new();
    st.push(scope("source.lang"));
    st.push(scope("string.quoted"));
    assert!(!st.pop(3));
    assert_eq!(st.depth(), 2);
    assert_eq!(st.top(), Some(scope("string.quoted")));
    assert!(st.pop(2));
    assert_eq!(st.depth(), 0);
    assert!(!st.pop(1));
    assert_eq!(st.top(), None);
}

#[test]
fn pop_zero_always_succeeds() {
    let mut st = ScopeStack::new();
    assert!(st.pop(0));
    assert_eq!(st.depth(), 0);
}

#[test]
fn apply_push_and_pop() {
    let mut st = ScopeStack::new();
    assert!(st.apply(&ScopeOperation::Push(scope("source.lang"))));
    assert!(st.apply(&ScopeOperation::Push(scope("comment.block"))));
    assert!(st.apply(&ScopeOperation::Pop(1)));
    assert_eq!(st.top(), Some(scope("source.lang")));
    assert!(!st.apply(&ScopeOperation::Pop(2)));
    assert_eq!(st.depth(), 1);
}

#[test]
fn clear_top_n_sets_scopes_aside_and_restore_brings_them_back() {
    let mut st = ScopeStack::new();
    st.push(scope("source.lang"));
    st.push(scope("meta.function"));
    st.push(scope("string.quoted"));
    assert!(st.apply(&ScopeOperation::ClearTopN(2)));
    assert_eq!(st.depth(), 1);
    assert_eq!(st.top(), Some(scope("source.lang")));
    assert!(st.apply(&ScopeOperation::Restore));
    assert_eq!(st.depth(), 3);
    assert_eq!(st.top(), Some(scope("string.quoted")));
}

#[test]
fn clear_more_than_depth_clears_all() {
    let mut st = ScopeStack::new();
    st.push(scope("source.lang"));
    assert!(st.apply(&ScopeOperation::ClearTopN(5)));
    assert_eq!(st.depth(), 0);
    assert!(st.apply(&ScopeOperation::Restore));
    assert_eq!(st.depth(), 1);
    assert_eq!(st.top(), Some(scope("source.lang")));
}

#[test]
fn clear_all_then_restore() {
    let mut st = ScopeStack::new();
    st.push(scope("source.lang"));
    st.push(scope("meta.function"));
    assert!(st.apply(&ScopeOperation::ClearAll));
    assert_eq!(st.depth(), 0);
    assert_eq!(st.top(), None);
    assert!(st.apply(&ScopeOperation::Restore));
    assert_eq!(st.depth(), 2);
    assert_eq!(st.top(), Some(scope("meta.function")));
}

#[test]
fn restore_without_cleared_scopes_is_rejected() {
    let mut st = ScopeStack::new();
    st.push(scope("source.lang"));
    assert!(!st.apply(&ScopeOperation::Restore));
    assert_eq!(st.depth(), 1);
    assert_eq!(st.top(), Some(scope("source.lang")));
}

#[test]
fn noop_changes_nothing() {
    let mut st = ScopeStack::new();
    st.push(scope("source.lang"));
    assert!(st.apply(&ScopeOperation::Noop));
    assert_eq!(st.depth(), 1);
    assert_eq!(st.top(), Some(scope("source.lang")));
}
