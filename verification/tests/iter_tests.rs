use syntect::parsing::{ParseState, SyntaxSet};

use scopeiter::iter::{ParseIter, SubmitError};

fn plain_text_iter() -> ParseIter {
    let ss = SyntaxSet::load_defaults_newlines();
    let ps = ParseState::new(ss.find_syntax_plain_text());
    ParseIter::init(ss, ps).unwrap()
}

fn c_iter() -> ParseIter {
    let ss = SyntaxSet::load_defaults_newlines();
    let syntax = ss.find_syntax_by_extension("c").expect("no C syntax");
    let ps = ParseState::new(syntax);
    ParseIter::init(ss, ps).unwrap()
}

#[test]
fn wants_next_line_follows_the_protocol() {
    let mut it = plain_text_iter();
    assert!(it.wants_next_line());
    assert!(it.add_line("hi\n"));
    assert!(!it.wants_next_line());
    assert_eq!(it.remaining_in_line(), 3);
    let a = it.next().unwrap();
    assert_eq!(a.get_char(), b'h');
    assert!(!it.wants_next_line());
    let b = it.next().unwrap();
    assert_eq!(b.get_char(), b'i');
    assert!(!it.wants_next_line());
    let c = it.next().unwrap();
    assert_eq!(c.get_char(), b'\n');
    assert!(it.wants_next_line());
    assert_eq!(it.remaining_in_line(), 0);
}

#[test]
fn document_bytes_concatenate() {
    let mut it = plain_text_iter();
    let lines = ["first line\n", "and a second\n", "\n", "last\n"];
    let mut out: Vec<u8> = Vec::new();
    for line in lines {
        assert!(it.wants_next_line());
        assert!(it.add_line(line));
        while !it.wants_next_line() {
            out.push(it.next().unwrap().get_char());
        }
    }
    let expected: Vec<u8> = lines.concat().into_bytes();
    assert_eq!(out, expected);
}

#[test]
fn submit_line_accepts_bytes() {
    let mut it = plain_text_iter();
    assert_eq!(it.submit_line(b"ok\n"), Ok(()));
    let mut out: Vec<u8> = Vec::new();
    while !it.wants_next_line() {
        out.push(it.next().unwrap().get_char());
    }
    assert_eq!(out, b"ok\n".to_vec());
}

#[test]
fn submit_line_rejects_invalid_utf8() {
    let mut it = plain_text_iter();
    assert_eq!(it.submit_line(&[0xff, 0xfe, b'\n']), Err(SubmitError::Encoding));
    assert!(it.wants_next_line());
    assert_eq!(it.remaining_in_line(), 0);
    assert_eq!(it.submit_line(b"ok\n"), Ok(()));
    assert!(!it.wants_next_line());
}

#[test]
fn plain_text_characters_carry_a_scope() {
    let mut it = plain_text_iter();
    assert!(it.add_line("x\n"));
    let c = it.next().unwrap();
    let scope = c.get_scope().expect("plain text should be scoped");
    assert!(scope.build_string().starts_with("text.plain"));
}

#[test]
fn c_like_scope_transition_at_offset_three() {
    let mut it = c_iter();
    assert!(it.add_line("int x;\n"));
    let mut names: Vec<String> = Vec::new();
    let mut bytes: Vec<u8> = Vec::new();
    while !it.wants_next_line() {
        let c = it.next().unwrap();
        bytes.push(c.get_char());
        names.push(match c.get_scope() {
            Some(s) => s.build_string(),
            None => String::new(),
        });
    }
    assert_eq!(bytes, b"int x;\n".to_vec());
    for i in 0..3 {
        assert!(
            names[i].starts_with("storage.type"),
            "byte {} ({:?}) carried {:?}",
            i,
            bytes[i] as char,
            names[i]
        );
    }
    for i in 3..7 {
        assert!(
            !names[i].starts_with("storage.type"),
            "byte {} ({:?}) carried {:?}",
            i,
            bytes[i] as char,
            names[i]
        );
    }
}

#[test]
fn scope_name_two_call_size_discovery() {
    let mut it = plain_text_iter();
    assert!(it.add_line("x\n"));
    let c = it.next().unwrap();
    let expected = c.get_scope().unwrap().build_string();
    let mut empty: Vec<u8> = Vec::new();
    let needed = c.read_scope_name(&mut empty);
    assert_eq!(needed, expected.len());
    assert!(empty.is_empty());
    let mut buf: Vec<u8> = vec![0; needed];
    let written = c.read_scope_name(&mut buf);
    assert_eq!(written, needed);
    assert_eq!(buf, expected.as_bytes().to_vec());
}

#[test]
fn undersized_buffer_gets_a_prefix() {
    let mut it = plain_text_iter();
    assert!(it.add_line("x\n"));
    let c = it.next().unwrap();
    let expected = c.get_scope().unwrap().build_string();
    let mut buf: Vec<u8> = vec![b'_'; 4];
    let n = c.read_scope_name(&mut buf);
    assert_eq!(n, expected.len());
    assert!(n > 4);
    assert_eq!(buf, expected.as_bytes()[..4].to_vec());
}

#[test]
fn scope_stack_persists_across_lines() {
    let mut it = c_iter();
    assert!(it.add_line("/* a comment\n"));
    let mut last_name = String::new();
    while !it.wants_next_line() {
        let c = it.next().unwrap();
        last_name = c.get_scope().map(|s| s.build_string()).unwrap_or_default();
    }
    assert!(
        last_name.starts_with("comment.block"),
        "end of first line carried {:?}",
        last_name
    );
    assert!(it.add_line("still inside\n"));
    let c = it.next().unwrap();
    let name = c.get_scope().map(|s| s.build_string()).unwrap_or_default();
    assert!(
        name.starts_with("comment.block"),
        "start of second line carried {:?}",
        name
    );
}
