use lsproto::resolve::{path_of_uri, resolve_position, span_in_line, ident_char, Position, Span};

fn cols(s: &Span) -> (usize, usize) {
    (s.column_start, s.column_end)
}

#[test]
fn identifier_span_anywhere_in_word() {
    for caret in 0..7 {
        let s = span_in_line("/x.src".to_string(), 0, "foo_bar baz", caret);
        assert_eq!(cols(&s), (1, 8));
        assert_eq!(s.line_start, 0);
        assert_eq!(s.line_end, 0);
        assert_eq!(s.file_name, "/x.src");
    }
}

#[test]
fn second_word_span() {
    for caret in 8..11 {
        let s = span_in_line("f".to_string(), 3, "foo_bar baz", caret);
        assert_eq!(cols(&s), (9, 12));
        assert_eq!(s.line_start, 3);
    }
}

#[test]
fn caret_on_non_identifier_collapses() {
    let s = span_in_line("f".to_string(), 0, "foo_bar baz", 7);
    assert_eq!(cols(&s), (7, 7));
}

#[test]
fn caret_past_end_of_line() {
    let s = span_in_line("f".to_string(), 0, "abc", 10);
    assert_eq!(cols(&s), (10, 10));
}

#[test]
fn resolving_twice_gives_same_span() {
    let a = span_in_line("f".to_string(), 2, "let x = a.b_c(1);", 11);
    let b = span_in_line("f".to_string(), 2, "let x = a.b_c(1);", 11);
    assert_eq!(a, b);
    assert_eq!(cols(&a), (11, 14));
    let again = span_in_line("f".to_string(), 2, "let x = a.b_c(1);", a.column_start - 1);
    assert_eq!(again, a);
}

#[test]
fn non_ascii_letters_are_identifier_characters() {
    assert!(ident_char('é'));
    assert!(ident_char('_'));
    assert!(ident_char('7'));
    assert!(!ident_char('-'));
    let s = span_in_line("f".to_string(), 0, "(café)", 2);
    assert_eq!(cols(&s), (2, 6));
}

#[test]
fn uri_prefix_is_stripped() {
    assert_eq!(path_of_uri("file:///p/a.src"), "/p/a.src");
    assert_eq!(path_of_uri("/already/a/path"), "/already/a/path");
    assert_eq!(path_of_uri("file:"), "file:");
}

#[test]
fn resolve_uses_document_path() {
    let pos = Position { line: 0, character: 2 };
    let s = resolve_position("file:///x.src", pos, Some("abc def".to_string())).unwrap();
    assert_eq!(s.file_name, "/x.src");
    assert_eq!(cols(&s), (1, 4));
}

#[test]
fn resolve_missing_line() {
    let pos = Position { line: 9, character: 0 };
    assert!(resolve_position("file:///x.src", pos, None).is_none());
}
