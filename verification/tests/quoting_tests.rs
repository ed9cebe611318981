use kak_lsp::editor_escape;
use kak_lsp::editor_quote;

/// The editor's own reading of a quoted literal: strip the outer quotes,
/// collapse doubled quotes.
fn host_unquote(q: &str) -> String {
    assert!(q.len() >= 2 && q.starts_with('\'') && q.ends_with('\''));
    let inner = &q[1..q.len() - 1];
    inner.replace("''", "'")
}

#[test]
fn escapes_by_doubling_quotes() {
    assert_eq!(editor_escape("it's"), "it''s");
    assert_eq!(editor_escape("''"), "''''");
    assert_eq!(editor_escape("no quotes"), "no quotes");
}

#[test]
fn quotes_with_wrapping_and_doubling() {
    assert_eq!(editor_quote("it's"), "'it''s'");
}

#[test]
fn quotes_empty_string() {
    assert_eq!(editor_quote(""), "''");
}

#[test]
fn quotes_string_of_many_quotes() {
    assert_eq!(editor_quote("'''"), "''''''''");
}

#[test]
fn unquoting_quoted_text_returns_it() {
    for s in ["", "plain", "it's", "'", "''", "'a'b'", "mixed ' text ' here"] {
        assert_eq!(host_unquote(&editor_quote(s)), s);
    }
}
