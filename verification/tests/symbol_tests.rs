use kak_lsp::Location;
use kak_lsp::Position;
use kak_lsp::Range;
use kak_lsp::SymbolFormatError;
use kak_lsp::SymbolInformation;
use kak_lsp::format_symbol_information;

fn symbol(uri: &str, line: u64, character: u64, kind: &str, name: &str) -> SymbolInformation {
    SymbolInformation {
        location: Location {
            uri: uri.to_string(),
            range: Range {
                start: Position { line, character },
                end: Position { line, character: character + 1 },
            },
        },
        name: name.to_string(),
        kind: kind.to_string(),
    }
}

#[test]
fn formats_symbols_in_order_with_relative_paths() {
    let items = vec![
        symbol("file:///proj/src/main.rs", 0, 0, "Function", "main"),
        symbol("file:///other/lib.rs", 2, 4, "Struct", "Widget"),
        symbol("file:///proj/src/util.rs", 9, 1, "Method", "run"),
    ];
    let out = format_symbol_information(items, "/proj").unwrap();
    assert_eq!(
        out,
        "src/main.rs:1:1:Function main\n/other/lib.rs:3:5:Struct Widget\nsrc/util.rs:10:2:Method run"
    );
}

#[test]
fn formats_empty_symbol_list() {
    let out = format_symbol_information(vec![], "/proj").unwrap();
    assert_eq!(out, "");
}

#[test]
fn path_equal_to_root_renders_empty() {
    let items = vec![symbol("file:///proj", 0, 0, "File", "x")];
    let out = format_symbol_information(items, "/proj").unwrap();
    assert_eq!(out, ":1:1:File x");
}

#[test]
fn root_prefix_must_end_at_a_component() {
    let items = vec![symbol("file:///projects/a.rs", 0, 0, "File", "a")];
    let out = format_symbol_information(items, "/proj").unwrap();
    assert_eq!(out, "/projects/a.rs:1:1:File a");
}

#[test]
fn fails_on_non_file_uri_naming_the_record() {
    let items = vec![
        symbol("file:///proj/ok.rs", 0, 0, "File", "ok"),
        symbol("http://example.com/x.rs", 1, 1, "File", "bad"),
    ];
    let err = format_symbol_information(items, "/proj").unwrap_err();
    assert_eq!(err, SymbolFormatError { index: 1 });
}

#[test]
fn fails_on_text_that_is_no_uri() {
    let items = vec![symbol("not a uri", 0, 0, "File", "x")];
    let err = format_symbol_information(items, "/proj").unwrap_err();
    assert_eq!(err, SymbolFormatError { index: 0 });
}
