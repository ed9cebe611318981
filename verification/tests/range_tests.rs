use kak_lsp::Position;
use kak_lsp::Range;
use kak_lsp::lsp_range_to_kakoune;

fn range(sl: u64, sc: u64, el: u64, ec: u64) -> Range {
    Range {
        start: Position { line: sl, character: sc },
        end: Position { line: el, character: ec },
    }
}

#[test]
fn translates_single_line_range() {
    assert_eq!(lsp_range_to_kakoune(range(0, 0, 0, 5)), "1.1,1.5");
}

#[test]
fn translates_end_of_line_range() {
    assert_eq!(lsp_range_to_kakoune(range(2, 3, 4, 0)), "3.4,4.1000000");
}

#[test]
fn positive_end_character_is_kept_and_line_shifted() {
    assert_eq!(lsp_range_to_kakoune(range(1, 2, 3, 7)), "2.3,4.7");
}

#[test]
fn zero_end_character_uses_sentinel_and_unshifted_line() {
    assert_eq!(lsp_range_to_kakoune(range(0, 0, 1, 0)), "1.1,1.1000000");
}

#[test]
fn translates_large_coordinates() {
    assert_eq!(
        lsp_range_to_kakoune(range(1234566, 41, 1234568, 0)),
        "1234567.42,1234568.1000000"
    );
}
