//! Coordinate translation: protocol-native zero-based, end-exclusive ranges
//! into Kakoune's one-based, inclusive `SL.SC,EL.EC` notation.

use vstd::prelude::*;

use crate::text::dec_digits;
use crate::text::push_char;
use crate::text::push_u64_dec;

verus! {

/// A protocol position: zero-based line and character.
#[derive(Clone, Copy, Debug, PartialEq, Eq, Structural)]
pub struct Position {
    pub line: u64,
    pub character: u64,
}

/// A protocol range: half-open, `end` exclusive. An end character of zero
/// means the range runs through the end of the previous line.
#[derive(Clone, Copy, Debug, PartialEq, Eq, Structural)]
pub struct Range {
    pub start: Position,
    pub end: Position,
}

/// The sentinel column standing for "rest of this line": larger than any
/// real line length, kept verbatim for wire compatibility with the editor.
pub const END_OF_LINE_COLUMN: u64 = 1000000;

/// The one-based inclusive end line of the translated range: shifted up by
/// one only when the protocol end character is positive.
pub open spec fn kak_end_line(r: Range) -> nat {
    if r.end.character > 0 {
        (r.end.line + 1) as nat
    } else {
        r.end.line as nat
    }
}

/// The one-based inclusive end column of the translated range: the protocol
/// end character itself when positive, else the end-of-line sentinel.
pub open spec fn kak_end_char(r: Range) -> nat {
    if r.end.character > 0 {
        r.end.character as nat
    } else {
        END_OF_LINE_COLUMN as nat
    }
}

/// The full Kakoune range string `SL.SC,EL.EC`.
pub open spec fn kak_range(r: Range) -> Seq<char> {
    dec_digits((r.start.line + 1) as nat) + seq!['.'] + dec_digits(
        (r.start.character + 1) as nat,
    ) + seq![','] + dec_digits(kak_end_line(r)) + seq!['.'] + dec_digits(kak_end_char(r))
}

/// For every range whose protocol end character is positive, the
/// translated end line is the protocol end line plus one, and the end
/// character is the protocol end character with no further shift.
pub proof fn lemma_positive_end_character(r: Range)
    requires
        r.end.character > 0,
    ensures
        kak_end_line(r) == r.end.line + 1,
        kak_end_char(r) == r.end.character,
{
}

/// For every range ending exactly at a line start, the translated end
/// line is the protocol end line unshifted, and the end character is
/// exactly the end-of-line sentinel.
pub proof fn lemma_zero_end_character(r: Range)
    requires
        r.end.character == 0,
    ensures
        kak_end_line(r) == r.end.line,
        kak_end_char(r) == END_OF_LINE_COLUMN,
{
}

/// Translates a protocol range into Kakoune's inclusive one-based notation.
pub fn lsp_range_to_kakoune(range: Range) -> (r: String)
    requires
        range.start.line < u64::MAX,
        range.start.character < u64::MAX,
        range.end.character > 0 ==> range.end.line < u64::MAX,
    ensures
        r@ == kak_range(range),
{
    let mut out = String::new();
    push_u64_dec(&mut out, range.start.line + 1);
    push_char(&mut out, '.');
    push_u64_dec(&mut out, range.start.character + 1);
    push_char(&mut out, ',');
    let end_line: u64 = if range.end.character > 0 {
        range.end.line + 1
    } else {
        range.end.line
    };
    let end_char: u64 = if range.end.character > 0 {
        range.end.character
    } else {
        END_OF_LINE_COLUMN
    };
    push_u64_dec(&mut out, end_line);
    push_char(&mut out, '.');
    push_u64_dec(&mut out, end_char);
    proof {
        assert(out@ =~= kak_range(range));
    }
    out
}

} // verus!
