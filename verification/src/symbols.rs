//! Symbol formatting: protocol symbol records rendered as editor-displayable
//! `path:line:character:kind name` lines, one per record, in input order,
//! with paths shown relative to the project root when they lie under it.

use vstd::prelude::*;

use crate::pathname::relative_to_root;
use crate::pathname::relativize;
use crate::range::Range;
use crate::text::dec_digits;
use crate::text::push_char;
use crate::text::push_u64_dec;

verus! {

/// Where a symbol lives: its document's URI and its range there.
pub struct Location {
    pub uri: String,
    pub range: Range,
}

/// One symbol record from a symbol query. `kind` carries the canonical
/// name of the symbol's category, as the protocol layer renders it.
pub struct SymbolInformation {
    pub location: Location,
    pub name: String,
    pub kind: String,
}

/// Why formatting failed: the record at `index` has a URI that names no
/// filesystem path. Nothing is dropped silently; the caller chooses
/// whether to skip the record or abort the response.
#[derive(Clone, Copy, Debug, PartialEq, Eq, Structural)]
pub struct SymbolFormatError {
    pub index: usize,
}

/// The filesystem path a URI names, if any: what url's `Url::parse`
/// followed by `Url::to_file_path` yields, determined by the URI text.
pub uninterp spec fn uri_file_path(uri: Seq<char>) -> Option<Seq<char>>;

/// Relies on url's `Url::parse` and `Url::to_file_path`: together they
/// turn a file URI into the path it names, or nothing for text that is
/// not a URI or whose path lies elsewhere (a remote host, say).
#[verifier::external_body]
fn uri_to_file_path(uri: &str) -> (r: Option<String>)
    ensures
        r is Some <==> uri_file_path(uri@) is Some,
        r matches Some(p) ==> uri_file_path(uri@) == Some(p@),
{
    match url::Url::parse(uri) {
        Ok(u) => match u.to_file_path() {
            Ok(p) => match p.to_str() {
                Some(s) => Some(String::from(s)),
                None => None,
            },
            Err(()) => None,
        },
        Err(_) => None,
    }
}

/// Whether every record's URI names a filesystem path.
pub open spec fn all_uris_convert(items: Seq<SymbolInformation>) -> bool {
    forall|i: int|
        0 <= i < items.len() ==> uri_file_path(#[trigger] items[i].location.uri@) is Some
}

/// The line shown for one symbol: its path under the root, the one-based
/// start position, and the kind name and symbol name.
pub open spec fn symbol_line(s: SymbolInformation, root: Seq<char>) -> Seq<char>
    recommends
        uri_file_path(s.location.uri@) is Some,
{
    relative_to_root(uri_file_path(s.location.uri@).unwrap(), root) + seq![':'] + dec_digits(
        (s.location.range.start.line + 1) as nat,
    ) + seq![':'] + dec_digits((s.location.range.start.character + 1) as nat) + seq![':']
        + s.kind@ + seq![' '] + s.name@
}

/// The lines for all records, in input order.
pub open spec fn symbol_lines(items: Seq<SymbolInformation>, root: Seq<char>) -> Seq<Seq<char>> {
    items.map(|i: int, s: SymbolInformation| symbol_line(s, root))
}

/// The given lines joined by single newlines.
pub open spec fn joined_lines(ls: Seq<Seq<char>>) -> Seq<char>
    decreases ls.len(),
{
    if ls.len() == 0 {
        Seq::empty()
    } else if ls.len() == 1 {
        ls[0]
    } else {
        joined_lines(ls.drop_last()) + seq!['\n'] + ls.last()
    }
}

/// Formatting preserves input order: the formatted lines are exactly one
/// per record, and the line at any position is the line of the record at
/// that position.
pub proof fn lemma_lines_in_input_order(items: Seq<SymbolInformation>, root: Seq<char>, i: int)
    requires
        0 <= i < items.len(),
    ensures
        symbol_lines(items, root).len() == items.len(),
        symbol_lines(items, root)[i] == symbol_line(items[i], root),
{
}

/// A location outside the given root renders its absolute path unchanged.
pub proof fn lemma_path_outside_root_unchanged(p: Seq<char>, root: Seq<char>)
    requires
        root.len() == 0 || p.len() < root.len() || p.take(root.len() as int) != root,
    ensures
        relative_to_root(p, root) == p,
{
}

/// Renders one line per record, newline-joined, in input order; paths
/// under `root_path` are shown relative to it, others unchanged. Fails on
/// the first record whose URI names no filesystem path, identifying it.
pub fn format_symbol_information(items: Vec<SymbolInformation>, root_path: &str) -> (r: Result<
    String,
    SymbolFormatError,
>)
    requires
        forall|i: int|
            0 <= i < items@.len() ==> (#[trigger] items@[i].location.range.start.line < u64::MAX
                && items@[i].location.range.start.character < u64::MAX),
    ensures
        r is Ok <==> all_uris_convert(items@),
        r matches Ok(out) ==> out@ == joined_lines(symbol_lines(items@, root_path@)),
        r matches Err(e) ==> e.index < items@.len() && uri_file_path(
            items@[e.index as int].location.uri@,
        ) is None && (forall|j: int|
            0 <= j < e.index ==> uri_file_path(#[trigger] items@[j].location.uri@) is Some),
{
    let mut out = String::new();
    let n = items.len();
    let mut i: usize = 0;
    while i < n
        invariant
            n == items@.len(),
            0 <= i <= n,
            forall|k: int|
                0 <= k < n ==> (#[trigger] items@[k].location.range.start.line < u64::MAX
                    && items@[k].location.range.start.character < u64::MAX),
            forall|j: int|
                0 <= j < i ==> uri_file_path(#[trigger] items@[j].location.uri@) is Some,
            out@ == joined_lines(symbol_lines(items@.take(i as int), root_path@)),
        decreases n - i,
    {
        let symbol = &items[i];
        match uri_to_file_path(symbol.location.uri.as_str()) {
            None => {
                return Err(SymbolFormatError { index: i });
            },
            Some(filename) => {
                let ghost before = out@;
                if i > 0 {
                    push_char(&mut out, '\n');
                }
                let shown = relativize(filename.as_str(), root_path);
                out.append(shown);
                push_char(&mut out, ':');
                push_u64_dec(&mut out, symbol.location.range.start.line + 1);
                push_char(&mut out, ':');
                push_u64_dec(&mut out, symbol.location.range.start.character + 1);
                push_char(&mut out, ':');
                out.append(symbol.kind.as_str());
                push_char(&mut out, ' ');
                out.append(symbol.name.as_str());
                proof {
                    let pref = symbol_lines(items@.take(i as int), root_path@);
                    let line = symbol_line(items@[i as int], root_path@);
                    assert(symbol_lines(items@.take(i + 1 as int), root_path@) =~= pref.push(
                        line,
                    ));
                    assert(pref.push(line).drop_last() =~= pref);
                    if i > 0 {
                        assert(out@ =~= joined_lines(pref) + seq!['\n'] + line);
                    } else {
                        assert(out@ =~= line);
                    }
                }
            },
        }
        i = i + 1;
    }
    proof {
        assert(items@.take(n as int) =~= items@);
    }
    Ok(out)
}

} // verus!
