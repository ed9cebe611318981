//! Safe quoting of arbitrary text for Kakoune's single-quoted command
//! arguments: every single quote is doubled and the whole is wrapped in
//! single quotes. This is the sole sanitization boundary for untrusted
//! text entering editor commands.

use vstd::prelude::*;

use crate::text::push_char;

verus! {

/// `s` with every single quote doubled.
pub open spec fn escaped_quotes(s: Seq<char>) -> Seq<char>
    decreases s.len(),
{
    if s.len() == 0 {
        Seq::empty()
    } else {
        let head = if s[0] == '\'' {
            seq!['\'', '\'']
        } else {
            seq![s[0]]
        };
        head + escaped_quotes(s.drop_first())
    }
}

/// `s` with quotes doubled, wrapped in single quotes.
pub open spec fn quoted(s: Seq<char>) -> Seq<char> {
    seq!['\''] + escaped_quotes(s) + seq!['\'']
}

/// The editor's own unescaping of the inside of a single-quoted literal:
/// each doubled quote collapses back to one quote.
pub open spec fn unescaped_quotes(s: Seq<char>) -> Seq<char>
    decreases s.len(),
{
    if s.len() == 0 {
        Seq::empty()
    } else if s.len() >= 2 && s[0] == '\'' && s[1] == '\'' {
        seq!['\''] + unescaped_quotes(s.skip(2))
    } else {
        seq![s[0]] + unescaped_quotes(s.drop_first())
    }
}

/// The editor's reading of a whole quoted literal: strip the outer quotes,
/// then collapse doubled quotes.
pub open spec fn unquoted(q: Seq<char>) -> Seq<char>
    recommends
        q.len() >= 2,
{
    unescaped_quotes(q.subrange(1, q.len() - 1))
}

proof fn lemma_unescape_escape(s: Seq<char>)
    ensures
        unescaped_quotes(escaped_quotes(s)) == s,
    decreases s.len(),
{
    if s.len() == 0 {
        assert(unescaped_quotes(escaped_quotes(s)) =~= s);
    } else {
        let rest = s.drop_first();
        lemma_unescape_escape(rest);
        let e = escaped_quotes(s);
        if s[0] == '\'' {
            assert(e =~= seq!['\'', '\''] + escaped_quotes(rest));
            assert(e.skip(2) =~= escaped_quotes(rest));
            assert(unescaped_quotes(e) == seq!['\''] + rest);
            assert(seq!['\''] + rest =~= s);
        } else {
            assert(e =~= seq![s[0]] + escaped_quotes(rest));
            assert(e[0] == s[0]);
            if e.len() >= 2 && e[0] == '\'' && e[1] == '\'' {
                assert(false);
            }
            assert(e.drop_first() =~= escaped_quotes(rest));
            assert(unescaped_quotes(e) == seq![s[0]] + rest);
            assert(seq![s[0]] + rest =~= s);
        }
    }
}

/// Quoting is involutive under the editor's own unescaping: reading back
/// the quoted form of any string, including one holding quote characters,
/// gives exactly that string.
pub proof fn lemma_quote_round_trip(s: Seq<char>)
    ensures
        unquoted(quoted(s)) == s,
{
    let q = quoted(s);
    assert(q.subrange(1, q.len() - 1) =~= escaped_quotes(s));
    lemma_unescape_escape(s);
}

/// Doubles every single quote in `s`.
pub fn editor_escape(s: &str) -> (r: String)
    ensures
        r@ == escaped_quotes(s@),
{
    let n = s.unicode_len();
    let mut out = String::new();
    let mut i: usize = 0;
    while i < n
        invariant
            n == s@.len(),
            0 <= i <= n,
            out@ == escaped_quotes(s@.take(i as int)),
        decreases n - i,
    {
        let c = s.get_char(i);
        if c == '\'' {
            push_char(&mut out, '\'');
            push_char(&mut out, '\'');
        } else {
            push_char(&mut out, c);
        }
        proof {
            lemma_escaped_quotes_snoc(s@.take(i as int), s@[i as int]);
            assert(s@.take(i as int).push(s@[i as int]) =~= s@.take(i + 1 as int));
        }
        i = i + 1;
    }
    proof {
        assert(s@.take(n as int) =~= s@);
    }
    out
}

proof fn lemma_escaped_quotes_snoc(s: Seq<char>, c: char)
    ensures
        c == '\'' ==> escaped_quotes(s.push(c)) == escaped_quotes(s) + seq!['\'', '\''],
        c != '\'' ==> escaped_quotes(s.push(c)) == escaped_quotes(s) + seq![c],
    decreases s.len(),
{
    let tail = if c == '\'' {
        seq!['\'', '\'']
    } else {
        seq![c]
    };
    if s.len() == 0 {
        assert(escaped_quotes(Seq::<char>::empty()) == Seq::<char>::empty());
        assert(s.push(c)[0] == c);
        assert(s.push(c).drop_first() =~= Seq::<char>::empty());
        assert(escaped_quotes(s.push(c)) == tail + escaped_quotes(Seq::<char>::empty()));
        assert(escaped_quotes(s.push(c)) =~= tail);
        assert(s =~= Seq::<char>::empty());
        assert(escaped_quotes(s) + tail =~= tail);
    } else {
        lemma_escaped_quotes_snoc(s.drop_first(), c);
        assert(s.push(c).drop_first() =~= s.drop_first().push(c));
        assert(s.push(c)[0] == s[0]);
        let head = if s[0] == '\'' {
            seq!['\'', '\'']
        } else {
            seq![s[0]]
        };
        assert(escaped_quotes(s.push(c)) == head + (escaped_quotes(s.drop_first()) + tail));
        assert(head + (escaped_quotes(s.drop_first()) + tail) =~= (head + escaped_quotes(
            s.drop_first(),
        )) + tail);
    }
}

/// Wraps `s` in single quotes, doubling every quote inside: the result is
/// safe to splice into a single-quoted editor command argument.
pub fn editor_quote(s: &str) -> (r: String)
    ensures
        r@ == quoted(s@),
{
    let mut out = String::new();
    push_char(&mut out, '\'');
    let escaped = editor_escape(s);
    out.append(escaped.as_str());
    push_char(&mut out, '\'');
    proof {
        assert(out@ =~= quoted(s@));
    }
    out
}

} // verus!
