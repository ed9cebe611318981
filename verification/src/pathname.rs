//! Plain-text path helpers: the file name as std's path components read
//! it, the extension after its last dot, and display paths relative to a
//! root.

use vstd::prelude::*;

verus! {

/// `p` with trailing separators and trailing `.` components removed: the
/// normalization std's path components apply before the file name is
/// read, so `a.rs/`, `a.rs//` and `a.rs/.` all name the file `a.rs`.
pub open spec fn trimmed(p: Seq<char>) -> Seq<char>
    decreases p.len(),
{
    if p.len() == 0 {
        p
    } else if p.last() == '/' {
        trimmed(p.drop_last())
    } else if p.last() == '.' && (p.len() == 1 || p[p.len() - 2] == '/') {
        trimmed(p.drop_last())
    } else {
        p
    }
}

/// The suffix of `p` after its last `/`: the whole of `p` when it has no
/// slash, empty when `p` ends in one.
pub open spec fn last_segment(p: Seq<char>) -> Seq<char>
    decreases p.len(),
{
    if p.len() == 0 {
        Seq::empty()
    } else if p.last() == '/' {
        Seq::empty()
    } else {
        last_segment(p.drop_last()).push(p.last())
    }
}

/// The file name of `p`, as std's `Path::file_name` reads it: the last
/// real component of the path — none when nothing is left once trailing
/// separators and `.` components are dropped, or when the path ends in
/// a `..` component.
pub open spec fn file_name_of(p: Seq<char>) -> Option<Seq<char>> {
    let seg = last_segment(trimmed(p));
    if seg.len() == 0 || seg == seq!['.', '.'] {
        None
    } else {
        Some(seg)
    }
}

/// The extension of a file name `f`: the suffix after the last `.`, where
/// a dot leading the file name does not start an extension.
pub open spec fn name_extension(f: Seq<char>) -> Option<Seq<char>>
    decreases f.len(),
{
    if f.len() <= 1 {
        None
    } else if f.last() == '.' {
        Some(Seq::empty())
    } else {
        match name_extension(f.drop_last()) {
            Some(e) => Some(e.push(f.last())),
            None => None,
        }
    }
}

/// The extension of the file name of path `p`: none when the path names
/// no file at all.
pub open spec fn path_extension(p: Seq<char>) -> Option<Seq<char>> {
    match file_name_of(p) {
        Some(f) => name_extension(f),
        None => None,
    }
}

/// The extension of the file name of `p`, or empty when there is none.
pub open spec fn extension_or_empty(p: Seq<char>) -> Seq<char> {
    match path_extension(p) {
        Some(e) => e,
        None => Seq::empty(),
    }
}

proof fn lemma_last_segment_after_slash(p: Seq<char>, k: int)
    requires
        0 <= k < p.len(),
        p[k] == '/',
        forall|j: int| k < j < p.len() ==> p[j] != '/',
    ensures
        last_segment(p) == p.skip(k + 1),
    decreases p.len(),
{
    if k == p.len() - 1 {
        assert(p.last() == '/');
        assert(last_segment(p) =~= p.skip(k + 1));
    } else {
        assert(p.last() != '/');
        lemma_last_segment_after_slash(p.drop_last(), k);
        assert(last_segment(p) == p.drop_last().skip(k + 1).push(p.last()));
        assert(p.drop_last().skip(k + 1).push(p.last()) =~= p.skip(k + 1));
    }
}

proof fn lemma_last_segment_no_slash(p: Seq<char>)
    requires
        forall|j: int| 0 <= j < p.len() ==> p[j] != '/',
    ensures
        last_segment(p) == p,
    decreases p.len(),
{
    if p.len() == 0 {
        assert(last_segment(p) =~= p);
    } else {
        lemma_last_segment_no_slash(p.drop_last());
        assert(last_segment(p) == p.drop_last().push(p.last()));
        assert(p.drop_last().push(p.last()) =~= p);
    }
}

proof fn lemma_name_extension_after_dot(f: Seq<char>, d: int)
    requires
        1 <= d < f.len(),
        f[d] == '.',
        forall|j: int| d < j < f.len() ==> f[j] != '.',
    ensures
        name_extension(f) == Some(f.skip(d + 1)),
    decreases f.len(),
{
    if d == f.len() - 1 {
        assert(f.last() == '.');
        assert(f.skip(d + 1) =~= Seq::<char>::empty());
    } else {
        assert(f.last() != '.');
        lemma_name_extension_after_dot(f.drop_last(), d);
        assert(name_extension(f) == Some(f.drop_last().skip(d + 1).push(f.last())));
        assert(f.drop_last().skip(d + 1).push(f.last()) =~= f.skip(d + 1));
    }
}

proof fn lemma_name_extension_no_dot(f: Seq<char>)
    requires
        forall|j: int| 1 <= j < f.len() ==> f[j] != '.',
    ensures
        name_extension(f) is None,
    decreases f.len(),
{
    if f.len() <= 1 {
    } else {
        assert(f.last() != '.');
        lemma_name_extension_no_dot(f.drop_last());
    }
}

/// The extension of `path`'s file name, as a borrowed slice of `path`.
pub fn extension_of(path: &str) -> (r: Option<&str>)
    ensures
        r is Some <==> path_extension(path@) is Some,
        r matches Some(e) ==> path_extension(path@) == Some(e@),
{
    let n = path.unicode_len();
    // Drop trailing separators and trailing `.` components.
    let mut end: usize = n;
    let mut more: bool = true;
    proof {
        assert(path@.take(n as int) =~= path@);
    }
    while more && end > 0
        invariant
            n == path@.len(),
            0 <= end <= n,
            trimmed(path@) == trimmed(path@.take(end as int)),
            !more ==> trimmed(path@.take(end as int)) == path@.take(end as int),
        decreases end + (if more { 1int } else { 0int }),
    {
        let c = path.get_char(end - 1);
        let drop: bool = if c == '/' {
            true
        } else if c != '.' {
            false
        } else if end == 1 {
            true
        } else {
            path.get_char(end - 2) == '/'
        };
        proof {
            assert(path@.take(end as int).last() == c);
            assert(path@.take(end as int).drop_last() =~= path@.take(end - 1 as int));
            if end > 1 {
                assert(path@.take(end as int)[end - 2] == path@[end - 2]);
            }
        }
        if drop {
            end = end - 1;
        } else {
            more = false;
        }
    }
    let ghost t = path@.take(end as int);
    proof {
        if end == 0 {
            assert(path@.take(0) =~= Seq::<char>::empty());
            assert(trimmed(Seq::<char>::empty()) == Seq::<char>::empty());
        }
        assert(trimmed(path@) == t);
    }
    // Find the start of the last segment: one past the last `/`.
    let mut start: usize = 0;
    let mut i: usize = 0;
    while i < end
        invariant
            n == path@.len(),
            end <= n,
            0 <= start <= i <= end,
            forall|j: int| start <= j < i ==> path@[j] != '/',
            start > 0 ==> path@[start - 1] == '/',
        decreases end - i,
    {
        if path.get_char(i) == '/' {
            start = i + 1;
        }
        i = i + 1;
    }
    proof {
        if start > 0 {
            assert(t[start - 1] == path@[start - 1]);
            assert forall|j: int| start - 1 < j < t.len() implies t[j] != '/' by {
                assert(t[j] == path@[j]);
            }
            lemma_last_segment_after_slash(t, start - 1);
        } else {
            assert forall|j: int| 0 <= j < t.len() implies t[j] != '/' by {
                assert(t[j] == path@[j]);
            }
            lemma_last_segment_no_slash(t);
            assert(t.skip(0) =~= t);
        }
        assert(last_segment(t) == t.skip(start as int));
    }
    let ghost seg = t.skip(start as int);
    if start >= end {
        // Nothing left after trimming: the path names no file.
        proof {
            assert(seg =~= Seq::<char>::empty());
        }
        return None;
    }
    if end - start == 2 && path.get_char(start) == '.' && path.get_char(start + 1) == '.' {
        // A `..` component names no file.
        proof {
            assert(seg =~= seq!['.', '.']);
        }
        return None;
    }
    proof {
        assert(seg.len() == end - start);
        assert(seg[0] == path@[start as int]);
        if seg.len() == 2 {
            assert(seg[1] == path@[start + 1 as int]);
        }
        assert(seg != seq!['.', '.']);
        assert(file_name_of(path@) == Some(seg));
    }
    // Find the last `.` strictly inside the segment.
    let mut found: bool = false;
    let mut dot: usize = 0;
    let mut j: usize = start + 1;
    while j < end
        invariant
            n == path@.len(),
            end <= n,
            start < end,
            start + 1 <= j <= end,
            found ==> start + 1 <= dot < j && path@[dot as int] == '.',
            found ==> forall|u: int| dot < u < j ==> path@[u] != '.',
            !found ==> forall|u: int| start + 1 <= u < j ==> path@[u] != '.',
        decreases end - j,
    {
        if path.get_char(j) == '.' {
            dot = j;
            found = true;
        }
        j = j + 1;
    }
    if found {
        proof {
            assert(seg[dot - start] == path@[dot as int]);
            assert forall|u: int| dot - start < u < seg.len() implies seg[u] != '.' by {
                assert(seg[u] == path@[start + u]);
            }
            lemma_name_extension_after_dot(seg, dot - start);
        }
        let e = path.substring_char(dot + 1, end);
        proof {
            assert(e@ =~= seg.skip(dot - start + 1));
        }
        Some(e)
    } else {
        proof {
            assert forall|u: int| 1 <= u < seg.len() implies seg[u] != '.' by {
                assert(seg[u] == path@[start + u]);
            }
            lemma_name_extension_no_dot(seg);
        }
        None
    }
}

/// The extension of `path`'s file name, falling back to the empty string.
pub fn ext_as_str(path: &str) -> (r: &str)
    ensures
        r@ == extension_or_empty(path@),
{
    match extension_of(path) {
        Some(e) => e,
        None => {
            let empty = "";
            proof {
                reveal_strlit("");
                assert(empty@ =~= Seq::<char>::empty());
            }
            empty
        },
    }
}

/// How a path is displayed under a root: stripped of the root and the
/// separator after it when the root is a proper prefix, empty when it is
/// the root itself, and unchanged otherwise. The root is matched as
/// literal text at a component boundary; redundant separators are not
/// normalized on either side, so a root written `/a//b` only strips from
/// paths that repeat the separator the same way.
pub open spec fn relative_to_root(p: Seq<char>, root: Seq<char>) -> Seq<char> {
    if root.len() > 0 && root.len() <= p.len() && p.take(root.len() as int) == root {
        let rest = p.skip(root.len() as int);
        if rest.len() == 0 {
            rest
        } else if rest[0] == '/' {
            rest.drop_first()
        } else if root.last() == '/' {
            rest
        } else {
            p
        }
    } else {
        p
    }
}

/// Displays `p` relative to `root` when it lies under it, and unchanged
/// otherwise. The comparison is literal, character for character, as
/// `relative_to_root` states it.
pub fn relativize<'a>(p: &'a str, root: &str) -> (r: &'a str)
    ensures
        r@ == relative_to_root(p@, root@),
{
    let plen = p.unicode_len();
    let rlen = root.unicode_len();
    if rlen == 0 || rlen > plen {
        return p;
    }
    let mut i: usize = 0;
    while i < rlen
        invariant
            plen == p@.len(),
            rlen == root@.len(),
            0 < rlen <= plen,
            0 <= i <= rlen,
            forall|j: int| 0 <= j < i ==> p@[j] == root@[j],
        decreases rlen - i,
    {
        if p.get_char(i) != root.get_char(i) {
            proof {
                assert(p@.take(rlen as int)[i as int] != root@[i as int]);
            }
            return p;
        }
        i = i + 1;
    }
    proof {
        assert(p@.take(rlen as int) =~= root@);
    }
    if plen == rlen {
        let r = p.substring_char(plen, plen);
        proof {
            assert(r@ =~= p@.skip(rlen as int));
        }
        return r;
    }
    if p.get_char(rlen) == '/' {
        let r = p.substring_char(rlen + 1, plen);
        proof {
            assert(p@.skip(rlen as int)[0] == p@[rlen as int]);
            assert(r@ =~= p@.skip(rlen as int).drop_first());
        }
        return r;
    }
    if root.get_char(rlen - 1) == '/' {
        let r = p.substring_char(rlen, plen);
        proof {
            assert(p@.skip(rlen as int)[0] == p@[rlen as int]);
            assert(r@ =~= p@.skip(rlen as int));
        }
        return r;
    }
    proof {
        assert(p@.skip(rlen as int)[0] == p@[rlen as int]);
    }
    p
}

} // verus!
