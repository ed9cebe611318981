//! The pure part of the session lifecycle: where the tool's per-user
//! temporary directory lives, which files a session owns there, and which
//! of them a shutdown must remove. The filesystem work itself — creating
//! the directory, deleting the files, flushing and exiting — belongs to
//! the surrounding process.

use vstd::prelude::*;

use crate::config::Config;
use crate::text::push_char;

verus! {

/// `a` and `b` joined by a single path separator, none doubled.
pub open spec fn joined_path(a: Seq<char>, b: Seq<char>) -> Seq<char> {
    if a.len() == 0 {
        b
    } else if a.last() == '/' {
        a + b
    } else {
        a + seq!['/'] + b
    }
}

/// The name of the directory this tool keeps under the system temp dir.
pub open spec fn tool_dir_name() -> Seq<char> {
    seq!['k', 'a', 'k', '-', 'l', 's', 'p']
}

/// The suffix of a session's pid file name.
pub open spec fn pid_suffix() -> Seq<char> {
    seq!['.', 'p', 'i', 'd']
}

/// Joins two path fragments with a single separator.
pub fn join_path(a: &str, b: &str) -> (r: String)
    ensures
        r@ == joined_path(a@, b@),
{
    let alen = a.unicode_len();
    let mut out = String::from_str(a);
    if alen == 0 {
        out.append(b);
        return out;
    }
    if a.get_char(alen - 1) != '/' {
        push_char(&mut out, '/');
    }
    out.append(b);
    proof {
        assert(a@.last() == a@[alen - 1]);
    }
    out
}

/// The directory for this tool's session files: `kak-lsp` under the given
/// system temporary directory.
pub fn temp_dir_path(system_temp: &str) -> (r: String)
    ensures
        r@ == joined_path(system_temp@, tool_dir_name()),
{
    let name = "kak-lsp";
    proof {
        reveal_strlit("kak-lsp");
        assert(name@ =~= tool_dir_name());
    }
    join_path(system_temp, name)
}

/// The socket file a live session owns: named exactly as the session.
pub open spec fn socket_path(dir: Seq<char>, session: Seq<char>) -> Seq<char> {
    joined_path(dir, session)
}

/// The pid file a live session owns: the session name plus `.pid`.
pub open spec fn pid_path(dir: Seq<char>, session: Seq<char>) -> Seq<char> {
    joined_path(dir, session + pid_suffix())
}

/// The files a shutdown must remove from `dir`: the session's socket and
/// pid files exactly when the exit code is zero and a session is present;
/// nothing on an abnormal exit, leaving the files for diagnosis.
pub fn cleanup_paths(config: &Config, code: i32, dir: &str) -> (r: Option<(String, String)>)
    ensures
        r is Some <==> (code == 0 && config.session is Some),
        r matches Some(p) ==> config.session matches Some(s) && p.0@ == socket_path(dir@, s@)
            && p.1@ == pid_path(dir@, s@),
{
    if code != 0 {
        return None;
    }
    match &config.session {
        None => None,
        Some(session) => {
            let sock = join_path(dir, session.as_str());
            let mut pid_name = session.clone();
            let suffix = ".pid";
            proof {
                reveal_strlit(".pid");
                assert(suffix@ =~= pid_suffix());
            }
            pid_name.append(suffix);
            let pid = join_path(dir, pid_name.as_str());
            Some((sock, pid))
        },
    }
}

} // verus!
