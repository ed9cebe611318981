//! Language resolution: inverting the configured language-to-extensions
//! relation into an extension-keyed lookup table, and classifying a file
//! path by its extension. The table is the FNV-hashed map the surrounding
//! server shares across lookups.

use vstd::prelude::*;

use crate::config::Config;
use crate::config::LanguageConfig;
use crate::pathname::extension_of;
use crate::pathname::path_extension;

verus! {

#[verifier::external_type_specification]
#[verifier::external_body]
pub struct ExFnvHasher(fnv::FnvHasher);

#[verifier::external_type_specification]
#[verifier::external_body]
#[verifier::reject_recursive_types(H)]
pub struct ExBuildHasherDefault<H>(core::hash::BuildHasherDefault<H>);

/// The extension lookup table: std's `HashMap` with fnv's hasher, from
/// extension to language identifier.
pub type LanguageTable = fnv::FnvHashMap<String, String>;

/// What the lookup table holds, keyed and valued by text: extension to
/// language identifier.
pub uninterp spec fn table_entries(m: LanguageTable) -> Map<Seq<char>, Seq<char>>;

/// The contents of a table that maps nothing.
pub open spec fn no_entries() -> Map<Seq<char>, Seq<char>> {
    Map::empty()
}

/// Relies on std's `HashMap::default` (with fnv's hasher): a fresh map
/// holds nothing.
#[verifier::external_body]
pub(crate) fn table_new() -> (m: LanguageTable)
    ensures
        table_entries(m) == no_entries(),
{
    fnv::FnvHashMap::default()
}

/// Relies on std's `HashMap::insert`: the key now maps to the value, a
/// later write over the same key winning; nothing else changes.
#[verifier::external_body]
pub(crate) fn table_insert(m: &mut LanguageTable, k: String, v: String)
    ensures
        table_entries(*final(m)) == table_entries(*old(m)).insert(k@, v@),
{
    m.insert(k, v);
}

/// Relies on std's `HashMap::get`: returns the mapped value exactly when
/// the key is present.
#[verifier::external_body]
pub(crate) fn table_get(m: &LanguageTable, k: &str) -> (r: Option<String>)
    ensures
        r is Some <==> table_entries(*m).contains_key(k@),
        r matches Some(v) ==> table_entries(*m).contains_key(k@) && v@ == table_entries(*m)[k@],
{
    m.get(k).cloned()
}

/// `m` after one language's extensions are written in order, each mapping
/// to that language and overwriting whatever held the extension before.
pub open spec fn with_language(
    m: Map<Seq<char>, Seq<char>>,
    lang: Seq<char>,
    exts: Seq<Seq<char>>,
) -> Map<Seq<char>, Seq<char>>
    decreases exts.len(),
{
    if exts.len() == 0 {
        m
    } else {
        with_language(m, lang, exts.drop_last()).insert(exts.last(), lang)
    }
}

/// The inverted relation for the configuration entries in load order:
/// extension to language identifier, the later language winning a
/// contested extension.
pub open spec fn extension_language_map(entries: Seq<(String, LanguageConfig)>) -> Map<
    Seq<char>,
    Seq<char>,
>
    decreases entries.len(),
{
    if entries.len() == 0 {
        Map::empty()
    } else {
        with_language(
            extension_language_map(entries.drop_last()),
            entries.last().0@,
            entries.last().1.extensions.deep_view(),
        )
    }
}

/// Inverts the configured language-to-extensions relation into a lookup
/// table from extension to language identifier; on a collision the later
/// language in configuration order wins, silently.
pub fn extension_to_language_id_map(config: &Config) -> (r: LanguageTable)
    ensures
        table_entries(r) == extension_language_map(config.language@),
{
    let mut extensions = table_new();
    let n = config.language.len();
    let mut i: usize = 0;
    while i < n
        invariant
            n == config.language@.len(),
            0 <= i <= n,
            table_entries(extensions) == extension_language_map(config.language@.take(i as int)),
        decreases n - i,
    {
        let language_id = &config.language[i].0;
        let exts_vec = &config.language[i].1.extensions;
        let ghost lang = language_id@;
        let ghost exts = exts_vec.deep_view();
        let m = exts_vec.len();
        let mut j: usize = 0;
        while j < m
            invariant
                n == config.language@.len(),
                0 <= i < n,
                m == exts_vec@.len(),
                0 <= j <= m,
                lang == language_id@,
                exts == exts_vec.deep_view(),
                language_id@ == config.language@[i as int].0@,
                exts_vec@ == config.language@[i as int].1.extensions@,
                table_entries(extensions) == with_language(
                    extension_language_map(config.language@.take(i as int)),
                    lang,
                    exts.take(j as int),
                ),
            decreases m - j,
        {
            let ext = exts_vec[j].clone();
            let lid = language_id.clone();
            table_insert(&mut extensions, ext, lid);
            proof {
                assert(exts.take(j + 1 as int).drop_last() =~= exts.take(j as int));
                assert(exts.take(j + 1 as int).last() == exts[j as int]);
                assert(exts[j as int] == exts_vec@[j as int]@);
            }
            j = j + 1;
        }
        proof {
            assert(exts.take(m as int) =~= exts);
            assert(config.language@.take(i + 1 as int).drop_last() =~= config.language@.take(
                i as int,
            ));
            assert(config.language@.take(i + 1 as int).last() == config.language@[i as int]);
        }
        i = i + 1;
    }
    proof {
        assert(config.language@.take(n as int) =~= config.language@);
    }
    extensions
}

/// What a lookup of `p` in table `t` yields: the language mapped to `p`'s
/// extension, or nothing when `p` has no extension or an unknown one.
pub open spec fn language_for_path(t: Map<Seq<char>, Seq<char>>, p: Seq<char>) -> Option<
    Seq<char>,
> {
    match path_extension(p) {
        Some(e) => if t.contains_key(e) {
            Some(t[e])
        } else {
            None
        },
        None => None,
    }
}

/// Detects the language of the file at `path` by its extension, exactly
/// and case-sensitively; none when the path has no extension or the
/// extension is not in the table.
pub fn path_to_language_id(extensions: &LanguageTable, path: &str) -> (r: Option<String>)
    ensures
        r is Some <==> language_for_path(table_entries(*extensions), path@) is Some,
        r matches Some(v) ==> language_for_path(table_entries(*extensions), path@) == Some(v@),
{
    match extension_of(path) {
        Some(e) => table_get(extensions, e),
        None => None,
    }
}

} // verus!
