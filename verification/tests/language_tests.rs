use kak_lsp::Config;
use kak_lsp::LanguageConfig;
use kak_lsp::ext_as_str;
use kak_lsp::extension_to_language_id_map;
use kak_lsp::path_to_language_id;

fn entry(lang: &str, exts: &[&str]) -> (String, LanguageConfig) {
    (
        lang.to_string(),
        LanguageConfig { extensions: exts.iter().map(|e| e.to_string()).collect() },
    )
}

#[test]
fn resolves_language_by_extension() {
    let config = Config {
        language: vec![entry("rust", &["rs"]), entry("python", &["py"])],
        session: None,
    };
    let table = extension_to_language_id_map(&config);
    assert_eq!(path_to_language_id(&table, "main.rs"), Some("rust".to_string()));
    assert_eq!(path_to_language_id(&table, "setup.py"), Some("python".to_string()));
    assert_eq!(path_to_language_id(&table, "README"), None);
    assert_eq!(path_to_language_id(&table, "x.unknown"), None);
}

#[test]
fn later_language_wins_a_contested_extension() {
    let config = Config {
        language: vec![entry("a", &["ext"]), entry("b", &["ext"])],
        session: None,
    };
    let table = extension_to_language_id_map(&config);
    assert_eq!(path_to_language_id(&table, "file.ext"), Some("b".to_string()));
}

#[test]
fn empty_configuration_resolves_nothing() {
    let config = Config { language: vec![], session: None };
    let table = extension_to_language_id_map(&config);
    assert_eq!(path_to_language_id(&table, "main.rs"), None);
}

#[test]
fn matching_is_case_sensitive_and_exact() {
    let config = Config { language: vec![entry("rust", &["rs"])], session: None };
    let table = extension_to_language_id_map(&config);
    assert_eq!(path_to_language_id(&table, "main.RS"), None);
    assert_eq!(path_to_language_id(&table, "dir.rs/file"), None);
    assert_eq!(path_to_language_id(&table, "a/b/c.rs"), Some("rust".to_string()));
}

#[test]
fn trailing_separators_do_not_hide_the_file_name() {
    let config = Config { language: vec![entry("rust", &["rs"])], session: None };
    let table = extension_to_language_id_map(&config);
    assert_eq!(path_to_language_id(&table, "main.rs/"), Some("rust".to_string()));
    assert_eq!(path_to_language_id(&table, "main.rs//"), Some("rust".to_string()));
    assert_eq!(path_to_language_id(&table, "main.rs/."), Some("rust".to_string()));
    assert_eq!(path_to_language_id(&table, "src/.."), None);
}

#[test]
fn extension_falls_back_to_empty() {
    assert_eq!(ext_as_str("foo.rs"), "rs");
    assert_eq!(ext_as_str("a/b.tar.gz"), "gz");
    assert_eq!(ext_as_str("README"), "");
    assert_eq!(ext_as_str(".gitignore"), "");
    assert_eq!(ext_as_str("dir/"), "");
    assert_eq!(ext_as_str("a.rs/"), "rs");
    assert_eq!(ext_as_str("foo.rs/."), "rs");
    assert_eq!(ext_as_str(".."), "");
    assert_eq!(ext_as_str("a/.."), "");
}
