use kak_lsp::Config;
use kak_lsp::cleanup_paths;
use kak_lsp::join_path;
use kak_lsp::temp_dir_path;

fn config_with_session(session: Option<&str>) -> Config {
    Config { language: vec![], session: session.map(|s| s.to_string()) }
}

#[test]
fn temp_dir_path_appends_tool_dir() {
    assert_eq!(temp_dir_path("/tmp"), "/tmp/kak-lsp");
    assert_eq!(temp_dir_path("/tmp/"), "/tmp/kak-lsp");
}

#[test]
fn join_path_inserts_single_separator() {
    assert_eq!(join_path("/a", "b"), "/a/b");
    assert_eq!(join_path("/a/", "b"), "/a/b");
    assert_eq!(join_path("", "b"), "b");
}

#[test]
fn normal_exit_with_session_removes_both_files() {
    let config = config_with_session(Some("mysession"));
    assert_eq!(
        cleanup_paths(&config, 0, "/tmp/kak-lsp"),
        Some(("/tmp/kak-lsp/mysession".to_string(), "/tmp/kak-lsp/mysession.pid".to_string()))
    );
}

#[test]
fn nonzero_exit_never_attempts_deletion() {
    let config = config_with_session(Some("mysession"));
    assert_eq!(cleanup_paths(&config, 1, "/tmp/kak-lsp"), None);
    assert_eq!(cleanup_paths(&config, -1, "/tmp/kak-lsp"), None);
}

#[test]
fn normal_exit_without_session_cleans_nothing() {
    let config = config_with_session(None);
    assert_eq!(cleanup_paths(&config, 0, "/tmp/kak-lsp"), None);
}
