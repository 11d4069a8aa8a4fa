use shirase::paths::{history_path_under, join, scripts_dir, scripts_dir_under};

#[test]
fn join_adds_one_separator() {
    assert_eq!(join("/a", "b"), "/a/b");
    assert_eq!(join("/a/", "b"), "/a/b");
    assert_eq!(join("", "b"), "b");
}

#[test]
fn history_path_fallback() {
    assert_eq!(history_path_under(None), "/tmp/shirase/history.json");
    assert_eq!(history_path_under(Some("/home/u/.local/share".to_string())), "/home/u/.local/share/shirase/history.json");
}

#[test]
fn scripts_dir_fallback() {
    assert_eq!(scripts_dir_under(None), "~/.config/shirase/scripts");
    assert!(scripts_dir().ends_with("shirase/scripts"));
}
