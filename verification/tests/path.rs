use request_router::path::{extension, is_file_like};

fn file_like_text(s: &str) -> bool {
    let chars: Vec<char> = s.chars().collect();
    is_file_like(&chars)
}

fn extension_text(s: &str) -> Option<String> {
    let chars: Vec<char> = s.chars().collect();
    extension(&chars).map(|e| e.iter().collect())
}

#[test]
fn paths_with_an_extension_look_like_files() {
    assert!(file_like_text("/index.html"));
    assert!(file_like_text("/a.b"));
    assert!(file_like_text("a.b"));
    assert!(file_like_text("/static/app.min.js"));
    assert!(file_like_text("/dir.d/file"));
    assert!(file_like_text("/.hidden"));
    assert!(file_like_text("/a..b"));
    assert!(file_like_text("/.."));
    assert!(file_like_text("..."));
    assert!(file_like_text("/../etc/passwd"));
}

#[test]
fn paths_without_a_dot_do_not_look_like_files() {
    assert!(!file_like_text(""));
    assert!(!file_like_text("/"));
    assert!(!file_like_text("/noop"));
    assert!(!file_like_text("/echo"));
    assert!(!file_like_text("/index"));
    assert!(!file_like_text("/fib"));
    assert!(!file_like_text("/a/b/c"));
}

#[test]
fn a_dot_at_either_end_is_not_enough() {
    assert!(!file_like_text("."));
    assert!(!file_like_text(".."));
    assert!(!file_like_text(".a"));
    assert!(!file_like_text("a."));
    assert!(!file_like_text("/a."));
    assert!(!file_like_text(".html"));
}

#[test]
fn a_dot_next_to_whitespace_is_not_enough() {
    assert!(!file_like_text("/a .b"));
    assert!(!file_like_text("/a. b"));
    assert!(!file_like_text("/a\t.b"));
    assert!(!file_like_text("/a.\u{A0}b"));
    assert!(!file_like_text(" . "));
    assert!(file_like_text("/a b.c"));
    assert!(file_like_text("/a.b c"));
    assert!(file_like_text(" a.b "));
    assert!(file_like_text("/a .b.c"));
}

#[test]
fn extension_follows_the_last_dot_of_the_last_segment() {
    assert_eq!(extension_text("/index.html"), Some("html".to_string()));
    assert_eq!(extension_text("/static/app.min.js"), Some("js".to_string()));
    assert_eq!(extension_text("/a/b/c.TOML"), Some("TOML".to_string()));
    assert_eq!(extension_text("file.rs"), Some("rs".to_string()));
    assert_eq!(extension_text("/font.woff2"), Some("woff2".to_string()));
    assert_eq!(extension_text("/.hidden"), Some("hidden".to_string()));
}

#[test]
fn extension_may_be_empty() {
    assert_eq!(extension_text("/a."), Some("".to_string()));
    assert_eq!(extension_text("/a.b."), Some("".to_string()));
    assert_eq!(extension_text("."), Some("".to_string()));
}

#[test]
fn extension_is_missing_without_a_dot_in_the_last_segment() {
    assert_eq!(extension_text(""), None);
    assert_eq!(extension_text("/"), None);
    assert_eq!(extension_text("/plain"), None);
    assert_eq!(extension_text("/dir.d/file"), None);
    assert_eq!(extension_text("/dir.d/"), None);
    assert_eq!(extension_text("/a.b/c.d/e"), None);
}
