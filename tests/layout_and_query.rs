use himalaya_cache::layout::{
    accounts_path, envelopes_path, folders_path, message_path, meta_dir, meta_path,
};
use himalaya_cache::query::{is_metadata_file, normalize_line_endings, render_message};

#[test]
fn cache_paths() {
    assert_eq!(accounts_path(), vec!["accounts.json"]);
    assert_eq!(folders_path("work"), vec!["folders", "work.json"]);
    assert_eq!(envelopes_path("work", "INBOX"), vec!["envelopes", "work", "INBOX.json"]);
    assert_eq!(meta_dir("work", "INBOX"), vec!["meta", "work", "INBOX"]);
    assert_eq!(meta_path("work", "INBOX", "42"), vec!["meta", "work", "INBOX", "42.json"]);
    assert_eq!(message_path("work", "INBOX", "42"), vec!["messages", "work", "INBOX", "42.eml"]);
}

#[test]
fn metadata_file_names() {
    assert!(is_metadata_file("42.json"));
    assert!(!is_metadata_file(".json"));
    assert!(!is_metadata_file("42.eml"));
    assert!(!is_metadata_file("json"));
    assert!(is_metadata_file("a.b.json"));
}

#[test]
fn line_endings_normalized() {
    assert_eq!(normalize_line_endings(&b"a\r\nb\rc\n\r\n".to_vec()), b"a\nb\rc\n\n".to_vec());
    assert_eq!(normalize_line_endings(&Vec::new()), Vec::<u8>::new());
}

#[test]
fn message_rendered_as_json_string() {
    assert_eq!(render_message("hi \"you\"\nbye"), "\"hi \\\"you\\\"\\nbye\"");
}

#[test]
fn cached_message_with_crlf_is_shown_with_lf() {
    let normalized = normalize_line_endings(&b"Hi\r\nBye\r\n".to_vec());
    let text = String::from_utf8_lossy(&normalized);
    assert_eq!(render_message(&text), "\"Hi\\nBye\\n\"");
}
