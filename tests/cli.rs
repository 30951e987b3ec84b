use himalaya_cache::cli::{
    count_remaining_non_flags, envelope_list_request, folder_list_request, is_flag,
    message_read_request, parse_args, route, sync_request, words_from, CliError, Route,
};
use himalaya_cache::model::SyncError;
use himalaya_cache::sync::SyncScope;

fn words(ws: &[&str]) -> Vec<String> {
    ws.iter().map(|w| w.to_string()).collect()
}

#[test]
fn known_flags_take_the_next_word() {
    let p = parse_args(&words(&["--account", "work", "x", "--folder", "INBOX"]), &words(&["--account", "--folder"]), 0);
    assert_eq!(p.values, vec![Some("work".to_string()), Some("INBOX".to_string())]);
    assert_eq!(p.positionals, vec!["x"]);
}

#[test]
fn last_value_of_a_flag_wins_and_dangling_flag_is_ignored() {
    let p = parse_args(&words(&["--account", "a", "--account", "b", "--folder"]), &words(&["--account", "--folder"]), 0);
    assert_eq!(p.values, vec![Some("b".to_string()), None]);
    assert!(p.positionals.is_empty());
}

#[test]
fn unknown_flag_skips_its_value_only_when_positionals_remain() {
    let known = words(&["--account", "--folder"]);
    let p = parse_args(&words(&["-v", "val", "42"]), &known, 1);
    assert_eq!(p.positionals, vec!["42"]);
    let p = parse_args(&words(&["-v", "42"]), &known, 1);
    assert_eq!(p.positionals, vec!["42"]);
    let p = parse_args(&words(&["-v", "-w", "42"]), &known, 0);
    assert_eq!(p.positionals, Vec::<String>::new());
}

#[test]
fn counting_plain_words() {
    let args = words(&["a", "-b", "c", "--d"]);
    assert_eq!(count_remaining_non_flags(&args, 0), 2);
    assert_eq!(count_remaining_non_flags(&args, 2), 1);
    assert_eq!(count_remaining_non_flags(&args, 9), 0);
    assert!(is_flag("-x"));
    assert!(!is_flag("x-"));
    assert!(!is_flag(""));
}

#[test]
fn routes() {
    assert_eq!(route(&words(&["sync", "--account", "a"])), Route::Sync);
    assert_eq!(route(&words(&["folder", "list"])), Route::FolderList);
    assert_eq!(route(&words(&["folder", "add"])), Route::Passthrough);
    assert_eq!(route(&words(&["message", "read", "1"])), Route::MessageRead);
    assert_eq!(route(&words(&["envelope", "list"])), Route::EnvelopeList);
    assert_eq!(route(&words(&["account", "list"])), Route::Passthrough);
    assert_eq!(route(&words(&[])), Route::Passthrough);
    assert_eq!(words_from(&words(&["folder", "list", "--account", "a"]), 2), words(&["--account", "a"]));
    assert!(words_from(&words(&["sync"]), 3).is_empty());
}

#[test]
fn sync_request_scopes() {
    assert!(matches!(sync_request(&words(&["--folder", "INBOX"])), Err(SyncError::InvalidScope)));
    assert!(matches!(sync_request(&words(&[])), Ok(SyncScope::AllAccounts)));
    match sync_request(&words(&["--folder", "INBOX", "--account", "work"])) {
        Ok(SyncScope::OneFolder { account, folder }) => {
            assert_eq!(account, "work");
            assert_eq!(folder, "INBOX");
        }
        other => panic!("unexpected {:?}", other),
    }
}

#[test]
fn query_requests() {
    assert_eq!(folder_list_request(&words(&["--account", "work"])), Ok("work".to_string()));
    assert_eq!(folder_list_request(&words(&[])), Err(CliError::MissingAccount));
    let q = envelope_list_request(&words(&["--account", "a", "--folder", "f"])).unwrap();
    assert_eq!((q.account.as_str(), q.folder.as_str()), ("a", "f"));
    assert!(matches!(envelope_list_request(&words(&["--account", "a"])), Err(CliError::MissingFolder)));
    let m = message_read_request(&words(&["--account", "a", "--folder", "f", "7"])).unwrap();
    assert_eq!((m.account.as_str(), m.folder.as_str(), m.id.as_str()), ("a", "f", "7"));
    assert!(matches!(message_read_request(&words(&["--account", "a", "--folder", "f"])), Err(CliError::MissingId)));
    assert!(matches!(message_read_request(&words(&["7"])), Err(CliError::MissingAccount)));
    assert_eq!(CliError::MissingId.message(), "message id is required");
}
