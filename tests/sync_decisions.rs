use himalaya_cache::model::{Account, AgentError, Folder, SyncError};
use himalaya_cache::sync::{
    envelope_step, fetched_account_names, fetched_folder_names, given_accounts, given_folders,
    sync_scope, EnvelopeOutcome, EnvelopeStep, FolderPlan, SyncScope, SyncSummary,
};

fn folder(name: &str) -> Folder {
    Folder { name: name.to_string(), desc: None }
}

#[test]
fn folder_without_account_is_invalid_scope() {
    let r = sync_scope(None, Some("INBOX".to_string()));
    assert!(matches!(r, Err(SyncError::InvalidScope)));
}

#[test]
fn scopes_from_flags() {
    assert!(matches!(sync_scope(None, None), Ok(SyncScope::AllAccounts)));
    match sync_scope(Some("work".to_string()), None) {
        Ok(SyncScope::OneAccount(a)) => assert_eq!(a, "work"),
        other => panic!("unexpected {:?}", other),
    }
    match sync_scope(Some("work".to_string()), Some("INBOX".to_string())) {
        Ok(SyncScope::OneFolder { account, folder }) => {
            assert_eq!(account, "work");
            assert_eq!(folder, "INBOX");
        }
        other => panic!("unexpected {:?}", other),
    }
}

#[test]
fn given_names_follow_scope() {
    assert!(given_accounts(&SyncScope::AllAccounts).is_none());
    assert_eq!(
        given_accounts(&SyncScope::OneAccount("work".to_string())),
        Some(vec!["work".to_string()])
    );
    let pinned = SyncScope::OneFolder { account: "work".to_string(), folder: "INBOX".to_string() };
    assert_eq!(given_accounts(&pinned), Some(vec!["work".to_string()]));
    assert_eq!(given_folders(&pinned), Some(vec!["INBOX".to_string()]));
    assert!(given_folders(&SyncScope::OneAccount("work".to_string())).is_none());
}

#[test]
fn account_list_failure_is_fatal() {
    let r = fetched_account_names(Err(AgentError::Command("down".to_string())));
    assert!(matches!(r, Err(SyncError::Agent(AgentError::Command(_)))));
    let accounts = vec![
        Account { name: "home".to_string(), backend: None, default: Some(true) },
        Account { name: "work".to_string(), backend: Some("imap".to_string()), default: None },
    ];
    assert_eq!(fetched_account_names(Ok(accounts)).unwrap(), vec!["home", "work"]);
}

#[test]
fn folder_failure_skips_only_that_account() {
    let work = fetched_folder_names(Err(AgentError::Command("refused".to_string())));
    let home = fetched_folder_names(Ok(vec![folder("INBOX"), folder("Sent")]));
    assert!(matches!(work, FolderPlan::SkipAccount(AgentError::Command(_))));
    match home {
        FolderPlan::Sync(names) => assert_eq!(names, vec!["INBOX", "Sent"]),
        other => panic!("unexpected {:?}", other),
    }
}

#[test]
fn cached_body_is_not_fetched_again() {
    assert_eq!(envelope_step(true, true), EnvelopeStep::AlreadyCached);
    assert_eq!(envelope_step(true, false), EnvelopeStep::FetchBody);
    assert_eq!(envelope_step(false, false), EnvelopeStep::SkipAfterMetaFailure);
    assert_eq!(envelope_step(false, true), EnvelopeStep::SkipAfterMetaFailure);
}

#[test]
fn tally_counts_every_envelope() {
    let mut s = SyncSummary::new();
    s.record(EnvelopeOutcome::BodyStored);
    s.record(EnvelopeOutcome::BodyFetchFailed);
    s.record(EnvelopeOutcome::AlreadyCached);
    s.skip_account();
    s.skip_folder();
    assert_eq!(s.envelopes_done, 3);
    assert_eq!(s.envelopes_failed, 1);
    assert_eq!(s.bodies_fetched, 1);
    assert_eq!(s.accounts_skipped, 1);
    assert_eq!(s.folders_skipped, 1);
}
