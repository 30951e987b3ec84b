use himalaya_cache::model::{Account, AgentError, Folder, SyncError};
use himalaya_cache::sync::{EnvelopeOutcome, FolderPlan, SyncAction, SyncRun, SyncScope};

fn account(name: &str) -> Account {
    Account { name: name.to_string(), backend: None, default: None }
}

fn folder(name: &str) -> Folder {
    Folder { name: name.to_string(), desc: None }
}

fn expect_folders(action: SyncAction, account: &str) {
    match action {
        SyncAction::FetchFolders(a) => assert_eq!(a, account),
        other => panic!("unexpected {:?}", other),
    }
}

fn expect_sync(action: SyncAction, account: &str, folder: &str) {
    match action {
        SyncAction::SyncFolder { account: a, folder: f } => {
            assert_eq!(a, account);
            assert_eq!(f, folder);
        }
        other => panic!("unexpected {:?}", other),
    }
}

#[test]
fn failed_folder_list_of_one_account_leaves_the_other_whole() {
    let (mut run, action) = SyncRun::start(SyncScope::AllAccounts);
    assert!(matches!(action, SyncAction::FetchAccounts));
    run.accounts_fetched(Ok(vec![account("work"), account("home")])).unwrap();
    expect_folders(run.next_action(), "work");
    let plan = run.folders_fetched(Err(AgentError::Command("refused".to_string())));
    assert!(matches!(plan, FolderPlan::SkipAccount(_)));
    expect_folders(run.next_action(), "home");
    run.folders_fetched(Ok(vec![folder("INBOX"), folder("Sent")]));
    expect_sync(run.next_action(), "home", "INBOX");
    run.envelope_done(EnvelopeOutcome::BodyStored);
    expect_sync(run.next_action(), "home", "Sent");
    run.envelope_done(EnvelopeOutcome::AlreadyCached);
    assert!(matches!(run.next_action(), SyncAction::Finish));
    assert_eq!(run.summary.accounts_skipped, 1);
    assert_eq!(run.summary.envelopes_done, 2);
    assert_eq!(run.summary.bodies_fetched, 1);
}

#[test]
fn failed_account_list_ends_the_run() {
    let (mut run, _) = SyncRun::start(SyncScope::AllAccounts);
    let r = run.accounts_fetched(Err(AgentError::Command("down".to_string())));
    assert!(matches!(r, Err(SyncError::Agent(AgentError::Command(_)))));
}

#[test]
fn named_account_skips_the_account_list() {
    let (mut run, action) = SyncRun::start(SyncScope::OneAccount("work".to_string()));
    expect_folders(action, "work");
    run.folders_fetched(Ok(vec![folder("INBOX")]));
    expect_sync(run.next_action(), "work", "INBOX");
    assert!(matches!(run.next_action(), SyncAction::Finish));
}

#[test]
fn pinned_folder_skips_both_lists() {
    let scope = SyncScope::OneFolder { account: "work".to_string(), folder: "INBOX".to_string() };
    let (mut run, action) = SyncRun::start(scope);
    expect_sync(action, "work", "INBOX");
    run.folder_skipped();
    assert_eq!(run.summary.folders_skipped, 1);
    assert!(matches!(run.next_action(), SyncAction::Finish));
}

#[test]
fn empty_account_list_finishes_at_once() {
    let (mut run, _) = SyncRun::start(SyncScope::AllAccounts);
    run.accounts_fetched(Ok(Vec::new())).unwrap();
    assert!(matches!(run.next_action(), SyncAction::Finish));
}

#[test]
fn run_tally_counts_failures_and_fetched_bodies() {
    let (mut run, _) = SyncRun::start(SyncScope::OneAccount("work".to_string()));
    run.envelope_done(EnvelopeOutcome::MetaWriteFailed);
    run.envelope_done(EnvelopeOutcome::BodyWriteFailed);
    run.envelope_done(EnvelopeOutcome::BodyStored);
    run.envelope_done(EnvelopeOutcome::AlreadyCached);
    assert_eq!(run.summary.envelopes_done, 4);
    assert_eq!(run.summary.envelopes_failed, 2);
    assert_eq!(run.summary.bodies_fetched, 1);
    assert_eq!(run.summary.accounts_skipped, 0);
    assert_eq!(run.summary.folders_skipped, 0);
}
