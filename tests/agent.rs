use himalaya_cache::agent::{
    account_list_args, after_attempt, envelope_list_args, folder_list_args, message_read_args,
    Attempt, RetryDecision, BACKOFF_MILLIS, MAX_ATTEMPTS,
};
use himalaya_cache::model::AgentError;

#[test]
fn argument_vectors() {
    assert_eq!(account_list_args(), vec!["account", "list", "-o", "json"]);
    assert_eq!(
        folder_list_args("work"),
        vec!["folder", "list", "--account", "work", "-o", "json"]
    );
    assert_eq!(
        envelope_list_args("work", "INBOX"),
        vec![
            "envelope", "list", "--folder", "INBOX", "--account", "work", "--page-size", "999",
            "-o", "json"
        ]
    );
    assert_eq!(
        message_read_args("work", "INBOX", "42"),
        vec!["message", "read", "42", "--folder", "INBOX", "--account", "work"]
    );
}

#[test]
fn retry_exhaustion_gives_trimmed_last_error_after_two_pauses() {
    let mut pauses = 0;
    let mut result = None;
    for attempt in 1..=MAX_ATTEMPTS {
        let outcome = Attempt::Failed(format!("  failure {}\n", attempt));
        match after_attempt(attempt, outcome) {
            RetryDecision::Backoff => pauses += 1,
            RetryDecision::GiveUp(e) => {
                result = Some(e);
                break;
            }
            RetryDecision::Done(_) => panic!("no attempt succeeded"),
        }
    }
    assert_eq!(pauses, 2);
    match result {
        Some(AgentError::Command(m)) => assert_eq!(m, "failure 3"),
        other => panic!("unexpected end {:?}", other),
    }
    assert_eq!(BACKOFF_MILLIS, 2500);
}

#[test]
fn retry_success_returns_output() {
    match after_attempt(2, Attempt::Succeeded(b"[]".to_vec())) {
        RetryDecision::Done(out) => assert_eq!(out, b"[]".to_vec()),
        other => panic!("unexpected {:?}", other),
    }
    assert!(matches!(
        after_attempt(1, Attempt::Failed("x".to_string())),
        RetryDecision::Backoff
    ));
}

#[test]
fn agent_that_cannot_start_is_not_retried() {
    match after_attempt(1, Attempt::NotStarted("not found".to_string())) {
        RetryDecision::GiveUp(AgentError::Launch(m)) => assert_eq!(m, "not found"),
        other => panic!("unexpected {:?}", other),
    }
}
