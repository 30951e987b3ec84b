//! Calls into the external mail agent: the argument vector of each request,
//! and the rule that retries a failed run.
use crate::model::{names_view, AgentError};
use vstd::prelude::*;

verus! {

/// How many times one request is tried before it fails.
pub const MAX_ATTEMPTS: u32 = 3;

/// The pause between two attempts of one request, in milliseconds.
pub const BACKOFF_MILLIS: u64 = 2500;

/// `account list -o json`
pub fn account_list_args() -> (r: Vec<String>)
    ensures
        names_view(r@) == seq!["account"@, "list"@, "-o"@, "json"@],
{
    let r = vec!["account".to_owned(), "list".to_owned(), "-o".to_owned(), "json".to_owned()];
    assert(names_view(r@) =~= seq!["account"@, "list"@, "-o"@, "json"@]);
    r
}

/// `folder list --account <account> -o json`
pub fn folder_list_args(account: &str) -> (r: Vec<String>)
    ensures
        names_view(r@) == seq!["folder"@, "list"@, "--account"@, account@, "-o"@, "json"@],
{
    let r = vec![
        "folder".to_owned(),
        "list".to_owned(),
        "--account".to_owned(),
        account.to_owned(),
        "-o".to_owned(),
        "json".to_owned(),
    ];
    assert(names_view(r@) =~= seq!["folder"@, "list"@, "--account"@, account@, "-o"@, "json"@]);
    r
}

/// `envelope list --folder <folder> --account <account> --page-size 999 -o json`: the
/// page is large enough that a folder comes back whole in one call.
pub fn envelope_list_args(account: &str, folder: &str) -> (r: Vec<String>)
    ensures
        names_view(r@) == seq![
            "envelope"@, "list"@, "--folder"@, folder@, "--account"@, account@,
            "--page-size"@, "999"@, "-o"@, "json"@,
        ],
{
    let r = vec![
        "envelope".to_owned(),
        "list".to_owned(),
        "--folder".to_owned(),
        folder.to_owned(),
        "--account".to_owned(),
        account.to_owned(),
        "--page-size".to_owned(),
        "999".to_owned(),
        "-o".to_owned(),
        "json".to_owned(),
    ];
    assert(names_view(r@) =~= seq![
        "envelope"@, "list"@, "--folder"@, folder@, "--account"@, account@,
        "--page-size"@, "999"@, "-o"@, "json"@,
    ]);
    r
}

/// `message read <id> --folder <folder> --account <account>`
pub fn message_read_args(account: &str, folder: &str, id: &str) -> (r: Vec<String>)
    ensures
        names_view(r@) == seq!["message"@, "read"@, id@, "--folder"@, folder@, "--account"@, account@],
{
    let r = vec![
        "message".to_owned(),
        "read".to_owned(),
        id.to_owned(),
        "--folder".to_owned(),
        folder.to_owned(),
        "--account".to_owned(),
        account.to_owned(),
    ];
    assert(names_view(r@) =~= seq!["message"@, "read"@, id@, "--folder"@, folder@, "--account"@, account@]);
    r
}

/// What `str::trim` leaves of a text: it depends on the text alone.
pub uninterp spec fn trimmed_text(s: Seq<char>) -> Seq<char>;

/// Relies on `str::trim`: the text without leading and trailing whitespace.
#[verifier::external_body]
fn trim_text(s: &str) -> (r: String)
    ensures
        r@ == trimmed_text(s@),
{
    s.trim().to_owned()
}

/// How one run of the agent ended, once it had started.
#[derive(Clone, Debug)]
pub enum Attempt {
    /// It exited with success; holds its standard output.
    Succeeded(Vec<u8>),
    /// It exited with failure; holds its error output as text.
    Failed(String),
    /// It could not be started; holds the cause.
    NotStarted(String),
}

/// What to do after one attempt.
#[derive(Clone, Debug)]
pub enum RetryDecision {
    /// The request is answered with this output.
    Done(Vec<u8>),
    /// Wait `BACKOFF_MILLIS`, then try again.
    Backoff,
    /// The request has failed.
    GiveUp(AgentError),
}

/// The outcome of one attempt, or of a whole request, as values.
pub enum RetryView {
    Output(Seq<u8>),
    NotStarted(Seq<char>),
    Backoff,
    Failure(Seq<char>),
}

/// The text an agent error carries.
pub open spec fn error_text(e: AgentError) -> Seq<char> {
    match e {
        AgentError::Launch(m) => m@,
        AgentError::Command(m) => m@,
        AgentError::Decode(m) => m@,
    }
}

pub open spec fn decision_view(d: RetryDecision) -> RetryView {
    match d {
        RetryDecision::Done(v) => RetryView::Output(v@),
        RetryDecision::Backoff => RetryView::Backoff,
        RetryDecision::GiveUp(AgentError::Launch(m)) => RetryView::NotStarted(m@),
        RetryDecision::GiveUp(e) => RetryView::Failure(error_text(e)),
    }
}

pub open spec fn step_spec(attempt: nat, outcome: Attempt) -> RetryView {
    match outcome {
        Attempt::Succeeded(out) => RetryView::Output(out@),
        Attempt::Failed(err) => if attempt < MAX_ATTEMPTS {
            RetryView::Backoff
        } else {
            RetryView::Failure(trimmed_text(err@))
        },
        Attempt::NotStarted(cause) => RetryView::NotStarted(cause@),
    }
}

/// Decides what follows attempt number `attempt` (counting from one). A
/// success ends the request; an agent that could not be started gives up at
/// once; a failure before the last attempt waits and retries; a failure on
/// the last one gives up with the trimmed error output.
pub fn after_attempt(attempt: u32, outcome: Attempt) -> (r: RetryDecision)
    requires
        1 <= attempt <= MAX_ATTEMPTS,
    ensures
        decision_view(r) == step_spec(attempt as nat, outcome),
        outcome is Failed && r is GiveUp ==> r->GiveUp_0 is Command,
        outcome is NotStarted <==> (r is GiveUp && r->GiveUp_0 is Launch),
{
    match outcome {
        Attempt::Succeeded(out) => RetryDecision::Done(out),
        Attempt::NotStarted(cause) => RetryDecision::GiveUp(AgentError::Launch(cause)),
        Attempt::Failed(err) => {
            if attempt < MAX_ATTEMPTS {
                RetryDecision::Backoff
            } else {
                RetryDecision::GiveUp(AgentError::Command(trim_text(err.as_str())))
            }
        },
    }
}

/// The end of a request whose attempts, from number `attempt` on, end as
/// `outcomes` says, and how many pauses it took.
pub open spec fn retry_run(attempt: nat, outcomes: Seq<Attempt>) -> (RetryView, nat)
    decreases outcomes.len(),
{
    if outcomes.len() == 0 {
        (RetryView::Backoff, 0)
    } else {
        match step_spec(attempt, outcomes[0]) {
            RetryView::Backoff => {
                let (end, pauses) = retry_run(attempt + 1, outcomes.drop_first());
                (end, pauses + 1)
            },
            end => (end, 0),
        }
    }
}

/// A request that fails on every attempt ends with the trimmed error output
/// of the last attempt, after one pause fewer than there were attempts.
pub proof fn lemma_retry_exhaustion(outcomes: Seq<Attempt>)
    requires
        outcomes.len() == MAX_ATTEMPTS,
        forall|i: int| 0 <= i < outcomes.len() ==> outcomes[i] is Failed,
    ensures
        retry_run(1, outcomes) == (
            RetryView::Failure(trimmed_text(outcomes[MAX_ATTEMPTS - 1]->Failed_0@)),
            (MAX_ATTEMPTS - 1) as nat,
        ),
{
    let o1 = outcomes.drop_first();
    let o2 = o1.drop_first();
    let o3 = o2.drop_first();
    assert(o3.len() == 0);
    assert(o2[0] == outcomes[2]);
    assert(o1[0] == outcomes[1]);
    assert(retry_run(3, o2) == (RetryView::Failure(trimmed_text(outcomes[2]->Failed_0@)), 0nat));
    assert(retry_run(2, o1) == (RetryView::Failure(trimmed_text(outcomes[2]->Failed_0@)), 1nat));
}

/// An agent that cannot be started is never retried: the request ends at
/// the first attempt, with no pause, whatever later attempts would bring.
pub proof fn lemma_launch_failure_not_retried(outcomes: Seq<Attempt>)
    requires
        outcomes.len() >= 1,
        outcomes[0] is NotStarted,
    ensures
        retry_run(1, outcomes) == (RetryView::NotStarted(outcomes[0]->NotStarted_0@), 0nat),
{
}

} // verus!
