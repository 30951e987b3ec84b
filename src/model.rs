//! The records kept in the cache, and the errors of the library.
use vstd::prelude::*;

verus! {

/// The view of a list of strings: one character sequence per string.
pub open spec fn names_view(v: Seq<String>) -> Seq<Seq<char>> {
    v.map_values(|s: String| s@)
}

/// The view of an optional string.
pub open spec fn opt_view(o: Option<String>) -> Option<Seq<char>> {
    match o {
        Some(s) => Some(s@),
        None => None,
    }
}

/// One account known to the mail agent.
#[derive(Clone, Debug)]
pub struct Account {
    pub name: String,
    pub backend: Option<String>,
    pub default: Option<bool>,
}

/// One folder of an account.
#[derive(Clone, Debug)]
pub struct Folder {
    pub name: String,
    pub desc: Option<String>,
}

/// A sender or recipient of a message.
#[derive(Clone, Debug)]
pub struct Contact {
    pub name: Option<String>,
    pub addr: Option<String>,
}

/// The metadata of one message, without its body.
#[derive(Clone, Debug)]
pub struct Envelope {
    pub id: String,
    pub flags: Option<Vec<String>>,
    pub subject: Option<String>,
    pub from: Option<Contact>,
    pub to: Option<Contact>,
    pub date: Option<String>,
    pub has_attachment: Option<bool>,
}

/// What went wrong when the mail agent was asked for something.
#[derive(Clone, Debug)]
pub enum AgentError {
    /// The agent could not be started at all; never retried.
    Launch(String),
    /// The agent ran and failed on every attempt; holds the last error output, trimmed.
    Command(String),
    /// The agent's output was not what the call expects.
    Decode(String),
}

/// Why a sync run, or one step of it, failed.
#[derive(Clone, Debug)]
pub enum SyncError {
    /// A folder was named without an account.
    InvalidScope,
    /// A call into the mail agent failed.
    Agent(AgentError),
    /// A file of the cache could not be written or read.
    CacheIo { path: Vec<String>, cause: String },
}

} // verus!
