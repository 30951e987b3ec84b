//! The decisions of a sync run.
//!
//! A run walks accounts, then the folders of each account, then the envelopes
//! of each folder. The caller performs each fetch and write; the functions
//! here decide what comes next from what came back, and which failures end the
//! run and which only skip one account, folder or envelope.
use crate::layout::{meta_path_spec, message_path_spec};
use crate::model::{names_view, opt_view, Account, AgentError, Folder, SyncError};
use vstd::prelude::*;

verus! {

/// Which part of the mail store a run covers.
#[derive(Clone, Debug)]
pub enum SyncScope {
    AllAccounts,
    OneAccount(String),
    OneFolder { account: String, folder: String },
}

/// Checks the account and folder a caller asked for. A folder without an
/// account is refused before anything else happens.
pub open spec fn scope_spec(account: Option<Seq<char>>, folder: Option<Seq<char>>, r: Result<SyncScope, SyncError>) -> bool {
    match (account, folder) {
        (None, None) => r matches Ok(SyncScope::AllAccounts),
        (Some(a), None) => r matches Ok(SyncScope::OneAccount(x)) && x@ == a,
        (Some(a), Some(f)) => r matches Ok(SyncScope::OneFolder { account: x, folder: y }) && x@ == a && y@ == f,
        (None, Some(_)) => r matches Err(SyncError::InvalidScope),
    }
}

/// Checks the account and folder a caller asked for. A folder without an
/// account is refused before anything else happens.
pub fn sync_scope(account: Option<String>, folder: Option<String>) -> (r: Result<SyncScope, SyncError>)
    ensures
        scope_spec(opt_view(account), opt_view(folder), r),
        (account is None && folder is Some) <==> r is Err,
{
    match (account, folder) {
        (None, None) => Ok(SyncScope::AllAccounts),
        (Some(a), None) => Ok(SyncScope::OneAccount(a)),
        (Some(a), Some(f)) => Ok(SyncScope::OneFolder { account: a, folder: f }),
        (None, Some(_)) => Err(SyncError::InvalidScope),
    }
}

/// The accounts that the scope names itself; `None` when the account list
/// has to be fetched.
pub fn given_accounts(scope: &SyncScope) -> (r: Option<Vec<String>>)
    ensures
        scope is AllAccounts <==> r is None,
        scope matches SyncScope::OneAccount(a) ==> names_view(r->Some_0@) == seq![a@],
        scope matches SyncScope::OneFolder { account: a, .. } ==> names_view(r->Some_0@) == seq![a@],
{
    match scope {
        SyncScope::AllAccounts => None,
        SyncScope::OneAccount(a) => {
            let v = vec![a.clone()];
            assert(names_view(v@) =~= seq![a@]);
            Some(v)
        },
        SyncScope::OneFolder { account, .. } => {
            let v = vec![account.clone()];
            assert(names_view(v@) =~= seq![account@]);
            Some(v)
        },
    }
}

/// The folders that the scope names itself; `None` when the folder list of
/// each account has to be fetched.
pub fn given_folders(scope: &SyncScope) -> (r: Option<Vec<String>>)
    ensures
        !(scope is OneFolder) <==> r is None,
        scope matches SyncScope::OneFolder { folder: f, .. } ==> names_view(r->Some_0@) == seq![f@],
{
    match scope {
        SyncScope::OneFolder { folder, .. } => {
            let v = vec![folder.clone()];
            assert(names_view(v@) =~= seq![folder@]);
            Some(v)
        },
        _ => None,
    }
}

pub open spec fn account_names_spec(accounts: Seq<Account>) -> Seq<Seq<char>> {
    accounts.map_values(|a: Account| a.name@)
}

pub open spec fn folder_names_spec(folders: Seq<Folder>) -> Seq<Seq<char>> {
    folders.map_values(|f: Folder| f.name@)
}

/// The names of the fetched accounts, in their order. A failed account list
/// ends the run: there is no other source of accounts.
pub fn fetched_account_names(fetched: Result<Vec<Account>, AgentError>) -> (r: Result<Vec<String>, SyncError>)
    ensures
        fetched is Ok <==> r is Ok,
        fetched is Ok ==> names_view(r->Ok_0@) == account_names_spec(fetched->Ok_0@),
        fetched is Err ==> r == Err::<Vec<String>, SyncError>(SyncError::Agent(fetched->Err_0)),
{
    match fetched {
        Ok(accounts) => {
            let mut names: Vec<String> = Vec::new();
            let mut i: usize = 0;
            while i < accounts.len()
                invariant
                    i <= accounts@.len(),
                    names_view(names@) == account_names_spec(accounts@.take(i as int)),
                decreases accounts@.len() - i,
            {
                let ghost old_names = names;
                let n = accounts[i].name.clone();
                assert(n@ == accounts@[i as int].name@);
                names.push(n);
                assert(accounts@.take(i + 1) =~= accounts@.take(i as int).push(accounts@[i as int]));
                assert(names_view(names@) =~= names_view(old_names@).push(n@));
                assert(names_view(names@) =~= account_names_spec(accounts@.take(i + 1)));
                i = i + 1;
            }
            assert(accounts@.take(i as int) =~= accounts@);
            Ok(names)
        },
        Err(e) => Err(SyncError::Agent(e)),
    }
}

/// What becomes of one account once its folder list came back.
#[derive(Clone, Debug)]
pub enum FolderPlan {
    /// Sync these folders, in this order.
    Sync(Vec<String>),
    /// Skip this account with a warning; the run goes on.
    SkipAccount(AgentError),
}

/// The folders of one account, from its own fetched folder list alone. A
/// failed fetch skips this account and no other.
pub fn fetched_folder_names(fetched: Result<Vec<Folder>, AgentError>) -> (r: FolderPlan)
    ensures
        fetched is Ok <==> r is Sync,
        fetched is Ok ==> names_view(r->Sync_0@) == folder_names_spec(fetched->Ok_0@),
        fetched is Err ==> r == FolderPlan::SkipAccount(fetched->Err_0),
{
    match fetched {
        Ok(folders) => {
            let mut names: Vec<String> = Vec::new();
            let mut i: usize = 0;
            while i < folders.len()
                invariant
                    i <= folders@.len(),
                    names_view(names@) == folder_names_spec(folders@.take(i as int)),
                decreases folders@.len() - i,
            {
                let ghost old_names = names;
                let n = folders[i].name.clone();
                assert(n@ == folders@[i as int].name@);
                names.push(n);
                assert(folders@.take(i + 1) =~= folders@.take(i as int).push(folders@[i as int]));
                assert(names_view(names@) =~= names_view(old_names@).push(n@));
                assert(names_view(names@) =~= folder_names_spec(folders@.take(i + 1)));
                i = i + 1;
            }
            assert(folders@.take(i as int) =~= folders@);
            FolderPlan::Sync(names)
        },
        Err(e) => FolderPlan::SkipAccount(e),
    }
}

/// The next step for one envelope, once its metadata write has been tried.
#[derive(Clone, Copy, Debug, PartialEq, Eq, Structural)]
pub enum EnvelopeStep {
    /// The metadata could not be written: warn, and leave the body alone.
    SkipAfterMetaFailure,
    /// The body is in the cache already: it is never fetched again.
    AlreadyCached,
    /// Fetch the body and write it.
    FetchBody,
}

pub open spec fn envelope_step_spec(meta_written: bool, body_present: bool) -> EnvelopeStep {
    if !meta_written {
        EnvelopeStep::SkipAfterMetaFailure
    } else if body_present {
        EnvelopeStep::AlreadyCached
    } else {
        EnvelopeStep::FetchBody
    }
}

/// Decides the step for one envelope from whether its metadata was written
/// and whether its body file already exists.
pub fn envelope_step(meta_written: bool, body_present: bool) -> (r: EnvelopeStep)
    ensures
        r == envelope_step_spec(meta_written, body_present),
        r == EnvelopeStep::FetchBody <==> (meta_written && !body_present),
{
    if !meta_written {
        EnvelopeStep::SkipAfterMetaFailure
    } else if body_present {
        EnvelopeStep::AlreadyCached
    } else {
        EnvelopeStep::FetchBody
    }
}

/// The cache as files: each path, as components under the root, to its bytes.
pub type CacheModel = Map<Seq<Seq<char>>, Seq<u8>>;

/// The work on one envelope, as it turned out: its id, the bytes of its
/// metadata record, whether that record was written, and the body that a
/// fetch and write would store (`None` where either fails).
pub struct EnvelopeWork {
    pub id: Seq<char>,
    pub meta: Seq<u8>,
    pub meta_written: bool,
    pub body: Option<Seq<u8>>,
}

/// The cache after the work on one envelope of `account`/`folder`: the
/// metadata record is replaced, and the body is stored only where none is.
pub open spec fn apply_envelope(c: CacheModel, account: Seq<char>, folder: Seq<char>, w: EnvelopeWork) -> CacheModel {
    if !w.meta_written {
        c
    } else {
        let c1 = c.insert(meta_path_spec(account, folder, w.id), w.meta);
        let body_path = message_path_spec(account, folder, w.id);
        match envelope_step_spec(true, c1.contains_key(body_path)) {
            EnvelopeStep::FetchBody => match w.body {
                Some(b) => c1.insert(body_path, b),
                None => c1,
            },
            _ => c1,
        }
    }
}

/// The cache after the work on every envelope of `ws`, in that order.
pub open spec fn apply_all(c: CacheModel, account: Seq<char>, folder: Seq<char>, ws: Seq<EnvelopeWork>) -> CacheModel
    decreases ws.len(),
{
    if ws.len() == 0 {
        c
    } else {
        apply_envelope(apply_all(c, account, folder, ws.drop_last()), account, folder, ws.last())
    }
}

pub open spec fn distinct_ids(ws: Seq<EnvelopeWork>) -> bool {
    forall|i: int, j: int| 0 <= i < j < ws.len() ==> ws[i].id != ws[j].id
}

proof fn lemma_suffix_injective(a: Seq<char>, b: Seq<char>, s: Seq<char>)
    requires
        a + s == b + s,
    ensures
        a == b,
{
    assert((a + s).len() == (b + s).len());
    assert(a =~= (a + s).subrange(0, a.len() as int));
    assert(b =~= (b + s).subrange(0, b.len() as int));
}

proof fn lemma_paths_distinct(account: Seq<char>, folder: Seq<char>, x: Seq<char>, y: Seq<char>)
    ensures
        meta_path_spec(account, folder, x) != message_path_spec(account, folder, y),
        x != y ==> meta_path_spec(account, folder, x) != meta_path_spec(account, folder, y),
        x != y ==> message_path_spec(account, folder, x) != message_path_spec(account, folder, y),
{
    reveal_strlit("meta");
    reveal_strlit("messages");
    assert(meta_path_spec(account, folder, x)[0] == "meta"@);
    assert(message_path_spec(account, folder, y)[0] == "messages"@);
    assert("meta"@.len() != "messages"@.len());
    if x != y {
        if meta_path_spec(account, folder, x) == meta_path_spec(account, folder, y) {
            assert(meta_path_spec(account, folder, x)[3] == meta_path_spec(account, folder, y)[3]);
            lemma_suffix_injective(x, y, ".json"@);
        }
        if message_path_spec(account, folder, x) == message_path_spec(account, folder, y) {
            assert(message_path_spec(account, folder, x)[3] == message_path_spec(account, folder, y)[3]);
            lemma_suffix_injective(x, y, ".eml"@);
        }
    }
}

proof fn lemma_commute(c: CacheModel, account: Seq<char>, folder: Seq<char>, w1: EnvelopeWork, w2: EnvelopeWork)
    requires
        w1.id != w2.id,
    ensures
        apply_envelope(apply_envelope(c, account, folder, w1), account, folder, w2)
            == apply_envelope(apply_envelope(c, account, folder, w2), account, folder, w1),
{
    lemma_paths_distinct(account, folder, w1.id, w2.id);
    lemma_paths_distinct(account, folder, w2.id, w1.id);
    lemma_paths_distinct(account, folder, w1.id, w1.id);
    lemma_paths_distinct(account, folder, w2.id, w2.id);
    assert(apply_envelope(apply_envelope(c, account, folder, w1), account, folder, w2)
        =~= apply_envelope(apply_envelope(c, account, folder, w2), account, folder, w1));
}

proof fn lemma_move_to_end(c: CacheModel, account: Seq<char>, folder: Seq<char>, s: Seq<EnvelopeWork>, k: int, w: EnvelopeWork)
    requires
        0 <= k <= s.len(),
        forall|i: int| 0 <= i < s.len() ==> s[i].id != w.id,
    ensures
        apply_all(c, account, folder, s.insert(k, w)) == apply_envelope(apply_all(c, account, folder, s), account, folder, w),
    decreases s.len() - k,
{
    if k == s.len() {
        assert(s.insert(k, w).drop_last() =~= s);
    } else {
        let t = s.insert(k, w);
        assert(t.last() == s.last());
        assert(t.drop_last() =~= s.drop_last().insert(k, w));
        lemma_move_to_end(c, account, folder, s.drop_last(), k, w);
        lemma_commute(apply_all(c, account, folder, s.drop_last()), account, folder, w, s.last());
    }
}

/// Order independence: for the envelopes of one folder, whose ids are
/// distinct, any order of the work yields the same cache.
pub proof fn lemma_order_independent(c: CacheModel, account: Seq<char>, folder: Seq<char>, ws: Seq<EnvelopeWork>, vs: Seq<EnvelopeWork>)
    requires
        distinct_ids(ws),
        distinct_ids(vs),
        ws.to_multiset() == vs.to_multiset(),
    ensures
        apply_all(c, account, folder, ws) == apply_all(c, account, folder, vs),
    decreases ws.len(),
{
    broadcast use vstd::seq_lib::group_to_multiset_ensures;
    if ws.len() == 0 {
        assert(vs.to_multiset().len() == 0);
        assert(vs.len() == 0);
    } else {
        let w = ws.last();
        assert(ws.to_multiset().count(w) > 0) by {
            assert(ws.contains(w)) by { assert(ws[ws.len() - 1] == w); }
        }
        assert(vs.contains(w));
        let k = choose|k: int| 0 <= k < vs.len() && vs[k] == w;
        let rest = vs.remove(k);
        assert(rest.insert(k, w) =~= vs);
        assert(ws.drop_last().push(w) =~= ws);
        assert(rest.to_multiset() == vs.to_multiset().remove(w));
        assert(ws.drop_last().to_multiset() == ws.to_multiset().remove(w)) by {
            assert(ws.to_multiset() == ws.drop_last().to_multiset().insert(w)) by {
                vstd::seq_lib::to_multiset_build(ws.drop_last(), w);
            }
        }
        assert forall|i: int, j: int| 0 <= i < j < rest.len() implies rest[i].id != rest[j].id by {
            let a = if i < k { i } else { i + 1 };
            let b = if j < k { j } else { j + 1 };
            assert(rest[i] == vs[a] && rest[j] == vs[b]);
        }
        assert forall|i: int| 0 <= i < rest.len() implies rest[i].id != w.id by {
            let a = if i < k { i } else { i + 1 };
            assert(rest[i] == vs[a]);
        }
        lemma_order_independent(c, account, folder, ws.drop_last(), rest);
        lemma_move_to_end(c, account, folder, rest, k, w);
    }
}

/// A cached body is never fetched again nor changed, whatever later work on
/// the folder's envelopes brings.
pub proof fn lemma_cached_body_kept(c: CacheModel, account: Seq<char>, folder: Seq<char>, ws: Seq<EnvelopeWork>, id: Seq<char>)
    requires
        c.contains_key(message_path_spec(account, folder, id)),
    ensures
        apply_all(c, account, folder, ws).contains_key(message_path_spec(account, folder, id)),
        apply_all(c, account, folder, ws)[message_path_spec(account, folder, id)] == c[message_path_spec(account, folder, id)],
        envelope_step_spec(true, apply_all(c, account, folder, ws).contains_key(message_path_spec(account, folder, id)))
            != EnvelopeStep::FetchBody,
    decreases ws.len(),
{
    if ws.len() > 0 {
        lemma_cached_body_kept(c, account, folder, ws.drop_last(), id);
        lemma_paths_distinct(account, folder, ws.last().id, id);
    }
}

/// After a run over a folder, the body of every envelope whose metadata was
/// written and whose body fetch and write did not fail is in the cache.
pub proof fn lemma_bodies_present(c: CacheModel, account: Seq<char>, folder: Seq<char>, ws: Seq<EnvelopeWork>, i: int)
    requires
        0 <= i < ws.len(),
        ws[i].meta_written,
        ws[i].body is Some,
    ensures
        apply_all(c, account, folder, ws).contains_key(message_path_spec(account, folder, ws[i].id)),
    decreases ws.len(),
{
    let p = message_path_spec(account, folder, ws[i].id);
    if i < ws.len() - 1 {
        lemma_bodies_present(c, account, folder, ws.drop_last(), i);
        lemma_cached_body_kept(apply_all(c, account, folder, ws.drop_last()), account, folder, seq![ws.last()], ws[i].id);
        assert(seq![ws.last()].drop_last() =~= Seq::<EnvelopeWork>::empty());
    }
}

/// The folders one account contributes to a run, as (account, folder) pairs.
pub open spec fn account_units(account: Seq<char>, plan: FolderPlan) -> Seq<(Seq<char>, Seq<char>)> {
    match plan {
        FolderPlan::Sync(folders) => names_view(folders@).map_values(|f: Seq<char>| (account, f)),
        FolderPlan::SkipAccount(_) => Seq::empty(),
    }
}

/// The (account, folder) pairs a run works on, in order, given each account
/// and the plan its own folder list led to.
pub open spec fn run_units(accounts: Seq<Seq<char>>, plans: Seq<FolderPlan>) -> Seq<(Seq<char>, Seq<char>)>
    decreases accounts.len(),
{
    if accounts.len() == 0 || plans.len() == 0 {
        Seq::empty()
    } else {
        account_units(accounts[0], plans[0]) + run_units(accounts.drop_first(), plans.drop_first())
    }
}

/// Partial failure stays partial: every folder of an account whose folder
/// list was fetched is worked on, whatever became of the other accounts.
pub proof fn lemma_account_isolation(accounts: Seq<Seq<char>>, plans: Seq<FolderPlan>, i: int, j: int)
    requires
        accounts.len() == plans.len(),
        0 <= i < accounts.len(),
        plans[i] is Sync,
        0 <= j < plans[i]->Sync_0@.len(),
    ensures
        run_units(accounts, plans).contains((accounts[i], plans[i]->Sync_0@[j]@)),
    decreases i,
{
    let pair = (accounts[i], plans[i]->Sync_0@[j]@);
    if i == 0 {
        let own = account_units(accounts[0], plans[0]);
        assert(own[j] == pair);
        assert((own + run_units(accounts.drop_first(), plans.drop_first()))[j] == pair);
    } else {
        lemma_account_isolation(accounts.drop_first(), plans.drop_first(), i - 1, j);
        let own = account_units(accounts[0], plans[0]);
        let rest = run_units(accounts.drop_first(), plans.drop_first());
        let k = choose|k: int| 0 <= k < rest.len() && rest[k] == pair;
        assert((own + rest)[own.len() + k] == pair);
    }
}

/// A run's tally, one unit of work at a time.
#[derive(Clone, Copy, Debug, PartialEq, Eq, Structural)]
pub struct SyncSummary {
    /// Accounts skipped because their folder list could not be fetched.
    pub accounts_skipped: u64,
    /// Folders skipped because their envelope list could not be fetched.
    pub folders_skipped: u64,
    /// Envelopes handled, whether or not their work succeeded.
    pub envelopes_done: u64,
    /// Envelopes whose metadata or body could not be stored.
    pub envelopes_failed: u64,
    /// Bodies fetched and stored by this run.
    pub bodies_fetched: u64,
}

/// How the work on one envelope ended.
#[derive(Clone, Copy, Debug, PartialEq, Eq, Structural)]
pub enum EnvelopeOutcome {
    MetaWriteFailed,
    AlreadyCached,
    BodyFetchFailed,
    BodyWriteFailed,
    BodyStored,
}

impl SyncSummary {
    pub open spec fn new_spec() -> SyncSummary {
        SyncSummary { accounts_skipped: 0, folders_skipped: 0, envelopes_done: 0, envelopes_failed: 0, bodies_fetched: 0 }
    }

    /// A tally with nothing counted.
    pub fn new() -> (r: SyncSummary)
        ensures
            r == SyncSummary::new_spec(),
    {
        SyncSummary { accounts_skipped: 0, folders_skipped: 0, envelopes_done: 0, envelopes_failed: 0, bodies_fetched: 0 }
    }

    /// Counts an account skipped after its folder list failed.
    pub fn skip_account(&mut self)
        ensures
            *final(self) == (SyncSummary { accounts_skipped: old(self).accounts_skipped.saturating_add(1), ..*old(self) }),
    {
        self.accounts_skipped = self.accounts_skipped.saturating_add(1);
    }

    /// Counts a folder skipped after its envelope list failed.
    pub fn skip_folder(&mut self)
        ensures
            *final(self) == (SyncSummary { folders_skipped: old(self).folders_skipped.saturating_add(1), ..*old(self) }),
    {
        self.folders_skipped = self.folders_skipped.saturating_add(1);
    }

    /// Counts one envelope: it is done whether its work succeeded or not.
    pub fn record(&mut self, outcome: EnvelopeOutcome)
        ensures
            final(self).envelopes_done == old(self).envelopes_done.saturating_add(1),
            final(self).envelopes_failed == if outcome == EnvelopeOutcome::MetaWriteFailed
                || outcome == EnvelopeOutcome::BodyFetchFailed || outcome == EnvelopeOutcome::BodyWriteFailed {
                old(self).envelopes_failed.saturating_add(1)
            } else {
                old(self).envelopes_failed
            },
            final(self).bodies_fetched == if outcome == EnvelopeOutcome::BodyStored {
                old(self).bodies_fetched.saturating_add(1)
            } else {
                old(self).bodies_fetched
            },
            final(self).accounts_skipped == old(self).accounts_skipped,
            final(self).folders_skipped == old(self).folders_skipped,
    {
        self.envelopes_done = self.envelopes_done.saturating_add(1);
        match outcome {
            EnvelopeOutcome::MetaWriteFailed | EnvelopeOutcome::BodyFetchFailed | EnvelopeOutcome::BodyWriteFailed => {
                self.envelopes_failed = self.envelopes_failed.saturating_add(1);
            },
            EnvelopeOutcome::BodyStored => {
                self.bodies_fetched = self.bodies_fetched.saturating_add(1);
            },
            EnvelopeOutcome::AlreadyCached => {},
        }
    }
}

/// The next thing a run asks its caller to do.
#[derive(Clone, Debug)]
pub enum SyncAction {
    /// Fetch the account list, store it, and report it with `accounts_fetched`.
    FetchAccounts,
    /// Fetch this account's folder list, store it, and report it with `folders_fetched`.
    FetchFolders(String),
    /// Fetch the envelope list of this account and folder, store it, and work
    /// on each envelope; then ask for the next action.
    SyncFolder { account: String, folder: String },
    /// The run is over.
    Finish,
}

/// A sync run in progress: the accounts still to visit, the current account,
/// and the folders of it still to visit.
pub struct SyncRun {
    pub scope: SyncScope,
    pub accounts_left: Vec<String>,
    pub account: String,
    pub folders_left: Vec<String>,
    pub summary: SyncSummary,
}

pub open spec fn pinned_folder(scope: SyncScope) -> Option<Seq<char>> {
    match scope {
        SyncScope::OneFolder { folder, .. } => Some(folder@),
        _ => None,
    }
}

impl SyncRun {
    /// Starts a run over `scope`, with the first action. A scope that names
    /// an account visits it without fetching the account list; one that also
    /// names a folder visits that folder without fetching the folder list.
    pub fn start(scope: SyncScope) -> (r: (SyncRun, SyncAction))
        ensures
            r.0.scope == scope,
            r.0.summary == SyncSummary::new_spec(),
            r.0.folders_left@.len() == 0,
            r.0.accounts_left@.len() == 0,
            scope is AllAccounts ==> r.1 is FetchAccounts,
            scope matches SyncScope::OneAccount(a) ==> (r.1 matches SyncAction::FetchFolders(x) && x@ == a@
                && r.0.account@ == a@),
            scope matches SyncScope::OneFolder { account: a, folder: f } ==> (
                r.1 matches SyncAction::SyncFolder { account: x, folder: y } && x@ == a@ && y@ == f@
                && r.0.account@ == a@),
    {
        let accounts_left = match given_accounts(&scope) {
            Some(names) => names,
            None => Vec::new(),
        };
        assert(names_view(accounts_left@).len() == accounts_left@.len());
        let mut run = SyncRun {
            scope,
            accounts_left,
            account: String::new(),
            folders_left: Vec::new(),
            summary: SyncSummary::new(),
        };
        if run.accounts_left.len() == 0 {
            return (run, SyncAction::FetchAccounts);
        }
        assert(run.accounts_left@[0]@ == names_view(run.accounts_left@)[0]);
        let action = run.next_action();
        (run, action)
    }

    /// Takes the fetched account list. A failure ends the run with that error.
    pub fn accounts_fetched(&mut self, fetched: Result<Vec<Account>, AgentError>) -> (r: Result<(), SyncError>)
        ensures
            fetched is Ok <==> r is Ok,
            fetched is Err ==> r == Err::<(), SyncError>(SyncError::Agent(fetched->Err_0)),
            fetched is Ok ==> names_view(final(self).accounts_left@) == account_names_spec(fetched->Ok_0@),
            final(self).scope == old(self).scope,
            final(self).folders_left == old(self).folders_left,
            final(self).summary == old(self).summary,
    {
        match fetched_account_names(fetched) {
            Ok(names) => {
                self.accounts_left = names;
                Ok(())
            },
            Err(e) => Err(e),
        }
    }

    /// Takes the fetched folder list of the current account. A failure skips
    /// that account alone: no folder of it is visited.
    pub fn folders_fetched(&mut self, fetched: Result<Vec<Folder>, AgentError>) -> (r: FolderPlan)
        ensures
            fetched is Ok <==> r is Sync,
            fetched is Ok ==> names_view(final(self).folders_left@) == folder_names_spec(fetched->Ok_0@),
            fetched is Ok ==> final(self).summary == old(self).summary,
            fetched is Err ==> final(self).folders_left@.len() == 0,
            fetched is Err ==> final(self).summary == (SyncSummary {
                accounts_skipped: old(self).summary.accounts_skipped.saturating_add(1),
                ..old(self).summary
            }),
            final(self).scope == old(self).scope,
            final(self).accounts_left == old(self).accounts_left,
            final(self).account == old(self).account,
    {
        let plan = fetched_folder_names(fetched);
        match &plan {
            FolderPlan::Sync(names) => {
                self.folders_left = names.clone();
            },
            FolderPlan::SkipAccount(_) => {
                self.folders_left = Vec::new();
                self.summary.skip_account();
            },
        }
        plan
    }

    /// The next action: the next folder of the current account; else the
    /// next account, whose folders are the pinned one or have to be fetched;
    /// else the end of the run.
    pub fn next_action(&mut self) -> (r: SyncAction)
        ensures
            final(self).scope == old(self).scope,
            final(self).summary == old(self).summary,
            old(self).folders_left@.len() > 0 ==> (r matches SyncAction::SyncFolder { account: a, folder: f }
                && a@ == old(self).account@ && f@ == old(self).folders_left@[0]@
                && final(self).folders_left@ == old(self).folders_left@.drop_first()
                && final(self).accounts_left == old(self).accounts_left
                && final(self).account@ == old(self).account@),
            old(self).folders_left@.len() == 0 && old(self).accounts_left@.len() > 0 ==> (
                final(self).account@ == old(self).accounts_left@[0]@
                && final(self).accounts_left@ == old(self).accounts_left@.drop_first()
                && final(self).folders_left@.len() == 0
                && match pinned_folder(old(self).scope) {
                    Some(f) => r matches SyncAction::SyncFolder { account: a, folder: g }
                        && a@ == old(self).accounts_left@[0]@ && g@ == f,
                    None => r matches SyncAction::FetchFolders(a) && a@ == old(self).accounts_left@[0]@,
                }),
            old(self).folders_left@.len() == 0 && old(self).accounts_left@.len() == 0 ==> (r is Finish
                && final(self).accounts_left == old(self).accounts_left
                && final(self).folders_left == old(self).folders_left),
    {
        if self.folders_left.len() > 0 {
            let folder = self.folders_left.remove(0);
            return SyncAction::SyncFolder { account: self.account.clone(), folder };
        }
        if self.accounts_left.len() == 0 {
            return SyncAction::Finish;
        }
        let account = self.accounts_left.remove(0);
        self.account = account.clone();
        match given_folders(&self.scope) {
            Some(names) => {
                assert(names_view(names@).len() == names@.len());
                assert(names@[0]@ == names_view(names@)[0]);
                let folder = names[0].clone();
                SyncAction::SyncFolder { account, folder }
            },
            None => SyncAction::FetchFolders(account),
        }
    }

    /// Counts a folder whose envelope list could not be fetched.
    pub fn folder_skipped(&mut self)
        ensures
            final(self).summary == (SyncSummary {
                folders_skipped: old(self).summary.folders_skipped.saturating_add(1),
                ..old(self).summary
            }),
            final(self).scope == old(self).scope,
            final(self).accounts_left == old(self).accounts_left,
            final(self).folders_left == old(self).folders_left,
            final(self).account == old(self).account,
    {
        self.summary.skip_folder();
    }

    /// Counts one envelope of the current folder, however its work ended.
    pub fn envelope_done(&mut self, outcome: EnvelopeOutcome)
        ensures
            final(self).summary.envelopes_done == old(self).summary.envelopes_done.saturating_add(1),
            final(self).summary.envelopes_failed == if outcome == EnvelopeOutcome::MetaWriteFailed
                || outcome == EnvelopeOutcome::BodyFetchFailed || outcome == EnvelopeOutcome::BodyWriteFailed {
                old(self).summary.envelopes_failed.saturating_add(1)
            } else {
                old(self).summary.envelopes_failed
            },
            final(self).summary.bodies_fetched == if outcome == EnvelopeOutcome::BodyStored {
                old(self).summary.bodies_fetched.saturating_add(1)
            } else {
                old(self).summary.bodies_fetched
            },
            final(self).summary.accounts_skipped == old(self).summary.accounts_skipped,
            final(self).summary.folders_skipped == old(self).summary.folders_skipped,
            final(self).scope == old(self).scope,
            final(self).accounts_left == old(self).accounts_left,
            final(self).folders_left == old(self).folders_left,
            final(self).account == old(self).account,
    {
        self.summary.record(outcome);
    }
}

} // verus!
