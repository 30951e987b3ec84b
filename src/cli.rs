//! The command line: which command a word vector asks for, and the flags and
//! positional words it carries.
//!
//! A known flag takes the word after it as its value. An unknown word that
//! starts with `-` is skipped, together with the word after it when that
//! word does not start with `-` and enough plain words remain for the
//! positionals the command needs.
use crate::model::{names_view, opt_view, SyncError};
use crate::sync::{scope_spec, sync_scope, SyncScope};
use vstd::prelude::*;
use vstd::string::StrSliceExecFns;

verus! {

pub open spec fn is_flag_word(s: Seq<char>) -> bool {
    s.len() > 0 && s[0] == '-'
}

/// How many words of `args` from `start` on do not start with `-`.
pub open spec fn count_plain(args: Seq<Seq<char>>, start: int) -> nat
    decreases args.len() - start,
{
    if start < 0 || start >= args.len() {
        0
    } else {
        (if is_flag_word(args[start]) { 0nat } else { 1nat }) + count_plain(args, start + 1)
    }
}

/// The first position of `word` among the known flags, or -1.
pub open spec fn slot_spec(known: Seq<Seq<char>>, word: Seq<char>, from: int) -> int
    decreases known.len() - from,
{
    if from < 0 || from >= known.len() {
        -1
    } else if known[from] == word {
        from
    } else {
        slot_spec(known, word, from + 1)
    }
}

/// The scan of `args` from `index` on, given the flag values and positionals
/// found so far. The value of each known flag is the last one given.
pub open spec fn scan(
    args: Seq<Seq<char>>,
    known: Seq<Seq<char>>,
    required: nat,
    index: int,
    values: Seq<Option<Seq<char>>>,
    positionals: Seq<Seq<char>>,
) -> (Seq<Option<Seq<char>>>, Seq<Seq<char>>)
    decreases args.len() - index,
{
    if index < 0 || index >= args.len() {
        (values, positionals)
    } else {
        let word = args[index];
        if !is_flag_word(word) {
            scan(args, known, required, index + 1, values, positionals.push(word))
        } else if slot_spec(known, word, 0) >= 0 {
            if index + 1 < args.len() {
                scan(args, known, required, index + 2,
                    values.update(slot_spec(known, word, 0), Some(args[index + 1])), positionals)
            } else {
                scan(args, known, required, index + 1, values, positionals)
            }
        } else if count_plain(args, index + 1) > required && index + 1 < args.len()
            && !is_flag_word(args[index + 1]) {
            scan(args, known, required, index + 2, values, positionals)
        } else {
            scan(args, known, required, index + 1, values, positionals)
        }
    }
}

pub open spec fn no_values(n: nat) -> Seq<Option<Seq<char>>> {
    Seq::new(n, |i: int| None)
}

/// The flag values (one per known flag, in the order of `known`) and the
/// positional words of a whole word vector.
pub open spec fn parse_spec(args: Seq<Seq<char>>, known: Seq<Seq<char>>, required: nat) -> (
    Seq<Option<Seq<char>>>,
    Seq<Seq<char>>,
) {
    scan(args, known, required, 0, no_values(known.len()), Seq::empty())
}

pub open spec fn values_view(v: Seq<Option<String>>) -> Seq<Option<Seq<char>>> {
    v.map_values(|o: Option<String>| opt_view(o))
}

/// Whether a word starts with `-`.
pub fn is_flag(word: &str) -> (r: bool)
    ensures
        r == is_flag_word(word@),
{
    word.unicode_len() > 0 && word.get_char(0) == '-'
}

/// How many words from `start` on do not start with `-`.
pub fn count_remaining_non_flags(args: &Vec<String>, start: usize) -> (r: usize)
    ensures
        r == count_plain(names_view(args@), start as int),
{
    let ghost words = names_view(args@);
    if start >= args.len() {
        return 0;
    }
    let n: usize = args.len();
    let mut j: usize = n;
    let mut c: usize = 0;
    while j > start
        invariant
            n == args@.len(),
            start <= j <= args@.len(),
            words == names_view(args@),
            c == count_plain(words, j as int),
            c <= args@.len() - j,
        decreases j,
    {
        j = j - 1;
        if !is_flag(args[j].as_str()) {
            c = c + 1;
        }
    }
    c
}

fn slot_of(known: &Vec<String>, word: &String) -> (r: Option<usize>)
    ensures
        match r {
            Some(k) => k < known@.len() && k as int == slot_spec(names_view(known@), word@, 0),
            None => slot_spec(names_view(known@), word@, 0) == -1,
        },
{
    let ghost ks = names_view(known@);
    let mut k: usize = 0;
    while k < known.len()
        invariant
            k <= known@.len(),
            ks == names_view(known@),
            slot_spec(ks, word@, 0) == slot_spec(ks, word@, k as int),
        decreases known@.len() - k,
    {
        if known[k] == *word {
            return Some(k);
        }
        k = k + 1;
    }
    None
}

/// Flag values and positional words of a command's word vector.
#[derive(Clone, Debug)]
pub struct ParsedArgs {
    /// The value of each known flag, in the order the flags were given.
    pub values: Vec<Option<String>>,
    pub positionals: Vec<String>,
}

/// Scans a word vector for the known flags and the positional words.
/// `required` is how many positionals the command needs.
pub fn parse_args(args: &Vec<String>, known_flags: &Vec<String>, required: usize) -> (r: ParsedArgs)
    ensures
        (values_view(r.values@), names_view(r.positionals@))
            == parse_spec(names_view(args@), names_view(known_flags@), required as nat),
        r.values@.len() == known_flags@.len(),
{
    let ghost words = names_view(args@);
    let ghost known = names_view(known_flags@);
    let mut values: Vec<Option<String>> = Vec::new();
    let mut n: usize = 0;
    while n < known_flags.len()
        invariant
            n <= known_flags@.len(),
            values_view(values@) == no_values(n as nat),
        decreases known_flags@.len() - n,
    {
        let ghost before = values@;
        values.push(None);
        assert(values_view(values@) =~= values_view(before).push(None));
        assert(values_view(values@) =~= no_values((n + 1) as nat));
        n = n + 1;
    }
    let mut positionals: Vec<String> = Vec::new();
    assert(names_view(positionals@) =~= Seq::<Seq<char>>::empty());
    let mut index: usize = 0;
    while index < args.len()
        invariant
            index <= args@.len(),
            words == names_view(args@),
            known == names_view(known_flags@),
            values@.len() == known_flags@.len(),
            scan(words, known, required as nat, index as int, values_view(values@), names_view(positionals@))
                == parse_spec(words, known, required as nat),
        decreases args@.len() - index,
    {
        let word = &args[index];
        if is_flag(word.as_str()) {
            match slot_of(known_flags, word) {
                Some(k) => {
                    if index + 1 < args.len() {
                        let ghost before = values@;
                        values[k] = Some(args[index + 1].clone());
                        assert(values_view(values@) =~= values_view(before).update(k as int, Some(words[index + 1])));
                        index = index + 2;
                    } else {
                        index = index + 1;
                    }
                },
                None => {
                    let remaining = count_remaining_non_flags(args, index + 1);
                    if remaining > required && index + 1 < args.len() && !is_flag(args[index + 1].as_str()) {
                        index = index + 2;
                    } else {
                        index = index + 1;
                    }
                },
            }
        } else {
            let ghost before = positionals@;
            positionals.push(word.clone());
            assert(names_view(positionals@) =~= names_view(before).push(words[index as int]));
            index = index + 1;
        }
    }
    ParsedArgs { values, positionals }
}

/// Whether a word is exactly the given text.
pub fn word_is(word: &String, text: &str) -> (r: bool)
    ensures
        r == (word@ == text@),
{
    let n = word.as_str().unicode_len();
    if n != text.unicode_len() {
        return false;
    }
    let mut i: usize = 0;
    while i < n
        invariant
            n == word@.len() == text@.len(),
            i <= n,
            forall|j: int| 0 <= j < i ==> word@[j] == text@[j],
        decreases n - i,
    {
        if word.as_str().get_char(i) != text.get_char(i) {
            return false;
        }
        i = i + 1;
    }
    assert(word@ =~= text@);
    true
}

/// Which command a word vector (without the program name) asks for.
#[derive(Clone, Copy, Debug, PartialEq, Eq, Structural)]
pub enum Route {
    /// `sync ...`
    Sync,
    /// `folder list ...`
    FolderList,
    /// `message read ...`
    MessageRead,
    /// `envelope list ...`
    EnvelopeList,
    /// Anything else goes to the mail agent as it is.
    Passthrough,
}

pub open spec fn word_at_is(args: Seq<Seq<char>>, i: int, text: Seq<char>) -> bool {
    i < args.len() && args[i] == text
}

pub open spec fn route_spec(args: Seq<Seq<char>>) -> Route {
    if word_at_is(args, 0, "sync"@) {
        Route::Sync
    } else if word_at_is(args, 0, "folder"@) && word_at_is(args, 1, "list"@) {
        Route::FolderList
    } else if word_at_is(args, 0, "message"@) && word_at_is(args, 1, "read"@) {
        Route::MessageRead
    } else if word_at_is(args, 0, "envelope"@) && word_at_is(args, 1, "list"@) {
        Route::EnvelopeList
    } else {
        Route::Passthrough
    }
}

/// How many leading words name the command.
pub open spec fn route_words(r: Route) -> nat {
    match r {
        Route::Sync => 1,
        Route::Passthrough => 0,
        _ => 2,
    }
}

fn word_at(args: &Vec<String>, i: usize, text: &str) -> (r: bool)
    ensures
        r == word_at_is(names_view(args@), i as int, text@),
{
    i < args.len() && word_is(&args[i], text)
}

/// Picks the command that a word vector asks for.
pub fn route(args: &Vec<String>) -> (r: Route)
    ensures
        r == route_spec(names_view(args@)),
{
    if word_at(args, 0, "sync") {
        Route::Sync
    } else if word_at(args, 0, "folder") && word_at(args, 1, "list") {
        Route::FolderList
    } else if word_at(args, 0, "message") && word_at(args, 1, "read") {
        Route::MessageRead
    } else if word_at(args, 0, "envelope") && word_at(args, 1, "list") {
        Route::EnvelopeList
    } else {
        Route::Passthrough
    }
}

/// The words of `args` from `start` on; none where `start` is past the end.
pub fn words_from(args: &Vec<String>, start: usize) -> (r: Vec<String>)
    ensures
        start <= args@.len() ==> names_view(r@) == names_view(args@).skip(start as int),
        start > args@.len() ==> r@.len() == 0,
{
    let mut r: Vec<String> = Vec::new();
    if start >= args.len() {
        assert(start <= args@.len() ==> names_view(r@) =~= names_view(args@).skip(start as int));
        return r;
    }
    let mut i: usize = start;
    while i < args.len()
        invariant
            start <= i <= args@.len(),
            names_view(r@) == names_view(args@).subrange(start as int, i as int),
        decreases args@.len() - i,
    {
        let ghost before = r@;
        r.push(args[i].clone());
        assert(names_view(r@) =~= names_view(before).push(args@[i as int]@));
        assert(names_view(r@) =~= names_view(args@).subrange(start as int, i + 1));
        i = i + 1;
    }
    assert(names_view(r@) =~= names_view(args@).skip(start as int));
    r
}

/// A required part of a command that is missing.
#[derive(Clone, Copy, Debug, PartialEq, Eq, Structural)]
pub enum CliError {
    MissingAccount,
    MissingFolder,
    MissingId,
}

impl CliError {
    /// The message shown for this error.
    pub fn message(&self) -> (r: String)
        ensures
            *self == CliError::MissingAccount ==> r@ == "--account is required"@,
            *self == CliError::MissingFolder ==> r@ == "--folder is required"@,
            *self == CliError::MissingId ==> r@ == "message id is required"@,
    {
        match self {
            CliError::MissingAccount => "--account is required".to_owned(),
            CliError::MissingFolder => "--folder is required".to_owned(),
            CliError::MissingId => "message id is required".to_owned(),
        }
    }
}

pub open spec fn account_folder_flags() -> Seq<Seq<char>> {
    seq!["--account"@, "--folder"@]
}

fn account_folder_known() -> (r: Vec<String>)
    ensures
        names_view(r@) == account_folder_flags(),
{
    let r = vec!["--account".to_owned(), "--folder".to_owned()];
    assert(names_view(r@) =~= account_folder_flags());
    r
}

fn value_at(p: &ParsedArgs, k: usize) -> (r: Option<String>)
    requires
        k < p.values@.len(),
    ensures
        opt_view(r) == values_view(p.values@)[k as int],
{
    match &p.values[k] {
        Some(s) => Some(s.clone()),
        None => None,
    }
}

/// The flag values of a command's words, for `--account` and `--folder`.
pub open spec fn account_folder_values(args: Seq<Seq<char>>, required: nat) -> (Option<Seq<char>>, Option<Seq<char>>) {
    let values = parse_spec(args, account_folder_flags(), required).0;
    (values[0], values[1])
}

/// The scope of `sync [--account A] [--folder F]`.
pub fn sync_request(args: &Vec<String>) -> (r: Result<SyncScope, SyncError>)
    ensures
        scope_spec(account_folder_values(names_view(args@), 0).0, account_folder_values(names_view(args@), 0).1, r),
{
    let p = parse_args(args, &account_folder_known(), 0);
    sync_scope(value_at(&p, 0), value_at(&p, 1))
}

/// The account of `folder list --account A`.
pub fn folder_list_request(args: &Vec<String>) -> (r: Result<String, CliError>)
    ensures
        ({
            let values = parse_spec(names_view(args@), seq!["--account"@], 0).0;
            match values[0] {
                Some(a) => r matches Ok(x) && x@ == a,
                None => r == Err::<String, CliError>(CliError::MissingAccount),
            }
        }),
{
    let known = vec!["--account".to_owned()];
    assert(names_view(known@) =~= seq!["--account"@]);
    let p = parse_args(args, &known, 0);
    match value_at(&p, 0) {
        Some(a) => Ok(a),
        None => Err(CliError::MissingAccount),
    }
}

/// The account and folder of a query on one folder.
#[derive(Clone, Debug)]
pub struct FolderQuery {
    pub account: String,
    pub folder: String,
}

/// One message of one folder.
#[derive(Clone, Debug)]
pub struct MessageQuery {
    pub account: String,
    pub folder: String,
    pub id: String,
}

/// The account and folder of `envelope list --account A --folder F`.
pub fn envelope_list_request(args: &Vec<String>) -> (r: Result<FolderQuery, CliError>)
    ensures
        ({
            let (a, f) = account_folder_values(names_view(args@), 0);
            match (a, f) {
                (None, _) => r == Err::<FolderQuery, CliError>(CliError::MissingAccount),
                (Some(_), None) => r == Err::<FolderQuery, CliError>(CliError::MissingFolder),
                (Some(a), Some(f)) => r matches Ok(q) && q.account@ == a && q.folder@ == f,
            }
        }),
{
    let p = parse_args(args, &account_folder_known(), 0);
    let account = match value_at(&p, 0) {
        Some(a) => a,
        None => return Err(CliError::MissingAccount),
    };
    let folder = match value_at(&p, 1) {
        Some(f) => f,
        None => return Err(CliError::MissingFolder),
    };
    Ok(FolderQuery { account, folder })
}

/// The account, folder and id of `message read --account A --folder F <id>`.
/// The id is the first positional word.
pub fn message_read_request(args: &Vec<String>) -> (r: Result<MessageQuery, CliError>)
    ensures
        ({
            let (a, f) = account_folder_values(names_view(args@), 1);
            let ids = parse_spec(names_view(args@), account_folder_flags(), 1).1;
            match (a, f) {
                (None, _) => r == Err::<MessageQuery, CliError>(CliError::MissingAccount),
                (Some(_), None) => r == Err::<MessageQuery, CliError>(CliError::MissingFolder),
                (Some(a), Some(f)) => if ids.len() == 0 {
                    r == Err::<MessageQuery, CliError>(CliError::MissingId)
                } else {
                    r matches Ok(q) && q.account@ == a && q.folder@ == f && q.id@ == ids[0]
                },
            }
        }),
{
    let p = parse_args(args, &account_folder_known(), 1);
    let account = match value_at(&p, 0) {
        Some(a) => a,
        None => return Err(CliError::MissingAccount),
    };
    let folder = match value_at(&p, 1) {
        Some(f) => f,
        None => return Err(CliError::MissingFolder),
    };
    if p.positionals.len() == 0 {
        return Err(CliError::MissingId);
    }
    let id = p.positionals[0].clone();
    Ok(MessageQuery { account, folder, id })
}

} // verus!
