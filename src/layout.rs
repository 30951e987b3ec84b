//! Where each cached entity lives under the cache root.
//!
//! A path is a sequence of components relative to the root; joining them is
//! left to the caller.
use crate::model::names_view;
use vstd::prelude::*;
use vstd::string::StringExecFns;

verus! {

pub open spec fn json_name(stem: Seq<char>) -> Seq<char> {
    stem + ".json"@
}

pub open spec fn eml_name(stem: Seq<char>) -> Seq<char> {
    stem + ".eml"@
}

pub open spec fn accounts_path_spec() -> Seq<Seq<char>> {
    seq!["accounts.json"@]
}

pub open spec fn folders_path_spec(account: Seq<char>) -> Seq<Seq<char>> {
    seq!["folders"@, json_name(account)]
}

pub open spec fn envelopes_path_spec(account: Seq<char>, folder: Seq<char>) -> Seq<Seq<char>> {
    seq!["envelopes"@, account, json_name(folder)]
}

pub open spec fn meta_dir_spec(account: Seq<char>, folder: Seq<char>) -> Seq<Seq<char>> {
    seq!["meta"@, account, folder]
}

pub open spec fn meta_path_spec(account: Seq<char>, folder: Seq<char>, id: Seq<char>) -> Seq<Seq<char>> {
    meta_dir_spec(account, folder).push(json_name(id))
}

pub open spec fn message_path_spec(account: Seq<char>, folder: Seq<char>, id: Seq<char>) -> Seq<Seq<char>> {
    seq!["messages"@, account, folder, eml_name(id)]
}

fn with_suffix(stem: &str, suffix: &str) -> (r: String)
    ensures
        r@ == stem@ + suffix@,
{
    let s = stem.to_owned();
    s.concat(suffix)
}

/// The account list: `accounts.json`.
pub fn accounts_path() -> (r: Vec<String>)
    ensures
        names_view(r@) == accounts_path_spec(),
{
    let r = vec!["accounts.json".to_owned()];
    assert(names_view(r@) =~= accounts_path_spec());
    r
}

/// The folder list of one account: `folders/<account>.json`.
pub fn folders_path(account: &str) -> (r: Vec<String>)
    ensures
        names_view(r@) == folders_path_spec(account@),
{
    let r = vec!["folders".to_owned(), with_suffix(account, ".json")];
    assert(names_view(r@) =~= folders_path_spec(account@));
    r
}

/// The envelope list snapshot of one folder: `envelopes/<account>/<folder>.json`.
pub fn envelopes_path(account: &str, folder: &str) -> (r: Vec<String>)
    ensures
        names_view(r@) == envelopes_path_spec(account@, folder@),
{
    let r = vec!["envelopes".to_owned(), account.to_owned(), with_suffix(folder, ".json")];
    assert(names_view(r@) =~= envelopes_path_spec(account@, folder@));
    r
}

/// The directory of one folder's metadata files: `meta/<account>/<folder>`.
pub fn meta_dir(account: &str, folder: &str) -> (r: Vec<String>)
    ensures
        names_view(r@) == meta_dir_spec(account@, folder@),
{
    let r = vec!["meta".to_owned(), account.to_owned(), folder.to_owned()];
    assert(names_view(r@) =~= meta_dir_spec(account@, folder@));
    r
}

/// The metadata record of one envelope: `meta/<account>/<folder>/<id>.json`.
pub fn meta_path(account: &str, folder: &str, id: &str) -> (r: Vec<String>)
    ensures
        names_view(r@) == meta_path_spec(account@, folder@, id@),
{
    let mut r = meta_dir(account, folder);
    r.push(with_suffix(id, ".json"));
    assert(names_view(r@) =~= meta_path_spec(account@, folder@, id@));
    r
}

/// The message body of one envelope: `messages/<account>/<folder>/<id>.eml`.
pub fn message_path(account: &str, folder: &str, id: &str) -> (r: Vec<String>)
    ensures
        names_view(r@) == message_path_spec(account@, folder@, id@),
{
    let r = vec!["messages".to_owned(), account.to_owned(), folder.to_owned(), with_suffix(id, ".eml")];
    assert(names_view(r@) =~= message_path_spec(account@, folder@, id@));
    r
}

} // verus!
