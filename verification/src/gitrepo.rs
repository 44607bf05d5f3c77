//! The repository inspector: version-control state of a local checkout.
//!
//! Every call into the version-control library stands behind a small trusted
//! wrapper returning plain values; what can be checked — error mapping, the
//! revspec built for a subpath, the choice of remote — is verified.

use crate::error::KraitError;
use crate::generate::{is_supported_remote, select_remote, select_remote_url};
use vstd::prelude::*;

verus! {

#[verifier::external_type_specification]
#[verifier::external_body]
pub struct ExRepository(git2::Repository);

#[verifier::external_type_specification]
#[verifier::external_body]
pub struct ExOid(git2::Oid);

/// Relies on `git2::Repository::discover`: opens the repository that
/// contains the given path, or reports why there is none.
#[verifier::external_body]
fn git_discover(path: &str) -> (r: Result<git2::Repository, String>) {
    git2::Repository::discover(path).map_err(|e| e.message().to_string())
}

/// Relies on `git2::Repository::{head_detached, head}` and
/// `git2::Reference::shorthand`: the current branch's short name, or none
/// when the head is detached.
#[verifier::external_body]
fn git_branch_name(repo: &git2::Repository) -> (r: Result<Option<String>, String>) {
    match repo.head_detached() {
        Ok(true) => return Ok(None),
        Ok(false) => {},
        Err(e) => return Err(e.message().to_string()),
    }
    match repo.head().and_then(|h| h.shorthand().map(|s| s.to_string())) {
        Ok(name) => Ok(Some(name)),
        Err(e) => Err(e.message().to_string()),
    }
}

/// Relies on `git2::Repository::head`, `git2::Reference::peel_to_commit`,
/// `git2::Commit::{id, time}`: the head commit's id and timestamp in seconds.
#[verifier::external_body]
fn git_head_commit(repo: &git2::Repository) -> (r: Result<(String, i64), String>) {
    match repo.head().and_then(|h| h.peel_to_commit()) {
        Ok(c) => Ok((c.id().to_string(), c.time().seconds())),
        Err(e) => Err(e.message().to_string()),
    }
}

/// Relies on `git2::Repository::find_commit`, `git2::Commit::{tree,
/// parents}` and `git2::Tree::get_path`: whether the commit holds an entry
/// at the subpath that differs from every parent's entry there.
#[verifier::external_body]
fn git_commit_touches(repo: &git2::Repository, oid: git2::Oid, subpath: &str) -> (r: Result<
    bool,
    String,
>) {
    let path = std::path::Path::new(subpath);
    let commit = match repo.find_commit(oid) {
        Ok(c) => c,
        Err(e) => return Err(e.message().to_string()),
    };
    let id = commit.tree().ok().and_then(|t| t.get_path(path).ok()).map(|e| e.id());
    if id.is_none() {
        return Ok(false);
    }
    for p in commit.parents() {
        if p.tree().ok().and_then(|t| t.get_path(path).ok()).map(|e| e.id()) == id {
            return Ok(false);
        }
    }
    Ok(true)
}

/// Relies on `git2::Revwalk` pushed at the head, in time order: the id of
/// the newest commit whose tree entry at the subpath differs from all of its
/// parents' — the commit that last touched the subpath — or none when no
/// commit holds the subpath.
#[verifier::external_body]
fn git_last_commit_for_path(repo: &git2::Repository, subpath: &str) -> (r: Result<
    Option<String>,
    String,
>) {
    let mut walk = match repo.revwalk() {
        Ok(w) => w,
        Err(e) => return Err(e.message().to_string()),
    };
    if let Err(e) = walk.push_head().and_then(|_| walk.set_sorting(git2::Sort::TIME)) {
        return Err(e.message().to_string());
    }
    for oid in walk.flatten() {
        match git_commit_touches(repo, oid, subpath) {
            Ok(true) => return Ok(Some(oid.to_string())),
            Ok(false) => {},
            Err(e) => return Err(e),
        }
    }
    Ok(None)
}

/// Relies on `git2::Repository::remotes`: the configured remote names.
#[verifier::external_body]
fn git_remote_names(repo: &git2::Repository) -> (r: Result<Vec<String>, String>) {
    match repo.remotes() {
        Ok(names) => Ok(
            names.iter().filter_map(|s| s.ok().flatten().map(|x| x.to_string())).collect(),
        ),
        Err(e) => Err(e.message().to_string()),
    }
}

/// Relies on `git2::Repository::find_remote` and `git2::Remote::url`: the
/// URL a remote name is configured with.
#[verifier::external_body]
fn git_remote_url(repo: &git2::Repository, name: &str) -> (r: Result<String, String>) {
    match repo.find_remote(name).and_then(|rem| rem.url().map(|u| u.to_string())) {
        Ok(url) => Ok(url),
        Err(e) => Err(e.message().to_string()),
    }
}

/// Open the repository that contains a path.
pub fn discover_repository(path: &str) -> (r: Result<git2::Repository, KraitError>)
    ensures
        r matches Err(e) ==> e@ is NotARepository,
{
    match git_discover(path) {
        Ok(repo) => Ok(repo),
        Err(msg) => Err(KraitError::NotARepository(msg)),
    }
}

/// The current branch's short name; detached or unborn heads are errors.
pub fn current_branch(repo: &git2::Repository) -> (r: Result<String, KraitError>)
    ensures
        r matches Err(e) ==> e@ is DetachedHead,
{
    match git_branch_name(repo) {
        Ok(Some(name)) => Ok(name),
        Ok(None) => Err(
            KraitError::DetachedHead(
                String::from_str("the repository head is not a symbolic branch"),
            ),
        ),
        Err(msg) => Err(KraitError::DetachedHead(msg)),
    }
}

/// The head commit's id and its timestamp in seconds since the epoch.
pub fn head_commit(repo: &git2::Repository) -> (r: Result<(String, i64), KraitError>)
    ensures
        r matches Err(e) ==> e@ is IoError,
{
    match git_head_commit(repo) {
        Ok(pair) => Ok(pair),
        Err(msg) => Err(KraitError::IoError(msg)),
    }
}

/// The commit that last touched a subpath, walking history back from the
/// current head; a subpath without history is an error.
pub fn last_commit_touching(repo: &git2::Repository, subpath: &str) -> (r: Result<
    String,
    KraitError,
>)
    ensures
        r matches Err(e) ==> e@ is NoSuchRevision,
{
    match git_last_commit_for_path(repo, subpath) {
        Ok(Some(id)) => Ok(id),
        Ok(None) => Err(
            KraitError::NoSuchRevision(String::from_str("the subpath has no history")),
        ),
        Err(msg) => Err(KraitError::NoSuchRevision(msg)),
    }
}

/// The URLs of all configured remotes, in configured order; a remote whose
/// URL cannot be read is skipped.
pub fn remote_urls(repo: &git2::Repository) -> (r: Result<Vec<String>, KraitError>)
    ensures
        r matches Err(e) ==> e@ is NoValidRemote,
{
    let names = match git_remote_names(repo) {
        Ok(n) => n,
        Err(_) => {
            return Err(KraitError::NoValidRemote);
        },
    };
    let mut urls: Vec<String> = Vec::new();
    let mut i: usize = 0;
    while i < names.len()
        decreases names.len() - i,
    {
        match git_remote_url(repo, names[i].as_str()) {
            Ok(u) => urls.push(u),
            Err(_) => {},
        }
        i = i + 1;
    }
    Ok(urls)
}

/// The first supported remote occurring in `select_remote` order.
pub proof fn lemma_select_remote_supported(urls: Seq<Seq<char>>)
    ensures
        select_remote(urls) matches Some(u) ==> is_supported_remote(u),
    decreases urls.len(),
{
    if urls.len() > 0 && !is_supported_remote(urls[0]) {
        lemma_select_remote_supported(urls.skip(1));
    }
}

/// Among the configured remotes, the URL of the first one that points at the
/// supported hosting provider.
pub fn primary_remote_url(repo: &git2::Repository) -> (r: Result<String, KraitError>)
    ensures
        r matches Ok(u) ==> is_supported_remote(u@),
        r matches Err(e) ==> e@ is NoValidRemote,
{
    let urls = match remote_urls(repo) {
        Ok(u) => u,
        Err(e) => {
            return Err(e);
        },
    };
    match select_remote_url(&urls) {
        Some(u) => {
            proof {
                lemma_select_remote_supported(urls.deep_view());
            }
            Ok(u)
        },
        None => Err(KraitError::NoValidRemote),
    }
}

} // verus!
