use vstd::prelude::*;

verus! {

// The repository accessor: the git2 crate, behind trusted declarations and
// wrappers. Everything a repository reports depends on what is on disk, so
// the wrappers promise nothing of the values that come back; the verified
// callers state what holds of every outcome.

#[verifier::external_type_specification]
#[verifier::external_body]
pub struct ExRepository(git2::Repository);

#[verifier::external_type_specification]
#[verifier::external_body]
pub struct ExReference<'a>(git2::Reference<'a>);

#[verifier::external_type_specification]
#[verifier::external_body]
pub struct ExOid(git2::Oid);

/// Relies on git2's Repository::discover: walks up from the given path to
/// the enclosing repository, where there is one.
#[verifier::external_body]
pub fn repo_discover(path: &str) -> (r: Option<git2::Repository>) {
    git2::Repository::discover(path).ok()
}

/// Relies on git2's Repository::head: the reference HEAD points at, where
/// it resolves.
#[verifier::external_body]
pub fn repo_head<'r>(repo: &'r git2::Repository) -> (r: Option<git2::Reference<'r>>) {
    repo.head().ok()
}

/// Relies on git2's Reference::name: the reference's full name, where it is
/// valid text.
#[verifier::external_body]
pub fn reference_name(reference: &git2::Reference) -> (r: Option<String>) {
    reference.name().ok().map(|s| s.to_string())
}

/// Relies on git2's Repository::statuses, with default options: one entry
/// per changed path, with the path (where it is valid text) and its status
/// bit mask.
#[verifier::external_body]
pub fn repo_statuses(repo: &git2::Repository) -> (r: Option<Vec<(Option<String>, u32)>>) {
    match repo.statuses(None) {
        Ok(statuses) => Some(
            statuses
                .iter()
                .map(|e| (e.path().ok().map(|p| p.to_string()), e.status().bits()))
                .collect(),
        ),
        Err(_) => None,
    }
}

/// Relies on git2's Repository::is_path_ignored: whether the ignore rules
/// apply to the path, where the check itself succeeds.
#[verifier::external_body]
pub fn repo_is_path_ignored(repo: &git2::Repository, path: &str) -> (r: Option<bool>) {
    repo.is_path_ignored(path).ok()
}

/// Relies on git2's Repository::branch_upstream_name: the reference name of
/// the upstream configured for the given local branch reference name, where
/// one is configured and is valid text.
#[verifier::external_body]
pub fn repo_upstream_name(repo: &git2::Repository, refname: &str) -> (r: Option<String>) {
    match repo.branch_upstream_name(refname) {
        Ok(buf) => match buf.as_str() {
            Ok(s) => Some(s.to_string()),
            Err(_) => None,
        },
        Err(_) => None,
    }
}

/// Relies on git2's Repository::find_reference: the reference of the given
/// name, where it exists.
#[verifier::external_body]
pub fn repo_find_reference<'r>(repo: &'r git2::Repository, name: &str) -> (r: Option<
    git2::Reference<'r>,
>) {
    repo.find_reference(name).ok()
}

/// Relies on git2's Repository::refname_to_id: the commit id the given
/// reference name resolves to, where it resolves.
#[verifier::external_body]
pub fn repo_refname_to_id(repo: &git2::Repository, name: &str) -> (r: Option<git2::Oid>) {
    repo.refname_to_id(name).ok()
}

/// Relies on git2's Repository::graph_ahead_behind: the count of commits
/// reachable from the first id and not the second, and the symmetric count.
#[verifier::external_body]
pub fn repo_graph_ahead_behind(
    repo: &git2::Repository,
    local: git2::Oid,
    upstream: git2::Oid,
) -> (r: Option<(usize, usize)>) {
    repo.graph_ahead_behind(local, upstream).ok()
}

} // verus!
