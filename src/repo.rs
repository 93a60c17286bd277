//! The repository side: reading the branch list and the head, and the safe
//! checkout protocol, on top of libgit2's bindings.

use vstd::prelude::*;
use crate::names::{insert_name, is_branch_list, lemma_branch_list_has_no_duplicates, no_duplicates, views};
use crate::session::{
    is_initial_cursor, view_option, App, CheckoutError, Phase,
    StartupError,
};

verus! {

#[verifier::external_type_specification]
#[verifier::external_body]
pub struct ExRepository(git2::Repository);

#[verifier::external_type_specification]
#[verifier::external_body]
pub struct ExGitError(git2::Error);

#[verifier::external_type_specification]
#[verifier::external_body]
pub struct ExObject<'repo>(git2::Object<'repo>);

#[verifier::external_type_specification]
#[verifier::external_body]
pub struct ExReference<'repo>(git2::Reference<'repo>);

/// Relies on git2::Repository::open_from_env: finds the repository from the
/// git environment variables or the working directory and its parents.
#[verifier::external_body]
fn open_from_env() -> (r: Result<git2::Repository, git2::Error>) {
    git2::Repository::open_from_env()
}

/// Relies on git2::Repository::branches with the local filter, on the
/// iterator it returns and on git2::Branch::name: one entry per local branch,
/// `Ok(None)` where the name is not UTF-8, `Err` where reading one failed.
#[verifier::external_body]
fn local_branch_entries(repo: &git2::Repository) -> (r: Result<
    Vec<Result<Option<String>, git2::Error>>,
    git2::Error,
>) {
    let branches = repo.branches(Some(git2::BranchType::Local))?;
    Ok(branches.map(|entry| entry.and_then(|(b, _)| b.name().map(|n| n.map(|s| s.to_string())))).collect())
}

/// Relies on git2::Repository::head: the reference that the head resolves to.
#[verifier::external_body]
fn head(repo: &git2::Repository) -> (r: Result<git2::Reference<'_>, git2::Error>) {
    repo.head()
}

/// Relies on git2::Reference::is_branch: whether the reference is a local branch.
#[verifier::external_body]
fn is_branch(reference: &git2::Reference<'_>) -> (r: bool) {
    reference.is_branch()
}

/// Relies on git2::Reference::shorthand: the short name, `None` if not UTF-8.
#[verifier::external_body]
fn shorthand(reference: &git2::Reference<'_>) -> (r: Option<String>) {
    reference.shorthand().map(|s| s.to_string())
}

/// Relies on git2::Reference::name_bytes: the full name of the reference.
#[verifier::external_body]
fn reference_name_bytes(reference: &git2::Reference<'_>) -> (r: Vec<u8>) {
    reference.name_bytes().to_vec()
}

/// Relies on git2::Repository::find_branch with the local filter, and on
/// git2::Branch::into_reference: the reference of the local branch of that name.
#[verifier::external_body]
fn find_local_branch<'a>(repo: &'a git2::Repository, name: &str) -> (r: Result<git2::Reference<'a>, git2::Error>) {
    repo.find_branch(name, git2::BranchType::Local).map(|b| b.into_reference())
}

/// Relies on git2::Reference::peel to a commit: the commit the reference points at.
#[verifier::external_body]
fn peel_to_commit<'a>(reference: &git2::Reference<'a>) -> (r: Result<git2::Object<'a>, git2::Error>) {
    reference.peel(git2::ObjectType::Commit)
}

/// Relies on git2::Repository::checkout_tree with a git2::build::CheckoutBuilder
/// set to `safe`: the working tree is made to match the object's tree, and
/// the checkout fails rather than overwrite local changes.
#[verifier::external_body]
fn checkout_tree_safe(repo: &git2::Repository, object: &git2::Object<'_>) -> (r: Result<(), git2::Error>) {
    let mut opts = git2::build::CheckoutBuilder::new();
    opts.safe();
    repo.checkout_tree(object, Some(&mut opts))
}

/// Relies on git2::Repository::set_head_bytes: points the head at the named reference.
#[verifier::external_body]
fn set_head_bytes(repo: &git2::Repository, refname: &[u8]) -> (r: Result<(), git2::Error>) {
    repo.set_head_bytes(refname)
}

/// Relies on git2::Error::message: the error's text.
#[verifier::external_body]
fn error_message(e: &git2::Error) -> (r: String) {
    e.message().to_string()
}

/// Relies on git2::Repository::path: the directory above the repository's
/// `.git` folder, if it has one.
#[verifier::external_body]
fn working_dir(repo: &git2::Repository) -> (r: Option<String>) {
    repo.path().parent().map(|p| p.to_string_lossy().into_owned())
}

/// Opens the repository that the process's environment and working directory
/// point to.
pub fn open_repository() -> (r: Result<git2::Repository, StartupError>)
    ensures
        r is Err ==> r->Err_0 is RepositoryNotFound,
{
    match open_from_env() {
        Ok(repo) => Ok(repo),
        Err(e) => Err(StartupError::RepositoryNotFound(error_message(&e))),
    }
}

/// Whether an entry of a branch enumeration carries the name `x`.
pub open spec fn entry_named(e: Result<Option<String>, git2::Error>, x: Seq<char>) -> bool {
    match e {
        Ok(Some(s)) => s@ == x,
        _ => false,
    }
}

/// Whether some entry among the first `n` carries the name `x`.
pub open spec fn named_among(
    entries: Seq<Result<Option<String>, git2::Error>>,
    n: int,
    x: Seq<char>,
) -> bool {
    exists|k: int| 0 <= k < n && #[trigger] entry_named(entries[k], x)
}

/// Turns the entries of a branch enumeration into the branch list: the names
/// they carry, sorted, each once. Any failed entry fails the whole list.
pub fn collect_branch_names(entries: Vec<Result<Option<String>, git2::Error>>) -> (r: Result<
    Vec<String>,
    StartupError,
>)
    ensures
        r is Err <==> exists|k: int| 0 <= k < entries@.len() && (#[trigger] entries@[k]) is Err,
        r is Err ==> r->Err_0 is BranchEnumerationError,
        r is Ok ==> is_branch_list(views(r->Ok_0@)) && no_duplicates(views(r->Ok_0@)),
        r is Ok ==> forall|x: Seq<char>|
            views(r->Ok_0@).contains(x) <==> named_among(entries@, entries@.len() as int, x),
{
    let mut names: Vec<String> = Vec::new();
    let mut i: usize = 0;
    assert(views(names@) =~= Seq::<Seq<char>>::empty());
    while i < entries.len()
        invariant
            i <= entries@.len(),
            is_branch_list(views(names@)),
            forall|k: int| 0 <= k < i ==> (#[trigger] entries@[k]) is Ok,
            forall|x: Seq<char>| views(names@).contains(x) <==> named_among(entries@, i as int, x),
        decreases entries@.len() - i,
    {
        match &entries[i] {
            Err(e) => {
                return Err(StartupError::BranchEnumerationError(error_message(e)));
            },
            Ok(None) => {
                assert forall|x: Seq<char>| named_among(entries@, i + 1, x) implies named_among(
                    entries@,
                    i as int,
                    x,
                ) by {
                    let k = choose|k: int| 0 <= k < i + 1 && #[trigger] entry_named(entries@[k], x);
                    assert(k != i);
                }
            },
            Ok(Some(s)) => {
                let ghost before = views(names@);
                insert_name(&mut names, s.clone());
                assert forall|x: Seq<char>| views(names@).contains(x) <==> named_among(
                    entries@,
                    i + 1,
                    x,
                ) by {
                    if x == s@ {
                        assert(entry_named(entries@[i as int], x));
                    }
                    if named_among(entries@, i + 1, x) && x != s@ {
                        let k = choose|k: int| 0 <= k < i + 1 && #[trigger] entry_named(entries@[k], x);
                        assert(k != i);
                        assert(named_among(entries@, i as int, x));
                    }
                    if before.contains(x) {
                        assert(named_among(entries@, i as int, x));
                        let k = choose|k: int| 0 <= k < i && #[trigger] entry_named(entries@[k], x);
                        assert(named_among(entries@, i + 1, x));
                    }
                }
            },
        }
        i = i + 1;
    }
    proof {
        lemma_branch_list_has_no_duplicates(views(names@));
    }
    Ok(names)
}

/// Lists the repository's local branches, sorted by name, each once.
pub fn list_local_branches(repo: &git2::Repository) -> (r: Result<Vec<String>, StartupError>)
    ensures
        r is Err ==> r->Err_0 is BranchEnumerationError,
        r is Ok ==> is_branch_list(views(r->Ok_0@)) && no_duplicates(views(r->Ok_0@)),
{
    match local_branch_entries(repo) {
        Ok(entries) => collect_branch_names(entries),
        Err(e) => Err(StartupError::BranchEnumerationError(error_message(&e))),
    }
}

/// The current branch from what was read of the head: whether it is a local
/// branch and its short name, or the error that reading it gave.
pub open spec fn head_branch(head: Result<(bool, Option<String>), String>) -> Option<String> {
    match head {
        Ok((true, name)) => name,
        _ => None,
    }
}

/// Decides the current branch from what was read of the head: only a head
/// that is a local branch with a readable name names one.
pub fn branch_of_head(head: Result<(bool, Option<String>), String>) -> (r: Option<String>)
    ensures
        r == head_branch(head),
{
    match head {
        Ok((true, name)) => name,
        _ => None,
    }
}

/// The branch the head points at; `None` when the head is detached, unborn or
/// cannot be read.
pub fn current_branch(repo: &git2::Repository) -> (r: Option<String>)
    ensures
        exists|head: Result<(bool, Option<String>), String>| r == #[trigger] head_branch(head),
{
    let read = match head(repo) {
        Ok(reference) => Ok((is_branch(&reference), shorthand(&reference))),
        Err(e) => Err(error_message(&e)),
    };
    branch_of_head(read)
}

/// What the checkout protocol reports once the branch resolved, from what
/// its steps returned: `Err` when the tree checkout failed, else `Ok` with
/// what the head update returned.
pub open spec fn protocol_result(steps: Result<Result<(), String>, String>) -> Result<(), CheckoutError> {
    match steps {
        Err(m) => Err(CheckoutError::WorkingTreeConflict(m)),
        Ok(Ok(())) => Ok(()),
        Ok(Err(m)) => Err(CheckoutError::HeadUpdateFailed(m)),
    }
}

/// What any run of the checkout protocol can report: the branch did not
/// resolve, or it did and the outcome follows from its steps.
pub open spec fn protocol_outcome(r: Result<(), CheckoutError>) -> bool {
    (r is Err && r->Err_0 is UnresolvedBranch) || exists|
        steps: Result<Result<(), String>, String>,
    | r == #[trigger] protocol_result(steps)
}

/// Concludes a checkout whose branch resolved: a failed tree checkout is a
/// working-tree conflict; after a tree checkout that succeeded, a failed head
/// update is reported as such, and one that succeeded is success.
pub fn conclude_checkout(steps: Result<Result<(), String>, String>) -> (r: Result<(), CheckoutError>)
    ensures
        r == protocol_result(steps),
{
    match steps {
        Err(m) => Err(CheckoutError::WorkingTreeConflict(m)),
        Ok(Ok(())) => Ok(()),
        Ok(Err(m)) => Err(CheckoutError::HeadUpdateFailed(m)),
    }
}

/// A checkout whose tree step fails, because it would overwrite local
/// changes, is reported as a working-tree conflict carrying that step's message.
pub proof fn lemma_tree_failure_is_conflict(message: String)
    ensures
        protocol_result(Err(message)) == Err::<(), CheckoutError>(
            CheckoutError::WorkingTreeConflict(message),
        ),
{
}

/// Only a checkout whose tree step and head step both succeeded reports success.
pub proof fn lemma_success_needs_both_steps(steps: Result<Result<(), String>, String>)
    requires
        protocol_result(steps) is Ok,
    ensures
        steps is Ok && steps->Ok_0 is Ok,
{
}

/// The safe checkout protocol: resolve `branch` as a local branch, check its
/// commit's tree out without overwriting local changes, and only then point
/// the head at the branch.
pub fn checkout(repo: &git2::Repository, branch: &String) -> (r: Result<(), CheckoutError>)
    ensures
        protocol_outcome(r),
{
    let resolved = match find_local_branch(repo, branch.as_str()) {
        Ok(reference) => match peel_to_commit(&reference) {
            Ok(object) => Ok((reference, object)),
            Err(e) => Err(e),
        },
        Err(e) => Err(e),
    };
    let (target, object) = match resolved {
        Ok(found) => found,
        Err(e) => {
            return Err(CheckoutError::UnresolvedBranch(error_message(&e)));
        },
    };
    let steps = match checkout_tree_safe(repo, &object) {
        Err(e) => Err(error_message(&e)),
        Ok(()) => {
            let refname = reference_name_bytes(&target);
            match set_head_bytes(repo, refname.as_slice()) {
                Ok(()) => Ok(Ok(())),
                Err(e) => Ok(Err(error_message(&e))),
            }
        },
    };
    let ghost recorded = steps;
    let r = conclude_checkout(steps);
    assert(r == protocol_result(recorded));
    r
}

impl App {
    /// Starts a session on the repository: its sorted local branches, the
    /// current branch, and the cursor on it.
    pub fn new(repo: &git2::Repository) -> (r: Result<App, StartupError>)
        ensures
            r is Err ==> r->Err_0 is BranchEnumerationError,
            r is Ok ==> {
                let app = r->Ok_0;
                &&& app.wf()
                &&& no_duplicates(app.names())
                &&& app.status is NoAttemptYet
                &&& app.phase == Phase::Browsing
                &&& is_initial_cursor(app.names(), view_option(app.current), app.cursor)
            },
    {
        let branches = match list_local_branches(repo) {
            Ok(b) => b,
            Err(e) => {
                return Err(e);
            },
        };
        let current = current_branch(repo);
        let repo_path = match working_dir(repo) {
            Some(p) => p,
            None => String::new(),
        };
        Ok(App::from_parts(branches, current, repo_path))
    }

    /// Confirms the selected branch: runs the checkout protocol on it and
    /// records the result in the status. Nothing happens, and `false` comes
    /// back, once the session has ended or when there is no branch to select.
    pub fn checkout_branch(&mut self, repo: &git2::Repository) -> (attempted: bool)
        requires
            old(self).wf(),
        ensures
            final(self).wf(),
            attempted == (old(self).phase == Phase::Browsing && old(self).cursor is Some),
            !attempted ==> *final(self) == *old(self),
            attempted ==> exists|result: Result<(), CheckoutError>|
                protocol_outcome(result) && *final(self) == #[trigger] old(self).after_checkout(
                    old(self).branches@[old(self).cursor->0 as int],
                    result,
                ),
    {
        if self.phase == Phase::Terminated {
            return false;
        }
        match self.cursor {
            None => false,
            Some(i) => {
                let branch = self.branches[i].clone();
                let result = checkout(repo, &branch);
                self.record_checkout(branch, result);
                true
            },
        }
    }
}

} // verus!
