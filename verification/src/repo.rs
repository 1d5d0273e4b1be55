//! The repository locator: a worktree path, its metadata directory
//! `<worktree>/.git`, pure path resolution, and the decisions behind
//! creation and ancestor discovery.
//!
//! All filesystem facts (whether a path exists, is a directory, is empty)
//! come in as plain values, so every decision here is verified; the caller
//! performs the probes and the directory creation.

use vstd::prelude::*;

use crate::errors::GitError;

verus! {

/// A repository handle: the worktree root and its metadata directory. Both
/// are immutable after construction.
pub struct GitRepository {
    pub worktree: String,
    pub gitdir: String,
}

impl GitRepository {
    /// The metadata directory sits directly under the worktree.
    pub open spec fn wf(&self) -> bool {
        self.gitdir@ == self.worktree@ + "/.git"@
    }

    /// The handle rooted at `path`, with its metadata directory joined on.
    pub fn at_worktree(path: &str) -> (r: GitRepository)
        ensures
            r.worktree@ == path@,
            r.gitdir@ == path@ + "/.git"@,
            r.wf(),
    {
        let worktree = path.to_owned();
        let gitdir = path.to_owned().concat("/.git");
        GitRepository { worktree, gitdir }
    }

    /// A handle for `path` is handed out only when its metadata directory is
    /// known to exist, unless `force` says the caller is about to create it.
    /// `has_metadata_dir` reports whether `<path>/.git` is a directory.
    pub fn new(path: &str, force: bool, has_metadata_dir: bool) -> (r: Result<
        GitRepository,
        GitError,
    >)
        ensures
            force || has_metadata_dir ==> (r matches Ok(repo) && repo.worktree@ == path@
                && repo.gitdir@ == path@ + "/.git"@),
            !(force || has_metadata_dir) ==> r == Err::<GitRepository, GitError>(
                GitError::NotARepository,
            ),
    {
        if force || has_metadata_dir {
            Ok(GitRepository::at_worktree(path))
        } else {
            Err(GitError::NotARepository)
        }
    }
}

/// Joins `path` onto the metadata directory. Pure: no probe, no creation.
pub fn repo_path(repo: &GitRepository, path: &str) -> (r: String)
    ensures
        r@ == repo.gitdir@ + "/"@ + path@,
{
    repo.gitdir.clone().concat("/").concat(path)
}

/// The location of the file `path` inside the metadata directory: the same
/// join as `repo_path`. Callers that are about to write the file ensure its
/// parent directory chain separately (see `parent_dir`).
pub fn repo_file(repo: &GitRepository, path: &str) -> (r: String)
    ensures
        r@ == repo.gitdir@ + "/"@ + path@,
{
    repo_path(repo, path)
}

/// The parent of the path `s`: the prefix before the last `/`, the root for
/// a top-level entry, and nothing for the root itself or a bare name.
pub open spec fn parent_of(s: Seq<char>) -> Option<Seq<char>> {
    match s.index_of_last('/') {
        Option::None => Option::None,
        Option::Some(i) => if i == 0 {
            if s.len() == 1 {
                Option::None
            } else {
                Option::Some(s.subrange(0, 1))
            }
        } else {
            Option::Some(s.subrange(0, i))
        },
    }
}

/// If `i` is a last occurrence of `target` in `s`, `index_of_last` says so.
proof fn lemma_index_of_last_is(s: Seq<char>, target: char, i: int)
    requires
        0 <= i < s.len(),
        s[i] == target,
        forall|j: int| i < j < s.len() ==> s[j] != target,
    ensures
        s.index_of_last(target) == Option::Some(i),
{
    s.index_of_last_ensures(target);
}

/// If `target` does not occur in `s`, `index_of_last` says so.
proof fn lemma_index_of_last_none(s: Seq<char>, target: char)
    requires
        forall|j: int| 0 <= j < s.len() ==> s[j] != target,
    ensures
        s.index_of_last(target) == Option::None::<int>,
{
    s.index_of_last_ensures(target);
}

/// The parent directory of `path`, exactly as `parent_of` reads it.
pub fn parent_dir(path: &str) -> (r: Option<String>)
    ensures
        match parent_of(path@) {
            Option::None => r is None,
            Option::Some(p) => r matches Some(q) && q@ == p,
        },
{
    let n = path.unicode_len();
    let mut i: usize = n;
    while i > 0
        invariant
            n == path@.len(),
            i <= n,
            forall|j: int| i <= j < n ==> path@[j] != '/',
        decreases i,
    {
        i = i - 1;
        if path.get_char(i) == '/' {
            proof {
                lemma_index_of_last_is(path@, '/', i as int);
            }
            if i == 0 {
                if n == 1 {
                    return None;
                }
                let root = path.substring_char(0, 1);
                return Some(root.to_owned());
            }
            return Some(path.substring_char(0, i).to_owned());
        }
    }
    proof {
        lemma_index_of_last_none(path@, '/');
    }
    None
}

/// The path itself and each of its ancestors, nearest first, ending with the
/// path that has no parent.
pub fn ancestors(path: &str) -> (r: Vec<String>)
    ensures
        r@.len() >= 1,
        r@[0]@ == path@,
        forall|i: int| 0 <= i < r@.len() - 1 ==> parent_of(r@[i]@) == Some(r@[i + 1]@),
        parent_of(r@[r@.len() - 1]@) is None,
{
    let mut r: Vec<String> = Vec::new();
    let mut cur: String = path.to_owned();
    loop
        invariant
            r@.len() == 0 ==> cur@ == path@,
            r@.len() >= 1 ==> r@[0]@ == path@ && parent_of(r@[r@.len() - 1]@) == Some(cur@),
            forall|i: int| 0 <= i < r@.len() - 1 ==> parent_of(r@[i]@) == Some(r@[i + 1]@),
        decreases cur@.len(),
    {
        let next = parent_dir(cur.as_str());
        match next {
            None => {
                r.push(cur);
                return r;
            },
            Some(p) => {
                proof {
                    lemma_parent_shorter(cur@);
                }
                r.push(cur);
                cur = p;
            },
        }
    }
}

/// A parent path is strictly shorter than its child: discovery terminates.
proof fn lemma_parent_shorter(s: Seq<char>)
    ensures
        parent_of(s) matches Some(p) ==> p.len() < s.len(),
{
    s.index_of_last_ensures('/');
}

/// The discovery decision: given the candidate paths (nearest first) and, for
/// each, whether `<candidate>/.git` is a directory, opens the repository at
/// the nearest candidate that has one, and reports `NoRepositoryFound` when
/// none does.
pub fn repo_find(candidates: &Vec<String>, has_metadata_dir: &Vec<bool>) -> (r: Result<
    GitRepository,
    GitError,
>)
    requires
        candidates@.len() == has_metadata_dir@.len(),
    ensures
        r matches Ok(repo) ==> exists|i: int|
            {
                &&& 0 <= i < has_metadata_dir@.len()
                &&& has_metadata_dir@[i]
                &&& repo.worktree@ == candidates@[i]@
                &&& repo.gitdir@ == candidates@[i]@ + "/.git"@
                &&& forall|j: int| 0 <= j < i ==> !has_metadata_dir@[j]
            },
        (exists|i: int| 0 <= i < has_metadata_dir@.len() && has_metadata_dir@[i]) <==> r is Ok,
        r is Err ==> r == Err::<GitRepository, GitError>(GitError::NoRepositoryFound),
{
    let n = candidates.len();
    let mut i: usize = 0;
    while i < n
        invariant
            n == candidates@.len(),
            n == has_metadata_dir@.len(),
            i <= n,
            forall|j: int| 0 <= j < i ==> !has_metadata_dir@[j],
        decreases n - i,
    {
        if has_metadata_dir[i] {
            let repo = GitRepository::at_worktree(candidates[i].as_str());
            return Ok(repo);
        }
        i = i + 1;
    }
    Err(GitError::NoRepositoryFound)
}

/// The decision behind ensuring a directory inside the metadata tree: `Ok`
/// says whether the caller still has to create it; a path that exists as a
/// regular file is refused.
pub fn repo_dir(path_exists: bool, path_is_dir: bool) -> (r: Result<bool, GitError>)
    ensures
        path_exists && path_is_dir ==> r == Ok::<bool, GitError>(false),
        path_exists && !path_is_dir ==> r == Err::<bool, GitError>(GitError::NotADirectory),
        !path_exists ==> r == Ok::<bool, GitError>(true),
{
    if path_exists {
        if path_is_dir {
            Ok(false)
        } else {
            Err(GitError::NotADirectory)
        }
    } else {
        Ok(true)
    }
}

/// The creation decision: a worktree that exists as a regular file is
/// refused, as is a populated metadata directory; otherwise the new handle is
/// returned and the caller materializes the layout.
pub fn repo_create(
    path: &str,
    worktree_exists: bool,
    worktree_is_dir: bool,
    gitdir_exists: bool,
    gitdir_empty: bool,
) -> (r: Result<GitRepository, GitError>)
    ensures
        worktree_exists && !worktree_is_dir ==> r == Err::<GitRepository, GitError>(
            GitError::NotADirectory,
        ),
        worktree_exists && worktree_is_dir && gitdir_exists && !gitdir_empty ==> r == Err::<
            GitRepository,
            GitError,
        >(GitError::NonEmptyMetadataDir),
        !worktree_exists || (worktree_is_dir && (!gitdir_exists || gitdir_empty)) ==> (
        r matches Ok(repo) && repo.worktree@ == path@ && repo.gitdir@ == path@ + "/.git"@),
    {
    if worktree_exists {
        if !worktree_is_dir {
            return Err(GitError::NotADirectory);
        }
        if gitdir_exists && !gitdir_empty {
            return Err(GitError::NonEmptyMetadataDir);
        }
    }
    Ok(GitRepository::at_worktree(path))
}

/// The subdirectories a fresh metadata directory is given, in creation order.
pub fn creation_dirs() -> (r: Vec<String>)
    ensures
        r@.len() == 4,
        r@[0]@ == "branches"@,
        r@[1]@ == "objects"@,
        r@[2]@ == "refs/tags"@,
        r@[3]@ == "refs/heads"@,
{
    let mut r: Vec<String> = Vec::new();
    r.push("branches".to_owned());
    r.push("objects".to_owned());
    r.push("refs/tags".to_owned());
    r.push("refs/heads".to_owned());
    r
}

/// The human-readable text of a fresh repository's description file.
pub fn default_description() -> (r: String)
    ensures
        r@ == "Unnamed repository; edit this file 'description' to name the repository.\n"@,
{
    "Unnamed repository; edit this file 'description' to name the repository.\n".to_owned()
}

} // verus!
