use mingit::errors::GitError;
use mingit::repo::{
    ancestors, creation_dirs, default_description, parent_dir, repo_create, repo_dir, repo_file,
    repo_find, repo_path, GitRepository,
};

#[test]
fn handle_joins_metadata_dir() {
    let repo = GitRepository::new("/work/project", true, false).unwrap();
    assert_eq!(repo.worktree, "/work/project");
    assert_eq!(repo.gitdir, "/work/project/.git");
}

#[test]
fn open_requires_metadata_dir() {
    let r = GitRepository::new("/work/project", false, false);
    assert!(matches!(r, Err(GitError::NotARepository)));
    let r = GitRepository::new("/work/project", false, true);
    assert!(r.is_ok());
}

#[test]
fn paths_resolve_under_metadata_dir() {
    let repo = GitRepository::new("/r", true, false).unwrap();
    assert_eq!(repo_path(&repo, "config"), "/r/.git/config");
    assert_eq!(repo_file(&repo, "objects/ab/cdef"), "/r/.git/objects/ab/cdef");
}

#[test]
fn parent_walks_one_level() {
    assert_eq!(parent_dir("/a/b"), Some("/a".to_owned()));
    assert_eq!(parent_dir("/a"), Some("/".to_owned()));
    assert_eq!(parent_dir("/"), None);
    assert_eq!(parent_dir("name"), None);
}

#[test]
fn ancestors_walk_to_the_root() {
    let chain = ancestors("/a/b/c");
    assert_eq!(
        chain,
        vec![
            "/a/b/c".to_owned(),
            "/a/b".to_owned(),
            "/a".to_owned(),
            "/".to_owned()
        ]
    );
}

#[test]
fn discovery_picks_nearest_ancestor() {
    let candidates = vec![
        "/a/b/c".to_owned(),
        "/a/b".to_owned(),
        "/a".to_owned(),
        "/".to_owned(),
    ];
    let flags = vec![false, false, true, false];
    let repo = repo_find(&candidates, &flags).unwrap();
    assert_eq!(repo.worktree, "/a");
    assert_eq!(repo.gitdir, "/a/.git");

    let both = vec![true, true, false, false];
    let repo = repo_find(&candidates, &both).unwrap();
    assert_eq!(repo.worktree, "/a/b/c");
}

#[test]
fn discovery_reports_no_repository() {
    let candidates = vec!["/x/y".to_owned(), "/x".to_owned(), "/".to_owned()];
    let flags = vec![false, false, false];
    let r = repo_find(&candidates, &flags);
    assert!(matches!(r, Err(GitError::NoRepositoryFound)));
}

#[test]
fn creation_refuses_file_worktree() {
    let r = repo_create("/tmp/f", true, false, false, false);
    assert!(matches!(r, Err(GitError::NotADirectory)));
}

#[test]
fn creation_refuses_populated_metadata_dir() {
    let r = repo_create("/tmp/r", true, true, true, false);
    assert!(matches!(r, Err(GitError::NonEmptyMetadataDir)));
}

#[test]
fn creation_accepts_fresh_or_empty_targets() {
    let fresh = repo_create("/tmp/new", false, false, false, false).unwrap();
    assert_eq!(fresh.gitdir, "/tmp/new/.git");
    let empty = repo_create("/tmp/r", true, true, true, true).unwrap();
    assert_eq!(empty.worktree, "/tmp/r");
    let no_gitdir = repo_create("/tmp/r", true, true, false, false).unwrap();
    assert_eq!(no_gitdir.gitdir, "/tmp/r/.git");
}

#[test]
fn directory_plan_is_idempotent_and_strict() {
    assert!(matches!(repo_dir(true, true), Ok(false)));
    assert!(matches!(repo_dir(false, false), Ok(true)));
    assert!(matches!(repo_dir(true, false), Err(GitError::NotADirectory)));
}

#[test]
fn fresh_layout_lists_the_four_subdirectories() {
    let dirs = creation_dirs();
    assert_eq!(
        dirs,
        vec![
            "branches".to_owned(),
            "objects".to_owned(),
            "refs/tags".to_owned(),
            "refs/heads".to_owned()
        ]
    );
}

#[test]
fn description_text_is_fixed() {
    assert_eq!(
        default_description(),
        "Unnamed repository; edit this file 'description' to name the repository.\n"
    );
}

#[test]
fn errors_describe_themselves() {
    assert_eq!(
        GitError::LengthMismatch {
            identity: "abcd".to_owned()
        }
        .describe(),
        "bad length for object abcd"
    );
    assert_eq!(GitError::NotARepository.describe(), "not a repository");
}
