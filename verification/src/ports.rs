use vstd::prelude::*;

use crate::config::{copy_file_views, CopyConfig, CopyFile, CopyFileView};
use crate::text::string_views;
use crate::worktree::{
    opt_view, worktree_views, AddOptions, AddOptionsView, Worktree, WorktreeError, WorktreeView,
};

verus! {

/// The view of a listing's outcome.
pub open spec fn listing_view(r: Result<Vec<Worktree>, WorktreeError>) -> Result<
    Seq<WorktreeView>,
    WorktreeError,
> {
    match r {
        Ok(v) => Ok(worktree_views(v@)),
        Err(e) => Err(e),
    }
}

/// The view of a branch lookup's outcome.
pub open spec fn lookup_view(r: Result<Option<String>, WorktreeError>) -> Result<
    Option<Seq<char>>,
    WorktreeError,
> {
    match r {
        Ok(b) => Ok(opt_view(b)),
        Err(e) => Err(e),
    }
}

/// The view of an outcome that carries a string.
pub open spec fn text_view(r: Result<String, WorktreeError>) -> Result<Seq<char>, WorktreeError> {
    match r {
        Ok(s) => Ok(s@),
        Err(e) => Err(e),
    }
}

/// The view of a copy's outcome.
pub open spec fn copied_view(r: Result<Vec<CopyFile>, WorktreeError>) -> Result<
    Seq<CopyFileView>,
    WorktreeError,
> {
    match r {
        Ok(v) => Ok(copy_file_views(v@)),
        Err(e) => Err(e),
    }
}

/// Operations on a git repository. The program runs `git` for them; tests can
/// put their own implementation in its place.
///
/// Each operation comes with a predicate that tells which outcomes it can
/// have for given arguments: an implementation may say so by defining the
/// predicate; one that does not rules no outcome out. Code over this trait
/// knows only that each call's outcome is one its predicate allows for the
/// arguments it was handed.
pub trait GitRepository {
    /// Whether adding a worktree at `path` with `opts` can give `r`.
    closed spec fn added(&self, path: Seq<char>, opts: AddOptionsView, r: Result<(), WorktreeError>) -> bool {
        true
    }

    /// Whether removing the worktree at `path` can give `r`.
    closed spec fn removed(&self, path: Seq<char>, force: bool, r: Result<(), WorktreeError>) -> bool {
        true
    }

    /// Whether deleting `branch` can give `r`.
    closed spec fn deleted(&self, branch: Seq<char>, force: bool, r: Result<(), WorktreeError>) -> bool {
        true
    }

    /// Whether listing the worktrees can give `r`.
    closed spec fn listed(&self, r: Result<Seq<WorktreeView>, WorktreeError>) -> bool {
        true
    }

    /// Whether looking up the branch of the worktree at `path` can give `r`.
    closed spec fn found(&self, path: Seq<char>, r: Result<Option<Seq<char>>, WorktreeError>) -> bool {
        true
    }

    /// Whether asking for the repository root can give `r`.
    closed spec fn located(&self, r: Result<Seq<char>, WorktreeError>) -> bool {
        true
    }

    /// Adds a worktree at `path`.
    fn add_worktree(&self, path: &str, opts: &AddOptions) -> (r: Result<(), WorktreeError>)
        ensures
            self.added(path@, opts@, r),
    ;

    /// Removes the worktree at `path` (`force`: even with uncommitted changes).
    fn remove_worktree(&self, path: &str, force: bool) -> (r: Result<(), WorktreeError>)
        ensures
            self.removed(path@, force, r),
    ;

    /// Deletes a branch (`force`: even when it is not merged).
    fn delete_branch(&self, branch: &str, force: bool) -> (r: Result<(), WorktreeError>)
        ensures
            self.deleted(branch@, force, r),
    ;

    /// All worktrees of the repository.
    fn list_worktrees(&self) -> (r: Result<Vec<Worktree>, WorktreeError>)
        ensures
            self.listed(listing_view(r)),
    ;

    /// The branch checked out in the worktree at `path`.
    fn branch_from_worktree(&self, path: &str) -> (r: Result<Option<String>, WorktreeError>)
        ensures
            self.found(path@, lookup_view(r)),
    ;

    /// The root of the repository.
    fn repo_root(&self) -> (r: Result<String, WorktreeError>)
        ensures
            self.located(text_view(r)),
    ;
}

/// File operations.
pub trait FileSystem {
    /// Whether copying the files that `patterns` and `files` select from
    /// `src_root` into `dst_root` can give `r` (an implementation may say; one
    /// that does not rules no outcome out).
    closed spec fn copied(
        &self,
        src_root: Seq<char>,
        dst_root: Seq<char>,
        patterns: Seq<Seq<char>>,
        files: Seq<CopyFileView>,
        r: Result<Seq<CopyFileView>, WorktreeError>,
    ) -> bool {
        true
    }

    /// Copies the files that `cfg` selects from `src_root` into `dst_root`
    /// (glob patterns keep their relative paths; explicit mappings may rename;
    /// a missing explicit source is skipped) and returns what was copied.
    fn copy_files(&self, src_root: &str, dst_root: &str, cfg: &CopyConfig) -> (r: Result<
        Vec<CopyFile>,
        WorktreeError,
    >)
        ensures
            self.copied(
                src_root@,
                dst_root@,
                string_views(cfg.patterns@),
                copy_file_views(cfg.files@),
                copied_view(r),
            ),
    ;
}

/// Runs hook commands.
pub trait HookRunner {
    /// Whether running `commands` in `cwd` can give `r` (an implementation may
    /// say; one that does not rules no outcome out).
    closed spec fn ran(&self, commands: Seq<Seq<char>>, cwd: Seq<char>, r: Result<(), WorktreeError>) -> bool {
        true
    }

    /// Runs `commands` one after another in `cwd`, stopping at the first that
    /// fails.
    fn run(&self, commands: &[String], cwd: &str) -> (r: Result<(), WorktreeError>)
        ensures
            self.ran(string_views(commands@), cwd@, r),
    ;
}

} // verus!
