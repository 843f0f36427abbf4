use vstd::prelude::*;

use crate::ports::{listing_view, GitRepository};
use crate::worktree::{Worktree, WorktreeError};

verus! {

/// Lists the worktrees of the repository.
pub struct ListWorktrees<'a, G: GitRepository + ?Sized> {
    git: &'a G,
}

impl<'a, G: GitRepository + ?Sized> ListWorktrees<'a, G> {
    /// The git operations it lists through.
    pub closed spec fn repository(&self) -> &'a G {
        self.git
    }

    /// A use case over these git operations.
    pub fn new(git: &'a G) -> (r: Self)
        ensures
            r.repository() == git,
    {
        ListWorktrees { git }
    }

    /// All worktrees, as the repository lists them: the outcome is one that
    /// listing can give.
    pub fn execute(&self) -> (r: Result<Vec<Worktree>, WorktreeError>)
        ensures
            self.repository().listed(listing_view(r)),
    {
        self.git.list_worktrees()
    }
}

} // verus!
