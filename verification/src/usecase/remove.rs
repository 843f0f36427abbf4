use vstd::prelude::*;

use crate::config::{resolve_worktrees_dir, worktrees_dir_spec, Config, ConfigView};
use crate::paths::{file_name, file_name_spec, prune_candidates, prune_candidates_spec};
use crate::ports::GitRepository;
use crate::text::string_views;
use crate::usecase::{
    after_step, carried_out, lemma_after_step_holds, lemma_start_holds, progress_holds, row_views,
    start, steps_left, DryRunPlan, DryRunPlanView, Progress,
};
use crate::worktree::{
    opt_view, worktree_views, RemoveOptions, RemoveOptionsView, Worktree, WorktreeError, WorktreeView,
};

verus! {

/// The plan of removing a worktree: the `git worktree remove` call (with
/// `--force` when forced) and, when the branch goes too, the branch deletion
/// (`-D` when forced, as [`removal_steps`] deletes it).
pub open spec fn remove_plan_spec(opts: RemoveOptionsView) -> DryRunPlanView {
    DryRunPlanView {
        title: "[dry-run] wtxr remove "@ + opts.path,
        rows: seq![
            ("git worktree"@, "remove "@ + opts.path + if opts.force {
                " --force"@
            } else {
                seq![]
            }),
        ] + if opts.delete_branch {
            seq![
                ("git branch"@, (if opts.force {
                    "-D"@
                } else {
                    "-d"@
                }) + " <branch of "@ + opts.path + ">"@),
            ]
        } else {
            seq![]
        },
    }
}

/// One git operation of removing a worktree.
pub enum RemoveStep {
    /// Remove the worktree at `path` (`force`: even with changes).
    RemoveWorktree { path: String, force: bool },
    /// Delete `branch` (`force`: even when not merged).
    DeleteBranch { branch: String, force: bool },
}

/// The mathematical value of a [`RemoveStep`].
pub enum RemoveStepView {
    RemoveWorktree { path: Seq<char>, force: bool },
    DeleteBranch { branch: Seq<char>, force: bool },
}

impl View for RemoveStep {
    type V = RemoveStepView;

    open spec fn view(&self) -> RemoveStepView {
        match self {
            RemoveStep::RemoveWorktree { path, force } => RemoveStepView::RemoveWorktree {
                path: path@,
                force: *force,
            },
            RemoveStep::DeleteBranch { branch, force } => RemoveStepView::DeleteBranch {
                branch: branch@,
                force: *force,
            },
        }
    }
}

/// The views of a sequence of removal steps.
pub open spec fn remove_step_views(v: Seq<RemoveStep>) -> Seq<RemoveStepView> {
    v.map_values(|s: RemoveStep| s@)
}

/// The git operations of removing a worktree, given the branch that was found
/// checked out in it (looked up only when the branch is to go): first the
/// worktree is removed, forced as asked; then, when the branch is to go and
/// one was found, that branch is deleted, forced as the removal is.
pub open spec fn removal_steps_spec(opts: RemoveOptionsView, found: Option<Seq<char>>) -> Seq<
    RemoveStepView,
> {
    seq![RemoveStepView::RemoveWorktree { path: opts.path, force: opts.force }] + if opts.delete_branch
        && found is Some {
        seq![RemoveStepView::DeleteBranch { branch: found->0, force: opts.force }]
    } else {
        seq![]
    }
}

/// Law: removing first removes the worktree at the options' path, forced
/// exactly when the options force it; a second step follows only when the
/// branch is to go and one was found, and it deletes that branch, forced
/// exactly as the removal is (so without `--force` an unmerged branch is
/// kept).
pub proof fn law_removal_steps(opts: RemoveOptionsView, found: Option<Seq<char>>)
    ensures
        removal_steps_spec(opts, found)[0] == (RemoveStepView::RemoveWorktree {
            path: opts.path,
            force: opts.force,
        }),
        removal_steps_spec(opts, found).len() == if opts.delete_branch && found is Some {
            2int
        } else {
            1int
        },
        opts.delete_branch && found is Some ==> removal_steps_spec(opts, found)[1] == (
        RemoveStepView::DeleteBranch { branch: found->0, force: opts.force }),
        forall|i: int|
            0 <= i < removal_steps_spec(opts, found).len() ==> match #[trigger] removal_steps_spec(
                opts,
                found,
            )[i] {
                RemoveStepView::RemoveWorktree { path, force } => force == opts.force,
                RemoveStepView::DeleteBranch { branch, force } => force == opts.force,
            },
{
}

/// The git operations of removing a worktree, given the branch found in it.
pub fn removal_steps(opts: &RemoveOptions, found: Option<String>) -> (r: Vec<RemoveStep>)
    ensures
        remove_step_views(r@) == removal_steps_spec(opts@, opt_view(found)),
{
    let mut r: Vec<RemoveStep> = Vec::new();
    r.push(RemoveStep::RemoveWorktree { path: opts.path.clone(), force: opts.force });
    if opts.delete_branch {
        match found {
            Some(b) => r.push(RemoveStep::DeleteBranch { branch: b, force: opts.force }),
            None => {},
        }
    }
    assert(remove_step_views(r@) =~= removal_steps_spec(opts@, opt_view(found)));
    r
}

/// Removes a worktree, and its branch when asked.
pub struct RemoveWorktree<'a, G: GitRepository + ?Sized> {
    git: &'a G,
    cfg: &'a Config,
    repo_root: &'a str,
}

impl<'a, G: GitRepository + ?Sized> RemoveWorktree<'a, G> {
    /// The git operations it works through.
    pub closed spec fn git(&self) -> &'a G {
        self.git
    }

    /// The outcomes that carrying out `step` can have: those of removing the
    /// worktree, or of deleting the branch, with the step's arguments.
    pub open spec fn performed(&self, step: RemoveStepView, r: Result<(), WorktreeError>) -> bool {
        match step {
            RemoveStepView::RemoveWorktree { path, force } => self.git().removed(path, force, r),
            RemoveStepView::DeleteBranch { branch, force } => self.git().deleted(branch, force, r),
        }
    }

    /// [`RemoveWorktree::performed`] as a function of the step and outcome.
    pub open spec fn performer(&self) -> spec_fn(RemoveStepView, Result<(), WorktreeError>) -> bool {
        |step: RemoveStepView, r: Result<(), WorktreeError>| self.performed(step, r)
    }

    /// Whether the branch lookup of a removal can have found `found`: when
    /// the branch is to go, the lookup of the worktree's path gave it;
    /// otherwise no lookup is made and nothing is found.
    pub open spec fn looked_up(&self, opts: RemoveOptionsView, found: Option<Seq<char>>) -> bool {
        if opts.delete_branch {
            self.git().found(opts.path, Ok(found))
        } else {
            found is None
        }
    }

    /// Whether, after some lookup outcome `found`, carrying out
    /// [`removal_steps`] for it can end with `r`.
    pub open spec fn removal_ran(&self, opts: RemoveOptionsView, r: Result<(), WorktreeError>) -> bool {
        exists|found: Option<Seq<char>>|
            #[trigger] self.looked_up(opts, found) && carried_out(
                removal_steps_spec(opts, found),
                self.performer(),
                r,
            )
    }

    /// The configuration it works with.
    pub closed spec fn config(&self) -> ConfigView {
        self.cfg@
    }

    /// The repository root it works in.
    pub closed spec fn root(&self) -> Seq<char> {
        self.repo_root@
    }

    /// A use case over these git operations, configuration and repository root.
    pub fn new(git: &'a G, cfg: &'a Config, repo_root: &'a str) -> (r: Self)
        ensures
            r.git() == git,
            r.config() == cfg@,
            r.root() == repo_root@,
    {
        RemoveWorktree { git, cfg, repo_root }
    }

    /// What removing the worktree would do, without doing it (`--dry-run`).
    pub fn plan(&self, opts: &RemoveOptions) -> (r: DryRunPlan)
        ensures
            r@ == remove_plan_spec(opts@),
    {
        let mut rows: Vec<(String, String)> = Vec::new();
        let mut git_args = "remove ".to_owned();
        git_args.append(opts.path.as_str());
        if opts.force {
            git_args.append(" --force");
        }
        rows.push(("git worktree".to_owned(), git_args));
        if opts.delete_branch {
            let mut value = if opts.force {
                "-D".to_owned()
            } else {
                "-d".to_owned()
            };
            value.append(" <branch of ");
            value.append(opts.path.as_str());
            value.append(">");
            rows.push(("git branch".to_owned(), value));
        }
        let mut title = "[dry-run] wtxr remove ".to_owned();
        title.append(opts.path.as_str());
        let r = DryRunPlan { title, rows };
        assert(r@.rows =~= remove_plan_spec(opts@).rows);
        r
    }

    /// Carries out one step.
    fn perform(&self, step: &RemoveStep) -> (r: Result<(), WorktreeError>)
        ensures
            self.performed(step@, r),
    {
        match step {
            RemoveStep::RemoveWorktree { path, force } => self.git.remove_worktree(path.as_str(), *force),
            RemoveStep::DeleteBranch { branch, force } => self.git.delete_branch(branch.as_str(), *force),
        }
    }

    /// Removes the worktree: looks up the branch of `opts.path` first when
    /// the branch is to go too (a failed lookup ends the removal with its
    /// error), then carries out [`removal_steps`] for what was found, in
    /// order, each followed as [`after_step`] decides, so it stops at the
    /// first failure with its error. On success it returns the directories,
    /// from the worktree's path upwards and each below the worktrees
    /// directory, that are to be removed while they are empty.
    pub fn execute(&self, opts: &RemoveOptions) -> (r: Result<Vec<String>, WorktreeError>)
        ensures
            match r {
                Ok(dirs) => string_views(dirs@) == prune_candidates_spec(
                    opts.path@,
                    worktrees_dir_spec(self.root(), self.config()),
                ) && self.removal_ran(opts@, Ok(())),
                Err(e) => (opts.delete_branch && self.git().found(opts.path@, Err(e)))
                    || self.removal_ran(opts@, Err(e)),
            },
    {
        let found = if opts.delete_branch {
            match self.git.branch_from_worktree(opts.path.as_str()) {
                Ok(b) => b,
                Err(e) => {
                    return Err(e);
                },
            }
        } else {
            None
        };
        let ghost fv = opt_view(found);
        assert(self.looked_up(opts@, fv));
        let steps = removal_steps(opts, found);
        let count = steps.len();
        let ghost s = removal_steps_spec(opts@, fv);
        let ghost pf = self.performer();
        let mut progress = start(count);
        proof {
            lemma_start_holds(s, pf);
        }
        loop
            invariant
                count == steps.len(),
                s == remove_step_views(steps@),
                s == removal_steps_spec(opts@, fv),
                pf == self.performer(),
                self.looked_up(opts@, fv),
                progress_holds(s, pf, progress),
            decreases steps_left(progress, count as int),
        {
            match progress {
                Progress::Finish(Err(e)) => {
                    assert(carried_out(s, pf, Err(e)));
                    return Err(e);
                },
                Progress::Finish(Ok(())) => {
                    assert(carried_out(s, pf, Ok(())));
                    let worktrees_dir = resolve_worktrees_dir(self.repo_root, self.cfg);
                    return Ok(prune_candidates(opts.path.as_str(), worktrees_dir.as_str()));
                },
                Progress::Next(i) => {
                    let outcome = self.perform(&steps[i]);
                    proof {
                        assert(s[i as int] == steps@[i as int]@);
                        assert(pf(s[i as int], outcome));
                        lemma_after_step_holds(s, pf, i, outcome);
                    }
                    progress = after_step(i, count, outcome);
                },
            }
        }
    }
}

/// The worktrees offered for removal when none is named: all but the first,
/// which is the main worktree.
pub open spec fn removal_candidates_spec(all: Seq<WorktreeView>) -> Seq<WorktreeView> {
    if all.len() == 0 {
        seq![]
    } else {
        all.drop_first()
    }
}

/// The worktrees offered for removal: all but the first (the main one).
pub fn removal_candidates(all: &Vec<Worktree>) -> (r: Vec<Worktree>)
    ensures
        worktree_views(r@) == removal_candidates_spec(worktree_views(all@)),
{
    let ghost av = worktree_views(all@);
    let mut r: Vec<Worktree> = Vec::new();
    if all.len() == 0 {
        assert(worktree_views(r@) =~= removal_candidates_spec(av));
        return r;
    }
    let mut i: usize = 1;
    while i < all.len()
        invariant
            av == worktree_views(all@),
            1 <= i <= all.len(),
            worktree_views(r@) == av.subrange(1, i as int),
        decreases all.len() - i,
    {
        let ghost before = worktree_views(r@);
        r.push(all[i].duplicate());
        assert(worktree_views(r@) =~= before.push(av[i as int]));
        assert(av.subrange(1, i + 1) =~= av.subrange(1, i as int).push(av[i as int]));
        i += 1;
    }
    assert(av.subrange(1, all.len() as int) =~= av.drop_first());
    r
}

/// The paths to remove after choosing interactively: those of the chosen
/// worktrees, in order; `None` when the choice was cancelled or empty.
pub open spec fn chosen_paths_spec(choice: Option<Seq<WorktreeView>>) -> Option<Seq<Seq<char>>> {
    match choice {
        Some(ws) => if ws.len() > 0 {
            Some(ws.map_values(|w: WorktreeView| w.path))
        } else {
            None
        },
        None => None,
    }
}

/// The paths of the chosen worktrees, or `None` when nothing was chosen.
pub fn chosen_paths(choice: Option<Vec<Worktree>>) -> (r: Option<Vec<String>>)
    ensures
        match r {
            Some(v) => chosen_paths_spec(
                match choice {
                    Some(c) => Some(worktree_views(c@)),
                    None => None,
                },
            ) == Some(string_views(v@)),
            None => chosen_paths_spec(
                match choice {
                    Some(c) => Some(worktree_views(c@)),
                    None => None,
                },
            ) is None,
        },
{
    match choice {
        None => None,
        Some(ws) => {
            if ws.len() == 0 {
                return None;
            }
            let ghost wv = worktree_views(ws@);
            let mut r: Vec<String> = Vec::new();
            let mut i: usize = 0;
            while i < ws.len()
                invariant
                    wv == worktree_views(ws@),
                    i <= ws.len(),
                    string_views(r@) == wv.take(i as int).map_values(|w: WorktreeView| w.path),
                decreases ws.len() - i,
            {
                let ghost before = string_views(r@);
                r.push(ws[i].path.clone());
                assert(string_views(r@) =~= before.push(wv[i as int].path));
                assert(wv.take(i + 1).map_values(|w: WorktreeView| w.path) =~= wv.take(
                    i as int,
                ).map_values(|w: WorktreeView| w.path).push(wv[i as int].path));
                i += 1;
            }
            assert(wv.take(ws.len() as int) =~= wv);
            Some(r)
        },
    }
}

/// How a worktree being removed is named while it goes: the last name of its
/// path, or the whole path when it has none.
pub open spec fn removal_label_spec(path: Seq<char>) -> Seq<char> {
    match file_name_spec(path) {
        Some(n) => n,
        None => path,
    }
}

/// The name shown while a worktree is removed.
pub fn removal_label(path: &str) -> (r: String)
    ensures
        r@ == removal_label_spec(path@),
{
    match file_name(path) {
        Some(n) => n,
        None => path.to_owned(),
    }
}

/// What to do with a directory left behind by a removal, walking upwards.
pub enum PruneAction {
    /// It is gone already: go on to the next one.
    PassOver,
    /// It is empty: remove it and go on.
    Remove,
    /// It still holds something: stop, keeping it and those above.
    Stop,
}

/// What to do with a directory left behind by a removal: one that is gone is
/// passed over, an empty one is removed, and one that still holds something
/// ends the walk.
pub open spec fn prune_action_spec(present: bool, is_empty: bool) -> PruneAction {
    if !present {
        PruneAction::PassOver
    } else if is_empty {
        PruneAction::Remove
    } else {
        PruneAction::Stop
    }
}

/// What to do with a directory left behind by a removal.
pub fn prune_action(present: bool, is_empty: bool) -> (a: PruneAction)
    ensures
        a == prune_action_spec(present, is_empty),
{
    if !present {
        PruneAction::PassOver
    } else if is_empty {
        PruneAction::Remove
    } else {
        PruneAction::Stop
    }
}

} // verus!
