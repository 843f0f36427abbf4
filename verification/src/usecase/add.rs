use vstd::prelude::*;

use crate::config::{
    copy_file_views, resolve_worktree_path, worktree_path_spec, Config, ConfigView, CopyFile,
    CopyFileView,
};
use crate::ports::{FileSystem, GitRepository, HookRunner};
use crate::git::add_worktree_args_spec;
use crate::text::lemma_split_words_line;
use crate::text::{split_spaces, string_views, words_line};
use crate::usecase::{
    after_step, carried_out, lemma_after_step_holds, lemma_start_holds, progress_holds, row_views,
    start, steps_left, DryRunPlan, DryRunPlanView, Progress,
};
use crate::worktree::{AddOptions, AddOptionsView, WorktreeError};

verus! {

/// What a plan shows for adding a worktree at `path`: `add -b <branch>
/// <path>`, followed by a space and the base branch whenever one is given
/// (even an empty one), when the branch is to be created; `add <path>
/// <branch>` otherwise.
pub open spec fn add_git_args_spec(path: Seq<char>, opts: AddOptionsView) -> Seq<char> {
    if opts.create_branch {
        match opts.from {
            Some(from) => "add -b "@ + opts.branch + " "@ + path + " "@ + from,
            None => "add -b "@ + opts.branch + " "@ + path,
        }
    } else {
        "add "@ + path + " "@ + opts.branch
    }
}

/// A plan row for a hook command run in `cwd`.
pub open spec fn hook_row(label: Seq<char>, cmd: Seq<char>, cwd: Seq<char>) -> (Seq<char>, Seq<char>) {
    (label, cmd + "  (cwd: "@ + cwd + ")"@)
}

/// The plan rows of hook commands run in `cwd`.
pub open spec fn hook_rows(label: Seq<char>, cmds: Seq<Seq<char>>, cwd: Seq<char>) -> Seq<
    (Seq<char>, Seq<char>),
> {
    cmds.map_values(|c: Seq<char>| hook_row(label, c, cwd))
}

/// The plan rows of glob patterns copied into `path`.
pub open spec fn glob_rows(patterns: Seq<Seq<char>>, path: Seq<char>) -> Seq<(Seq<char>, Seq<char>)> {
    patterns.map_values(|p: Seq<char>| ("copy (glob)"@, p + " → "@ + path + "/*"@))
}

/// The plan rows of file mappings copied into `path`.
pub open spec fn file_rows(files: Seq<CopyFileView>, path: Seq<char>) -> Seq<(Seq<char>, Seq<char>)> {
    files.map_values(|f: CopyFileView| ("copy (file)"@, f.from + " → "@ + path + "/"@ + f.to))
}

/// Whether the configuration copies any file.
pub open spec fn has_copy(cfg: ConfigView) -> bool {
    cfg.patterns.len() > 0 || cfg.files.len() > 0
}

/// The plan of adding a worktree: the `git worktree add` call, the
/// `pre_create` hooks (run in the repository root), the `post_create` hooks
/// (run in the worktree), and, when the configuration copies files, the glob
/// patterns, the file mappings and the `post_copy` hooks.
pub open spec fn add_plan_spec(repo_root: Seq<char>, cfg: ConfigView, opts: AddOptionsView) -> DryRunPlanView {
    let path = worktree_path_spec(repo_root, cfg, opts.branch);
    DryRunPlanView {
        title: "[dry-run] wtxr add "@ + opts.branch,
        rows: seq![("git worktree"@, add_git_args_spec(path, opts))] + hook_rows(
            "hook pre"@,
            cfg.pre_create,
            repo_root,
        ) + hook_rows("hook post"@, cfg.post_create, path) + if has_copy(cfg) {
            glob_rows(cfg.patterns, path) + file_rows(cfg.files, path) + hook_rows(
                "hook post-copy"@,
                cfg.post_copy,
                path,
            )
        } else {
            seq![]
        },
    }
}

/// One outside operation of adding a worktree.
pub enum AddStep {
    /// Run these hook commands in `cwd`.
    RunHooks { commands: Vec<String>, cwd: String },
    /// Add the worktree at `path`.
    AddWorktree { path: String },
    /// Copy the configured files from `src_root` into `dst_root`.
    CopyFiles { src_root: String, dst_root: String },
}

/// The mathematical value of an [`AddStep`].
pub enum AddStepView {
    RunHooks { commands: Seq<Seq<char>>, cwd: Seq<char> },
    AddWorktree { path: Seq<char> },
    CopyFiles { src_root: Seq<char>, dst_root: Seq<char> },
}

impl View for AddStep {
    type V = AddStepView;

    open spec fn view(&self) -> AddStepView {
        match self {
            AddStep::RunHooks { commands, cwd } => AddStepView::RunHooks {
                commands: string_views(commands@),
                cwd: cwd@,
            },
            AddStep::AddWorktree { path } => AddStepView::AddWorktree { path: path@ },
            AddStep::CopyFiles { src_root, dst_root } => AddStepView::CopyFiles {
                src_root: src_root@,
                dst_root: dst_root@,
            },
        }
    }
}

/// The views of a sequence of steps.
pub open spec fn step_views(v: Seq<AddStep>) -> Seq<AddStepView> {
    v.map_values(|s: AddStep| s@)
}

/// The operations of adding a worktree, in order: the `pre_create` hooks in
/// the repository root, the worktree itself, the `post_create` hooks in it,
/// and, when the configuration copies files, the copy and then the
/// `post_copy` hooks in the worktree.
pub open spec fn add_steps_spec(repo_root: Seq<char>, cfg: ConfigView, opts: AddOptionsView) -> Seq<
    AddStepView,
> {
    let path = worktree_path_spec(repo_root, cfg, opts.branch);
    seq![
        AddStepView::RunHooks { commands: cfg.pre_create, cwd: repo_root },
        AddStepView::AddWorktree { path },
        AddStepView::RunHooks { commands: cfg.post_create, cwd: path },
    ] + if has_copy(cfg) {
        seq![
            AddStepView::CopyFiles { src_root: repo_root, dst_root: path },
            AddStepView::RunHooks { commands: cfg.post_copy, cwd: path },
        ]
    } else {
        seq![]
    }
}

/// A copy of a list of strings.
fn copy_strings(v: &Vec<String>) -> (r: Vec<String>)
    ensures
        string_views(r@) == string_views(v@),
{
    let mut r: Vec<String> = Vec::new();
    let mut i: usize = 0;
    while i < v.len()
        invariant
            i <= v.len(),
            string_views(r@) == string_views(v@).take(i as int),
        decreases v.len() - i,
    {
        let ghost before = string_views(r@);
        r.push(v[i].clone());
        assert(string_views(r@) =~= before.push(v@[i as int]@));
        assert(string_views(v@).take(i + 1) =~= string_views(v@).take(i as int).push(v@[i as int]@));
        i += 1;
    }
    assert(string_views(v@).take(v.len() as int) =~= string_views(v@));
    r
}

/// Appends a row per hook command run in `cwd`.
fn push_hook_rows(rows: &mut Vec<(String, String)>, label: &str, cmds: &Vec<String>, cwd: &str)
    ensures
        row_views(final(rows)@) == row_views(old(rows)@) + hook_rows(label@, string_views(cmds@), cwd@),
{
    let ghost start = row_views(rows@);
    let ghost cv = string_views(cmds@);
    let mut i: usize = 0;
    assert(row_views(rows@) =~= start + hook_rows(label@, cv.take(0), cwd@));
    while i < cmds.len()
        invariant
            cv == string_views(cmds@),
            i <= cmds.len(),
            row_views(rows@) == start + hook_rows(label@, cv.take(i as int), cwd@),
        decreases cmds.len() - i,
    {
        let mut value = cmds[i].clone();
        value.append("  (cwd: ");
        value.append(cwd);
        value.append(")");
        let ghost before = row_views(rows@);
        rows.push((label.to_owned(), value));
        proof {
            assert(row_views(rows@) =~= before.push(hook_row(label@, cv[i as int], cwd@)));
            assert(hook_rows(label@, cv.take(i + 1), cwd@) =~= hook_rows(label@, cv.take(i as int), cwd@).push(
                hook_row(label@, cv[i as int], cwd@),
            ));
        }
        i += 1;
    }
    assert(cv.take(cmds.len() as int) =~= cv);
}

/// Appends a row per glob pattern copied into `path`.
fn push_glob_rows(rows: &mut Vec<(String, String)>, patterns: &Vec<String>, path: &str)
    ensures
        row_views(final(rows)@) == row_views(old(rows)@) + glob_rows(string_views(patterns@), path@),
{
    let ghost start = row_views(rows@);
    let ghost pv = string_views(patterns@);
    let mut i: usize = 0;
    assert(row_views(rows@) =~= start + glob_rows(pv.take(0), path@));
    while i < patterns.len()
        invariant
            pv == string_views(patterns@),
            i <= patterns.len(),
            row_views(rows@) == start + glob_rows(pv.take(i as int), path@),
        decreases patterns.len() - i,
    {
        let mut value = patterns[i].clone();
        value.append(" → ");
        value.append(path);
        value.append("/*");
        let ghost before = row_views(rows@);
        rows.push(("copy (glob)".to_owned(), value));
        proof {
            assert(row_views(rows@) =~= before.push(("copy (glob)"@, pv[i as int] + " → "@ + path@ + "/*"@)));
            assert(glob_rows(pv.take(i + 1), path@) =~= glob_rows(pv.take(i as int), path@).push(
                ("copy (glob)"@, pv[i as int] + " → "@ + path@ + "/*"@),
            ));
        }
        i += 1;
    }
    assert(pv.take(patterns.len() as int) =~= pv);
}

/// Appends a row per file mapping copied into `path`.
fn push_file_rows(rows: &mut Vec<(String, String)>, files: &Vec<CopyFile>, path: &str)
    ensures
        row_views(final(rows)@) == row_views(old(rows)@) + file_rows(copy_file_views(files@), path@),
{
    let ghost start = row_views(rows@);
    let ghost fv = copy_file_views(files@);
    let mut i: usize = 0;
    assert(row_views(rows@) =~= start + file_rows(fv.take(0), path@));
    while i < files.len()
        invariant
            fv == copy_file_views(files@),
            i <= files.len(),
            row_views(rows@) == start + file_rows(fv.take(i as int), path@),
        decreases files.len() - i,
    {
        let mut value = files[i].from.clone();
        value.append(" → ");
        value.append(path);
        value.append("/");
        value.append(files[i].to.as_str());
        let ghost before = row_views(rows@);
        rows.push(("copy (file)".to_owned(), value));
        proof {
            let f = fv[i as int];
            assert(row_views(rows@) =~= before.push(("copy (file)"@, f.from + " → "@ + path@ + "/"@ + f.to)));
            assert(file_rows(fv.take(i + 1), path@) =~= file_rows(fv.take(i as int), path@).push(
                ("copy (file)"@, f.from + " → "@ + path@ + "/"@ + f.to),
            ));
        }
        i += 1;
    }
    assert(fv.take(files.len() as int) =~= fv);
}

/// Adds a worktree for a branch: runs the hooks, creates the worktree and
/// copies the configured files.
pub struct AddWorktree<
    'a,
    G: GitRepository + ?Sized,
    F: FileSystem + ?Sized,
    H: HookRunner + ?Sized,
> {
    git: &'a G,
    fs: &'a F,
    hooks: &'a H,
    cfg: &'a Config,
    repo_root: &'a str,
}

impl<'a, G: GitRepository + ?Sized, F: FileSystem + ?Sized, H: HookRunner + ?Sized> AddWorktree<
    'a,
    G,
    F,
    H,
> {
    /// The git operations it works through.
    pub closed spec fn git(&self) -> &'a G {
        self.git
    }

    /// The file operations it works through.
    pub closed spec fn files(&self) -> &'a F {
        self.fs
    }

    /// The hook runner it works through.
    pub closed spec fn hooks(&self) -> &'a H {
        self.hooks
    }

    /// The outcomes that carrying out `step` can have: a hook step's are
    /// those of running its commands in its directory; the worktree step's
    /// those of adding the worktree at its path with `opts`; the copy step's
    /// those of copying the configured files between its roots (on success,
    /// whatever was copied).
    pub open spec fn performed(&self, step: AddStepView, opts: AddOptionsView, r: Result<(), WorktreeError>) -> bool {
        match step {
            AddStepView::RunHooks { commands, cwd } => self.hooks().ran(commands, cwd, r),
            AddStepView::AddWorktree { path } => self.git().added(path, opts, r),
            AddStepView::CopyFiles { src_root, dst_root } => if r is Ok {
                self.copy_can_succeed(src_root, dst_root)
            } else {
                self.files().copied(
                    src_root,
                    dst_root,
                    self.config().patterns,
                    self.config().files,
                    Err(r->Err_0),
                )
            },
        }
    }

    /// Whether copying the configured files from `src_root` into `dst_root`
    /// can succeed, with some list of copied files.
    pub open spec fn copy_can_succeed(&self, src_root: Seq<char>, dst_root: Seq<char>) -> bool {
        exists|v: Seq<CopyFileView>|
            #[trigger] self.files().copied(
                src_root,
                dst_root,
                self.config().patterns,
                self.config().files,
                Ok(v),
            )
    }

    /// [`AddWorktree::performed`] as a function of the step and outcome.
    pub open spec fn performer(&self, opts: AddOptionsView) -> spec_fn(AddStepView, Result<(), WorktreeError>) -> bool {
        |step: AddStepView, r: Result<(), WorktreeError>| self.performed(step, opts, r)
    }

    /// The configuration it works with.
    pub closed spec fn config(&self) -> ConfigView {
        self.cfg@
    }

    /// The repository root it works in.
    pub closed spec fn root(&self) -> Seq<char> {
        self.repo_root@
    }

    /// A use case over these operations, configuration and repository root.
    pub fn new(git: &'a G, fs: &'a F, hooks: &'a H, cfg: &'a Config, repo_root: &'a str) -> (r: Self)
        ensures
            r.git() == git,
            r.files() == fs,
            r.hooks() == hooks,
            r.config() == cfg@,
            r.root() == repo_root@,
    {
        AddWorktree { git, fs, hooks, cfg, repo_root }
    }

    /// The git arguments that the plan shows.
    fn plan_git_args(path: &str, opts: &AddOptions) -> (r: String)
        ensures
            r@ == add_git_args_spec(path@, opts@),
    {
        if opts.create_branch {
            let mut r = "add -b ".to_owned();
            r.append(opts.branch.as_str());
            r.append(" ");
            r.append(path);
            match &opts.from {
                Some(from) => {
                    r.append(" ");
                    r.append(from.as_str());
                },
                None => {},
            }
            r
        } else {
            let mut r = "add ".to_owned();
            r.append(path);
            r.append(" ");
            r.append(opts.branch.as_str());
            r
        }
    }

    /// What adding the worktree would do, without doing it (`--dry-run`).
    pub fn plan(&self, opts: &AddOptions) -> (r: DryRunPlan)
        ensures
            r@ == add_plan_spec(self.root(), self.config(), opts@),
    {
        let path = resolve_worktree_path(self.repo_root, self.cfg, opts.branch.as_str());
        let mut rows: Vec<(String, String)> = Vec::new();
        rows.push(("git worktree".to_owned(), Self::plan_git_args(path.as_str(), opts)));
        push_hook_rows(&mut rows, "hook pre", &self.cfg.hooks.pre_create, self.repo_root);
        push_hook_rows(&mut rows, "hook post", &self.cfg.hooks.post_create, path.as_str());
        let copying = self.cfg.copy.patterns.len() > 0 || self.cfg.copy.files.len() > 0;
        let ghost before_copy = row_views(rows@);
        if copying {
            push_glob_rows(&mut rows, &self.cfg.copy.patterns, path.as_str());
            push_file_rows(&mut rows, &self.cfg.copy.files, path.as_str());
            push_hook_rows(&mut rows, "hook post-copy", &self.cfg.hooks.post_copy, path.as_str());
        }
        let mut title = "[dry-run] wtxr add ".to_owned();
        title.append(opts.branch.as_str());
        let r = DryRunPlan { title, rows };
        proof {
            let spec = add_plan_spec(self.root(), self.config(), opts@);
            if copying {
                assert(r@.rows =~= spec.rows);
            } else {
                assert(row_views(r.rows@) =~= before_copy + Seq::<(Seq<char>, Seq<char>)>::empty());
                assert(r@.rows =~= spec.rows);
            }
        }
        r
    }

    /// The operations of adding the worktree, in the order they are done.
    pub fn steps(&self, opts: &AddOptions) -> (r: Vec<AddStep>)
        ensures
            step_views(r@) == add_steps_spec(self.root(), self.config(), opts@),
    {
        let path = resolve_worktree_path(self.repo_root, self.cfg, opts.branch.as_str());
        let mut r: Vec<AddStep> = Vec::new();
        r.push(
            AddStep::RunHooks {
                commands: copy_strings(&self.cfg.hooks.pre_create),
                cwd: self.repo_root.to_owned(),
            },
        );
        r.push(AddStep::AddWorktree { path: path.clone() });
        r.push(
            AddStep::RunHooks {
                commands: copy_strings(&self.cfg.hooks.post_create),
                cwd: path.clone(),
            },
        );
        if self.cfg.copy.patterns.len() > 0 || self.cfg.copy.files.len() > 0 {
            r.push(
                AddStep::CopyFiles { src_root: self.repo_root.to_owned(), dst_root: path.clone() },
            );
            r.push(
                AddStep::RunHooks { commands: copy_strings(&self.cfg.hooks.post_copy), cwd: path },
            );
        }
        assert(step_views(r@) =~= add_steps_spec(self.root(), self.config(), opts@));
        r
    }

    /// Carries out one step.
    fn perform(&self, step: &AddStep, opts: &AddOptions) -> (r: Result<(), WorktreeError>)
        ensures
            self.performed(step@, opts@, r),
    {
        match step {
            AddStep::RunHooks { commands, cwd } => self.hooks.run(commands.as_slice(), cwd.as_str()),
            AddStep::AddWorktree { path } => self.git.add_worktree(path.as_str(), opts),
            AddStep::CopyFiles { src_root, dst_root } => {
                let copied = self.fs.copy_files(src_root.as_str(), dst_root.as_str(), &self.cfg.copy);
                match copied {
                    Ok(v) => {
                        assert(self.files().copied(
                            src_root@,
                            dst_root@,
                            self.config().patterns,
                            self.config().files,
                            Ok(copy_file_views(v@)),
                        ));
                        Ok(())
                    },
                    Err(e) => Err(e),
                }
            },
        }
    }

    /// Adds the worktree: carries out [`AddWorktree::steps`] in order, each
    /// step followed as [`after_step`] decides, so it stops at the first that
    /// fails, with its error. Whatever the operations give, the outcome is
    /// one they can give: success when every step succeeded, else the failure
    /// of one step after all before it succeeded.
    pub fn execute(&self, opts: &AddOptions) -> (r: Result<(), WorktreeError>)
        ensures
            carried_out(add_steps_spec(self.root(), self.config(), opts@), self.performer(opts@), r),
    {
        let steps = self.steps(opts);
        let count = steps.len();
        let ghost s = add_steps_spec(self.root(), self.config(), opts@);
        let ghost pf = self.performer(opts@);
        let mut progress = start(count);
        proof {
            lemma_start_holds(s, pf);
        }
        loop
            invariant
                count == steps.len(),
                s == step_views(steps@),
                pf == self.performer(opts@),
                s == add_steps_spec(self.root(), self.config(), opts@),
                progress_holds(s, pf, progress),
            decreases steps_left(progress, count as int),
        {
            match progress {
                Progress::Finish(r) => {
                    return r;
                },
                Progress::Next(i) => {
                    let outcome = self.perform(&steps[i], opts);
                    proof {
                        assert(s[i as int] == steps@[i as int]@);
                        assert(pf(s[i as int], outcome));
                        lemma_after_step_holds(s, pf, i, outcome);
                    }
                    progress = after_step(i, count, outcome);
                },
            }
        }
    }
}

/// Law: the first row of the dry-run plan shows the very `git worktree`
/// command that adding the worktree runs, for the path of the add step: the
/// row is the arguments after `worktree` joined by spaces, and split at its
/// spaces it gives those arguments back. This holds when no argument holds a
/// space and the base branch, if one is given, is not empty (an empty one is
/// shown as a trailing space but not passed to git).
pub proof fn law_add_plan_shows_git_command(repo_root: Seq<char>, cfg: ConfigView, opts: AddOptionsView)
    requires
        !opts.branch.contains(' '),
        !worktree_path_spec(repo_root, cfg, opts.branch).contains(' '),
        opts.from is Some ==> opts.from->0.len() > 0 && !opts.from->0.contains(' '),
    ensures
        ({
            let path = worktree_path_spec(repo_root, cfg, opts.branch);
            let args = add_worktree_args_spec(path, opts);
            &&& args[0] == "worktree"@
            &&& add_plan_spec(repo_root, cfg, opts).rows[0] == ("git worktree"@, words_line(args.skip(1)))
            &&& split_spaces(add_plan_spec(repo_root, cfg, opts).rows[0].1) == args.skip(1)
            &&& add_steps_spec(repo_root, cfg, opts)[1] == (AddStepView::AddWorktree { path })
        }),
{
    let path = worktree_path_spec(repo_root, cfg, opts.branch);
    let args = add_worktree_args_spec(path, opts);
    let words = args.skip(1);
    let b = opts.branch;
    reveal_strlit("add");
    reveal_strlit("-b");
    reveal_strlit(" ");
    reveal_strlit("add ");
    reveal_strlit("add -b ");
    reveal_strlit("worktree");
    let sp = " "@;
    assert(sp =~= seq![' ']);
    assert("add "@ =~= "add"@ + sp);
    assert("add -b "@ =~= "add"@ + sp + "-b"@ + sp);
    let row = add_git_args_spec(path, opts);
    if opts.create_branch {
        let base = seq!["add"@, "-b"@, b, path];
        assert(words_line(seq!["add"@]) == "add"@);
        assert(seq!["add"@, "-b"@].drop_last() =~= seq!["add"@]);
        assert(words_line(seq!["add"@, "-b"@]) == "add"@ + sp + "-b"@);
        assert(seq!["add"@, "-b"@, b].drop_last() =~= seq!["add"@, "-b"@]);
        assert(words_line(seq!["add"@, "-b"@, b]) == "add"@ + sp + "-b"@ + sp + b);
        assert(base.drop_last() =~= seq!["add"@, "-b"@, b]);
        assert(words_line(base) == "add"@ + sp + "-b"@ + sp + b + sp + path);
        match opts.from {
            Some(f) => {
                assert(words =~= base.push(f));
                assert(base.push(f).drop_last() =~= base);
                assert(words_line(words) =~= row);
            },
            None => {
                assert(words =~= base);
                assert(words_line(words) =~= row);
            },
        }
    } else {
        assert(words =~= seq!["add"@, path, b]);
        assert(seq!["add"@, path].drop_last() =~= seq!["add"@]);
        assert(words_line(seq!["add"@]) == "add"@);
        assert(words_line(seq!["add"@, path]) == "add"@ + sp + path);
        assert(seq!["add"@, path, b].drop_last() =~= seq!["add"@, path]);
        assert(words_line(seq!["add"@, path, b]) == "add"@ + sp + path + sp + b);
        assert(words_line(words) =~= row);
    }
    assert forall|k: int| 0 <= k < words.len() implies !(#[trigger] words[k]).contains(' ') by {
        if words[k].contains(' ') {
            let t = choose|t: int| 0 <= t < words[k].len() && words[k][t] == ' ';
            assert("add"@[0] == 'a' && "add"@[1] == 'd' && "add"@[2] == 'd');
            assert("-b"@[0] == '-' && "-b"@[1] == 'b');
        }
    }
    lemma_split_words_line(words);
}

/// Law: the dry-run plan lists the copying exactly as adding carries it out.
/// Whenever the configuration copies anything (glob patterns or file
/// mappings), the steps copy from the repository root into the worktree and
/// then run the `post_copy` hooks there, and the plan has a row for every
/// pattern, every mapping and every `post_copy` hook; when it copies nothing,
/// neither the steps nor the plan copy or run `post_copy` hooks.
pub proof fn law_add_plan_lists_copies(repo_root: Seq<char>, cfg: ConfigView, opts: AddOptionsView)
    ensures
        ({
            let path = worktree_path_spec(repo_root, cfg, opts.branch);
            let rows = add_plan_spec(repo_root, cfg, opts).rows;
            let steps = add_steps_spec(repo_root, cfg, opts);
            let copying = cfg.patterns.len() > 0 || cfg.files.len() > 0;
            &&& forall|j: int|
                #![trigger cfg.patterns[j]]
                0 <= j < cfg.patterns.len() ==> rows.contains(
                    ("copy (glob)"@, cfg.patterns[j] + " → "@ + path + "/*"@),
                )
            &&& forall|j: int|
                #![trigger cfg.files[j]]
                0 <= j < cfg.files.len() ==> rows.contains(
                    ("copy (file)"@, cfg.files[j].from + " → "@ + path + "/"@ + cfg.files[j].to),
                )
            &&& copying ==> forall|j: int|
                #![trigger cfg.post_copy[j]]
                0 <= j < cfg.post_copy.len() ==> rows.contains(
                    ("hook post-copy"@, cfg.post_copy[j] + "  (cwd: "@ + path + ")"@),
                )
            &&& !copying ==> forall|i: int|
                0 <= i < rows.len() ==> (#[trigger] rows[i]).0 != "hook post-copy"@ && rows[i].0
                    != "copy (glob)"@ && rows[i].0 != "copy (file)"@
            &&& copying <==> steps.contains(
                AddStepView::CopyFiles { src_root: repo_root, dst_root: path },
            )
            &&& copying ==> steps.contains(
                AddStepView::RunHooks { commands: cfg.post_copy, cwd: path },
            )
            &&& !copying ==> steps.len() == 3
        }),
{
    let path = worktree_path_spec(repo_root, cfg, opts.branch);
    let rows = add_plan_spec(repo_root, cfg, opts).rows;
    let steps = add_steps_spec(repo_root, cfg, opts);
    let copying = cfg.patterns.len() > 0 || cfg.files.len() > 0;
    let hp = hook_rows("hook pre"@, cfg.pre_create, repo_root);
    let ho = hook_rows("hook post"@, cfg.post_create, path);
    let head = seq![("git worktree"@, add_git_args_spec(path, opts))] + hp + ho;
    let off = 1 + cfg.pre_create.len() + cfg.post_create.len();
    if copying {
        let gr = glob_rows(cfg.patterns, path);
        let fr = file_rows(cfg.files, path);
        let hc = hook_rows("hook post-copy"@, cfg.post_copy, path);
        assert(rows == head + (gr + fr + hc));
        assert forall|j: int| #![trigger cfg.patterns[j]] 0 <= j < cfg.patterns.len() implies rows.contains(
            ("copy (glob)"@, cfg.patterns[j] + " → "@ + path + "/*"@),
        ) by {
            assert(rows[off + j] == gr[j]);
        }
        assert forall|j: int| #![trigger cfg.files[j]] 0 <= j < cfg.files.len() implies rows.contains(
            ("copy (file)"@, cfg.files[j].from + " → "@ + path + "/"@ + cfg.files[j].to),
        ) by {
            assert(rows[off + cfg.patterns.len() + j] == fr[j]);
        }
        assert forall|j: int| #![trigger cfg.post_copy[j]] 0 <= j < cfg.post_copy.len() implies rows.contains(
            ("hook post-copy"@, cfg.post_copy[j] + "  (cwd: "@ + path + ")"@),
        ) by {
            assert(rows[off + cfg.patterns.len() + cfg.files.len() + j] == hc[j]);
        }
        assert(steps[3] == AddStepView::CopyFiles { src_root: repo_root, dst_root: path });
        assert(steps[4] == AddStepView::RunHooks { commands: cfg.post_copy, cwd: path });
    } else {
        reveal_strlit("hook post-copy");
        reveal_strlit("copy (glob)");
        reveal_strlit("copy (file)");
        reveal_strlit("git worktree");
        reveal_strlit("hook pre");
        reveal_strlit("hook post");
        assert("hook post-copy"@.len() == 14);
        assert("copy (glob)"@.len() == 11);
        assert("copy (file)"@.len() == 11);
        assert("git worktree"@.len() == 12);
        assert("hook pre"@.len() == 8);
        assert("hook post"@.len() == 9);
        assert(rows =~= head);
        assert forall|i: int| 0 <= i < rows.len() implies (#[trigger] rows[i]).0 != "hook post-copy"@
            && rows[i].0 != "copy (glob)"@ && rows[i].0 != "copy (file)"@ by {
            if i == 0 {
                assert(rows[i].0 == "git worktree"@);
            } else if i < 1 + cfg.pre_create.len() {
                assert(rows[i] == hp[i - 1]);
                assert(rows[i].0 == "hook pre"@);
            } else {
                assert(rows[i] == ho[i - 1 - cfg.pre_create.len()]);
                assert(rows[i].0 == "hook post"@);
            }
        }
        assert(steps.len() == 3);
        assert(!steps.contains(AddStepView::CopyFiles { src_root: repo_root, dst_root: path })) by {
            if steps.contains(AddStepView::CopyFiles { src_root: repo_root, dst_root: path }) {
                let k = choose|k: int| 0 <= k < steps.len() && steps[k] == (AddStepView::CopyFiles {
                    src_root: repo_root,
                    dst_root: path,
                });
                assert(k == 0 || k == 1 || k == 2);
            }
        }
    }
}

} // verus!
