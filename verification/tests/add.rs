use std::cell::RefCell;

use wtxr::config::{Config, CopyConfig, CopyFile};
use wtxr::git::add_worktree_args;
use wtxr::ports::{FileSystem, GitRepository, HookRunner};
use wtxr::usecase::add::{AddStep, AddWorktree};
use wtxr::worktree::{AddOptions, Worktree, WorktreeError};

struct MockGit {
    added: RefCell<Vec<(String, AddOptions)>>,
}

impl MockGit {
    fn new() -> Self {
        Self { added: RefCell::new(vec![]) }
    }
}

impl GitRepository for MockGit {
    fn add_worktree(&self, path: &str, opts: &AddOptions) -> Result<(), WorktreeError> {
        self.added.borrow_mut().push((path.to_string(), opts.clone()));
        Ok(())
    }
    fn remove_worktree(&self, _path: &str, _force: bool) -> Result<(), WorktreeError> {
        unreachable!()
    }
    fn delete_branch(&self, _branch: &str, _force: bool) -> Result<(), WorktreeError> {
        unreachable!()
    }
    fn list_worktrees(&self) -> Result<Vec<Worktree>, WorktreeError> {
        Ok(vec![])
    }
    fn branch_from_worktree(&self, _path: &str) -> Result<Option<String>, WorktreeError> {
        Ok(None)
    }
    fn repo_root(&self) -> Result<String, WorktreeError> {
        Ok("/repo".to_string())
    }
}

struct MockFs {
    copied: RefCell<Vec<(String, String)>>,
}

impl MockFs {
    fn new() -> Self {
        Self { copied: RefCell::new(vec![]) }
    }
}

impl FileSystem for MockFs {
    fn copy_files(
        &self,
        src_root: &str,
        dst_root: &str,
        _cfg: &CopyConfig,
    ) -> Result<Vec<CopyFile>, WorktreeError> {
        self.copied.borrow_mut().push((src_root.to_string(), dst_root.to_string()));
        Ok(vec![])
    }
}

struct MockHooks {
    ran: RefCell<Vec<(Vec<String>, String)>>,
}

impl MockHooks {
    fn new() -> Self {
        Self { ran: RefCell::new(vec![]) }
    }
}

impl HookRunner for MockHooks {
    fn run(&self, commands: &[String], cwd: &str) -> Result<(), WorktreeError> {
        if !commands.is_empty() {
            self.ran.borrow_mut().push((commands.to_vec(), cwd.to_string()));
        }
        Ok(())
    }
}

struct FailingHooks;

impl HookRunner for FailingHooks {
    fn run(&self, commands: &[String], _cwd: &str) -> Result<(), WorktreeError> {
        if commands.is_empty() {
            Ok(())
        } else {
            Err(WorktreeError::CommandFailed { message: "hook failed".to_string() })
        }
    }
}

fn default_opts(branch: &str) -> AddOptions {
    AddOptions { branch: branch.to_string(), create_branch: false, from: None }
}

#[test]
fn worktree_path_is_resolved_from_branch() {
    let git = MockGit::new();
    let fs = MockFs::new();
    let hooks = MockHooks::new();
    let cfg = Config::default();
    let repo_root = "/repo";
    let uc = AddWorktree::new(&git, &fs, &hooks, &cfg, repo_root);

    uc.execute(&default_opts("feature/foo")).unwrap();

    let added = git.added.borrow();
    assert_eq!(added[0].0, "/repo/.wtxr/worktrees/feature/foo");
}

#[test]
fn file_copy_is_skipped_when_config_is_empty() {
    let git = MockGit::new();
    let fs = MockFs::new();
    let hooks = MockHooks::new();
    let cfg = Config::default();
    let repo_root = "/repo";
    let uc = AddWorktree::new(&git, &fs, &hooks, &cfg, repo_root);

    uc.execute(&default_opts("feature/foo")).unwrap();

    assert!(fs.copied.borrow().is_empty(), "copy_files should not be called");
}

#[test]
fn file_copy_is_called_when_patterns_exist() {
    let git = MockGit::new();
    let fs = MockFs::new();
    let hooks = MockHooks::new();
    let mut cfg = Config::default();
    cfg.copy.patterns = vec!["*.env".to_string()];
    let repo_root = "/repo";
    let uc = AddWorktree::new(&git, &fs, &hooks, &cfg, repo_root);

    uc.execute(&default_opts("feature/bar")).unwrap();

    let copied = fs.copied.borrow();
    assert_eq!(copied.len(), 1);
    assert_eq!(copied[0].1, "/repo/.wtxr/worktrees/feature/bar");
}

#[test]
fn pre_create_hook_runs_before_git() {
    let git = MockGit::new();
    let fs = MockFs::new();
    let hooks = MockHooks::new();
    let mut cfg = Config::default();
    cfg.hooks.pre_create = vec!["echo pre".to_string()];
    let repo_root = "/repo";
    let uc = AddWorktree::new(&git, &fs, &hooks, &cfg, repo_root);

    uc.execute(&default_opts("feature/foo")).unwrap();

    let ran = hooks.ran.borrow();
    assert_eq!(ran[0].0, vec!["echo pre"]);
    assert_eq!(ran[0].1, repo_root);
}

#[test]
fn post_create_and_post_copy_hooks_run_in_worktree() {
    let git = MockGit::new();
    let fs = MockFs::new();
    let hooks = MockHooks::new();
    let mut cfg = Config::default();
    cfg.hooks.post_create = vec!["echo post-create".to_string()];
    cfg.hooks.post_copy = vec!["echo post-copy".to_string()];
    cfg.copy.patterns = vec!["*.env".to_string()];
    let repo_root = "/repo";
    let uc = AddWorktree::new(&git, &fs, &hooks, &cfg, repo_root);

    uc.execute(&default_opts("feature/bar")).unwrap();

    let ran = hooks.ran.borrow();
    let worktree_path = "/repo/.wtxr/worktrees/feature/bar";
    assert_eq!(ran[0].0, vec!["echo post-create"]);
    assert_eq!(ran[0].1, worktree_path);
    assert_eq!(ran[1].0, vec!["echo post-copy"]);
    assert_eq!(ran[1].1, worktree_path);
}

#[test]
fn post_copy_hook_is_skipped_when_no_copy_config() {
    let git = MockGit::new();
    let fs = MockFs::new();
    let hooks = MockHooks::new();
    let mut cfg = Config::default();
    cfg.hooks.post_copy = vec!["echo post-copy".to_string()];
    let repo_root = "/repo";
    let uc = AddWorktree::new(&git, &fs, &hooks, &cfg, repo_root);

    uc.execute(&default_opts("feature/foo")).unwrap();

    assert!(hooks.ran.borrow().is_empty());
}

#[test]
fn failing_pre_create_hook_stops_before_git() {
    let git = MockGit::new();
    let fs = MockFs::new();
    let hooks = FailingHooks;
    let mut cfg = Config::default();
    cfg.hooks.pre_create = vec!["false".to_string()];
    cfg.copy.patterns = vec!["*.env".to_string()];
    let uc = AddWorktree::new(&git, &fs, &hooks, &cfg, "/repo");

    let r = uc.execute(&default_opts("x"));
    assert_eq!(r, Err(WorktreeError::CommandFailed { message: "hook failed".to_string() }));
    assert!(git.added.borrow().is_empty());
    assert!(fs.copied.borrow().is_empty());
}

#[test]
fn steps_are_in_order() {
    let git = MockGit::new();
    let fs = MockFs::new();
    let hooks = MockHooks::new();
    let mut cfg = Config::default();
    cfg.copy.files = vec![CopyFile { from: "a".to_string(), to: "b".to_string() }];
    cfg.hooks.pre_create = vec!["p".to_string()];
    let uc = AddWorktree::new(&git, &fs, &hooks, &cfg, "/repo");
    let steps = uc.steps(&default_opts("t"));
    assert_eq!(steps.len(), 5);
    match &steps[0] {
        AddStep::RunHooks { commands, cwd } => {
            assert_eq!(commands, &vec!["p".to_string()]);
            assert_eq!(cwd, "/repo");
        }
        _ => panic!("first step should run the pre_create hooks"),
    }
    match &steps[1] {
        AddStep::AddWorktree { path } => assert_eq!(path, "/repo/.wtxr/worktrees/t"),
        _ => panic!("second step should add the worktree"),
    }
    match &steps[3] {
        AddStep::CopyFiles { src_root, dst_root } => {
            assert_eq!(src_root, "/repo");
            assert_eq!(dst_root, "/repo/.wtxr/worktrees/t");
        }
        _ => panic!("fourth step should copy"),
    }
}

#[test]
fn plan_lists_every_operation() {
    let git = MockGit::new();
    let fs = MockFs::new();
    let hooks = MockHooks::new();
    let mut cfg = Config::default();
    cfg.copy.patterns = vec!["*.env".to_string()];
    cfg.copy.files = vec![CopyFile { from: ".env.example".to_string(), to: ".env".to_string() }];
    cfg.hooks.pre_create = vec!["echo pre".to_string()];
    cfg.hooks.post_create = vec!["npm install".to_string()];
    cfg.hooks.post_copy = vec!["echo done".to_string()];
    let uc = AddWorktree::new(&git, &fs, &hooks, &cfg, "/repo");
    let opts = AddOptions {
        branch: "feature/x".to_string(),
        create_branch: true,
        from: Some("main".to_string()),
    };
    let plan = uc.plan(&opts);
    let p = "/repo/.wtxr/worktrees/feature/x";
    assert_eq!(plan.title, "[dry-run] wtxr add feature/x");
    let rows: Vec<(&str, String)> = vec![
        ("git worktree", format!("add -b feature/x {} main", p)),
        ("hook pre", "echo pre  (cwd: /repo)".to_string()),
        ("hook post", format!("npm install  (cwd: {})", p)),
        ("copy (glob)", format!("*.env → {}/*", p)),
        ("copy (file)", format!(".env.example → {}/.env", p)),
        ("hook post-copy", format!("echo done  (cwd: {})", p)),
    ];
    assert_eq!(plan.rows.len(), rows.len());
    for (got, want) in plan.rows.iter().zip(rows.iter()) {
        assert_eq!(got.0, want.0);
        assert_eq!(got.1, want.1);
    }
    assert!(git.added.borrow().is_empty());
}

#[test]
fn plan_without_copy_config_omits_post_copy() {
    let git = MockGit::new();
    let fs = MockFs::new();
    let hooks = MockHooks::new();
    let mut cfg = Config::default();
    cfg.hooks.post_copy = vec!["echo done".to_string()];
    let uc = AddWorktree::new(&git, &fs, &hooks, &cfg, "/repo");
    let plan = uc.plan(&default_opts("b"));
    assert_eq!(plan.rows.len(), 1);
    assert_eq!(plan.rows[0].0, "git worktree");
    assert_eq!(plan.rows[0].1, "add /repo/.wtxr/worktrees/b b");
    let lines = plan.lines();
    assert_eq!(lines[0], "[dry-run] wtxr add b");
    assert_eq!(lines[1], "");
    assert_eq!(lines[2], "  Action        Value");
    assert_eq!(lines[3], format!("  {}", "─".repeat(12 + 2 + 40)));
    assert_eq!(lines[4], "  git worktree  add /repo/.wtxr/worktrees/b b");
    assert_eq!(lines.len(), 5);
}

#[test]
fn plan_row_is_the_git_command_that_runs() {
    let git = MockGit::new();
    let fs = MockFs::new();
    let hooks = MockHooks::new();
    let cfg = Config::default();
    let uc = AddWorktree::new(&git, &fs, &hooks, &cfg, "/repo");
    let cases = vec![
        AddOptions { branch: "topic".to_string(), create_branch: false, from: Some("main".to_string()) },
        AddOptions { branch: "topic".to_string(), create_branch: false, from: None },
        AddOptions { branch: "topic".to_string(), create_branch: true, from: Some("main".to_string()) },
    ];
    for opts in cases {
        let plan = uc.plan(&opts);
        uc.execute(&opts).unwrap();
        let added = git.added.borrow().last().unwrap().0.clone();
        let args = add_worktree_args(&added, &opts);
        assert_eq!(args[0], "worktree");
        assert_eq!(plan.rows[0].1, args[1..].join(" "));
        let words: Vec<&str> = plan.rows[0].1.split(' ').collect();
        assert_eq!(words, args[1..].iter().map(|a| a.as_str()).collect::<Vec<_>>());
    }
    let empty_base =
        AddOptions { branch: "topic".to_string(), create_branch: true, from: Some(String::new()) };
    assert_eq!(uc.plan(&empty_base).rows[0].1, "add -b topic /repo/.wtxr/worktrees/topic ");
    assert_eq!(
        add_worktree_args("/repo/.wtxr/worktrees/topic", &empty_base),
        vec!["worktree", "add", "-b", "topic", "/repo/.wtxr/worktrees/topic"]
    );
    assert_eq!(
        uc.plan(&AddOptions { branch: "t".to_string(), create_branch: false, from: Some("m".to_string()) })
            .rows[0]
            .1,
        "add /repo/.wtxr/worktrees/t t"
    );
}
