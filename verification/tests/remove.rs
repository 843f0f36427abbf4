use std::cell::RefCell;

use wtxr::config::Config;
use wtxr::ports::GitRepository;
use wtxr::usecase::list::ListWorktrees;
use wtxr::usecase::remove::{
    chosen_paths, prune_action, removal_candidates, removal_label, removal_steps, PruneAction,
    RemoveStep, RemoveWorktree,
};
use wtxr::usecase::{after_step, start, Progress};
use wtxr::worktree::{AddOptions, RemoveOptions, Worktree, WorktreeError};

struct MockGit {
    removed: RefCell<Vec<(String, bool)>>,
    deleted_branches: RefCell<Vec<(String, bool)>>,
    branch_for_path: Option<String>,
}

impl MockGit {
    fn new(branch_for_path: Option<&str>) -> Self {
        Self {
            removed: RefCell::new(vec![]),
            deleted_branches: RefCell::new(vec![]),
            branch_for_path: branch_for_path.map(String::from),
        }
    }
}

impl GitRepository for MockGit {
    fn add_worktree(&self, _path: &str, _opts: &AddOptions) -> Result<(), WorktreeError> {
        unreachable!()
    }
    fn remove_worktree(&self, path: &str, force: bool) -> Result<(), WorktreeError> {
        self.removed.borrow_mut().push((path.to_string(), force));
        Ok(())
    }
    fn delete_branch(&self, branch: &str, force: bool) -> Result<(), WorktreeError> {
        self.deleted_branches.borrow_mut().push((branch.to_string(), force));
        Ok(())
    }
    fn list_worktrees(&self) -> Result<Vec<Worktree>, WorktreeError> {
        Ok(vec![Worktree::new("/repo".to_string(), Some("main".to_string()), "abc".to_string())])
    }
    fn branch_from_worktree(&self, _path: &str) -> Result<Option<String>, WorktreeError> {
        Ok(self.branch_for_path.clone())
    }
    fn repo_root(&self) -> Result<String, WorktreeError> {
        Ok("/repo".to_string())
    }
}

struct LookupFails;
impl GitRepository for LookupFails {
    fn add_worktree(&self, _path: &str, _opts: &AddOptions) -> Result<(), WorktreeError> {
        unreachable!()
    }
    fn remove_worktree(&self, _path: &str, _force: bool) -> Result<(), WorktreeError> {
        panic!("nothing is removed when the lookup fails")
    }
    fn delete_branch(&self, _branch: &str, _force: bool) -> Result<(), WorktreeError> {
        unreachable!()
    }
    fn list_worktrees(&self) -> Result<Vec<Worktree>, WorktreeError> {
        Ok(vec![])
    }
    fn branch_from_worktree(&self, _path: &str) -> Result<Option<String>, WorktreeError> {
        Err(WorktreeError::GitCommandFailed { message: "no".to_string() })
    }
    fn repo_root(&self) -> Result<String, WorktreeError> {
        Ok("/repo".to_string())
    }
}

struct RefusingGit;

impl GitRepository for RefusingGit {
    fn add_worktree(&self, _path: &str, _opts: &AddOptions) -> Result<(), WorktreeError> {
        unreachable!()
    }
    fn remove_worktree(&self, _path: &str, _force: bool) -> Result<(), WorktreeError> {
        Err(WorktreeError::GitCommandFailed { message: "dirty".to_string() })
    }
    fn delete_branch(&self, _branch: &str, _force: bool) -> Result<(), WorktreeError> {
        panic!("the branch must not be deleted when the worktree stays")
    }
    fn list_worktrees(&self) -> Result<Vec<Worktree>, WorktreeError> {
        Ok(vec![])
    }
    fn branch_from_worktree(&self, _path: &str) -> Result<Option<String>, WorktreeError> {
        Ok(Some("b".to_string()))
    }
    fn repo_root(&self) -> Result<String, WorktreeError> {
        Ok("/repo".to_string())
    }
}

#[test]
fn removes_worktree_without_branch() {
    let git = MockGit::new(None);
    let cfg = Config::default();
    let repo_root = "/repo";
    let uc = RemoveWorktree::new(&git, &cfg, repo_root);

    let opts = RemoveOptions {
        path: "/repo/.wtxr/worktrees/feature/foo".to_string(),
        delete_branch: false,
        force: false,
    };
    uc.execute(&opts).unwrap();

    assert_eq!(git.removed.borrow().len(), 1);
    assert_eq!(git.deleted_branches.borrow().len(), 0);
}

#[test]
fn removes_worktree_and_branch() {
    let git = MockGit::new(Some("feature/foo"));
    let cfg = Config::default();
    let repo_root = "/repo";
    let uc = RemoveWorktree::new(&git, &cfg, repo_root);

    let opts = RemoveOptions {
        path: "/repo/.wtxr/worktrees/feature/foo".to_string(),
        delete_branch: true,
        force: false,
    };
    uc.execute(&opts).unwrap();

    assert_eq!(git.removed.borrow().len(), 1);
    let branches = git.deleted_branches.borrow();
    assert_eq!(branches.len(), 1);
    assert_eq!(branches[0].0, "feature/foo");
}

#[test]
fn force_flag_is_passed_through() {
    let git = MockGit::new(Some("main"));
    let cfg = Config::default();
    let repo_root = "/repo";
    let uc = RemoveWorktree::new(&git, &cfg, repo_root);

    let opts = RemoveOptions {
        path: "/repo/.wtxr/worktrees/main".to_string(),
        delete_branch: true,
        force: true,
    };
    uc.execute(&opts).unwrap();

    let removed = git.removed.borrow();
    assert!(removed[0].1, "force should be true for remove_worktree");
    let branches = git.deleted_branches.borrow();
    assert!(branches[0].1, "force should be true for delete_branch");
}

#[test]
fn execute_returns_the_directories_to_prune() {
    let git = MockGit::new(None);
    let cfg = Config::default();
    let uc = RemoveWorktree::new(&git, &cfg, "/repo");
    let opts = RemoveOptions {
        path: "/repo/.wtxr/worktrees/feature/foo".to_string(),
        delete_branch: false,
        force: false,
    };
    let dirs = uc.execute(&opts).unwrap();
    assert_eq!(dirs, vec!["/repo/.wtxr/worktrees/feature/foo", "/repo/.wtxr/worktrees/feature"]);
    assert_eq!(git.removed.borrow()[0].0, "/repo/.wtxr/worktrees/feature/foo");
}

#[test]
fn failed_removal_keeps_the_branch() {
    let git = RefusingGit;
    let cfg = Config::default();
    let uc = RemoveWorktree::new(&git, &cfg, "/repo");
    let opts = RemoveOptions { path: "/repo/.wtxr/worktrees/b".to_string(), delete_branch: true, force: false };
    assert_eq!(uc.execute(&opts), Err(WorktreeError::GitCommandFailed { message: "dirty".to_string() }));
}

#[test]
fn remove_plan_rows() {
    let git = MockGit::new(None);
    let cfg = Config::default();
    let uc = RemoveWorktree::new(&git, &cfg, "/repo");
    let plan = uc.plan(&RemoveOptions { path: "/w/x".to_string(), delete_branch: true, force: true });
    assert_eq!(plan.title, "[dry-run] wtxr remove /w/x");
    assert_eq!(plan.rows.len(), 2);
    assert_eq!(plan.rows[0], ("git worktree".to_string(), "remove /w/x --force".to_string()));
    assert_eq!(plan.rows[1], ("git branch".to_string(), "-D <branch of /w/x>".to_string()));
    let plan = uc.plan(&RemoveOptions { path: "/w/x".to_string(), delete_branch: false, force: false });
    assert_eq!(plan.rows, vec![("git worktree".to_string(), "remove /w/x".to_string())]);
    assert!(git.removed.borrow().is_empty());
}

#[test]
fn list_returns_what_git_lists() {
    let git = MockGit::new(None);
    let uc = ListWorktrees::new(&git);
    let ws = uc.execute().unwrap();
    assert_eq!(ws.len(), 1);
    assert_eq!(ws[0].path, "/repo");
}

fn wt(path: &str) -> Worktree {
    Worktree::new(path.to_string(), None, "0".to_string())
}

#[test]
fn main_worktree_is_not_offered() {
    let all = vec![wt("/repo"), wt("/repo/w/a"), wt("/repo/w/b")];
    let c = removal_candidates(&all);
    let paths: Vec<&str> = c.iter().map(|w| w.path.as_str()).collect();
    assert_eq!(paths, vec!["/repo/w/a", "/repo/w/b"]);
    assert!(removal_candidates(&vec![wt("/repo")]).is_empty());
    assert!(removal_candidates(&vec![]).is_empty());
}

#[test]
fn chosen_paths_need_a_non_empty_choice() {
    assert_eq!(chosen_paths(None), None);
    assert_eq!(chosen_paths(Some(vec![])), None);
    assert_eq!(
        chosen_paths(Some(vec![wt("/w/a"), wt("/w/b")])),
        Some(vec!["/w/a".to_string(), "/w/b".to_string()])
    );
}

#[test]
fn label_is_last_name_or_path() {
    assert_eq!(removal_label("/repo/.wtxr/worktrees/feature/foo"), "foo");
    assert_eq!(removal_label("/"), "/");
    assert_eq!(removal_label("a/.."), "a/..");
}

#[test]
fn removal_steps_delete_found_branch_only_when_asked() {
    let opts = RemoveOptions { path: "/w/x".to_string(), delete_branch: true, force: true };
    let steps = removal_steps(&opts, Some("x".to_string()));
    assert_eq!(steps.len(), 2);
    match &steps[0] {
        RemoveStep::RemoveWorktree { path, force } => {
            assert_eq!(path, "/w/x");
            assert!(*force);
        }
        _ => panic!("the worktree goes first"),
    }
    match &steps[1] {
        RemoveStep::DeleteBranch { branch, force } => {
            assert_eq!(branch, "x");
            assert!(*force);
        }
        _ => panic!("then the branch"),
    }
    assert_eq!(removal_steps(&opts, None).len(), 1);
    let keep = RemoveOptions { path: "/w/x".to_string(), delete_branch: false, force: false };
    let steps = removal_steps(&keep, Some("x".to_string()));
    assert_eq!(steps.len(), 1);
    match &steps[0] {
        RemoveStep::RemoveWorktree { force, .. } => assert!(!*force),
        _ => panic!("only the worktree goes"),
    }
}

#[test]
fn steps_run_until_the_first_failure() {
    assert!(matches!(start(0), Progress::Finish(Ok(()))));
    assert!(matches!(start(2), Progress::Next(0)));
    assert!(matches!(after_step(0, 2, Ok(())), Progress::Next(1)));
    assert!(matches!(after_step(1, 2, Ok(())), Progress::Finish(Ok(()))));
    match after_step(0, 2, Err(WorktreeError::NotInRepository)) {
        Progress::Finish(Err(e)) => assert_eq!(e, WorktreeError::NotInRepository),
        _ => panic!("a failure stops"),
    }
}

#[test]
fn prune_passes_over_removes_or_stops() {
    assert!(matches!(prune_action(false, false), PruneAction::PassOver));
    assert!(matches!(prune_action(true, true), PruneAction::Remove));
    assert!(matches!(prune_action(true, false), PruneAction::Stop));
}

#[test]
fn removal_stops_when_the_branch_lookup_fails() {
    let git = LookupFails;
    let cfg = Config::default();
    let uc = RemoveWorktree::new(&git, &cfg, "/repo");
    let opts = RemoveOptions { path: "/repo/.wtxr/worktrees/b".to_string(), delete_branch: true, force: false };
    assert_eq!(uc.execute(&opts), Err(WorktreeError::GitCommandFailed { message: "no".to_string() }));
}
