use wtxr::config::{
    config_path, config_path_in, global_config_file, global_config_path, local_config_file, resolve_input_worktree_path,
    resolve_worktree_path, resolve_worktrees_dir, Config,
};
use wtxr::paths::{
    components, file_name, is_absolute_path, join_path, path_eq, path_starts_with,
    prune_candidates, strip_path_prefix,
};
use wtxr::worktree::WorktreeError;

const REPO_ROOT: &str = "/repo";

#[test]
fn default_worktrees_dir() {
    let cfg = Config::default();
    let result = resolve_worktrees_dir(REPO_ROOT, &cfg);
    assert_eq!(result, "/repo/.wtxr/worktrees");
}

#[test]
fn custom_root_dir() {
    let mut cfg = Config::default();
    cfg.worktree.root_dir = "custom/dir".to_string();
    let result = resolve_worktrees_dir(REPO_ROOT, &cfg);
    assert_eq!(result, "/repo/custom/dir");
}

#[test]
fn worktree_path_from_branch() {
    let cfg = Config::default();
    let result = resolve_worktree_path(REPO_ROOT, &cfg, "feature/foo");
    assert_eq!(result, "/repo/.wtxr/worktrees/feature/foo");
}

#[test]
fn absolute_input_path_returned_as_is() {
    let cfg = Config::default();
    let result = resolve_input_worktree_path(REPO_ROOT, &cfg, "/absolute/path", None);
    assert_eq!(result, "/absolute/path");
}

#[test]
fn non_existing_relative_path_resolved_to_worktrees_dir() {
    let cfg = Config::default();
    let result = resolve_input_worktree_path(REPO_ROOT, &cfg, "feature/bar", None);
    assert_eq!(result, "/repo/.wtxr/worktrees/feature/bar");
}

#[test]
fn existing_relative_path_is_its_canonical_form() {
    let cfg = Config::default();
    let result =
        resolve_input_worktree_path(REPO_ROOT, &cfg, "here", Some("/work/here".to_string()));
    assert_eq!(result, "/work/here");
}

#[test]
fn absolute_root_dir_replaces_repo_root() {
    let mut cfg = Config::default();
    cfg.worktree.root_dir = "/srv/trees".to_string();
    assert_eq!(resolve_worktrees_dir(REPO_ROOT, &cfg), "/srv/trees");
    assert_eq!(resolve_worktree_path(REPO_ROOT, &cfg, "a/b"), "/srv/trees/a/b");
}

#[test]
fn local_path_is_under_wtxr() {
    let root = "/tmp/wtxr-repo";
    let path = config_path(false, Some(root)).unwrap();
    assert_eq!(path, "/tmp/wtxr-repo/.wtxr/config.toml");
}

#[test]
fn local_path_needs_a_repository() {
    assert_eq!(config_path(false, None), Err(WorktreeError::NotInRepository));
}

#[test]
fn config_path_from_given_directories() {
    assert_eq!(
        config_path_in(true, Some("/home/u/.config"), None),
        Ok("/home/u/.config/wtxr/config.toml".to_string())
    );
    assert_eq!(config_path_in(true, None, Some("/r")), Err(WorktreeError::ConfigDirUnknown));
    assert_eq!(config_path_in(false, Some("/c"), Some("/r")), Ok("/r/.wtxr/config.toml".to_string()));
    assert_eq!(global_config_file("/c/"), "/c/wtxr/config.toml");
    assert_eq!(local_config_file("/r/"), "/r/.wtxr/config.toml");
}

#[test]
fn join_follows_path_rules() {
    assert_eq!(join_path("/a", "b"), "/a/b");
    assert_eq!(join_path("/a/", "b"), "/a/b");
    assert_eq!(join_path("", "b"), "b");
    assert_eq!(join_path("/a", "/b"), "/b");
    assert_eq!(join_path("/a", ""), "/a/");
    assert!(is_absolute_path("/x"));
    assert!(!is_absolute_path("x/y"));
    assert!(!is_absolute_path(""));
}

#[test]
fn components_skip_empty_and_current_names() {
    assert_eq!(components("/a//b/./c/"), vec!["/", "a", "b", "c"]);
    assert_eq!(components("./a/b"), vec![".", "a", "b"]);
    assert_eq!(components("a/../b"), vec!["a", "..", "b"]);
    assert_eq!(components(""), Vec::<String>::new());
    assert_eq!(components("/"), vec!["/"]);
}

#[test]
fn path_equality_and_prefix_are_by_components() {
    assert!(path_eq("/a/b/", "/a//b"));
    assert!(!path_eq("/a/b", "a/b"));
    assert!(path_starts_with("/a/b/c", "/a/b"));
    assert!(path_starts_with("/a/b", "/a/b"));
    assert!(!path_starts_with("/a/bc", "/a/b"));
    assert!(!path_starts_with("/a", "/a/b"));
}

#[test]
fn prune_candidates_walk_up_to_stop() {
    assert_eq!(
        prune_candidates("/repo/.wtxr/worktrees/feature/my-task", "/repo/.wtxr/worktrees"),
        vec!["/repo/.wtxr/worktrees/feature/my-task", "/repo/.wtxr/worktrees/feature"]
    );
    assert_eq!(
        prune_candidates("/repo/.wtxr/worktrees/solo", "/repo/.wtxr/worktrees"),
        vec!["/repo/.wtxr/worktrees/solo"]
    );
    assert!(prune_candidates("/repo/.wtxr/worktrees", "/repo/.wtxr/worktrees").is_empty());
    assert!(prune_candidates("/elsewhere/x", "/repo/.wtxr/worktrees").is_empty());
    assert!(prune_candidates("/repo/.wtxr/worktreesx", "/repo/.wtxr/worktrees").is_empty());
}

#[test]
fn strip_prefix_and_file_name() {
    assert_eq!(strip_path_prefix("/src/a/.env", "/src"), Some("a/.env".to_string()));
    assert_eq!(strip_path_prefix("/src", "/src"), Some(String::new()));
    assert_eq!(strip_path_prefix("/other/.env", "/src"), None);
    assert_eq!(file_name("/repo/w/feature/foo"), Some("foo".to_string()));
    assert_eq!(file_name("/repo/w/foo/."), Some("foo".to_string()));
    assert_eq!(file_name("/"), None);
    assert_eq!(file_name("a/.."), None);
    assert_eq!(file_name(""), None);
}

#[test]
fn remove_by_branch_name_finds_the_added_worktree() {
    let mut cfg = Config::default();
    assert_eq!(
        resolve_input_worktree_path(REPO_ROOT, &cfg, "feature/foo", None),
        resolve_worktree_path(REPO_ROOT, &cfg, "feature/foo")
    );
    cfg.worktree.root_dir = "trees".to_string();
    assert_eq!(
        resolve_input_worktree_path(REPO_ROOT, &cfg, "x/y", None),
        resolve_worktree_path(REPO_ROOT, &cfg, "x/y")
    );
}

#[test]
fn worktree_path_lies_under_worktrees_dir() {
    let cfg = Config::default();
    let dir = resolve_worktrees_dir(REPO_ROOT, &cfg);
    let path = resolve_worktree_path(REPO_ROOT, &cfg, "feature/deep/name");
    assert!(path_starts_with(&path, &dir));
    let mut want = components(&dir);
    want.extend(["feature", "deep", "name"].iter().map(|s| s.to_string()));
    assert_eq!(components(&path), want);
}

#[test]
fn global_path_is_in_the_user_config_dir() {
    match global_config_path() {
        Some(p) => {
            assert!(p.ends_with("/wtxr/config.toml"));
            assert_eq!(config_path(true, None), Ok(p));
        }
        None => assert_eq!(config_path(true, None), Err(WorktreeError::ConfigDirUnknown)),
    }
}
