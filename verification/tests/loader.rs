use wtxr::config::{Config, CopyConfig, CopyFile, HooksConfig, WorktreeConfig};
use wtxr::loader::{merge_config, merge_copy_files, merge_dedup, merge_string};

fn make_config(root_dir: &str, base_branch: &str, patterns: Vec<&str>) -> Config {
    Config {
        worktree: WorktreeConfig {
            root_dir: root_dir.to_string(),
            default_base_branch: base_branch.to_string(),
        },
        copy: CopyConfig {
            patterns: patterns.into_iter().map(String::from).collect(),
            files: vec![],
        },
        hooks: HooksConfig::default(),
    }
}

fn strings(v: &[&str]) -> Vec<String> {
    v.iter().map(|s| s.to_string()).collect()
}

fn file(from: &str, to: &str) -> CopyFile {
    CopyFile { from: from.to_string(), to: to.to_string() }
}

#[test]
fn merge_global_only() {
    let g = make_config("global/worktrees", "main", vec!["*.env"]);
    let result = merge_config(Some(g), None);
    assert_eq!(result.worktree.root_dir, "global/worktrees");
    assert_eq!(result.copy.patterns, vec!["*.env"]);
}

#[test]
fn merge_local_only() {
    let l = make_config("local/worktrees", "develop", vec!["*.yaml"]);
    let result = merge_config(None, Some(l));
    assert_eq!(result.worktree.root_dir, "local/worktrees");
    assert_eq!(result.worktree.default_base_branch, "develop");
}

#[test]
fn local_string_overrides_global() {
    let g = make_config("global/worktrees", "main", vec![]);
    let l = make_config("local/worktrees", "develop", vec![]);
    let result = merge_config(Some(g), Some(l));
    assert_eq!(result.worktree.root_dir, "local/worktrees");
    assert_eq!(result.worktree.default_base_branch, "develop");
}

#[test]
fn empty_local_string_falls_back_to_global() {
    let g = make_config("global/worktrees", "main", vec![]);
    let l = make_config("", "", vec![]);
    let result = merge_config(Some(g), Some(l));
    assert_eq!(result.worktree.root_dir, "global/worktrees");
    assert_eq!(result.worktree.default_base_branch, "main");
}

#[test]
fn patterns_are_merged_deduped() {
    let g = make_config("", "", vec!["*.env", "shared.yaml"]);
    let l = make_config("", "", vec!["*.yaml", "shared.yaml"]);
    let result = merge_config(Some(g), Some(l));
    assert_eq!(result.copy.patterns, vec!["*.env", "shared.yaml", "*.yaml"]);
}

#[test]
fn copy_files_local_wins_on_duplicate_from() {
    let g = Config {
        copy: CopyConfig {
            files: vec![file(".env.example", ".env.global"), file("only_global", "only_global")],
            ..Default::default()
        },
        ..Default::default()
    };
    let l = Config {
        copy: CopyConfig { files: vec![file(".env.example", ".env.local")], ..Default::default() },
        ..Default::default()
    };
    let result = merge_config(Some(g), Some(l));
    assert_eq!(result.copy.files.len(), 2);
    let env_file = result.copy.files.iter().find(|f| f.from == ".env.example").unwrap();
    assert_eq!(env_file.to, ".env.local");
}

#[test]
fn merge_of_nothing_is_empty() {
    let result = merge_config(None, None);
    assert_eq!(result.worktree.root_dir, "");
    assert_eq!(result.worktree.default_base_branch, "");
    assert!(result.copy.patterns.is_empty());
    assert!(result.copy.files.is_empty());
    assert!(result.hooks.pre_create.is_empty());
    assert!(result.hooks.post_create.is_empty());
    assert!(result.hooks.post_copy.is_empty());
}

#[test]
fn merge_string_prefers_non_empty_local() {
    assert_eq!(merge_string("g".to_string(), "l".to_string()), "l");
    assert_eq!(merge_string("g".to_string(), String::new()), "g");
    assert_eq!(merge_string(String::new(), String::new()), "");
}

#[test]
fn merge_dedup_keeps_global_order_then_new_local() {
    let r = merge_dedup(strings(&["a", "b"]), strings(&["c", "a", "c", "d"]));
    assert_eq!(r, vec!["a", "b", "c", "d"]);
}

#[test]
fn merge_dedup_removes_duplicates_within_one_list() {
    let r = merge_dedup(strings(&["a", "a"]), strings(&["a", "b"]));
    assert_eq!(r, vec!["a", "b"]);
    let r = merge_dedup(strings(&["x"]), strings(&["y", "y", "x"]));
    assert_eq!(r, vec!["x", "y"]);
}

#[test]
fn merge_copy_files_keeps_one_mapping_per_source() {
    let r = merge_copy_files(
        vec![file("a", "g1"), file("b", "g2"), file("b", "g3")],
        vec![file("a", "l1"), file("a", "l2")],
    );
    let pairs: Vec<(String, String)> = r.into_iter().map(|f| (f.from, f.to)).collect();
    assert_eq!(
        pairs,
        vec![("a".to_string(), "l1".to_string()), ("b".to_string(), "g2".to_string())]
    );
}

#[test]
fn merge_copy_files_local_first_then_unshadowed_global() {
    let r = merge_copy_files(
        vec![file("x", "gx"), file("y", "gy"), file("z", "gz")],
        vec![file("y", "ly"), file("w", "lw")],
    );
    let pairs: Vec<(String, String)> = r.into_iter().map(|f| (f.from, f.to)).collect();
    assert_eq!(
        pairs,
        vec![
            ("y".to_string(), "ly".to_string()),
            ("w".to_string(), "lw".to_string()),
            ("x".to_string(), "gx".to_string()),
            ("z".to_string(), "gz".to_string()),
        ]
    );
}

#[test]
fn hooks_are_merged_per_stage() {
    let mut g = Config::default();
    g.hooks.pre_create = strings(&["p1"]);
    g.hooks.post_create = strings(&["c1", "c2"]);
    let mut l = Config::default();
    l.hooks.pre_create = strings(&["p1", "p2"]);
    l.hooks.post_copy = strings(&["k"]);
    let r = merge_config(Some(g), Some(l));
    assert_eq!(r.hooks.pre_create, vec!["p1", "p2"]);
    assert_eq!(r.hooks.post_create, vec!["c1", "c2"]);
    assert_eq!(r.hooks.post_copy, vec!["k"]);
}

#[test]
fn merging_a_config_with_itself_changes_nothing() {
    let mut c = make_config("dir", "main", vec!["*.env", ".envrc"]);
    c.copy.files = vec![file("a", "b")];
    c.hooks.post_create = strings(&["make"]);
    let r = merge_config(Some(c.clone()), Some(c.clone()));
    assert_eq!(r.worktree.root_dir, "dir");
    assert_eq!(r.worktree.default_base_branch, "main");
    assert_eq!(r.copy.patterns, vec!["*.env", ".envrc"]);
    assert_eq!(r.copy.files.len(), 1);
    assert_eq!(r.copy.files[0].from, "a");
    assert_eq!(r.copy.files[0].to, "b");
    assert_eq!(r.hooks.post_create, vec!["make"]);
}
