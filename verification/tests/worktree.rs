use wtxr::config::CopyFile;
use wtxr::copying::{glob_copy_target, glob_entry_target, mapping_paths, mapping_target};
use wtxr::listing::worktree_table;
use wtxr::usecase::init::{InitConfig, CONFIG_TEMPLATE};
use wtxr::usecase::DryRunPlan;
use wtxr::worktree::{short_commit, Worktree, WorktreeError};

#[test]
fn branch_display_shows_branch() {
    let w = Worktree::new("/r".to_string(), Some("feature/foo".to_string()), "abcdef0123".to_string());
    assert_eq!(w.branch_display(), "feature/foo");
}

#[test]
fn branch_display_shows_short_hash_when_detached() {
    let w = Worktree::new("/r".to_string(), None, "abcdef0123".to_string());
    assert_eq!(w.branch_display(), "(abcdef0)");
    let w = Worktree::new("/r".to_string(), None, "abc".to_string());
    assert_eq!(w.branch_display(), "(abc)");
    let w = Worktree::new("/r".to_string(), None, String::new());
    assert_eq!(w.branch_display(), "()");
}

#[test]
fn short_commit_takes_seven_bytes() {
    assert_eq!(short_commit("0123456789"), "0123456");
    assert_eq!(short_commit("0123456"), "0123456");
    assert_eq!(short_commit("01"), "01");
}

#[test]
fn duplicate_copies_every_field() {
    let w = Worktree::new("/r".to_string(), Some("b".to_string()), "c".to_string());
    let d = w.duplicate();
    assert_eq!(d.path, "/r");
    assert_eq!(d.branch, Some("b".to_string()));
    assert_eq!(d.commit, "c");
}

#[test]
fn error_messages() {
    assert_eq!(WorktreeError::NotFound { path: "/x".to_string() }.message(), "worktree not found: /x");
    assert_eq!(
        WorktreeError::AlreadyExists { path: "/x".to_string() }.message(),
        "worktree already exists: /x"
    );
    assert_eq!(
        WorktreeError::GitCommandFailed { message: "boom".to_string() }.message(),
        "git command failed: boom"
    );
    assert_eq!(WorktreeError::InvalidPath { path: "x".to_string() }.message(), "invalid worktree path: x");
    assert_eq!(WorktreeError::CommandFailed { message: "m".to_string() }.message(), "m");
    assert_eq!(WorktreeError::ConfigDirUnknown.message(), "cannot determine config directory");
    assert_eq!(WorktreeError::NotInRepository.message(), "not inside a git repository");
}

#[test]
fn init_refuses_existing_file_without_force() {
    let err = InitConfig::check_target("/r/config.toml", true, false).unwrap_err();
    assert_eq!(err, WorktreeError::ConfigExists { path: "/r/config.toml".to_string() });
    assert!(err.message().contains("already exists"));
    assert_eq!(
        err.message(),
        "config file already exists: /r/config.toml\nUse --force to overwrite."
    );
}

#[test]
fn init_writes_when_absent_or_forced() {
    assert!(InitConfig::check_target("/r/config.toml", false, false).is_ok());
    assert!(InitConfig::check_target("/r/config.toml", true, true).is_ok());
    assert!(InitConfig::check_target("/r/config.toml", false, true).is_ok());
}

#[test]
fn template_has_every_section() {
    assert!(CONFIG_TEMPLATE.contains("[worktree]"));
    assert!(CONFIG_TEMPLATE.contains("[copy]"));
    assert!(CONFIG_TEMPLATE.contains("[hooks]"));
}

#[test]
fn table_aligns_columns() {
    let ws = vec![
        Worktree::new("/repo".to_string(), Some("main".to_string()), "abc1234567890".to_string()),
        Worktree::new("/repo/w/feature/foo".to_string(), None, "def5678901234".to_string()),
    ];
    let lines = worktree_table(&ws);
    assert_eq!(
        lines,
        vec![
            "/repo                  main         abc1234",
            "/repo/w/feature/foo    (def5678)    def5678",
        ]
    );
    assert!(worktree_table(&vec![]).is_empty());
}

#[test]
fn glob_match_keeps_relative_path() {
    let (dst, rec) = glob_copy_target("/repo", "/repo/w/x", "/repo/conf/.env").unwrap();
    assert_eq!(dst, "/repo/w/x/conf/.env");
    assert_eq!(rec.from, "conf/.env");
    assert_eq!(rec.to, "conf/.env");
    let err = glob_copy_target("/repo", "/w", "/other/.env").unwrap_err();
    assert_eq!(err, WorktreeError::CommandFailed { message: "prefix not found".to_string() });
}

#[test]
fn mapping_joins_both_roots() {
    let f = CopyFile { from: ".env.example".to_string(), to: ".env".to_string() };
    let (src, dst) = mapping_paths("/repo", "/repo/w/x", &f);
    assert_eq!(src, "/repo/.env.example");
    assert_eq!(dst, "/repo/w/x/.env");
}

#[test]
fn plan_lines_pad_the_action_column() {
    let plan = DryRunPlan {
        title: "T".to_string(),
        rows: vec![
            ("a".to_string(), "1".to_string()),
            ("hook post-copy".to_string(), "2".to_string()),
        ],
    };
    let lines = plan.lines();
    assert_eq!(lines.len(), 6);
    assert_eq!(lines[0], "T");
    assert_eq!(lines[1], "");
    assert_eq!(lines[2], "  Action          Value");
    assert_eq!(lines[3], format!("  {}", "─".repeat(14 + 2 + 40)));
    assert_eq!(lines[4], "  a               1");
    assert_eq!(lines[5], "  hook post-copy  2");
}

#[test]
fn directories_and_missing_sources_are_passed_over() {
    assert!(matches!(glob_entry_target("/repo", "/w", "/repo/dir", false), Ok(None)));
    let (dst, rec) = glob_entry_target("/repo", "/w", "/repo/a/.env", true).unwrap().unwrap();
    assert_eq!(dst, "/w/a/.env");
    assert_eq!(rec.from, "a/.env");
    let f = CopyFile { from: "x".to_string(), to: "y".to_string() };
    assert_eq!(mapping_target("/repo", "/w", &f, false), None);
    assert_eq!(
        mapping_target("/repo", "/w", &f, true),
        Some(("/repo/x".to_string(), "/w/y".to_string()))
    );
}
