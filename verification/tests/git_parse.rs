use wtxr::git::{
    add_worktree_args, delete_branch_args, parse_worktree_list, remove_worktree_args,
    repo_root_from_output, worktree_branch,
};
use wtxr::worktree::{AddOptions, Worktree};

const PORCELAIN_OUTPUT: &str = "\
worktree /repo
HEAD abc1234567890
branch refs/heads/main

worktree /repo/.wtxr/worktrees/feature/foo
HEAD def5678901234
branch refs/heads/feature/foo

worktree /repo/.wtxr/worktrees/detached
HEAD ghi9012345678
detached

";

#[test]
fn parse_normal_worktrees() {
    let result = parse_worktree_list(PORCELAIN_OUTPUT);
    assert_eq!(result.len(), 3);

    assert_eq!(result[0].path, "/repo");
    assert_eq!(result[0].branch, Some("main".to_string()));
    assert_eq!(result[0].commit, "abc1234567890");

    assert_eq!(result[1].path, "/repo/.wtxr/worktrees/feature/foo");
    assert_eq!(result[1].branch, Some("feature/foo".to_string()));
    assert_eq!(result[1].commit, "def5678901234");
}

#[test]
fn parse_detached_head() {
    let result = parse_worktree_list(PORCELAIN_OUTPUT);
    assert_eq!(result[2].branch, None);
    assert_eq!(result[2].commit, "ghi9012345678");
}

#[test]
fn parse_empty_output() {
    let result = parse_worktree_list("");
    assert!(result.is_empty());
}

#[test]
fn parse_drops_entry_without_head_but_keeps_its_branch() {
    let result = parse_worktree_list("worktree /a\nbranch refs/heads/x\n\nworktree /b\nHEAD 123\n");
    assert_eq!(result.len(), 1);
    assert_eq!(result[0].path, "/b");
    assert_eq!(result[0].branch, Some("x".to_string()));
    assert_eq!(result[0].commit, "123");
}

#[test]
fn parse_handles_crlf_and_other_refs() {
    let result =
        parse_worktree_list("worktree /r\r\nHEAD 42\r\nbranch refs/tags/v1\r\nbare\r\n");
    assert_eq!(result.len(), 1);
    assert_eq!(result[0].path, "/r");
    assert_eq!(result[0].commit, "42");
    assert_eq!(result[0].branch, None);
}

#[test]
fn parse_branch_of_previous_entry_does_not_leak() {
    let result = parse_worktree_list(
        "worktree /a\nHEAD 1\nbranch refs/heads/a\n\nworktree /b\nHEAD 2\ndetached\n",
    );
    assert_eq!(result.len(), 2);
    assert_eq!(result[0].branch, Some("a".to_string()));
    assert_eq!(result[1].branch, None);
}

#[test]
fn porcelain_listing_reads_back() {
    let ws = vec![
        Worktree::new("/repo".to_string(), Some("main".to_string()), "abc".to_string()),
        Worktree::new("/repo/w/x".to_string(), None, "def".to_string()),
    ];
    let mut text = String::new();
    for w in &ws {
        text.push_str(&format!("worktree {}\nHEAD {}\n", w.path, w.commit));
        match &w.branch {
            Some(b) => text.push_str(&format!("branch refs/heads/{}\n", b)),
            None => text.push_str("detached\n"),
        }
        text.push('\n');
    }
    let back = parse_worktree_list(&text);
    assert_eq!(back.len(), 2);
    assert_eq!(back[0].path, "/repo");
    assert_eq!(back[0].branch, Some("main".to_string()));
    assert_eq!(back[0].commit, "abc");
    assert_eq!(back[1].path, "/repo/w/x");
    assert_eq!(back[1].branch, None);
    assert_eq!(back[1].commit, "def");
}

#[test]
fn add_args_existing_branch() {
    let opts = AddOptions { branch: "feature/foo".to_string(), create_branch: false, from: None };
    assert_eq!(
        add_worktree_args("/repo/w/feature/foo", &opts),
        vec!["worktree", "add", "/repo/w/feature/foo", "feature/foo"]
    );
}

#[test]
fn add_args_new_branch_from_base() {
    let opts = AddOptions {
        branch: "topic".to_string(),
        create_branch: true,
        from: Some("develop".to_string()),
    };
    assert_eq!(
        add_worktree_args("/w/topic", &opts),
        vec!["worktree", "add", "-b", "topic", "/w/topic", "develop"]
    );
}

#[test]
fn add_args_new_branch_with_empty_base() {
    let opts =
        AddOptions { branch: "topic".to_string(), create_branch: true, from: Some(String::new()) };
    assert_eq!(add_worktree_args("/w/topic", &opts), vec!["worktree", "add", "-b", "topic", "/w/topic"]);
}

#[test]
fn add_args_existing_branch_ignores_base() {
    let opts = AddOptions {
        branch: "topic".to_string(),
        create_branch: false,
        from: Some("main".to_string()),
    };
    assert_eq!(add_worktree_args("/w/topic", &opts), vec!["worktree", "add", "/w/topic", "topic"]);
}

#[test]
fn remove_and_delete_args() {
    assert_eq!(remove_worktree_args("/w/x", false), vec!["worktree", "remove", "/w/x"]);
    assert_eq!(remove_worktree_args("/w/x", true), vec!["worktree", "remove", "--force", "/w/x"]);
    assert_eq!(delete_branch_args("x", false), vec!["branch", "-d", "x"]);
    assert_eq!(delete_branch_args("x", true), vec!["branch", "-D", "x"]);
}

#[test]
fn branch_of_worktree_by_path() {
    let ws = parse_worktree_list(PORCELAIN_OUTPUT);
    assert_eq!(worktree_branch(&ws, "/repo/.wtxr/worktrees/feature/foo"), Some("feature/foo".to_string()));
    assert_eq!(worktree_branch(&ws, "/repo/.wtxr/worktrees/feature/foo/"), Some("feature/foo".to_string()));
    assert_eq!(worktree_branch(&ws, "/repo/.wtxr/worktrees/detached"), None);
    assert_eq!(worktree_branch(&ws, "/elsewhere"), None);
}

#[test]
fn repo_root_is_trimmed_output() {
    assert_eq!(repo_root_from_output("/home/u/repo\n"), "/home/u/repo");
    assert_eq!(repo_root_from_output("  \t/r s\r\n"), "/r s");
    assert_eq!(repo_root_from_output("\u{3000}/x\u{a0}"), "/x");
    assert_eq!(repo_root_from_output(" \n "), "");
    assert_eq!(repo_root_from_output(""), "");
}
