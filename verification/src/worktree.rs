use vstd::prelude::*;

use crate::text::{byte_len, concat2};
use vstd::utf8::{decode_utf8, encode_utf8, is_char_boundary};

verus! {

/// A git worktree: where it is checked out, which branch it has (none for a
/// detached HEAD) and the commit at its HEAD.
#[derive(Debug, Clone)]
pub struct Worktree {
    /// Absolute path of the worktree.
    pub path: String,
    /// Checked-out branch, `None` for a detached HEAD.
    pub branch: Option<String>,
    /// Commit hash at HEAD.
    pub commit: String,
}

/// The mathematical value of a [`Worktree`].
pub struct WorktreeView {
    pub path: Seq<char>,
    pub branch: Option<Seq<char>>,
    pub commit: Seq<char>,
}

/// The view of an optional string.
pub open spec fn opt_view(o: Option<String>) -> Option<Seq<char>> {
    match o {
        Some(s) => Some(s@),
        None => None,
    }
}

impl View for Worktree {
    type V = WorktreeView;

    open spec fn view(&self) -> WorktreeView {
        WorktreeView { path: self.path@, branch: opt_view(self.branch), commit: self.commit@ }
    }
}

/// The views of a sequence of worktrees.
pub open spec fn worktree_views(v: Seq<Worktree>) -> Seq<WorktreeView> {
    v.map_values(|w: Worktree| w@)
}

/// How many leading bytes of a commit hash a short hash shows: seven, or
/// all of them when there are fewer.
pub open spec fn short_len(commit: Seq<char>) -> int {
    if byte_len(commit) < 7 {
        byte_len(commit) as int
    } else {
        7
    }
}

/// The short hash can be cut out of `commit`: the cut falls between two
/// characters of its UTF-8 encoding (for an ASCII hash it always does); and,
/// as for any string in memory, its length fits in a `usize`.
pub open spec fn short_commit_ok(commit: Seq<char>) -> bool {
    &&& is_char_boundary(encode_utf8(commit), short_len(commit))
    &&& byte_len(commit) <= usize::MAX
}

/// The text of the first [`short_len`] bytes of `commit`.
pub open spec fn short_commit_spec(commit: Seq<char>) -> Seq<char> {
    decode_utf8(encode_utf8(commit).subrange(0, short_len(commit)))
}

/// What a worktree's branch column shows: the branch, or the short hash in
/// parentheses for a detached HEAD.
pub open spec fn branch_display_spec(w: WorktreeView) -> Seq<char> {
    match w.branch {
        Some(b) => b,
        None => seq!['('] + short_commit_spec(w.commit) + seq![')'],
    }
}

/// A worktree whose branch column can be shown.
pub open spec fn displayable(w: WorktreeView) -> bool {
    w.branch is None ==> short_commit_ok(w.commit)
}

/// The first [`short_len`] bytes of `commit`, as text.
pub fn short_commit(commit: &str) -> (r: String)
    requires
        short_commit_ok(commit@),
    ensures
        r@ == short_commit_spec(commit@),
        encode_utf8(r@) == encode_utf8(commit@).subrange(0, short_len(commit@)),
{
    let len = commit.len();
    let n: usize = if len < 7 { len } else { 7 };
    assert(vstd::string::StringSliceAdditionalSpecFns::spec_bytes(commit) == encode_utf8(commit@));
    assert(n == short_len(commit@));
    let (head, _tail) = commit.split_at(n);
    proof {
        broadcast use vstd::utf8::encode_utf8_decode_utf8;
        assert(vstd::string::StringSliceAdditionalSpecFns::spec_bytes(head) == encode_utf8(head@));
        assert(decode_utf8(encode_utf8(head@)) == head@);
    }
    head.to_owned()
}

impl Worktree {
    /// A worktree from its parts.
    pub fn new(path: String, branch: Option<String>, commit: String) -> (w: Self)
        ensures
            w@ == (WorktreeView { path: path@, branch: opt_view(branch), commit: commit@ }),
    {
        Worktree { path, branch, commit }
    }

    /// A copy of this worktree.
    pub fn duplicate(&self) -> (r: Self)
        ensures
            r@ == self@,
    {
        Worktree { path: self.path.clone(), branch: self.branch.clone(), commit: self.commit.clone() }
    }

    /// The branch name for display; a detached HEAD shows its short hash in
    /// parentheses.
    pub fn branch_display(&self) -> (r: String)
        requires
            displayable(self@),
        ensures
            r@ == branch_display_spec(self@),
    {
        match &self.branch {
            Some(b) => b.clone(),
            None => {
                let short = short_commit(self.commit.as_str());
                let mut r = concat2("(", short.as_str());
                r.append(")");
                proof {
                    reveal_strlit("(");
                    reveal_strlit(")");
                    assert("("@ =~= seq!['(']);
                    assert(")"@ =~= seq![')']);
                }
                r
            },
        }
    }
}

/// Options of adding a worktree.
#[derive(Debug, Clone)]
pub struct AddOptions {
    /// Branch to check out.
    pub branch: String,
    /// Whether to create the branch.
    pub create_branch: bool,
    /// Base branch to create from (HEAD when `None`).
    pub from: Option<String>,
}

/// The mathematical value of [`AddOptions`].
pub struct AddOptionsView {
    pub branch: Seq<char>,
    pub create_branch: bool,
    pub from: Option<Seq<char>>,
}

impl View for AddOptions {
    type V = AddOptionsView;

    open spec fn view(&self) -> AddOptionsView {
        AddOptionsView {
            branch: self.branch@,
            create_branch: self.create_branch,
            from: opt_view(self.from),
        }
    }
}

/// Options of removing a worktree.
#[derive(Debug, Clone)]
pub struct RemoveOptions {
    /// Absolute path of the worktree.
    pub path: String,
    /// Whether to delete its branch too.
    pub delete_branch: bool,
    /// Whether to remove it even with uncommitted changes.
    pub force: bool,
}

/// The mathematical value of [`RemoveOptions`].
pub struct RemoveOptionsView {
    pub path: Seq<char>,
    pub delete_branch: bool,
    pub force: bool,
}

impl View for RemoveOptions {
    type V = RemoveOptionsView;

    open spec fn view(&self) -> RemoveOptionsView {
        RemoveOptionsView { path: self.path@, delete_branch: self.delete_branch, force: self.force }
    }
}

/// What can go wrong while managing worktrees.
#[derive(Debug, Clone, PartialEq, Eq)]
pub enum WorktreeError {
    /// No worktree at this path.
    NotFound { path: String },
    /// A worktree already exists at this path.
    AlreadyExists { path: String },
    /// A git command failed.
    GitCommandFailed { message: String },
    /// The path is not a valid worktree path.
    InvalidPath { path: String },
    /// An outside command or file operation failed; the message says how.
    CommandFailed { message: String },
    /// The config file to create exists and overwriting was not asked for.
    ConfigExists { path: String },
    /// The user's config directory cannot be determined.
    ConfigDirUnknown,
    /// The current directory is not inside a git repository.
    NotInRepository,
}

/// The message of an error, as the user reads it.
pub open spec fn error_message_spec(e: WorktreeError) -> Seq<char> {
    match e {
        WorktreeError::NotFound { path } => "worktree not found: "@ + path@,
        WorktreeError::AlreadyExists { path } => "worktree already exists: "@ + path@,
        WorktreeError::GitCommandFailed { message } => "git command failed: "@ + message@,
        WorktreeError::InvalidPath { path } => "invalid worktree path: "@ + path@,
        WorktreeError::CommandFailed { message } => message@,
        WorktreeError::ConfigExists { path } => "config file already exists: "@ + path@
            + "\nUse --force to overwrite."@,
        WorktreeError::ConfigDirUnknown => "cannot determine config directory"@,
        WorktreeError::NotInRepository => "not inside a git repository"@,
    }
}

impl WorktreeError {
    /// The message of this error, as the user reads it.
    pub fn message(&self) -> (r: String)
        ensures
            r@ == error_message_spec(*self),
    {
        match self {
            WorktreeError::NotFound { path } => concat2("worktree not found: ", path.as_str()),
            WorktreeError::AlreadyExists { path } => concat2(
                "worktree already exists: ",
                path.as_str(),
            ),
            WorktreeError::GitCommandFailed { message } => concat2(
                "git command failed: ",
                message.as_str(),
            ),
            WorktreeError::InvalidPath { path } => concat2("invalid worktree path: ", path.as_str()),
            WorktreeError::CommandFailed { message } => message.clone(),
            WorktreeError::ConfigExists { path } => {
                let mut r = concat2("config file already exists: ", path.as_str());
                r.append("\nUse --force to overwrite.");
                r
            },
            WorktreeError::ConfigDirUnknown => "cannot determine config directory".to_owned(),
            WorktreeError::NotInRepository => "not inside a git repository".to_owned(),
        }
    }
}

} // verus!
