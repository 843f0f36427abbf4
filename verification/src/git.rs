use vstd::prelude::*;

use crate::paths::{path_eq, path_eq_spec};
use crate::text::{chars_of, string_views};
use crate::worktree::{opt_view, worktree_views, AddOptions, AddOptionsView, Worktree, WorktreeView};

verus! {

/// A line without the carriage return that ended it before its newline.
pub open spec fn strip_cr(line: Seq<char>) -> Seq<char> {
    if line.len() > 0 && line.last() == '\r' {
        line.drop_last()
    } else {
        line
    }
}

/// The lines of `s` that `str::lines` yields, scanning from position `i`
/// inside a line that began at `start`: a line ends at `\n` (a `\r` just
/// before it is dropped too); a final line without `\n` is kept as it is; a
/// final `\n` does not start another line.
pub open spec fn lines_from(s: Seq<char>, start: int, i: int) -> Seq<Seq<char>>
    decreases s.len() - i,
{
    if i >= s.len() {
        if start < s.len() {
            seq![s.subrange(start, s.len() as int)]
        } else {
            seq![]
        }
    } else if s[i] == '\n' {
        seq![strip_cr(s.subrange(start, i))] + lines_from(s, i + 1, i + 1)
    } else {
        lines_from(s, start, i + 1)
    }
}

/// The lines of `s` (`str::lines`).
pub open spec fn lines_spec(s: Seq<char>) -> Seq<Seq<char>> {
    lines_from(s, 0, 0)
}

/// What the porcelain listing parser holds between lines: the worktrees
/// completed so far and the fields seen of the current entry.
pub struct ParseState {
    pub worktrees: Seq<WorktreeView>,
    pub path: Option<Seq<char>>,
    pub commit: Option<Seq<char>>,
    pub branch: Option<Seq<char>>,
}

/// The parser's state before any line.
pub open spec fn initial_parse_state() -> ParseState {
    ParseState { worktrees: seq![], path: None, commit: None, branch: None }
}

/// The rest of `line` after `prefix`.
pub open spec fn after_prefix(line: Seq<char>, prefix: Seq<char>) -> Seq<char> {
    line.subrange(prefix.len() as int, line.len() as int)
}

/// The state with the current entry appended to the worktrees, when it has
/// both a path and a commit.
pub open spec fn flush_entry(st: ParseState) -> Seq<WorktreeView> {
    match (st.path, st.commit) {
        (Some(p), Some(c)) => st.worktrees.push(WorktreeView { path: p, branch: st.branch, commit: c }),
        _ => st.worktrees,
    }
}

/// One line of `git worktree list --porcelain`:
/// - `worktree <path>` starts an entry; the previous one is completed if it
///   had a path and a commit (and only then is its branch consumed);
/// - `HEAD <hash>` sets the commit;
/// - `branch refs/heads/<name>` sets the branch;
/// - any other line (such as `detached`) changes nothing.
pub open spec fn parse_line(st: ParseState, line: Seq<char>) -> ParseState {
    if "worktree "@.is_prefix_of(line) {
        let complete = st.path is Some && st.commit is Some;
        ParseState {
            worktrees: flush_entry(st),
            path: Some(after_prefix(line, "worktree "@)),
            commit: None,
            branch: if complete { None } else { st.branch },
        }
    } else if "HEAD "@.is_prefix_of(line) {
        ParseState { commit: Some(after_prefix(line, "HEAD "@)), ..st }
    } else if "branch refs/heads/"@.is_prefix_of(line) {
        ParseState { branch: Some(after_prefix(line, "branch refs/heads/"@)), ..st }
    } else {
        st
    }
}

/// The parser's state after taking in `lines` from state `st`.
pub open spec fn parse_from(st: ParseState, lines: Seq<Seq<char>>) -> ParseState
    decreases lines.len(),
{
    if lines.len() == 0 {
        st
    } else {
        parse_line(parse_from(st, lines.drop_last()), lines.last())
    }
}

/// The parser's state after the given lines.
pub open spec fn parse_lines(lines: Seq<Seq<char>>) -> ParseState {
    parse_from(initial_parse_state(), lines)
}

/// The worktrees that `git worktree list --porcelain` printed as `output`.
pub open spec fn parse_worktree_list_spec(output: Seq<char>) -> Seq<WorktreeView> {
    flush_entry(parse_lines(lines_spec(output)))
}

/// The porcelain parser's state, as values.
struct Parser {
    worktrees: Vec<Worktree>,
    path: Option<String>,
    commit: Option<String>,
    branch: Option<String>,
}

impl Parser {
    spec fn state(&self) -> ParseState {
        ParseState {
            worktrees: worktree_views(self.worktrees@),
            path: opt_view(self.path),
            commit: opt_view(self.commit),
            branch: opt_view(self.branch),
        }
    }

    /// Completes the current entry when it has a path and a commit; the path
    /// and commit are cleared either way.
    fn flush(&mut self)
        ensures
            worktree_views(final(self).worktrees@) == flush_entry(old(self).state()),
            final(self).path is None,
            final(self).commit is None,
            opt_view(final(self).branch) == if old(self).path is Some && old(self).commit is Some {
                None
            } else {
                opt_view(old(self).branch)
            },
    {
        let p = self.path.take();
        let c = self.commit.take();
        match (p, c) {
            (Some(p), Some(c)) => {
                let b = self.branch.take();
                let ghost before = worktree_views(self.worktrees@);
                self.worktrees.push(Worktree::new(p, b, c));
                assert(worktree_views(self.worktrees@) =~= flush_entry(old(self).state()));
            },
            _ => {},
        }
    }

    /// Takes in one line.
    fn feed(&mut self, line: &str)
        ensures
            final(self).state() == parse_line(old(self).state(), line@),
    {
        let cs = chars_of(line);
        let n = cs.len();
        let worktree_prefix = chars_of("worktree ");
        let head_prefix = chars_of("HEAD ");
        let branch_prefix = chars_of("branch refs/heads/");
        if starts_with_chars(&cs, &worktree_prefix) {
            self.flush();
            self.path = Some(line.substring_char(worktree_prefix.len(), n).to_owned());
        } else if starts_with_chars(&cs, &head_prefix) {
            self.commit = Some(line.substring_char(head_prefix.len(), n).to_owned());
        } else if starts_with_chars(&cs, &branch_prefix) {
            self.branch = Some(line.substring_char(branch_prefix.len(), n).to_owned());
        }
    }
}

/// Whether `s` begins with `prefix`.
fn starts_with_chars(s: &Vec<char>, prefix: &Vec<char>) -> (r: bool)
    ensures
        r == prefix@.is_prefix_of(s@),
{
    if prefix.len() > s.len() {
        return false;
    }
    let mut i: usize = 0;
    while i < prefix.len()
        invariant
            prefix.len() <= s.len(),
            i <= prefix.len(),
            forall|j: int| 0 <= j < i ==> prefix@[j] == s@[j],
        decreases prefix.len() - i,
    {
        if prefix[i] != s[i] {
            assert(prefix@[i as int] != s@.subrange(0, prefix.len() as int)[i as int]);
            return false;
        }
        i += 1;
    }
    assert(prefix@ =~= s@.subrange(0, prefix.len() as int));
    true
}

/// Parses the output of `git worktree list --porcelain`:
///
/// ```text
/// worktree /path/to/main
/// HEAD abc1234
/// branch refs/heads/main
///
/// worktree /path/to/detached
/// HEAD ghi9012
/// detached
/// ```
///
/// An entry becomes a worktree once it has both a path and a commit; a
/// detached entry has no branch.
pub fn parse_worktree_list(output: &str) -> (r: Vec<Worktree>)
    ensures
        worktree_views(r@) == parse_worktree_list_spec(output@),
{
    let cs = chars_of(output);
    let n = cs.len();
    let mut parser = Parser { worktrees: Vec::new(), path: None, commit: None, branch: None };
    let ghost mut done: Seq<Seq<char>> = seq![];
    assert(worktree_views(parser.worktrees@) =~= seq![]);
    let mut start: usize = 0;
    let mut i: usize = 0;
    while i < n
        invariant
            cs@ == output@,
            n == cs.len(),
            start <= i <= n,
            parser.state() == parse_lines(done),
            done + lines_from(output@, start as int, i as int) == lines_spec(output@),
        decreases n - i,
    {
        if cs[i] == '\n' {
            let end = if i > start && cs[i - 1] == '\r' { i - 1 } else { i };
            let line = output.substring_char(start, end);
            proof {
                assert(line@ =~= strip_cr(output@.subrange(start as int, i as int)));
                assert((done.push(line@)).drop_last() =~= done);
                assert(done.push(line@) + lines_from(output@, i + 1, i + 1) =~= done + lines_from(
                    output@,
                    start as int,
                    i as int,
                ));
            }
            parser.feed(line);
            proof {
                done = done.push(line@);
            }
            i += 1;
            start = i;
        } else {
            i += 1;
        }
    }
    if start < n {
        let line = output.substring_char(start, n);
        proof {
            assert((done.push(line@)).drop_last() =~= done);
            assert(done.push(line@) =~= lines_spec(output@));
        }
        parser.feed(line);
        proof {
            done = done.push(line@);
        }
    } else {
        assert(done =~= lines_spec(output@));
    }
    parser.flush();
    parser.worktrees
}


/// The arguments of `git` that add a worktree at `path`: `worktree add`;
/// then, when the branch is to be created, `-b <branch> <path>` followed by
/// the base branch when one is given and not empty; otherwise `<path>
/// <branch>`, which checks the existing branch out.
pub open spec fn add_worktree_args_spec(path: Seq<char>, opts: AddOptionsView) -> Seq<Seq<char>> {
    let from = match opts.from {
        Some(f) => f,
        None => seq![],
    };
    if opts.create_branch {
        seq!["worktree"@, "add"@, "-b"@, opts.branch, path] + (if from.len() > 0 {
            seq![from]
        } else {
            seq![]
        })
    } else {
        seq!["worktree"@, "add"@, path, opts.branch]
    }
}

/// The arguments of `git` that remove the worktree at `path`.
pub open spec fn remove_worktree_args_spec(path: Seq<char>, force: bool) -> Seq<Seq<char>> {
    seq!["worktree"@, "remove"@] + (if force {
        seq!["--force"@]
    } else {
        seq![]
    }) + seq![path]
}

/// The arguments of `git` that delete `branch` (`-D` forces it).
pub open spec fn delete_branch_args_spec(branch: Seq<char>, force: bool) -> Seq<Seq<char>> {
    seq!["branch"@, if force {
        "-D"@
    } else {
        "-d"@
    }, branch]
}

/// The arguments of `git` that add a worktree at `path`.
pub fn add_worktree_args(path: &str, opts: &AddOptions) -> (r: Vec<String>)
    ensures
        string_views(r@) == add_worktree_args_spec(path@, opts@),
{
    let mut r: Vec<String> = Vec::new();
    r.push("worktree".to_owned());
    r.push("add".to_owned());
    if opts.create_branch {
        r.push("-b".to_owned());
        r.push(opts.branch.clone());
        r.push(path.to_owned());
        match &opts.from {
            Some(f) => {
                if f.unicode_len() > 0 {
                    r.push(f.clone());
                }
            },
            None => {},
        }
    } else {
        r.push(path.to_owned());
        r.push(opts.branch.clone());
    }
    assert(string_views(r@) =~= add_worktree_args_spec(path@, opts@));
    r
}

/// Law: the arguments that add a worktree. With `-b` the new branch follows
/// `-b` and the path comes next; a base branch follows the path only when one
/// is given and not empty, so without one the branch starts at HEAD.
/// Without `-b` the path is followed by the existing branch to check out.
pub proof fn law_add_worktree_args(path: Seq<char>, opts: AddOptionsView)
    ensures
        opts.create_branch && (opts.from is None || opts.from == Some(Seq::<char>::empty()))
            ==> add_worktree_args_spec(path, opts) == seq![
            seq!['w', 'o', 'r', 'k', 't', 'r', 'e', 'e'],
            seq!['a', 'd', 'd'],
            seq!['-', 'b'],
            opts.branch,
            path,
        ],
        opts.create_branch && opts.from is Some && opts.from->0.len() > 0 ==> add_worktree_args_spec(
            path,
            opts,
        ) == seq![
            seq!['w', 'o', 'r', 'k', 't', 'r', 'e', 'e'],
            seq!['a', 'd', 'd'],
            seq!['-', 'b'],
            opts.branch,
            path,
            opts.from->0,
        ],
        !opts.create_branch ==> add_worktree_args_spec(path, opts) == seq![
            seq!['w', 'o', 'r', 'k', 't', 'r', 'e', 'e'],
            seq!['a', 'd', 'd'],
            path,
            opts.branch,
        ],
{
    reveal_strlit("worktree");
    reveal_strlit("add");
    reveal_strlit("-b");
    assert("worktree"@ =~= seq!['w', 'o', 'r', 'k', 't', 'r', 'e', 'e']);
    assert("add"@ =~= seq!['a', 'd', 'd']);
    assert("-b"@ =~= seq!['-', 'b']);
    let a = add_worktree_args_spec(path, opts);
    if opts.create_branch {
        match opts.from {
            Some(f) => {
                if f.len() > 0 {
                    assert(a =~= seq!["worktree"@, "add"@, "-b"@, opts.branch, path, f]);
                } else {
                    assert(a =~= seq!["worktree"@, "add"@, "-b"@, opts.branch, path]);
                }
            },
            None => {
                assert(a =~= seq!["worktree"@, "add"@, "-b"@, opts.branch, path]);
            },
        }
    } else {
        assert(a =~= seq!["worktree"@, "add"@, path, opts.branch]);
    }
}

/// The arguments of `git` that remove the worktree at `path`.
pub fn remove_worktree_args(path: &str, force: bool) -> (r: Vec<String>)
    ensures
        string_views(r@) == remove_worktree_args_spec(path@, force),
{
    let mut r: Vec<String> = Vec::new();
    r.push("worktree".to_owned());
    r.push("remove".to_owned());
    if force {
        r.push("--force".to_owned());
    }
    r.push(path.to_owned());
    assert(string_views(r@) =~= remove_worktree_args_spec(path@, force));
    r
}

/// The arguments of `git` that delete `branch`.
pub fn delete_branch_args(branch: &str, force: bool) -> (r: Vec<String>)
    ensures
        string_views(r@) == delete_branch_args_spec(branch@, force),
{
    let mut r: Vec<String> = Vec::new();
    r.push("branch".to_owned());
    if force {
        r.push("-D".to_owned());
    } else {
        r.push("-d".to_owned());
    }
    r.push(branch.to_owned());
    assert(string_views(r@) =~= delete_branch_args_spec(branch@, force));
    r
}

/// The branch of the first worktree at `path` (the same path as a `Path`);
/// `None` when there is no such worktree or its HEAD is detached.
pub open spec fn worktree_branch_spec(ws: Seq<WorktreeView>, path: Seq<char>) -> Option<Seq<char>>
    decreases ws.len(),
{
    if ws.len() == 0 {
        None
    } else if path_eq_spec(ws[0].path, path) {
        ws[0].branch
    } else {
        worktree_branch_spec(ws.drop_first(), path)
    }
}

/// The branch of the first worktree in `worktrees` at `path`.
pub fn worktree_branch(worktrees: &Vec<Worktree>, path: &str) -> (r: Option<String>)
    ensures
        opt_view(r) == worktree_branch_spec(worktree_views(worktrees@), path@),
{
    let ghost ws = worktree_views(worktrees@);
    let mut i: usize = 0;
    assert(ws.skip(0) =~= ws);
    while i < worktrees.len()
        invariant
            ws == worktree_views(worktrees@),
            i <= worktrees.len(),
            worktree_branch_spec(ws.skip(i as int), path@) == worktree_branch_spec(ws, path@),
        decreases worktrees.len() - i,
    {
        assert(ws.skip(i as int)[0] == worktrees@[i as int]@);
        assert(ws.skip(i as int).drop_first() =~= ws.skip(i + 1));
        if path_eq(worktrees[i].path.as_str(), path) {
            return worktrees[i].branch.clone();
        }
        i += 1;
    }
    None
}

/// A Unicode `White_Space` character, the characters `str::trim` removes.
pub open spec fn is_white_space(c: char) -> bool {
    ||| c == '\t' || c == '\n' || c == '\u{b}' || c == '\u{c}' || c == '\r' || c == ' '
    ||| c == '\u{85}' || c == '\u{a0}' || c == '\u{1680}'
    ||| ('\u{2000}' <= c && c <= '\u{200a}')
    ||| c == '\u{2028}' || c == '\u{2029}' || c == '\u{202f}' || c == '\u{205f}' || c == '\u{3000}'
}

/// `s` without its leading white space.
pub open spec fn trim_start_spec(s: Seq<char>) -> Seq<char>
    decreases s.len(),
{
    if s.len() > 0 && is_white_space(s[0]) {
        trim_start_spec(s.drop_first())
    } else {
        s
    }
}

/// `s` without its trailing white space.
pub open spec fn trim_end_spec(s: Seq<char>) -> Seq<char>
    decreases s.len(),
{
    if s.len() > 0 && is_white_space(s.last()) {
        trim_end_spec(s.drop_last())
    } else {
        s
    }
}

/// Whether `c` is white space.
fn white_space(c: char) -> (b: bool)
    ensures
        b == is_white_space(c),
{
    c == '\t' || c == '\n' || c == '\u{b}' || c == '\u{c}' || c == '\r' || c == ' ' || c == '\u{85}'
        || c == '\u{a0}' || c == '\u{1680}' || ('\u{2000}' <= c && c <= '\u{200a}') || c == '\u{2028}'
        || c == '\u{2029}' || c == '\u{202f}' || c == '\u{205f}' || c == '\u{3000}'
}

/// The repository root that `git rev-parse --show-toplevel` printed as
/// `output`: the output without the white space around it (`str::trim`).
pub fn repo_root_from_output(output: &str) -> (r: String)
    ensures
        r@ == trim_end_spec(trim_start_spec(output@)),
{
    let cs = chars_of(output);
    let n = cs.len();
    let ghost s = output@;
    let mut i: usize = 0;
    assert(s.subrange(0, n as int) =~= s);
    while i < n && white_space(cs[i])
        invariant
            cs@ == s,
            n == cs.len(),
            i <= n,
            trim_start_spec(s.subrange(i as int, n as int)) == trim_start_spec(s),
        decreases n - i,
    {
        assert(s.subrange(i as int, n as int).drop_first() =~= s.subrange(i + 1, n as int));
        i += 1;
    }
    let ghost t = s.subrange(i as int, n as int);
    assert(trim_start_spec(t) == t);
    let mut j: usize = n;
    assert(t.subrange(0, (j - i) as int) =~= t);
    while j > i && white_space(cs[j - 1])
        invariant
            cs@ == s,
            n == cs.len(),
            i <= j <= n,
            t == s.subrange(i as int, n as int),
            trim_end_spec(t.subrange(0, (j - i) as int)) == trim_end_spec(t),
        decreases j - i,
    {
        assert(t.subrange(0, (j - i) as int).drop_last() =~= t.subrange(0, (j - 1 - i) as int));
        assert(t.subrange(0, (j - i) as int).last() == cs@[j - 1]);
        j -= 1;
    }
    assert(trim_end_spec(t.subrange(0, (j - i) as int)) == t.subrange(0, (j - i) as int));
    let r = output.substring_char(i, j);
    assert(r@ =~= t.subrange(0, (j - i) as int));
    r.to_owned()
}

} // verus!
