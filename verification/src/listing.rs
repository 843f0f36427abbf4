use vstd::prelude::*;

use crate::text::{byte_len, pad_right, pad_right_spec, string_views};
use crate::worktree::{
    branch_display_spec, short_commit, short_commit_ok, short_commit_spec, worktree_views,
    Worktree, WorktreeView,
};

verus! {

/// A worktree that the table can show: its short hash can be cut out, and its
/// strings, as any in memory, have lengths that fit in a `usize`.
pub open spec fn listable(w: WorktreeView) -> bool {
    &&& short_commit_ok(w.commit)
    &&& byte_len(w.path) <= usize::MAX
    &&& byte_len(branch_display_spec(w)) <= usize::MAX
}

/// The widest path, in bytes.
pub open spec fn path_width(ws: Seq<WorktreeView>) -> nat
    decreases ws.len(),
{
    if ws.len() == 0 {
        0
    } else {
        let rest = path_width(ws.drop_last());
        let here = byte_len(ws.last().path);
        if here > rest {
            here
        } else {
            rest
        }
    }
}

/// The widest branch column, in bytes.
pub open spec fn branch_width(ws: Seq<WorktreeView>) -> nat
    decreases ws.len(),
{
    if ws.len() == 0 {
        0
    } else {
        let rest = branch_width(ws.drop_last());
        let here = byte_len(branch_display_spec(ws.last()));
        if here > rest {
            here
        } else {
            rest
        }
    }
}

/// A worktree's line in the table: its path and its branch column, each padded
/// to its column's width, then its short hash, four spaces apart.
pub open spec fn table_line(w: WorktreeView, pw: nat, bw: nat) -> Seq<char> {
    pad_right_spec(w.path, pw) + "    "@ + pad_right_spec(branch_display_spec(w), bw) + "    "@
        + short_commit_spec(w.commit)
}

/// The worktree table, a line per worktree (`wtxr list`).
pub open spec fn worktree_table_spec(ws: Seq<WorktreeView>) -> Seq<Seq<char>> {
    ws.map_values(|w: WorktreeView| table_line(w, path_width(ws), branch_width(ws)))
}

/// The widths of a prefix are no larger than those of the whole.
proof fn lemma_width_prefix(ws: Seq<WorktreeView>, k: int)
    requires
        0 <= k <= ws.len(),
    ensures
        path_width(ws.take(k)) <= path_width(ws),
        branch_width(ws.take(k)) <= branch_width(ws),
    decreases ws.len(),
{
    if k < ws.len() {
        assert(ws.drop_last().take(k) =~= ws.take(k));
        lemma_width_prefix(ws.drop_last(), k);
    } else {
        assert(ws.take(k) =~= ws);
    }
}

/// The widths are those of some worktree, or zero.
proof fn lemma_width_bounded(ws: Seq<WorktreeView>)
    requires
        forall|i: int| 0 <= i < ws.len() ==> listable(#[trigger] ws[i]),
    ensures
        path_width(ws) <= usize::MAX,
        branch_width(ws) <= usize::MAX,
    decreases ws.len(),
{
    if ws.len() > 0 {
        assert forall|i: int| 0 <= i < ws.drop_last().len() implies listable(
            #[trigger] ws.drop_last()[i],
        ) by {
            assert(ws.drop_last()[i] == ws[i]);
        }
        lemma_width_bounded(ws.drop_last());
        assert(listable(ws[ws.len() - 1]));
    }
}

/// The lines of the worktree table: path, branch and short hash columns, the
/// first two padded to their widest entry (in bytes). No worktrees, no lines.
pub fn worktree_table(worktrees: &Vec<Worktree>) -> (r: Vec<String>)
    requires
        forall|i: int| 0 <= i < worktrees.len() ==> listable(#[trigger] worktrees@[i]@),
    ensures
        string_views(r@) == worktree_table_spec(worktree_views(worktrees@)),
{
    let ghost ws = worktree_views(worktrees@);
    assert forall|i: int| 0 <= i < ws.len() implies listable(#[trigger] ws[i]) by {
        assert(ws[i] == worktrees@[i]@);
    }
    proof {
        lemma_width_bounded(ws);
    }
    let mut pw: usize = 0;
    let mut bw: usize = 0;
    let mut i: usize = 0;
    while i < worktrees.len()
        invariant
            ws == worktree_views(worktrees@),
            forall|i: int| 0 <= i < ws.len() ==> listable(#[trigger] ws[i]),
            path_width(ws) <= usize::MAX,
            i <= worktrees.len(),
            pw == path_width(ws.take(i as int)),
            bw == branch_width(ws.take(i as int)),
        decreases worktrees.len() - i,
    {
        proof {
            assert(ws.take(i + 1).drop_last() =~= ws.take(i as int));
            assert(ws.take(i + 1).last() == ws[i as int]);
            assert(ws[i as int] == worktrees@[i as int]@);
            assert(listable(ws[i as int]));
        }
        let p = worktrees[i].path.as_str().len();
        let b = worktrees[i].branch_display().as_str().len();
        if p > pw {
            pw = p;
        }
        if b > bw {
            bw = b;
        }
        i += 1;
    }
    assert(ws.take(worktrees.len() as int) =~= ws);
    let ghost want = worktree_table_spec(ws);
    let mut r: Vec<String> = Vec::new();
    let mut j: usize = 0;
    while j < worktrees.len()
        invariant
            ws == worktree_views(worktrees@),
            forall|i: int| 0 <= i < ws.len() ==> listable(#[trigger] ws[i]),
            want == worktree_table_spec(ws),
            pw == path_width(ws),
            bw == branch_width(ws),
            j <= worktrees.len(),
            string_views(r@) == want.take(j as int),
        decreases worktrees.len() - j,
    {
        assert(ws[j as int] == worktrees@[j as int]@);
        assert(listable(ws[j as int]));
        let w = &worktrees[j];
        let mut line = pad_right(w.path.as_str(), pw);
        line.append("    ");
        line.append(pad_right(w.branch_display().as_str(), bw).as_str());
        line.append("    ");
        line.append(short_commit(w.commit.as_str()).as_str());
        let ghost before = string_views(r@);
        r.push(line);
        assert(string_views(r@) =~= before.push(want[j as int]));
        assert(want.take(j + 1) =~= want.take(j as int).push(want[j as int]));
        j += 1;
    }
    assert(want.take(worktrees.len() as int) =~= want);
    r
}

} // verus!
