use vstd::prelude::*;

use crate::git::{
    after_prefix, flush_entry, initial_parse_state, lines_from, lines_spec, parse_from,
    parse_line, parse_lines, parse_worktree_list_spec, strip_cr, ParseState,
};
use crate::worktree::WorktreeView;

verus! {

/// A field that a porcelain line can carry: no newline in it, and no carriage
/// return at its end.
pub open spec fn line_field(s: Seq<char>) -> bool {
    &&& !s.contains('\n')
    &&& !(s.len() > 0 && s.last() == '\r')
}

/// A worktree whose fields porcelain lines can carry.
pub open spec fn porcelain_ready(w: WorktreeView) -> bool {
    &&& line_field(w.path)
    &&& line_field(w.commit)
    &&& match w.branch {
        Some(b) => line_field(b),
        None => true,
    }
}

/// The line that gives a worktree's branch: `branch refs/heads/<name>`, or
/// `detached`.
pub open spec fn branch_line(branch: Option<Seq<char>>) -> Seq<char> {
    match branch {
        Some(b) => "branch refs/heads/"@ + b,
        None => "detached"@,
    }
}

/// A worktree's entry in `git worktree list --porcelain`: its path, HEAD and
/// branch lines, then an empty line.
pub open spec fn porcelain_entry(w: WorktreeView) -> Seq<char> {
    "worktree "@ + w.path + seq!['\n'] + "HEAD "@ + w.commit + seq!['\n'] + branch_line(w.branch)
        + seq!['\n'] + seq!['\n']
}

/// The porcelain listing of worktrees, entry after entry.
pub open spec fn porcelain(ws: Seq<WorktreeView>) -> Seq<char>
    decreases ws.len(),
{
    if ws.len() == 0 {
        seq![]
    } else {
        porcelain(ws.drop_last()) + porcelain_entry(ws.last())
    }
}

/// Scanning `b` behind a prefix `p` finds the lines it finds in `b` alone.
proof fn lemma_lines_shift(p: Seq<char>, b: Seq<char>, j0: int, j: int)
    requires
        0 <= j0 <= j <= b.len(),
    ensures
        lines_from(p + b, p.len() + j0, p.len() + j) == lines_from(b, j0, j),
    decreases b.len() - j,
{
    let s = p + b;
    let k = p.len() as int;
    if j < b.len() {
        assert(s[k + j] == b[j]);
        if b[j] == '\n' {
            lemma_lines_shift(p, b, j + 1, j + 1);
            assert(s.subrange(k + j0, k + j) =~= b.subrange(j0, j));
        } else {
            lemma_lines_shift(p, b, j0, j + 1);
        }
    } else {
        assert(s.subrange(k + j0, s.len() as int) =~= b.subrange(j0, b.len() as int));
    }
}

/// The lines of a text that ends with a newline, followed by more text, are
/// its lines followed by those of the rest.
proof fn lemma_lines_append(a: Seq<char>, b: Seq<char>, start: int, i: int)
    requires
        a.len() > 0,
        a.last() == '\n',
        0 <= start <= i <= a.len(),
        i < a.len() || start == i,
    ensures
        lines_from(a + b, start, i) == lines_from(a, start, i) + lines_spec(b),
    decreases a.len() - i,
{
    let s = a + b;
    if i < a.len() {
        assert(s[i] == a[i]);
        if a[i] == '\n' {
            lemma_lines_append(a, b, i + 1, i + 1);
            assert(s.subrange(start, i) =~= a.subrange(start, i));
            assert(lines_from(a + b, start, i) =~= lines_from(a, start, i) + lines_spec(b));
        } else {
            lemma_lines_append(a, b, start, i + 1);
        }
    } else {
        lemma_lines_shift(a, b, 0, 0);
        assert(lines_from(a, start, i) =~= seq![]);
        assert(lines_from(a + b, start, i) =~= lines_from(a, start, i) + lines_spec(b));
    }
}

/// The lines of a text that is empty or ends with a newline, followed by more
/// text, are its lines followed by those of the rest.
proof fn lemma_lines_concat(a: Seq<char>, b: Seq<char>)
    requires
        a.len() == 0 || a.last() == '\n',
    ensures
        lines_spec(a + b) == lines_spec(a) + lines_spec(b),
{
    if a.len() == 0 {
        assert(a + b =~= b);
        assert(lines_spec(a) =~= seq![]);
        assert(lines_spec(a) + lines_spec(b) =~= lines_spec(b));
    } else {
        lemma_lines_append(a, b, 0, 0);
    }
}

/// A line without a newline, ended by one, is that single line.
proof fn lemma_single_line(x: Seq<char>, i: int)
    requires
        line_field(x),
        0 <= i <= x.len(),
    ensures
        lines_from(x + seq!['\n'], 0, i) == seq![x],
    decreases x.len() - i,
{
    let s = x + seq!['\n'];
    if i < x.len() {
        assert(s[i] == x[i]);
        assert(x[i] != '\n') by {
            if x[i] == '\n' {
                assert(x.contains('\n'));
            }
        }
        lemma_single_line(x, i + 1);
    } else {
        assert(s[i] == '\n');
        assert(s.subrange(0, i) =~= x);
        assert(lines_from(s, i + 1, i + 1) =~= seq![]);
    }
}

/// The lines of a worktree's entry.
proof fn lemma_entry_lines(w: WorktreeView)
    requires
        porcelain_ready(w),
    ensures
        lines_spec(porcelain_entry(w)) == seq![
            "worktree "@ + w.path,
            "HEAD "@ + w.commit,
            branch_line(w.branch),
            seq![],
        ],
{
    reveal_strlit("worktree ");
    reveal_strlit("HEAD ");
    reveal_strlit("branch refs/heads/");
    reveal_strlit("detached");
    let l1 = "worktree "@ + w.path;
    let l2 = "HEAD "@ + w.commit;
    let l3 = branch_line(w.branch);
    let nl = seq!['\n'];
    assert(line_field(l1)) by {
        assert(!l1.contains('\n')) by {
            if l1.contains('\n') {
                let k = choose|k: int| 0 <= k < l1.len() && l1[k] == '\n';
                if k >= 9 {
                    assert(w.path[k - 9] == '\n');
                }
            }
        }
    }
    assert(line_field(l2)) by {
        assert(!l2.contains('\n')) by {
            if l2.contains('\n') {
                let k = choose|k: int| 0 <= k < l2.len() && l2[k] == '\n';
                if k >= 5 {
                    assert(w.commit[k - 5] == '\n');
                }
            }
        }
    }
    assert(line_field(l3)) by {
        assert(!l3.contains('\n')) by {
            if l3.contains('\n') {
                let k = choose|k: int| 0 <= k < l3.len() && l3[k] == '\n';
                if let Some(b) = w.branch {
                    if k >= 18 {
                        assert(b[k - 18] == '\n');
                    }
                }
            }
        }
    }
    assert(line_field(seq![])) by {
        assert(!Seq::<char>::empty().contains('\n'));
    }
    lemma_single_line(l1, 0);
    lemma_single_line(l2, 0);
    lemma_single_line(l3, 0);
    lemma_single_line(seq![], 0);
    assert(Seq::<char>::empty() + nl =~= nl);
    let e = porcelain_entry(w);
    assert(e =~= (l1 + nl) + ((l2 + nl) + ((l3 + nl) + nl)));
    lemma_lines_concat(l3 + nl, nl);
    lemma_lines_concat(l2 + nl, (l3 + nl) + nl);
    lemma_lines_concat(l1 + nl, (l2 + nl) + ((l3 + nl) + nl));
    assert(lines_spec(e) =~= seq![l1, l2, l3, seq![]]);
}

/// Taking in more lines continues from where the earlier ones left off.
proof fn lemma_parse_from_concat(st: ParseState, l1: Seq<Seq<char>>, l2: Seq<Seq<char>>)
    ensures
        parse_from(st, l1 + l2) == parse_from(parse_from(st, l1), l2),
    decreases l2.len(),
{
    if l2.len() == 0 {
        assert(l1 + l2 =~= l1);
    } else {
        assert((l1 + l2).drop_last() =~= l1 + l2.drop_last());
        assert((l1 + l2).last() == l2.last());
        lemma_parse_from_concat(st, l1, l2.drop_last());
    }
}

/// The parser's state after the listing of `ws`: the worktrees before the
/// last completed, the last one's fields pending.
pub open spec fn state_after(ws: Seq<WorktreeView>) -> ParseState {
    if ws.len() == 0 {
        initial_parse_state()
    } else {
        ParseState {
            worktrees: ws.drop_last(),
            path: Some(ws.last().path),
            commit: Some(ws.last().commit),
            branch: ws.last().branch,
        }
    }
}

/// Taking in a worktree's entry after the listing of `ws` gives the state
/// after the listing of `ws` and that worktree.
proof fn lemma_parse_entry(ws: Seq<WorktreeView>, w: WorktreeView)
    requires
        porcelain_ready(w),
    ensures
        parse_from(state_after(ws), lines_spec(porcelain_entry(w))) == state_after(ws.push(w)),
{
    reveal_strlit("worktree ");
    reveal_strlit("HEAD ");
    reveal_strlit("branch refs/heads/");
    reveal_strlit("detached");
    lemma_entry_lines(w);
    let l1 = "worktree "@ + w.path;
    let l2 = "HEAD "@ + w.commit;
    let l3 = branch_line(w.branch);
    let lines = seq![l1, l2, l3, seq![]];
    let st0 = state_after(ws);
    assert(lines.drop_last() =~= seq![l1, l2, l3]);
    assert(seq![l1, l2, l3].drop_last() =~= seq![l1, l2]);
    assert(seq![l1, l2].drop_last() =~= seq![l1]);
    assert(seq![l1].drop_last() =~= Seq::<Seq<char>>::empty());
    assert("worktree "@.is_prefix_of(l1)) by {
        assert("worktree "@ =~= l1.subrange(0, 9));
    }
    assert(after_prefix(l1, "worktree "@) =~= w.path);
    let st1 = parse_line(st0, l1);
    assert(flush_entry(st0) =~= ws) by {
        if ws.len() > 0 {
            assert(ws.drop_last().push(ws.last()) =~= ws);
        }
    }
    assert(!"worktree "@.is_prefix_of(l2)) by {
        assert(l2[0] == 'H');
    }
    assert("HEAD "@.is_prefix_of(l2)) by {
        assert("HEAD "@ =~= l2.subrange(0, 5));
    }
    assert(after_prefix(l2, "HEAD "@) =~= w.commit);
    let st2 = parse_line(st1, l2);
    match w.branch {
        Some(b) => {
            assert(l3[0] == 'b');
            assert(!"worktree "@.is_prefix_of(l3)) by {
                assert("worktree "@[0] == 'w');
            }
            assert(!"HEAD "@.is_prefix_of(l3)) by {
                assert("HEAD "@[0] == 'H');
            }
            assert("branch refs/heads/"@.is_prefix_of(l3)) by {
                assert("branch refs/heads/"@ =~= l3.subrange(0, 18));
            }
            assert(after_prefix(l3, "branch refs/heads/"@) =~= b);
        },
        None => {
            assert(l3[0] == 'd');
            assert(!"worktree "@.is_prefix_of(l3)) by {
                assert("worktree "@[0] == 'w');
            }
            assert(!"HEAD "@.is_prefix_of(l3)) by {
                assert("HEAD "@[0] == 'H');
            }
            assert(!"branch refs/heads/"@.is_prefix_of(l3)) by {
                assert(l3.len() < 18);
            }
        },
    }
    let st3 = parse_line(st2, l3);
    assert(parse_line(st3, seq![]) == st3) by {
        assert(!"worktree "@.is_prefix_of(seq![]));
        assert(!"HEAD "@.is_prefix_of(seq![]));
        assert(!"branch refs/heads/"@.is_prefix_of(seq![]));
    }
    assert(ws.push(w).drop_last() =~= ws);
    assert(parse_from(st0, Seq::<Seq<char>>::empty()) == st0);
    assert(parse_from(st0, seq![l1]) == st1);
    assert(parse_from(st0, seq![l1, l2]) == st2);
    assert(parse_from(st0, seq![l1, l2, l3]) == st3);
    assert(parse_from(st0, lines) == st3);
    assert(st3 =~= state_after(ws.push(w)));
}

/// The parser's state after reading the listing of `ws`.
proof fn lemma_parse_porcelain(ws: Seq<WorktreeView>)
    requires
        forall|i: int| 0 <= i < ws.len() ==> porcelain_ready(#[trigger] ws[i]),
    ensures
        parse_lines(lines_spec(porcelain(ws))) == state_after(ws),
    decreases ws.len(),
{
    if ws.len() == 0 {
        assert(lines_spec(seq![]) =~= Seq::<Seq<char>>::empty());
    } else {
        let init = ws.drop_last();
        let w = ws.last();
        assert forall|i: int| 0 <= i < init.len() implies porcelain_ready(#[trigger] init[i]) by {
            assert(init[i] == ws[i]);
        }
        assert(porcelain_ready(w)) by {
            assert(ws[ws.len() - 1] == w);
        }
        lemma_parse_porcelain(init);
        assert(porcelain(init).len() == 0 || porcelain(init).last() == '\n') by {
            if init.len() > 0 {
                let e = porcelain_entry(init.last());
                assert(porcelain(init) == porcelain(init.drop_last()) + e);
                assert(e.last() == '\n');
            }
        }
        lemma_lines_concat(porcelain(init), porcelain_entry(w));
        lemma_parse_from_concat(
            initial_parse_state(),
            lines_spec(porcelain(init)),
            lines_spec(porcelain_entry(w)),
        );
        lemma_parse_entry(init, w);
        assert(init.push(w) =~= ws);
    }
}

/// Law: parsing the porcelain listing of worktrees gives them back, as long
/// as no field holds a newline or ends with a carriage return.
pub proof fn law_parse_reads_back_listing(ws: Seq<WorktreeView>)
    requires
        forall|i: int| 0 <= i < ws.len() ==> porcelain_ready(#[trigger] ws[i]),
    ensures
        parse_worktree_list_spec(porcelain(ws)) == ws,
{
    lemma_parse_porcelain(ws);
    if ws.len() > 0 {
        assert(ws.drop_last().push(ws.last()) =~= ws);
    }
}

} // verus!
