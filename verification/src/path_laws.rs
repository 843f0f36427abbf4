use vstd::prelude::*;

use crate::config::{global_config_file_spec, local_config_file_spec, input_worktree_path_spec, worktree_path_spec, worktrees_dir_spec, ConfigView};
use crate::copying::glob_copy_target_spec;
use crate::paths::{
    components_spec, is_absolute_spec, join_names, join_spec, kept_segment, leads_with_cur_dir,
    path_eq_spec, path_starts_with_spec, prune_candidates_spec, render_spec, segments_from,
};

verus! {

/// Scanning `b` behind a prefix `p` finds the names it finds in `b` alone.
proof fn lemma_segments_shift(p: Seq<char>, b: Seq<char>, j0: int, j: int)
    requires
        0 <= j0 <= j <= b.len(),
    ensures
        segments_from(p + b, p.len() + j0, p.len() + j) == segments_from(b, j0, j),
    decreases b.len() - j,
{
    let s = p + b;
    let k = p.len() as int;
    if j < b.len() {
        assert(s[k + j] == b[j]);
        if b[j] == '/' {
            lemma_segments_shift(p, b, j + 1, j + 1);
            assert(s.subrange(k + j0, k + j) =~= b.subrange(j0, j));
        } else {
            lemma_segments_shift(p, b, j0, j + 1);
        }
    } else {
        assert(s.subrange(k + j0, s.len() as int) =~= b.subrange(j0, b.len() as int));
    }
}

/// The names of a text that ends with a separator, followed by more text, are
/// its names followed by those of the rest.
proof fn lemma_segments_append(a: Seq<char>, b: Seq<char>, start: int, i: int)
    requires
        a.len() > 0,
        a.last() == '/',
        0 <= start <= i <= a.len(),
        i < a.len() || start == i,
    ensures
        segments_from(a + b, start, i) == segments_from(a, start, i) + segments_from(b, 0, 0),
    decreases a.len() - i,
{
    let s = a + b;
    if i < a.len() {
        assert(s[i] == a[i]);
        if a[i] == '/' {
            lemma_segments_append(a, b, i + 1, i + 1);
            assert(s.subrange(start, i) =~= a.subrange(start, i));
            assert(segments_from(a + b, start, i) =~= segments_from(a, start, i) + segments_from(
                b,
                0,
                0,
            ));
        } else {
            lemma_segments_append(a, b, start, i + 1);
        }
    } else {
        lemma_segments_shift(a, b, 0, 0);
        assert(a.subrange(start, a.len() as int) =~= Seq::<char>::empty());
        assert(segments_from(a, start, i) =~= seq![]);
        assert(segments_from(a + b, start, i) =~= segments_from(a, start, i) + segments_from(
            b,
            0,
            0,
        ));
    }
}

/// A separator at the end adds no name.
proof fn lemma_segments_trailing(a: Seq<char>, start: int, i: int)
    requires
        0 <= start <= i <= a.len(),
    ensures
        segments_from(a + seq!['/'], start, i) == segments_from(a, start, i),
    decreases a.len() - i,
{
    let s = a + seq!['/'];
    if i < a.len() {
        assert(s[i] == a[i]);
        if a[i] == '/' {
            lemma_segments_shift(a.take(i + 1), a.skip(i + 1) + seq!['/'], 0, 0);
            lemma_segments_trailing(a, i + 1, i + 1);
            assert(s.subrange(start, i) =~= a.subrange(start, i));
        } else {
            lemma_segments_trailing(a, start, i + 1);
        }
    } else {
        assert(s[i] == '/');
        assert(s.subrange(start, i) =~= a.subrange(start, a.len() as int));
        assert(s.subrange(i + 1, s.len() as int) =~= Seq::<char>::empty());
        assert(segments_from(s, i + 1, i + 1) =~= seq![]);
        assert(segments_from(s, start, i) =~= segments_from(a, start, i));
    }
}

/// The components of a relative path joined onto a non-empty one: those of
/// the base, then the names of the relative path.
pub proof fn lemma_join_components(a: Seq<char>, b: Seq<char>)
    requires
        a.len() > 0,
        !is_absolute_spec(b),
    ensures
        components_spec(join_spec(a, b)) == components_spec(a) + segments_from(b, 0, 0),
{
    let a2 = if a.last() == '/' {
        a
    } else {
        a + seq!['/']
    };
    assert(join_spec(a, b) =~= a2 + b);
    assert(segments_from(a2, 0, 0) == segments_from(a, 0, 0)) by {
        if a.last() != '/' {
            lemma_segments_trailing(a, 0, 0);
        }
    }
    lemma_segments_append(a2, b, 0, 0);
    let j = a2 + b;
    assert(j[0] == a[0]);
    assert(is_absolute_spec(j) == is_absolute_spec(a));
    assert(leads_with_cur_dir(j) == leads_with_cur_dir(a)) by {
        if a.len() > 1 {
            assert(j[1] == a[1]);
        } else if a.last() != '/' {
            assert(j[1] == '/');
        }
    }
    assert(components_spec(join_spec(a, b)) =~= components_spec(a) + segments_from(b, 0, 0));
}

/// Law: the worktree path of a branch is the worktrees directory with the
/// branch's names below it: each slash in the branch name is a directory
/// level. (A branch name never starts with `/`; an absolute one would replace
/// the directory.)
pub proof fn law_branch_slashes_are_directories(
    repo_root: Seq<char>,
    cfg: ConfigView,
    branch: Seq<char>,
)
    requires
        !is_absolute_spec(branch),
    ensures
        components_spec(worktree_path_spec(repo_root, cfg, branch)) == components_spec(
            worktrees_dir_spec(repo_root, cfg),
        ) + segments_from(branch, 0, 0),
        path_starts_with_spec(
            worktree_path_spec(repo_root, cfg, branch),
            worktrees_dir_spec(repo_root, cfg),
        ),
{
    let dir = worktrees_dir_spec(repo_root, cfg);
    reveal_strlit(".wtxr/worktrees");
    let rel = if cfg.root_dir.len() == 0 {
        crate::config::DEFAULT_WORKTREES_DIR@
    } else {
        cfg.root_dir
    };
    assert(rel.len() > 0);
    assert(dir.len() > 0) by {
        if !is_absolute_spec(rel) {
            assert(join_spec(repo_root, rel).len() >= rel.len());
        }
    }
    lemma_join_components(dir, branch);
    let c = components_spec(dir);
    assert(c.is_prefix_of(c + segments_from(branch, 0, 0))) by {
        assert(c =~= (c + segments_from(branch, 0, 0)).subrange(0, c.len() as int));
    }
}


/// A name that a path component can be: not empty, no separator, not `.`.
pub open spec fn proper_name(n: Seq<char>) -> bool {
    &&& n.len() > 0
    &&& !n.contains('/')
    &&& n != seq!['.']
}

/// A list of components as paths have them: names, with possibly a root `/`
/// or a `.` first.
pub open spec fn wf_components(cs: Seq<Seq<char>>) -> bool {
    forall|i: int|
        0 <= i < cs.len() ==> proper_name(#[trigger] cs[i]) || (i == 0 && (cs[0] == seq!['/']
            || cs[0] == seq!['.']))
}

/// The names found between separators are proper names.
proof fn lemma_segments_proper(p: Seq<char>, start: int, i: int)
    requires
        0 <= start <= i <= p.len(),
        forall|k: int| start <= k < i ==> p[k] != '/',
    ensures
        forall|j: int|
            0 <= j < segments_from(p, start, i).len() ==> proper_name(
                #[trigger] segments_from(p, start, i)[j],
            ),
    decreases p.len() - i,
{
    if i >= p.len() {
        let seg = p.subrange(start, p.len() as int);
        assert(!seg.contains('/')) by {
            if seg.contains('/') {
                let k = choose|k: int| 0 <= k < seg.len() && seg[k] == '/';
                assert(p[start + k] == '/');
            }
        }
        let all = segments_from(p, start, i);
        assert(all == kept_segment(seg));
        assert forall|j: int| 0 <= j < all.len() implies proper_name(#[trigger] all[j]) by {
            assert(all[j] == seg);
        }
    } else if p[i] == '/' {
        let seg = p.subrange(start, i);
        assert(!seg.contains('/')) by {
            if seg.contains('/') {
                let k = choose|k: int| 0 <= k < seg.len() && seg[k] == '/';
                assert(p[start + k] == '/');
            }
        }
        lemma_segments_proper(p, i + 1, i + 1);
        let rest = segments_from(p, i + 1, i + 1);
        let all = segments_from(p, start, i);
        assert forall|j: int| 0 <= j < all.len() implies proper_name(#[trigger] all[j]) by {
            let kept = kept_segment(seg);
            if j < kept.len() {
                assert(all[j] == seg);
            } else {
                assert(all[j] == rest[j - kept.len()]);
            }
        }
    } else {
        lemma_segments_proper(p, start, i + 1);
        assert(segments_from(p, start, i) == segments_from(p, start, i + 1));
    }
}

/// The components of any path are well formed.
pub proof fn lemma_components_wf(p: Seq<char>)
    ensures
        wf_components(components_spec(p)),
{
    lemma_segments_proper(p, 0, 0);
    let segs = segments_from(p, 0, 0);
    let c = components_spec(p);
    assert forall|i: int| 0 <= i < c.len() implies proper_name(#[trigger] c[i]) || (i == 0 && (
    c[0] == seq!['/'] || c[0] == seq!['.'])) by {
        if is_absolute_spec(p) || leads_with_cur_dir(p) {
            if i > 0 {
                assert(c[i] == segs[i - 1]);
            }
        } else {
            assert(c[i] == segs[i]);
        }
    }
}

/// A proper name alone is its only name.
proof fn lemma_segments_single(x: Seq<char>, i: int)
    requires
        proper_name(x),
        0 <= i <= x.len(),
    ensures
        segments_from(x, 0, i) == seq![x],
    decreases x.len() - i,
{
    if i < x.len() {
        assert(x[i] != '/') by {
            if x[i] == '/' {
                assert(x.contains('/'));
            }
        }
        lemma_segments_single(x, i + 1);
    } else {
        assert(x.subrange(0, x.len() as int) =~= x);
    }
}

/// Names joined after a first name.
proof fn lemma_join_names_front(x: Seq<char>, ns: Seq<Seq<char>>)
    requires
        ns.len() > 0,
    ensures
        join_names(seq![x] + ns) == x + seq!['/'] + join_names(ns),
    decreases ns.len(),
{
    let all = seq![x] + ns;
    assert(all.drop_last() =~= seq![x] + ns.drop_last());
    if ns.len() == 1 {
        assert(seq![x] + ns.drop_last() =~= seq![x]);
        assert(join_names(seq![x]) == x);
        assert(ns =~= seq![ns[0]]);
    } else {
        lemma_join_names_front(x, ns.drop_last());
    }
}

/// Joining proper names and splitting the result gives them back.
proof fn lemma_segments_join(ns: Seq<Seq<char>>)
    requires
        ns.len() > 0,
        forall|i: int| 0 <= i < ns.len() ==> proper_name(#[trigger] ns[i]),
    ensures
        segments_from(join_names(ns), 0, 0) == ns,
    decreases ns.len(),
{
    if ns.len() == 1 {
        lemma_segments_single(ns[0], 0);
        assert(ns =~= seq![ns[0]]);
    } else {
        let init = ns.drop_last();
        assert forall|i: int| 0 <= i < init.len() implies proper_name(#[trigger] init[i]) by {
            assert(init[i] == ns[i]);
        }
        lemma_segments_join(init);
        let j = join_names(init);
        let a = j + seq!['/'];
        assert(proper_name(ns.last())) by {
            assert(ns[ns.len() - 1] == ns.last());
        }
        lemma_segments_append(a, ns.last(), 0, 0);
        lemma_segments_trailing(j, 0, 0);
        lemma_segments_single(ns.last(), 0);
        assert(init.push(ns.last()) =~= ns);
    }
}

/// The names of the text `/`: none.
proof fn lemma_segments_root()
    ensures
        segments_from(seq!['/'], 0, 0) == Seq::<Seq<char>>::empty(),
{
    let r = seq!['/'];
    assert(r.subrange(0, 0) =~= Seq::<char>::empty());
    assert(r.subrange(1, 1) =~= Seq::<char>::empty());
    assert(segments_from(r, 1, 1) == Seq::<Seq<char>>::empty());
}

/// The names of the text `./`: none.
proof fn lemma_segments_cur_dir()
    ensures
        segments_from(seq!['.', '/'], 0, 0) == Seq::<Seq<char>>::empty(),
{
    let r = seq!['.', '/'];
    assert(r.subrange(0, 1) =~= seq!['.']);
    assert(r.subrange(2, 2) =~= Seq::<char>::empty());
    assert(segments_from(r, 2, 2) == Seq::<Seq<char>>::empty());
    assert(segments_from(r, 0, 1) == Seq::<Seq<char>>::empty());
}

/// Writing well-formed components out and reading the path's components
/// gives them back.
pub proof fn lemma_components_render(cs: Seq<Seq<char>>)
    requires
        wf_components(cs),
    ensures
        components_spec(render_spec(cs)) == cs,
{
    if cs.len() == 0 {
        assert(render_spec(cs) =~= Seq::<char>::empty());
        assert(components_spec(Seq::<char>::empty()) =~= cs);
    } else {
        let ns = cs.drop_first();
        assert forall|i: int| 0 <= i < ns.len() implies proper_name(#[trigger] ns[i]) by {
            assert(ns[i] == cs[i + 1]);
        }
        if cs[0] == seq!['/'] {
            let p = render_spec(cs);
            assert(p == seq!['/'] + join_names(ns));
            assert(is_absolute_spec(p));
            if ns.len() == 0 {
                assert(p =~= seq!['/']);
                lemma_segments_root();
                assert(components_spec(p) =~= cs);
            } else {
                lemma_segments_join(ns);
                lemma_segments_append(seq!['/'], join_names(ns), 0, 0);
                lemma_segments_root();
                assert(cs =~= seq![seq!['/']] + ns);
                assert(components_spec(p) =~= cs);
            }
        } else if cs[0] == seq!['.'] {
            let p = render_spec(cs);
            assert(p == join_names(cs));
            if ns.len() == 0 {
                assert(cs =~= seq![seq!['.']]);
                assert(p == seq!['.']);
                assert(leads_with_cur_dir(p));
                assert(p.subrange(0, 1) =~= seq!['.']);
                assert(segments_from(p, 0, 0) == segments_from(p, 0, 1));
                assert(segments_from(p, 0, 1) =~= Seq::<Seq<char>>::empty());
                assert(components_spec(p) =~= cs);
            } else {
                assert(cs =~= seq![seq!['.']] + ns);
                lemma_join_names_front(seq!['.'], ns);
                assert(p =~= seq!['.', '/'] + join_names(ns));
                assert(leads_with_cur_dir(p));
                lemma_segments_join(ns);
                lemma_segments_append(seq!['.', '/'], join_names(ns), 0, 0);
                lemma_segments_cur_dir();
                assert(components_spec(p) =~= cs);
            }
        } else {
            assert forall|i: int| 0 <= i < cs.len() implies proper_name(#[trigger] cs[i]) by {}
            let p = render_spec(cs);
            assert(p == join_names(cs));
            let x = cs[0];
            assert(x[0] != '/') by {
                if x[0] == '/' {
                    assert(x.contains('/'));
                }
            }
            if cs.len() == 1 {
                assert(cs =~= seq![x]);
                assert(p == x);
            } else {
                assert(cs =~= seq![x] + ns);
                lemma_join_names_front(x, ns);
            }
            assert(p[0] == x[0]);
            assert(!leads_with_cur_dir(p)) by {
                if x.len() == 1 {
                    assert(x =~= seq![x[0]]);
                } else {
                    assert(p[1] == x[1]);
                    assert(x[1] != '/') by {
                        if x[1] == '/' {
                            assert(x.contains('/'));
                        }
                    }
                }
            }
            lemma_segments_join(cs);
        }
    }
}

/// Law: every directory that pruning visits lies strictly below the stop
/// directory (so the stop directory itself is never removed) and at or above
/// the directory it starts from.
pub proof fn law_prune_stays_below_stop(dir: Seq<char>, stop: Seq<char>)
    ensures
        forall|i: int|
            #![trigger prune_candidates_spec(dir, stop)[i]]
            0 <= i < prune_candidates_spec(dir, stop).len() ==> {
                let c = prune_candidates_spec(dir, stop)[i];
                &&& path_starts_with_spec(c, stop)
                &&& !path_eq_spec(c, stop)
                &&& path_starts_with_spec(dir, c)
            },
{
    let d = components_spec(dir);
    let s = components_spec(stop);
    lemma_components_wf(dir);
    let cands = prune_candidates_spec(dir, stop);
    assert forall|i: int| #![trigger cands[i]] 0 <= i < cands.len() implies {
        let c = cands[i];
        &&& path_starts_with_spec(c, stop)
        &&& !path_eq_spec(c, stop)
        &&& path_starts_with_spec(dir, c)
    } by {
        let k = d.len() - i;
        let t = d.take(k);
        assert(wf_components(t)) by {
            assert forall|j: int| 0 <= j < t.len() implies proper_name(#[trigger] t[j]) || (j == 0
                && (t[0] == seq!['/'] || t[0] == seq!['.'])) by {
                assert(t[j] == d[j]);
            }
        }
        lemma_components_render(t);
        assert(cands[i] == render_spec(t));
        assert(s.is_prefix_of(t)) by {
            assert(s =~= t.subrange(0, s.len() as int));
        }
        assert(t.is_prefix_of(d)) by {
            assert(t =~= d.subrange(0, t.len() as int));
        }
        assert(t != s) by {
            assert(t.len() != s.len());
        }
    }
}

/// A path written from names that follow a first component: relative, and
/// reading its names gives the same names back.
proof fn lemma_render_tail(t: Seq<Seq<char>>)
    requires
        forall|i: int| 0 <= i < t.len() ==> proper_name(#[trigger] t[i]),
    ensures
        !is_absolute_spec(render_spec(t)),
        segments_from(render_spec(t), 0, 0) == t,
{
    if t.len() == 0 {
        let r = render_spec(t);
        assert(r =~= Seq::<char>::empty());
        assert(segments_from(r, 0, 0) =~= t);
    } else {
        let x = t[0];
        assert(proper_name(x));
        assert(x != seq!['/']) by {
            if x == seq!['/'] {
                assert(x[0] == '/');
                assert(x.contains('/'));
            }
        }
        let r = render_spec(t);
        assert(r == join_names(t));
        if t.len() == 1 {
            assert(t =~= seq![x]);
            assert(r == x);
        } else {
            let ns = t.drop_first();
            assert(t =~= seq![x] + ns);
            lemma_join_names_front(x, ns);
            assert(r[0] == x[0]);
        }
        assert(r[0] == x[0]);
        assert(x[0] != '/') by {
            if x[0] == '/' {
                assert(x.contains('/'));
            }
        }
        lemma_segments_join(t);
    }
}

/// Law: a file that a glob pattern matched under the source root is copied
/// to the same place relative to the destination root: the components of its
/// destination are those of the destination root followed by those that
/// follow the source root in the matched path.
pub proof fn law_glob_copy_keeps_relative_path(
    src_root: Seq<char>,
    dst_root: Seq<char>,
    matched: Seq<char>,
)
    requires
        dst_root.len() > 0,
        components_spec(src_root).len() > 0,
        path_starts_with_spec(matched, src_root),
    ensures
        glob_copy_target_spec(src_root, dst_root, matched) is Some,
        components_spec((glob_copy_target_spec(src_root, dst_root, matched)->0).0) == components_spec(
            dst_root,
        ) + components_spec(matched).skip(components_spec(src_root).len() as int),
{
    let m = components_spec(matched);
    let k = components_spec(src_root).len() as int;
    let t = m.skip(k);
    lemma_components_wf(matched);
    assert forall|i: int| 0 <= i < t.len() implies proper_name(#[trigger] t[i]) by {
        assert(t[i] == m[i + k]);
        assert(wf_components(m));
        assert(proper_name(m[i + k]) || (i + k == 0 && (m[0] == seq!['/'] || m[0] == seq!['.'])));
    }
    lemma_render_tail(t);
    let rel = render_spec(t);
    lemma_join_components(dst_root, rel);
}

/// Law: removing by a branch name that names no existing path targets the
/// worktree that adding that branch created.
pub proof fn law_remove_by_branch_finds_added_worktree(
    repo_root: Seq<char>,
    cfg: ConfigView,
    branch: Seq<char>,
)
    requires
        !is_absolute_spec(branch),
    ensures
        input_worktree_path_spec(repo_root, cfg, branch, None) == worktree_path_spec(
            repo_root,
            cfg,
            branch,
        ),
{
}

/// The path of a file named by two proper names under a non-empty directory
/// has the directory's components followed by the two names.
proof fn lemma_two_names_below(dir: Seq<char>, a: Seq<char>, b: Seq<char>)
    requires
        dir.len() > 0,
        proper_name(a),
        proper_name(b),
    ensures
        components_spec(join_spec(join_spec(dir, a), b)) == components_spec(dir) + seq![a, b],
{
    assert(!is_absolute_spec(a)) by {
        if a[0] == '/' {
            assert(a.contains('/'));
        }
    }
    assert(!is_absolute_spec(b)) by {
        if b[0] == '/' {
            assert(b.contains('/'));
        }
    }
    lemma_join_components(dir, a);
    lemma_segments_single(a, 0);
    let da = join_spec(dir, a);
    assert(da.len() > 0) by {
        assert(da.len() >= a.len());
    }
    lemma_join_components(da, b);
    lemma_segments_single(b, 0);
    assert(components_spec(dir) + seq![a] + seq![b] =~= components_spec(dir) + seq![a, b]);
}

/// Law: the global config file lies in the `wtxr` directory right inside the
/// user's config directory and is named `config.toml`; the local one lies in
/// the `.wtxr` directory right inside the repository root, with the same name.
pub proof fn law_config_files_place(config_dir: Seq<char>, repo_root: Seq<char>)
    requires
        config_dir.len() > 0,
        repo_root.len() > 0,
    ensures
        components_spec(global_config_file_spec(config_dir)) == components_spec(config_dir) + seq![
            seq!['w', 't', 'x', 'r'],
            seq!['c', 'o', 'n', 'f', 'i', 'g', '.', 't', 'o', 'm', 'l'],
        ],
        components_spec(local_config_file_spec(repo_root)) == components_spec(repo_root) + seq![
            seq!['.', 'w', 't', 'x', 'r'],
            seq!['c', 'o', 'n', 'f', 'i', 'g', '.', 't', 'o', 'm', 'l'],
        ],
{
    reveal_strlit("wtxr");
    reveal_strlit(".wtxr");
    reveal_strlit("config.toml");
    let w = "wtxr"@;
    let lw = ".wtxr"@;
    let c = "config.toml"@;
    assert(w =~= seq!['w', 't', 'x', 'r']);
    assert(lw =~= seq!['.', 'w', 't', 'x', 'r']);
    assert(c =~= seq!['c', 'o', 'n', 'f', 'i', 'g', '.', 't', 'o', 'm', 'l']);
    assert(!w.contains('/'));
    assert(!lw.contains('/'));
    assert(!c.contains('/'));
    assert(w != seq!['.']) by {
        assert(w.len() != 1);
    }
    assert(lw != seq!['.']) by {
        assert(lw.len() != 1);
    }
    assert(c != seq!['.']) by {
        assert(c.len() != 1);
    }
    lemma_two_names_below(config_dir, w, c);
    lemma_two_names_below(repo_root, lw, c);
}

} // verus!
