use vstd::prelude::*;

use crate::config::{
    copy_file_views, empty_config, Config, ConfigView, CopyConfig, CopyFile, CopyFileView,
    HooksConfig, WorktreeConfig,
};
use crate::text::{str_equal, string_views};

verus! {

/// The local value of a string setting unless it is empty; then the global one.
pub open spec fn merge_string_spec(global: Seq<char>, local: Seq<char>) -> Seq<char> {
    if local.len() == 0 {
        global
    } else {
        local
    }
}

/// `acc` extended, in order, by each of `items` that it does not hold yet.
pub open spec fn dedup_extend(acc: Seq<Seq<char>>, items: Seq<Seq<char>>) -> Seq<Seq<char>>
    decreases items.len(),
{
    if items.len() == 0 {
        acc
    } else {
        let next = if acc.contains(items[0]) {
            acc
        } else {
            acc.push(items[0])
        };
        dedup_extend(next, items.drop_first())
    }
}

/// A list setting of both files: the items of the global list and then of
/// the local list, each kept at its first occurrence only.
pub open spec fn merge_dedup_spec(global: Seq<Seq<char>>, local: Seq<Seq<char>>) -> Seq<Seq<char>> {
    dedup_extend(seq![], global + local)
}

/// Some mapping in `files` copies from `from`.
pub open spec fn has_from(files: Seq<CopyFileView>, from: Seq<char>) -> bool {
    exists|j: int| 0 <= j < files.len() && #[trigger] files[j].from == from
}

/// No two mappings of `files` copy from the same source.
pub open spec fn sources_distinct(files: Seq<CopyFileView>) -> bool {
    forall|a: int, b: int| 0 <= a < b < files.len() ==> #[trigger] files[a].from != #[trigger] files[b].from
}

/// The mapping at `j` is the first in `files` with its source.
pub open spec fn first_of_source(files: Seq<CopyFileView>, j: int) -> bool {
    forall|k: int| 0 <= k < j ==> #[trigger] files[k].from != files[j].from
}

/// `acc` extended, in order, by each of `items` whose source it has no
/// mapping for yet.
pub open spec fn dedup_by_source(acc: Seq<CopyFileView>, items: Seq<CopyFileView>) -> Seq<
    CopyFileView,
>
    decreases items.len(),
{
    if items.len() == 0 {
        acc
    } else {
        let next = if has_from(acc, items[0].from) {
            acc
        } else {
            acc.push(items[0])
        };
        dedup_by_source(next, items.drop_first())
    }
}

/// File mappings of both files, keyed by their source: for each source, the
/// first local mapping from it if there is one, else the first global one;
/// local sources first, in the order of the files.
pub open spec fn merge_copy_files_spec(global: Seq<CopyFileView>, local: Seq<CopyFileView>) -> Seq<
    CopyFileView,
> {
    dedup_by_source(seq![], local + global)
}

/// The global and the local configuration merged: strings from the local file
/// unless empty there, lists of both files without repeating an item, file
/// mappings keyed by their source with the local one winning.
pub open spec fn merge_both(g: ConfigView, l: ConfigView) -> ConfigView {
    ConfigView {
        root_dir: merge_string_spec(g.root_dir, l.root_dir),
        default_base_branch: merge_string_spec(g.default_base_branch, l.default_base_branch),
        patterns: merge_dedup_spec(g.patterns, l.patterns),
        files: merge_copy_files_spec(g.files, l.files),
        pre_create: merge_dedup_spec(g.pre_create, l.pre_create),
        post_create: merge_dedup_spec(g.post_create, l.post_create),
        post_copy: merge_dedup_spec(g.post_copy, l.post_copy),
    }
}

/// The configuration of the files that were found: none gives the empty
/// configuration, one gives itself, both are merged.
pub open spec fn merge_config_spec(global: Option<ConfigView>, local: Option<ConfigView>) -> ConfigView {
    match (global, local) {
        (None, None) => empty_config(),
        (Some(g), None) => g,
        (None, Some(l)) => l,
        (Some(g), Some(l)) => merge_both(g, l),
    }
}

/// The view of an optional configuration.
pub open spec fn opt_config_view(c: Option<Config>) -> Option<ConfigView> {
    match c {
        Some(c) => Some(c@),
        None => None,
    }
}

/// The local value of a string setting unless it is empty; then the global one.
pub fn merge_string(global: String, local: String) -> (r: String)
    ensures
        r@ == merge_string_spec(global@, local@),
{
    if local.unicode_len() == 0 {
        global
    } else {
        local
    }
}

/// Whether `v` holds a string equal to `s`.
fn contains_string(v: &Vec<String>, s: &str) -> (r: bool)
    ensures
        r == string_views(v@).contains(s@),
{
    let mut i: usize = 0;
    while i < v.len()
        invariant
            i <= v.len(),
            forall|j: int| 0 <= j < i ==> v@[j]@ != s@,
        decreases v.len() - i,
    {
        if str_equal(v[i].as_str(), s) {
            assert(string_views(v@)[i as int] == s@);
            return true;
        }
        i += 1;
    }
    assert(!string_views(v@).contains(s@)) by {
        if string_views(v@).contains(s@) {
            let j = choose|j: int| 0 <= j < string_views(v@).len() && string_views(v@)[j] == s@;
            assert(v@[j]@ == s@);
        }
    }
    false
}

/// Appends, in order, each of `items` that `result` does not hold yet.
fn extend_unique(result: &mut Vec<String>, items: &Vec<String>)
    ensures
        string_views(final(result)@) == dedup_extend(string_views(old(result)@), string_views(items@)),
{
    let ghost iv = string_views(items@);
    let ghost target = dedup_extend(string_views(result@), iv);
    let mut i: usize = 0;
    assert(iv.skip(0) =~= iv);
    while i < items.len()
        invariant
            iv == string_views(items@),
            i <= items.len(),
            dedup_extend(string_views(result@), iv.skip(i as int)) == target,
        decreases items.len() - i,
    {
        assert(iv.skip(i as int)[0] == items@[i as int]@);
        assert(iv.skip(i as int).drop_first() =~= iv.skip(i + 1));
        let ghost before = string_views(result@);
        if !contains_string(&*result, items[i].as_str()) {
            result.push(items[i].clone());
            assert(string_views(result@) =~= before.push(iv[i as int]));
        }
        i += 1;
    }
    assert(iv.skip(items.len() as int) =~= seq![]);
}

/// The items of the global list and then of the local list, each kept at its
/// first occurrence only.
pub fn merge_dedup(global: Vec<String>, local: Vec<String>) -> (r: Vec<String>)
    ensures
        string_views(r@) == merge_dedup_spec(string_views(global@), string_views(local@)),
{
    let mut result: Vec<String> = Vec::new();
    assert(string_views(result@) =~= seq![]);
    extend_unique(&mut result, &global);
    extend_unique(&mut result, &local);
    proof {
        lemma_dedup_extend_concat(seq![], string_views(global@), string_views(local@));
    }
    result
}

/// Whether a mapping in `files` copies from `from`.
fn any_from(files: &Vec<CopyFile>, from: &str) -> (r: bool)
    ensures
        r == has_from(copy_file_views(files@), from@),
{
    let ghost fv = copy_file_views(files@);
    let mut i: usize = 0;
    while i < files.len()
        invariant
            fv == copy_file_views(files@),
            i <= files.len(),
            forall|j: int| 0 <= j < i ==> files@[j].from@ != from@,
        decreases files.len() - i,
    {
        if str_equal(files[i].from.as_str(), from) {
            assert(fv[i as int].from == from@);
            return true;
        }
        i += 1;
    }
    assert(!has_from(fv, from@)) by {
        if has_from(fv, from@) {
            let j = choose|j: int| 0 <= j < fv.len() && #[trigger] fv[j].from == from@;
            assert(files@[j].from@ == from@);
        }
    }
    false
}

/// A copy of a file mapping.
fn copy_of(f: &CopyFile) -> (r: CopyFile)
    ensures
        r@ == f@,
{
    CopyFile { from: f.from.clone(), to: f.to.clone() }
}

/// Appends, in order, each of `items` whose source `result` has no mapping
/// for yet.
fn extend_by_source(result: &mut Vec<CopyFile>, items: &Vec<CopyFile>)
    ensures
        copy_file_views(final(result)@) == dedup_by_source(
            copy_file_views(old(result)@),
            copy_file_views(items@),
        ),
{
    let ghost iv = copy_file_views(items@);
    let ghost target = dedup_by_source(copy_file_views(result@), iv);
    let mut i: usize = 0;
    assert(iv.skip(0) =~= iv);
    while i < items.len()
        invariant
            iv == copy_file_views(items@),
            i <= items.len(),
            dedup_by_source(copy_file_views(result@), iv.skip(i as int)) == target,
        decreases items.len() - i,
    {
        assert(iv.skip(i as int)[0] == items@[i as int]@);
        assert(iv.skip(i as int).drop_first() =~= iv.skip(i + 1));
        let ghost before = copy_file_views(result@);
        if !any_from(&*result, items[i].from.as_str()) {
            result.push(copy_of(&items[i]));
            assert(copy_file_views(result@) =~= before.push(iv[i as int]));
        }
        i += 1;
    }
    assert(iv.skip(items.len() as int) =~= seq![]);
}

/// File mappings keyed by their source: for each source, the first local
/// mapping from it if there is one, else the first global one.
pub fn merge_copy_files(global: Vec<CopyFile>, local: Vec<CopyFile>) -> (r: Vec<CopyFile>)
    ensures
        copy_file_views(r@) == merge_copy_files_spec(copy_file_views(global@), copy_file_views(local@)),
{
    let mut result: Vec<CopyFile> = Vec::new();
    assert(copy_file_views(result@) =~= seq![]);
    extend_by_source(&mut result, &local);
    extend_by_source(&mut result, &global);
    proof {
        lemma_dedup_by_source_concat(seq![], copy_file_views(local@), copy_file_views(global@));
    }
    result
}

/// Merges the global and the local configuration (either may be missing):
/// none gives the empty configuration, one gives itself; with both, a string
/// comes from the local file unless it is empty there, a list holds each
/// item of the global and then the local list once, at its first occurrence,
/// and file mappings are keyed by their source with the local mapping winning.
pub fn merge_config(global: Option<Config>, local: Option<Config>) -> (r: Config)
    ensures
        r@ == merge_config_spec(opt_config_view(global), opt_config_view(local)),
{
    match (global, local) {
        (None, None) => Config::default(),
        (Some(g), None) => g,
        (None, Some(l)) => l,
        (Some(g), Some(l)) => {
            let ghost gv = g@;
            let ghost lv = l@;
            let r = Config {
                worktree: WorktreeConfig {
                    root_dir: merge_string(g.worktree.root_dir, l.worktree.root_dir),
                    default_base_branch: merge_string(
                        g.worktree.default_base_branch,
                        l.worktree.default_base_branch,
                    ),
                },
                copy: CopyConfig {
                    patterns: merge_dedup(g.copy.patterns, l.copy.patterns),
                    files: merge_copy_files(g.copy.files, l.copy.files),
                },
                hooks: HooksConfig {
                    pre_create: merge_dedup(g.hooks.pre_create, l.hooks.pre_create),
                    post_create: merge_dedup(g.hooks.post_create, l.hooks.post_create),
                    post_copy: merge_dedup(g.hooks.post_copy, l.hooks.post_copy),
                },
            };
            assert(r@ =~= merge_both(gv, lv));
            r
        },
    }
}


/// What extending a list by new items does: the list stays in front, the
/// result holds exactly the items of both, repeats nothing that the list did
/// not repeat, and is the list itself when every item is already there.
proof fn lemma_dedup_extend(acc: Seq<Seq<char>>, items: Seq<Seq<char>>)
    ensures
        acc.is_prefix_of(dedup_extend(acc, items)),
        forall|x: Seq<char>| #[trigger]
            dedup_extend(acc, items).contains(x) <==> acc.contains(x) || items.contains(x),
        acc.no_duplicates() ==> dedup_extend(acc, items).no_duplicates(),
        (forall|x: Seq<char>| items.contains(x) ==> acc.contains(x)) ==> dedup_extend(acc, items)
            == acc,
    decreases items.len(),
{
    if items.len() > 0 {
        let first = items[0];
        let rest = items.drop_first();
        let next = if acc.contains(first) {
            acc
        } else {
            acc.push(first)
        };
        lemma_dedup_extend(next, rest);
        let r = dedup_extend(acc, items);
        assert(r == dedup_extend(next, rest));
        assert(acc.is_prefix_of(next)) by {
            assert(acc =~= next.subrange(0, acc.len() as int));
        }
        assert(acc.is_prefix_of(r)) by {
            assert(acc =~= r.subrange(0, acc.len() as int)) by {
                assert forall|k: int| 0 <= k < acc.len() implies acc[k] == r[k] by {
                    assert(next[k] == acc[k]);
                    assert(next =~= r.subrange(0, next.len() as int));
                    assert(r.subrange(0, next.len() as int)[k] == r[k]);
                }
            }
        }
        assert forall|x: Seq<char>| #[trigger]
            r.contains(x) <==> acc.contains(x) || items.contains(x) by {
            assert(next.contains(x) <==> acc.contains(x) || x == first) by {
                if !acc.contains(first) {
                    if next.contains(x) && x != first {
                        let k = choose|k: int| 0 <= k < next.len() && next[k] == x;
                        assert(acc[k] == x);
                    }
                    if acc.contains(x) {
                        let k = choose|k: int| 0 <= k < acc.len() && acc[k] == x;
                        assert(next[k] == x);
                    }
                    if x == first {
                        assert(next[acc.len() as int] == x);
                    }
                }
            }
            assert(items.contains(x) <==> x == first || rest.contains(x)) by {
                if items.contains(x) && x != first {
                    let k = choose|k: int| 0 <= k < items.len() && items[k] == x;
                    assert(rest[k - 1] == x);
                }
                if rest.contains(x) {
                    let k = choose|k: int| 0 <= k < rest.len() && rest[k] == x;
                    assert(items[k + 1] == x);
                }
                if x == first {
                    assert(items[0] == x);
                }
            }
        }
        if acc.no_duplicates() {
            assert(next.no_duplicates()) by {
                if !acc.contains(first) {
                    assert forall|a: int, b: int|
                        0 <= a < next.len() && 0 <= b < next.len() && a != b implies next[a]
                        != next[b] by {
                        if a == acc.len() && b < acc.len() {
                            assert(acc[b] == next[b]);
                        } else if b == acc.len() && a < acc.len() {
                            assert(acc[a] == next[a]);
                        }
                    }
                }
            }
        }
        if forall|x: Seq<char>| items.contains(x) ==> acc.contains(x) {
            assert(items.contains(first));
            assert(next == acc);
            assert forall|x: Seq<char>| rest.contains(x) implies next.contains(x) by {
                let k = choose|k: int| 0 <= k < rest.len() && rest[k] == x;
                assert(items[k + 1] == x);
                assert(items.contains(x));
            }
        }
    }
}

/// Extending by two lists one after the other is extending by both.
proof fn lemma_dedup_extend_concat(acc: Seq<Seq<char>>, a: Seq<Seq<char>>, b: Seq<Seq<char>>)
    ensures
        dedup_extend(acc, a + b) == dedup_extend(dedup_extend(acc, a), b),
    decreases a.len(),
{
    if a.len() == 0 {
        assert(a + b =~= b);
    } else {
        assert((a + b)[0] == a[0]);
        assert((a + b).drop_first() =~= a.drop_first() + b);
        let next = if acc.contains(a[0]) {
            acc
        } else {
            acc.push(a[0])
        };
        lemma_dedup_extend_concat(next, a.drop_first(), b);
    }
}

/// An item is in `a + b` exactly when it is in `a` or in `b`.
proof fn lemma_concat_contains<A>(a: Seq<A>, b: Seq<A>)
    ensures
        forall|x: A| #[trigger] (a + b).contains(x) <==> a.contains(x) || b.contains(x),
{
    assert forall|x: A| #[trigger] (a + b).contains(x) <==> a.contains(x) || b.contains(x) by {
        if (a + b).contains(x) {
            let k = choose|k: int| 0 <= k < (a + b).len() && (a + b)[k] == x;
            if k < a.len() {
                assert(a[k] == x);
            } else {
                assert(b[k - a.len()] == x);
            }
        }
        if a.contains(x) {
            let k = choose|k: int| 0 <= k < a.len() && a[k] == x;
            assert((a + b)[k] == x);
        }
        if b.contains(x) {
            let k = choose|k: int| 0 <= k < b.len() && b[k] == x;
            assert((a + b)[a.len() + k] == x);
        }
    }
}

/// Law: a merged list begins with the global list's items, each at its first
/// occurrence, in the global list's order.
pub proof fn law_merge_dedup_global_first(global: Seq<Seq<char>>, local: Seq<Seq<char>>)
    ensures
        dedup_extend(seq![], global).is_prefix_of(merge_dedup_spec(global, local)),
{
    lemma_dedup_extend_concat(seq![], global, local);
    lemma_dedup_extend(dedup_extend(seq![], global), local);
}

/// Law: a merged list holds exactly the items of the global and of the local
/// list.
pub proof fn law_merge_dedup_contents(global: Seq<Seq<char>>, local: Seq<Seq<char>>)
    ensures
        forall|x: Seq<char>| #[trigger]
            merge_dedup_spec(global, local).contains(x) <==> global.contains(x) || local.contains(x),
{
    lemma_dedup_extend(seq![], global + local);
    lemma_concat_contains(global, local);
    assert forall|x: Seq<char>| #[trigger]
        merge_dedup_spec(global, local).contains(x) <==> global.contains(x) || local.contains(x) by {
        assert((global + local).contains(x) <==> global.contains(x) || local.contains(x));
    }
}

/// Law: a merged list repeats no item.
pub proof fn law_merge_dedup_no_duplicates(global: Seq<Seq<char>>, local: Seq<Seq<char>>)
    ensures
        merge_dedup_spec(global, local).no_duplicates(),
{
    lemma_dedup_extend(seq![], global + local);
}

/// What extending by sources does: `acc` stays in front; the sources are
/// those of `acc` and of `items`; no source repeats that did not repeat in
/// `acc`; each mapping added is the first in `items` with its source, which
/// `acc` has no mapping for; and nothing is added when `acc` has every source.
#[verifier::spinoff_prover]
proof fn lemma_dedup_by_source(acc: Seq<CopyFileView>, items: Seq<CopyFileView>)
    ensures
        acc.is_prefix_of(dedup_by_source(acc, items)),
        forall|f: Seq<char>| #[trigger]
            has_from(dedup_by_source(acc, items), f) <==> has_from(acc, f) || has_from(items, f),
        sources_distinct(acc) ==> sources_distinct(dedup_by_source(acc, items)),
        forall|i: int|
            acc.len() <= i < dedup_by_source(acc, items).len() ==> !has_from(
                acc,
                #[trigger] dedup_by_source(acc, items)[i].from,
            ) && exists|j: int|
                0 <= j < items.len() && items[j] == dedup_by_source(acc, items)[i]
                    && first_of_source(items, j),
        (forall|j: int| 0 <= j < items.len() ==> has_from(acc, #[trigger] items[j].from))
            ==> dedup_by_source(acc, items) == acc,
    decreases items.len(),
{
    let r = dedup_by_source(acc, items);
    if items.len() == 0 {
        assert(acc.is_prefix_of(r)) by {
            assert(acc =~= r.subrange(0, acc.len() as int));
        }
        assert forall|f: Seq<char>| #[trigger] has_from(r, f) <==> has_from(acc, f) || has_from(
            items,
            f,
        ) by {
            if has_from(items, f) {
                let j = choose|j: int| 0 <= j < items.len() && #[trigger] items[j].from == f;
            }
        }
    } else {
        let first = items[0];
        let rest = items.drop_first();
        let fresh = !has_from(acc, first.from);
        let next = if fresh {
            acc.push(first)
        } else {
            acc
        };
        lemma_dedup_by_source(next, rest);
        assert(r == dedup_by_source(next, rest));
        assert(acc.is_prefix_of(next)) by {
            assert(acc =~= next.subrange(0, acc.len() as int));
        }
        assert(acc.is_prefix_of(r)) by {
            assert forall|k: int| 0 <= k < acc.len() implies acc[k] == r[k] by {
                assert(next[k] == acc[k]);
                assert(next =~= r.subrange(0, next.len() as int));
                assert(r.subrange(0, next.len() as int)[k] == r[k]);
            }
            assert(acc =~= r.subrange(0, acc.len() as int));
        }
        assert forall|f: Seq<char>| has_from(next, f) <==> has_from(acc, f) || (fresh
            && first.from == f) by {
            if fresh {
                if has_from(next, f) {
                    let k = choose|k: int| 0 <= k < next.len() && #[trigger] next[k].from == f;
                    if k < acc.len() {
                        assert(acc[k].from == f);
                    }
                }
                if has_from(acc, f) {
                    let k = choose|k: int| 0 <= k < acc.len() && #[trigger] acc[k].from == f;
                    assert(next[k].from == f);
                }
                if first.from == f {
                    assert(next[acc.len() as int].from == f);
                }
            }
        }
        assert forall|f: Seq<char>| has_from(items, f) <==> first.from == f || has_from(rest, f) by {
            if has_from(items, f) {
                let k = choose|k: int| 0 <= k < items.len() && #[trigger] items[k].from == f;
                if k > 0 {
                    assert(rest[k - 1].from == f);
                }
            }
            if has_from(rest, f) {
                let k = choose|k: int| 0 <= k < rest.len() && #[trigger] rest[k].from == f;
                assert(items[k + 1].from == f);
            }
            if first.from == f {
                assert(items[0].from == f);
            }
        }
        assert forall|f: Seq<char>| #[trigger] has_from(r, f) <==> has_from(acc, f) || has_from(
            items,
            f,
        ) by {
            assert(has_from(r, f) <==> has_from(next, f) || has_from(rest, f));
            assert(has_from(next, f) <==> has_from(acc, f) || (fresh && first.from == f));
            assert(has_from(items, f) <==> first.from == f || has_from(rest, f));
        }
        if sources_distinct(acc) {
            assert(sources_distinct(next)) by {
                if fresh {
                    assert forall|a: int, b: int| 0 <= a < b < next.len() implies #[trigger] next[a].from
                        != #[trigger] next[b].from by {
                        if b == acc.len() {
                            assert(next[a] == acc[a]);
                            if acc[a].from == first.from {
                                assert(has_from(acc, first.from));
                            }
                        } else {
                            assert(next[a] == acc[a]);
                            assert(next[b] == acc[b]);
                        }
                    }
                }
            }
        }
        assert forall|i: int| acc.len() <= i < r.len() implies !has_from(acc, #[trigger] r[i].from)
            && exists|j: int| 0 <= j < items.len() && items[j] == r[i] && first_of_source(items, j) by {
            if i < next.len() {
                assert(fresh && i == acc.len());
                assert(r[i] == next[i]);
                assert(next[i] == first);
                assert(items[0] == r[i] && first_of_source(items, 0));
            } else {
                assert(!has_from(next, r[i].from));
                assert(!has_from(acc, r[i].from)) by {
                    if has_from(acc, r[i].from) {
                        assert(has_from(next, r[i].from));
                    }
                }
                let j2 = choose|j: int|
                    0 <= j < rest.len() && rest[j] == r[i] && first_of_source(rest, j);
                assert(first.from != r[i].from) by {
                    if first.from == r[i].from {
                        if fresh {
                            assert(next[acc.len() as int].from == r[i].from);
                        }
                        assert(has_from(next, r[i].from));
                    }
                }
                assert(items[j2 + 1] == r[i]);
                assert(first_of_source(items, j2 + 1)) by {
                    assert forall|k: int| 0 <= k < j2 + 1 implies #[trigger] items[k].from
                        != items[j2 + 1].from by {
                        if k > 0 {
                            assert(items[k] == rest[k - 1]);
                        }
                    }
                }
            }
        }
        if forall|j: int| 0 <= j < items.len() ==> has_from(acc, #[trigger] items[j].from) {
            assert(has_from(acc, items[0].from));
            assert(next == acc);
            assert forall|j: int| 0 <= j < rest.len() implies has_from(next, #[trigger] rest[j].from) by {
                assert(items[j + 1] == rest[j]);
            }
        }
    }
}

/// Extending by sources from two lists one after the other is extending by
/// both.
proof fn lemma_dedup_by_source_concat(acc: Seq<CopyFileView>, a: Seq<CopyFileView>, b: Seq<CopyFileView>)
    ensures
        dedup_by_source(acc, a + b) == dedup_by_source(dedup_by_source(acc, a), b),
    decreases a.len(),
{
    if a.len() == 0 {
        assert(a + b =~= b);
    } else {
        assert((a + b)[0] == a[0]);
        assert((a + b).drop_first() =~= a.drop_first() + b);
        let next = if has_from(acc, a[0].from) {
            acc
        } else {
            acc.push(a[0])
        };
        lemma_dedup_by_source_concat(next, a.drop_first(), b);
    }
}

/// Extending by mappings whose sources are distinct and new appends them all.
proof fn lemma_dedup_by_source_fresh(acc: Seq<CopyFileView>, items: Seq<CopyFileView>)
    requires
        sources_distinct(acc + items),
    ensures
        dedup_by_source(acc, items) == acc + items,
    decreases items.len(),
{
    if items.len() > 0 {
        let first = items[0];
        let all = acc + items;
        assert(!has_from(acc, first.from)) by {
            if has_from(acc, first.from) {
                let k = choose|k: int| 0 <= k < acc.len() && #[trigger] acc[k].from == first.from;
                assert(all[k].from == all[acc.len() as int].from);
            }
        }
        assert(acc.push(first) + items.drop_first() =~= all);
        lemma_dedup_by_source_fresh(acc.push(first), items.drop_first());
    } else {
        assert(acc + items =~= acc);
    }
}

/// Law: merged file mappings are keyed by their source, the local mapping
/// winning: no two share a source; their sources are those of both files;
/// each comes from one of the files; and where the local file has a mapping
/// from a source, the merged mapping from it is a local one.
pub proof fn law_merge_copy_files_local_wins(global: Seq<CopyFileView>, local: Seq<CopyFileView>)
    ensures
        sources_distinct(merge_copy_files_spec(global, local)),
        forall|f: Seq<char>| #[trigger]
            has_from(merge_copy_files_spec(global, local), f) <==> has_from(local, f) || has_from(
                global,
                f,
            ),
        forall|i: int|
            0 <= i < merge_copy_files_spec(global, local).len() ==> local.contains(
                #[trigger] merge_copy_files_spec(global, local)[i],
            ) || global.contains(merge_copy_files_spec(global, local)[i]),
        forall|i: int|
            0 <= i < merge_copy_files_spec(global, local).len() && has_from(
                local,
                #[trigger] merge_copy_files_spec(global, local)[i].from,
            ) ==> local.contains(merge_copy_files_spec(global, local)[i]),
{
    let all = local + global;
    let m = merge_copy_files_spec(global, local);
    lemma_dedup_by_source(seq![], all);
    assert forall|f: Seq<char>| #[trigger] has_from(m, f) <==> has_from(local, f) || has_from(global, f) by {
        assert(has_from(m, f) <==> has_from(Seq::<CopyFileView>::empty(), f) || has_from(all, f));
        if has_from(all, f) {
            let k = choose|k: int| 0 <= k < all.len() && #[trigger] all[k].from == f;
            if k < local.len() {
                assert(local[k].from == f);
            } else {
                assert(global[k - local.len()].from == f);
            }
        }
        if has_from(local, f) {
            let k = choose|k: int| 0 <= k < local.len() && #[trigger] local[k].from == f;
            assert(all[k].from == f);
        }
        if has_from(global, f) {
            let k = choose|k: int| 0 <= k < global.len() && #[trigger] global[k].from == f;
            assert(all[local.len() + k].from == f);
        }
    }
    assert forall|i: int| 0 <= i < m.len() implies local.contains(#[trigger] m[i]) || global.contains(m[i])
        && (has_from(local, m[i].from) ==> local.contains(m[i])) by {
        assert(m == dedup_by_source(Seq::<CopyFileView>::empty(), all));
        assert(!has_from(Seq::<CopyFileView>::empty(), m[i].from));
        let j = choose|j: int| 0 <= j < all.len() && all[j] == m[i] && first_of_source(all, j);
        if j < local.len() {
            assert(local[j] == m[i]);
        } else {
            assert(global[j - local.len()] == m[i]);
            if has_from(local, m[i].from) {
                let t = choose|t: int| 0 <= t < local.len() && #[trigger] local[t].from == m[i].from;
                assert(all[t].from == all[j].from);
            }
        }
    }
    assert forall|i: int| 0 <= i < m.len() && has_from(local, #[trigger] m[i].from) implies local.contains(
        m[i],
    ) by {
        assert(m == dedup_by_source(Seq::<CopyFileView>::empty(), all));
        assert(!has_from(Seq::<CopyFileView>::empty(), m[i].from));
        let j = choose|j: int| 0 <= j < all.len() && all[j] == m[i] && first_of_source(all, j);
        let t = choose|t: int| 0 <= t < local.len() && #[trigger] local[t].from == m[i].from;
        assert(all[t].from == all[j].from);
        assert(local[j] == m[i]);
    }
}

/// Merging a list without repetitions with itself gives it back.
proof fn lemma_merge_dedup_self(items: Seq<Seq<char>>)
    requires
        items.no_duplicates(),
    ensures
        merge_dedup_spec(items, items) == items,
{
    lemma_dedup_extend_concat(seq![], items, items);
    lemma_dedup_from_empty(items);
    lemma_dedup_extend(items, items);
}

/// Merging mappings with distinct sources with themselves gives them back.
proof fn lemma_merge_copy_files_self(files: Seq<CopyFileView>)
    requires
        sources_distinct(files),
    ensures
        merge_copy_files_spec(files, files) == files,
{
    lemma_dedup_by_source_concat(seq![], files, files);
    assert(Seq::<CopyFileView>::empty() + files =~= files);
    lemma_dedup_by_source_fresh(seq![], files);
    lemma_dedup_by_source(files, files);
    assert forall|j: int| 0 <= j < files.len() implies has_from(files, #[trigger] files[j].from) by {}
}

/// Merging mappings with distinct sources with none gives them back.
proof fn lemma_merge_copy_files_alone(files: Seq<CopyFileView>)
    requires
        sources_distinct(files),
    ensures
        merge_copy_files_spec(Seq::<CopyFileView>::empty(), files) == files,
        merge_copy_files_spec(files, Seq::<CopyFileView>::empty()) == files,
{
    assert(Seq::<CopyFileView>::empty() + files =~= files);
    assert(files + Seq::<CopyFileView>::empty() =~= files);
    lemma_dedup_by_source_fresh(seq![], files);
}

/// Merging a list without repetitions with an empty one gives it back.
proof fn lemma_merge_dedup_alone(items: Seq<Seq<char>>)
    requires
        items.no_duplicates(),
    ensures
        merge_dedup_spec(Seq::<Seq<char>>::empty(), items) == items,
        merge_dedup_spec(items, Seq::<Seq<char>>::empty()) == items,
{
    assert(Seq::<Seq<char>>::empty() + items =~= items);
    assert(items + Seq::<Seq<char>>::empty() =~= items);
    lemma_dedup_from_empty(items);
}

/// A configuration whose lists repeat no item and whose file mappings have
/// distinct sources.
pub open spec fn config_without_repeats(c: ConfigView) -> bool {
    &&& c.patterns.no_duplicates()
    &&& sources_distinct(c.files)
    &&& c.pre_create.no_duplicates()
    &&& c.post_create.no_duplicates()
    &&& c.post_copy.no_duplicates()
}

/// Law: merging a configuration with itself gives it back, as long as it
/// repeats nothing (a merge removes repetitions).
pub proof fn law_merge_config_idempotent(c: ConfigView)
    requires
        config_without_repeats(c),
    ensures
        merge_config_spec(Some(c), Some(c)) == c,
{
    lemma_merge_dedup_self(c.patterns);
    lemma_merge_dedup_self(c.pre_create);
    lemma_merge_dedup_self(c.post_create);
    lemma_merge_dedup_self(c.post_copy);
    lemma_merge_copy_files_self(c.files);
    assert(merge_config_spec(Some(c), Some(c)) =~= c);
}

/// Law: a local configuration that sets nothing leaves the global one as it
/// is, as long as that repeats nothing.
pub proof fn law_merge_config_empty_local(global: ConfigView)
    requires
        config_without_repeats(global),
    ensures
        merge_config_spec(Some(global), Some(empty_config())) == global,
{
    lemma_merge_dedup_alone(global.patterns);
    lemma_merge_dedup_alone(global.pre_create);
    lemma_merge_dedup_alone(global.post_create);
    lemma_merge_dedup_alone(global.post_copy);
    lemma_merge_copy_files_alone(global.files);
    assert(merge_config_spec(Some(global), Some(empty_config())) =~= global);
}

/// Law: a global configuration that sets nothing leaves the local one as it
/// is, as long as that repeats nothing.
pub proof fn law_merge_config_empty_global(local: ConfigView)
    requires
        config_without_repeats(local),
    ensures
        merge_config_spec(Some(empty_config()), Some(local)) == local,
{
    lemma_merge_dedup_alone(local.patterns);
    lemma_merge_dedup_alone(local.pre_create);
    lemma_merge_dedup_alone(local.post_create);
    lemma_merge_dedup_alone(local.post_copy);
    lemma_merge_copy_files_alone(local.files);
    assert(merge_config_spec(Some(empty_config()), Some(local)) =~= local);
}

/// Extending a list of distinct items by items that are not there yet
/// appends them all.
proof fn lemma_dedup_extend_fresh(acc: Seq<Seq<char>>, items: Seq<Seq<char>>)
    requires
        (acc + items).no_duplicates(),
    ensures
        dedup_extend(acc, items) == acc + items,
    decreases items.len(),
{
    if items.len() > 0 {
        let first = items[0];
        assert(!acc.contains(first)) by {
            if acc.contains(first) {
                let k = choose|k: int| 0 <= k < acc.len() && acc[k] == first;
                assert((acc + items)[k] == (acc + items)[acc.len() as int]);
            }
        }
        assert(acc.push(first) + items.drop_first() =~= acc + items);
        lemma_dedup_extend_fresh(acc.push(first), items.drop_first());
    }
}

/// Extending the empty list by distinct items gives them back.
proof fn lemma_dedup_from_empty(items: Seq<Seq<char>>)
    requires
        items.no_duplicates(),
    ensures
        dedup_extend(seq![], items) == items,
{
    assert(Seq::<Seq<char>>::empty() + items =~= items);
    lemma_dedup_extend_fresh(seq![], items);
}

/// A list setting merged from both files holds exactly the items of the two
/// lists, repeats none, and, when the global list repeats nothing, begins
/// with the global list.
pub open spec fn merged_list(g: Seq<Seq<char>>, l: Seq<Seq<char>>, m: Seq<Seq<char>>) -> bool {
    &&& forall|x: Seq<char>| #[trigger] m.contains(x) <==> g.contains(x) || l.contains(x)
    &&& m.no_duplicates()
    &&& g.no_duplicates() ==> g.is_prefix_of(m)
}

/// The list facts of [`merged_list`] for one list setting.
proof fn lemma_merged_list(g: Seq<Seq<char>>, l: Seq<Seq<char>>)
    ensures
        merged_list(g, l, merge_dedup_spec(g, l)),
{
    law_merge_dedup_contents(g, l);
    law_merge_dedup_no_duplicates(g, l);
    law_merge_dedup_global_first(g, l);
    if g.no_duplicates() {
        lemma_dedup_from_empty(g);
    }
}

/// Law: with both files present, each string setting is the local one unless
/// that is empty; each list setting (the glob patterns and the hooks of every
/// stage) holds every item of the global and of the local list and no other,
/// without repeats, the global items first; and the file mappings hold one
/// mapping per source of either file, the local one where the local file has
/// that source.
pub proof fn law_merge_config_keeps_both(g: ConfigView, l: ConfigView)
    ensures
        ({
            let m = merge_config_spec(Some(g), Some(l));
            &&& m.root_dir == if l.root_dir.len() > 0 {
                l.root_dir
            } else {
                g.root_dir
            }
            &&& m.default_base_branch == if l.default_base_branch.len() > 0 {
                l.default_base_branch
            } else {
                g.default_base_branch
            }
            &&& merged_list(g.patterns, l.patterns, m.patterns)
            &&& merged_list(g.pre_create, l.pre_create, m.pre_create)
            &&& merged_list(g.post_create, l.post_create, m.post_create)
            &&& merged_list(g.post_copy, l.post_copy, m.post_copy)
            &&& sources_distinct(m.files)
            &&& forall|f: Seq<char>| #[trigger]
                has_from(m.files, f) <==> has_from(l.files, f) || has_from(g.files, f)
            &&& forall|i: int|
                0 <= i < m.files.len() && has_from(l.files, #[trigger] m.files[i].from)
                    ==> l.files.contains(m.files[i])
        }),
{
    lemma_merged_list(g.patterns, l.patterns);
    lemma_merged_list(g.pre_create, l.pre_create);
    lemma_merged_list(g.post_create, l.post_create);
    lemma_merged_list(g.post_copy, l.post_copy);
    law_merge_copy_files_local_wins(g.files, l.files);
}

} // verus!
