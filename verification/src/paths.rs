use vstd::prelude::*;

use crate::text::{chars_of, str_equal, string_views};

verus! {

/// A Unix path is absolute when it starts with the separator.
pub open spec fn is_absolute_spec(p: Seq<char>) -> bool {
    p.len() > 0 && p[0] == '/'
}

/// Joining `rel` onto `base` as `Path::join` does on Unix: an absolute `rel`
/// replaces `base`; otherwise a separator is put between them unless `base`
/// is empty or already ends with one.
pub open spec fn join_spec(base: Seq<char>, rel: Seq<char>) -> Seq<char> {
    if is_absolute_spec(rel) {
        rel
    } else if base.len() == 0 || base.last() == '/' {
        base + rel
    } else {
        base + seq!['/'] + rel
    }
}

/// A name between separators, unless it is empty or `.`, which path
/// components skip.
pub open spec fn kept_segment(seg: Seq<char>) -> Seq<Seq<char>> {
    if seg.len() == 0 || seg == seq!['.'] {
        seq![]
    } else {
        seq![seg]
    }
}

/// The kept names of `p`, scanning from position `i` inside a name that
/// began at `start`.
pub open spec fn segments_from(p: Seq<char>, start: int, i: int) -> Seq<Seq<char>>
    decreases p.len() - i,
{
    if i >= p.len() {
        kept_segment(p.subrange(start, p.len() as int))
    } else if p[i] == '/' {
        kept_segment(p.subrange(start, i)) + segments_from(p, i + 1, i + 1)
    } else {
        segments_from(p, start, i + 1)
    }
}

/// A relative path whose first name is `.` keeps that `.` as a component.
pub open spec fn leads_with_cur_dir(p: Seq<char>) -> bool {
    !is_absolute_spec(p) && p.len() > 0 && p[0] == '.' && (p.len() == 1 || p[1] == '/')
}

/// The components of `p`, as `Path::components` yields them on Unix: `/` for
/// the root of an absolute path, `.` first for a path that starts with it,
/// then the names between separators, without empty names and without `.`.
pub open spec fn components_spec(p: Seq<char>) -> Seq<Seq<char>> {
    if is_absolute_spec(p) {
        seq![seq!['/']] + segments_from(p, 0, 0)
    } else if leads_with_cur_dir(p) {
        seq![seq!['.']] + segments_from(p, 0, 0)
    } else {
        segments_from(p, 0, 0)
    }
}

/// Two paths are equal as `Path`s when their components are.
pub open spec fn path_eq_spec(a: Seq<char>, b: Seq<char>) -> bool {
    components_spec(a) == components_spec(b)
}

/// `p` lies at or below `base` (`Path::starts_with`).
pub open spec fn path_starts_with_spec(p: Seq<char>, base: Seq<char>) -> bool {
    components_spec(base).is_prefix_of(components_spec(p))
}

/// Names joined with single separators.
pub open spec fn join_names(names: Seq<Seq<char>>) -> Seq<char>
    decreases names.len(),
{
    if names.len() == 0 {
        seq![]
    } else if names.len() == 1 {
        names[0]
    } else {
        join_names(names.drop_last()) + seq!['/'] + names.last()
    }
}

/// The path written from a list of components.
pub open spec fn render_spec(comps: Seq<Seq<char>>) -> Seq<char> {
    if comps.len() > 0 && comps[0] == seq!['/'] {
        seq!['/'] + join_names(comps.drop_first())
    } else {
        join_names(comps)
    }
}

/// The directories that pruning empty parents visits, from `dir` upwards, each
/// strictly below `stop`: empty when `dir` is `stop` or is not below it.
pub open spec fn prune_candidates_spec(dir: Seq<char>, stop: Seq<char>) -> Seq<Seq<char>> {
    let d = components_spec(dir);
    let s = components_spec(stop);
    if s.is_prefix_of(d) && s.len() < d.len() {
        Seq::new((d.len() - s.len()) as nat, |i: int| render_spec(d.take(d.len() - i)))
    } else {
        seq![]
    }
}

/// Whether `p` is an absolute path.
pub fn is_absolute_path(p: &str) -> (b: bool)
    ensures
        b == is_absolute_spec(p@),
{
    let n = p.unicode_len();
    n > 0 && p.get_char(0) == '/'
}

/// `rel` joined onto `base` (`Path::join` on Unix).
pub fn join_path(base: &str, rel: &str) -> (r: String)
    ensures
        r@ == join_spec(base@, rel@),
{
    if is_absolute_path(rel) {
        return rel.to_owned();
    }
    let mut r = base.to_owned();
    let n = base.unicode_len();
    if n > 0 && base.get_char(n - 1) != '/' {
        r.append("/");
        proof {
            reveal_strlit("/");
        }
    }
    r.append(rel);
    r
}

/// Whether the characters `p[start..end]` form a kept name.
fn keeps(p: &Vec<char>, start: usize, end: usize) -> (b: bool)
    requires
        start <= end <= p.len(),
    ensures
        b == (kept_segment(p@.subrange(start as int, end as int)).len() == 1),
{
    if end == start {
        return false;
    }
    if end == start + 1 && p[start] == '.' {
        assert(p@.subrange(start as int, end as int) =~= seq!['.']);
        return false;
    }
    if end == start + 1 {
        assert(p@.subrange(start as int, end as int) != seq!['.']) by {
            assert(p@.subrange(start as int, end as int)[0] != '.');
        }
    } else {
        assert(p@.subrange(start as int, end as int).len() != seq!['.'].len());
    }
    true
}

/// The components of `p` (`Path::components` on Unix), each as a string.
pub fn components(p: &str) -> (out: Vec<String>)
    ensures
        string_views(out@) == components_spec(p@),
{
    let cs = chars_of(p);
    let n = cs.len();
    let mut out: Vec<String> = Vec::new();
    proof {
        reveal_strlit("/");
        reveal_strlit(".");
        assert("/"@ =~= seq!['/']);
        assert("."@ =~= seq!['.']);
    }
    if n > 0 && cs[0] == '/' {
        out.push("/".to_owned());
        assert(string_views(out@) =~= seq![seq!['/']]);
    } else if n > 0 && cs[0] == '.' && (n == 1 || cs[1] == '/') {
        out.push(".".to_owned());
        assert(string_views(out@) =~= seq![seq!['.']]);
    } else {
        assert(string_views(out@) =~= seq![]);
    }
    assert(string_views(out@) + segments_from(p@, 0, 0) =~= components_spec(p@));
    let mut start: usize = 0;
    let mut i: usize = 0;
    while i < n
        invariant
            cs@ == p@,
            n == cs.len(),
            start <= i <= n,
            string_views(out@) + segments_from(p@, start as int, i as int) == components_spec(p@),
        decreases n - i,
    {
        if cs[i] == '/' {
            let ghost before = string_views(out@);
            if keeps(&cs, start, i) {
                let seg = p.substring_char(start, i).to_owned();
                out.push(seg);
                assert(string_views(out@) =~= before.push(p@.subrange(start as int, i as int)));
            }
            assert(string_views(out@) =~= before + kept_segment(p@.subrange(start as int, i as int)));
            i += 1;
            start = i;
        } else {
            i += 1;
        }
    }
    let ghost before = string_views(out@);
    if keeps(&cs, start, n) {
        let seg = p.substring_char(start, n).to_owned();
        out.push(seg);
        assert(string_views(out@) =~= before.push(p@.subrange(start as int, n as int)));
    }
    assert(string_views(out@) =~= before + kept_segment(p@.subrange(start as int, n as int)));
    out
}


/// Whether the first `k` strings of `a` and of `b` agree.
fn agree_on_prefix(a: &Vec<String>, b: &Vec<String>, k: usize) -> (r: bool)
    requires
        k <= a.len(),
        k <= b.len(),
    ensures
        r == (string_views(a@).take(k as int) == string_views(b@).take(k as int)),
{
    let mut i: usize = 0;
    while i < k
        invariant
            k <= a.len(),
            k <= b.len(),
            i <= k,
            forall|j: int| 0 <= j < i ==> a@[j]@ == b@[j]@,
        decreases k - i,
    {
        if !str_equal(a[i].as_str(), b[i].as_str()) {
            assert(string_views(a@).take(k as int)[i as int] != string_views(b@).take(k as int)[i as int]);
            return false;
        }
        i += 1;
    }
    assert(string_views(a@).take(k as int) =~= string_views(b@).take(k as int));
    true
}

/// Whether `a` and `b` are the same path (`Path` equality).
pub fn path_eq(a: &str, b: &str) -> (r: bool)
    ensures
        r == path_eq_spec(a@, b@),
{
    let ca = components(a);
    let cb = components(b);
    if ca.len() != cb.len() {
        return false;
    }
    let r = agree_on_prefix(&ca, &cb, ca.len());
    assert(string_views(ca@).take(ca.len() as int) =~= string_views(ca@));
    assert(string_views(cb@).take(cb.len() as int) =~= string_views(cb@));
    r
}

/// Whether `p` lies at or below `base` (`Path::starts_with`).
pub fn path_starts_with(p: &str, base: &str) -> (r: bool)
    ensures
        r == path_starts_with_spec(p@, base@),
{
    let cp = components(p);
    let cb = components(base);
    if cb.len() > cp.len() {
        return false;
    }
    let r = agree_on_prefix(&cb, &cp, cb.len());
    assert(string_views(cb@).take(cb.len() as int) =~= string_views(cb@));
    assert(string_views(cp@).take(cb.len() as int) =~= string_views(cp@).subrange(0, cb.len() as int));
    r
}

/// The path written from the first `k` components in `d`.
fn render_prefix(d: &Vec<String>, k: usize) -> (r: String)
    requires
        k <= d.len(),
    ensures
        r@ == render_spec(string_views(d@).take(k as int)),
{
    let ghost comps = string_views(d@).take(k as int);
    let mut r = String::new();
    let mut first: usize = 0;
    proof {
        reveal_strlit("/");
        assert("/"@ =~= seq!['/']);
    }
    if k > 0 && str_equal(d[0].as_str(), "/") {
        r.append("/");
        first = 1;
    }
    let ghost pre = r@;
    assert(comps.subrange(first as int, k as int) =~= if first == 1 { comps.drop_first() } else { comps });
    assert(render_spec(comps) == pre + join_names(comps.subrange(first as int, k as int)));
    let mut j: usize = first;
    assert(comps.subrange(first as int, j as int) =~= seq![]);
    assert(r@ =~= pre + join_names(comps.subrange(first as int, j as int)));
    while j < k
        invariant
            k <= d.len(),
            first <= j <= k,
            comps == string_views(d@).take(k as int),
            r@ == pre + join_names(comps.subrange(first as int, j as int)),
        decreases k - j,
    {
        let ghost old_r = r@;
        if j > first {
            r.append("/");
        }
        r.append(d[j].as_str());
        proof {
            reveal_strlit("/");
            assert("/"@ =~= seq!['/']);
            let prev = comps.subrange(first as int, j as int);
            let next = comps.subrange(first as int, j + 1);
            assert(next.drop_last() =~= prev);
            assert(next.last() == d@[j as int]@);
            if j > first {
                assert(r@ =~= pre + (join_names(prev) + seq!['/'] + next.last()));
            } else {
                assert(next =~= seq![d@[j as int]@]);
                assert(r@ =~= pre + join_names(next));
            }
        }
        j += 1;
    }
    r
}

/// The directories that pruning empty parents of `dir` visits, from `dir`
/// upwards, each strictly below `stop`.
pub fn prune_candidates(dir: &str, stop: &str) -> (out: Vec<String>)
    ensures
        string_views(out@) == prune_candidates_spec(dir@, stop@),
{
    let d = components(dir);
    let s = components(stop);
    let mut out: Vec<String> = Vec::new();
    if s.len() >= d.len() || !agree_on_prefix(&s, &d, s.len()) {
        proof {
            let ds = components_spec(dir@);
            let ss = components_spec(stop@);
            if ss.is_prefix_of(ds) && ss.len() < ds.len() {
                assert(string_views(s@).take(s.len() as int) =~= ss);
                assert(string_views(d@).take(s.len() as int) =~= ds.subrange(0, ss.len() as int));
            }
        }
        assert(string_views(out@) =~= seq![]);
        return out;
    }
    proof {
        assert(string_views(s@).take(s.len() as int) =~= string_views(s@));
        assert(string_views(d@).take(s.len() as int) =~= string_views(d@).subrange(0, s.len() as int));
    }
    let ghost ds = string_views(d@);
    let mut k: usize = d.len();
    while k > s.len()
        invariant
            s.len() <= k <= d.len(),
            ds == string_views(d@),
            string_views(s@).is_prefix_of(ds),
            string_views(s@).len() < ds.len(),
            out.len() == d.len() - k,
            forall|i: int| 0 <= i < out.len() ==> #[trigger] out@[i]@ == render_spec(ds.take(ds.len() - i)),
        decreases k,
    {
        let p = render_prefix(&d, k);
        out.push(p);
        k -= 1;
    }
    assert(string_views(out@) =~= prune_candidates_spec(dir@, stop@));
    out
}


/// `p` with the leading components of `base` taken off (`Path::strip_prefix`),
/// written from the components that remain; `None` when `p` does not lie at
/// or below `base`.
pub open spec fn strip_prefix_spec(p: Seq<char>, base: Seq<char>) -> Option<Seq<char>> {
    if path_starts_with_spec(p, base) {
        Some(render_spec(components_spec(p).skip(components_spec(base).len() as int)))
    } else {
        None
    }
}

/// The last component of `p` when it is a name (`Path::file_name`): not for
/// the root, `.` or `..`, nor for a path without components.
pub open spec fn file_name_spec(p: Seq<char>) -> Option<Seq<char>> {
    let c = components_spec(p);
    if c.len() > 0 && c.last() != seq!['/'] && c.last() != seq!['.'] && c.last() != seq!['.', '.'] {
        Some(c.last())
    } else {
        None
    }
}

/// `p` with the leading components of `base` taken off, or `None` when `p`
/// does not lie at or below `base`.
pub fn strip_path_prefix(p: &str, base: &str) -> (r: Option<String>)
    ensures
        match r {
            Some(s) => strip_prefix_spec(p@, base@) == Some(s@),
            None => strip_prefix_spec(p@, base@) is None,
        },
{
    if !path_starts_with(p, base) {
        return None;
    }
    let cp = components(p);
    let cb = components(base);
    let k = cb.len();
    let ghost tail = string_views(cp@).skip(k as int);
    let mut rest: Vec<String> = Vec::new();
    let mut j: usize = k;
    while j < cp.len()
        invariant
            k <= j <= cp.len(),
            string_views(rest@) == string_views(cp@).subrange(k as int, j as int),
        decreases cp.len() - j,
    {
        let ghost before = string_views(rest@);
        rest.push(cp[j].clone());
        assert(string_views(rest@) =~= before.push(cp@[j as int]@));
        assert(string_views(cp@).subrange(k as int, j + 1) =~= string_views(cp@).subrange(
            k as int,
            j as int,
        ).push(cp@[j as int]@));
        j += 1;
    }
    assert(string_views(rest@).take(rest.len() as int) =~= tail);
    Some(render_prefix(&rest, rest.len()))
}

/// The last component of `p` when it is a name, as `Path::file_name` gives it.
pub fn file_name(p: &str) -> (r: Option<String>)
    ensures
        match r {
            Some(s) => file_name_spec(p@) == Some(s@),
            None => file_name_spec(p@) is None,
        },
{
    let c = components(p);
    let n = c.len();
    if n == 0 {
        return None;
    }
    let last = c[n - 1].as_str();
    proof {
        reveal_strlit("/");
        reveal_strlit(".");
        reveal_strlit("..");
        assert("/"@ =~= seq!['/']);
        assert("."@ =~= seq!['.']);
        assert(".."@ =~= seq!['.', '.']);
        assert(string_views(c@).last() == last@);
    }
    if crate::text::str_equal(last, "/") || crate::text::str_equal(last, ".")
        || crate::text::str_equal(last, "..") {
        return None;
    }
    Some(last.to_owned())
}

} // verus!
