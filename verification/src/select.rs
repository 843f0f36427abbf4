use vstd::prelude::*;

use crate::text::string_views;
use vstd::arithmetic::div_mod::{lemma_add_mod_noop, lemma_mod_add_multiples_vanish, lemma_mod_bound, lemma_small_mod};
use crate::worktree::{branch_display_spec, displayable, worktree_views, Worktree, WorktreeView};

verus! {

/// The focus after moving down a list of `len` items: the next item, the
/// first after the last, the first when nothing had the focus; nothing
/// changes in an empty list.
pub open spec fn next_focus(focus: Option<int>, len: int) -> Option<int> {
    if len == 0 {
        focus
    } else {
        Some(
            match focus {
                None => 0,
                Some(i) => (i + 1) % len,
            },
        )
    }
}

/// The focus after moving up a list of `len` items: the previous item, the
/// last before the first, the first when nothing had the focus; nothing
/// changes in an empty list.
pub open spec fn previous_focus(focus: Option<int>, len: int) -> Option<int> {
    if len == 0 {
        focus
    } else {
        Some(
            match focus {
                None => 0,
                Some(i) => if i == 0 {
                    len - 1
                } else {
                    i - 1
                },
            },
        )
    }
}

/// The marks after toggling the focused item (nothing without a focus).
pub open spec fn toggled(selected: Seq<bool>, focus: Option<int>) -> Seq<bool> {
    match focus {
        Some(i) => selected.update(i, !selected[i]),
        None => selected,
    }
}

/// The items whose mark is set, in their order.
pub open spec fn picked(items: Seq<WorktreeView>, selected: Seq<bool>) -> Seq<WorktreeView>
    decreases items.len(),
{
    if items.len() == 0 || selected.len() == 0 {
        seq![]
    } else {
        picked(items.drop_last(), selected.drop_last()) + if selected.last() {
            seq![items.last()]
        } else {
            seq![]
        }
    }
}

/// The state of choosing worktrees from a list, as values.
pub struct SelectView {
    pub items: Seq<WorktreeView>,
    pub focus: Option<int>,
    pub selected: Seq<bool>,
    pub confirmed: bool,
}

/// A key that the chooser reacts to.
pub enum Key {
    Up,
    Down,
    Enter,
    Esc,
    Char(char),
    /// Any other key.
    Other,
}

/// The chooser after a key event, and whether the choosing ends: events other
/// than key presses change nothing; ↑ or `k` moves up, ↓ or `j` moves down,
/// space toggles the focused item, Enter confirms and ends, `q` or Esc ends
/// without confirming; other keys change nothing.
pub open spec fn key_step(s: SelectView, key: Key, pressed: bool) -> (SelectView, bool) {
    if !pressed {
        (s, false)
    } else {
        match key {
            Key::Up => (SelectView { focus: previous_focus(s.focus, s.items.len() as int), ..s }, false),
            Key::Char('k') => (
                SelectView { focus: previous_focus(s.focus, s.items.len() as int), ..s },
                false,
            ),
            Key::Down => (SelectView { focus: next_focus(s.focus, s.items.len() as int), ..s }, false),
            Key::Char('j') => (SelectView { focus: next_focus(s.focus, s.items.len() as int), ..s }, false),
            Key::Char(' ') => (SelectView { selected: toggled(s.selected, s.focus), ..s }, false),
            Key::Enter => (SelectView { confirmed: true, ..s }, true),
            Key::Esc => (s, true),
            Key::Char('q') => (s, true),
            _ => (s, false),
        }
    }
}

/// The outcome of choosing: the marked worktrees when confirmed, `None` when
/// cancelled.
pub open spec fn choice_spec(s: SelectView) -> Option<Seq<WorktreeView>> {
    if s.confirmed {
        Some(picked(s.items, s.selected))
    } else {
        None
    }
}

/// Choosing worktrees from a list: which item has the focus, which are
/// marked, and whether the choice was confirmed.
pub struct SelectApp {
    items: Vec<Worktree>,
    focus: Option<usize>,
    selected: Vec<bool>,
    confirmed: bool,
}

impl View for SelectApp {
    type V = SelectView;

    closed spec fn view(&self) -> SelectView {
        SelectView {
            items: worktree_views(self.items@),
            focus: match self.focus {
                Some(i) => Some(i as int),
                None => None,
            },
            selected: self.selected@,
            confirmed: self.confirmed,
        }
    }
}

/// A chooser state that can arise: one mark per item, and the focus, when
/// there is one, on an item.
pub open spec fn select_wf(s: SelectView) -> bool {
    &&& s.selected.len() == s.items.len()
    &&& match s.focus {
        Some(i) => 0 <= i < s.items.len(),
        None => true,
    }
}

impl SelectApp {
    #[verifier::type_invariant]
    spec fn inv(&self) -> bool {
        &&& self.selected.len() == self.items.len()
        &&& match self.focus {
            Some(i) => i < self.items.len(),
            None => true,
        }
    }

    /// A chooser over `items`: nothing marked, the focus on the first item
    /// (none for an empty list), not confirmed.
    pub fn new(items: Vec<Worktree>) -> (r: Self)
        ensures
            r@ == (SelectView {
                items: worktree_views(items@),
                focus: if items.len() > 0 {
                    Some(0)
                } else {
                    None
                },
                selected: Seq::new(items.len() as nat, |i: int| false),
                confirmed: false,
            }),
            select_wf(r@),
    {
        let len = items.len();
        let mut selected: Vec<bool> = Vec::new();
        let mut i: usize = 0;
        while i < len
            invariant
                i <= len,
                selected@ == Seq::new(i as nat, |j: int| false),
            decreases len - i,
        {
            selected.push(false);
            assert(selected@ =~= Seq::new((i + 1) as nat, |j: int| false));
            i += 1;
        }
        let focus = if len > 0 {
            Some(0)
        } else {
            None
        };
        let r = SelectApp { items, focus, selected, confirmed: false };
        assert(r@.selected =~= Seq::new(len as nat, |i: int| false));
        r
    }

    /// The focused item, if any.
    pub fn focus(&self) -> (r: Option<usize>)
        ensures
            match r {
                Some(i) => self@.focus == Some(i as int),
                None => self@.focus is None,
            },
    {
        self.focus
    }

    /// Whether the choice was confirmed.
    pub fn confirmed(&self) -> (r: bool)
        ensures
            r == self@.confirmed,
    {
        self.confirmed
    }

    /// Moves the focus down (wrapping around to the first item).
    pub fn next(&mut self)
        ensures
            final(self)@ == (SelectView {
                focus: next_focus(old(self)@.focus, old(self)@.items.len() as int),
                ..old(self)@
            }),
            select_wf(final(self)@),
    {
        proof {
            use_type_invariant(&*self);
        }
        let len = self.items.len();
        if len == 0 {
            return;
        }
        let next = match self.focus {
            None => 0,
            Some(i) => (i + 1) % len,
        };
        self.focus = Some(next);
    }

    /// Moves the focus up (wrapping around to the last item).
    pub fn previous(&mut self)
        ensures
            final(self)@ == (SelectView {
                focus: previous_focus(old(self)@.focus, old(self)@.items.len() as int),
                ..old(self)@
            }),
            select_wf(final(self)@),
    {
        proof {
            use_type_invariant(&*self);
        }
        let len = self.items.len();
        if len == 0 {
            return;
        }
        let prev = match self.focus {
            None => 0,
            Some(i) => if i == 0 {
                len - 1
            } else {
                i - 1
            },
        };
        self.focus = Some(prev);
    }

    /// Flips the mark of the focused item.
    pub fn toggle(&mut self)
        ensures
            final(self)@ == (SelectView {
                selected: toggled(old(self)@.selected, old(self)@.focus),
                ..old(self)@
            }),
            select_wf(final(self)@),
    {
        proof {
            use_type_invariant(&*self);
        }
        match self.focus {
            Some(i) => {
                let flipped = !self.selected[i];
                let mut marks = self.selected.clone();
                assert(marks@ =~= self.selected@);
                marks.set(i, flipped);
                self.selected = marks;
            },
            None => {},
        }
    }

    /// Reacts to a key event and says whether the choosing ends.
    pub fn handle_key(&mut self, key: Key, pressed: bool) -> (done: bool)
        ensures
            (final(self)@, done) == key_step(old(self)@, key, pressed),
            select_wf(final(self)@),
    {
        proof {
            use_type_invariant(&*self);
        }
        if !pressed {
            return false;
        }
        match key {
            Key::Up => {
                self.previous();
                false
            },
            Key::Down => {
                self.next();
                false
            },
            Key::Enter => {
                self.confirmed = true;
                true
            },
            Key::Esc => true,
            Key::Char(c) => {
                if c == 'k' {
                    self.previous();
                    false
                } else if c == 'j' {
                    self.next();
                    false
                } else if c == ' ' {
                    self.toggle();
                    false
                } else if c == 'q' {
                    true
                } else {
                    false
                }
            },
            Key::Other => false,
        }
    }

    /// The marked worktrees, in their order.
    pub fn selected_worktrees(self) -> (r: Vec<Worktree>)
        ensures
            worktree_views(r@) == picked(self@.items, self@.selected),
    {
        proof {
            use_type_invariant(&self);
        }
        let ghost iv = worktree_views(self.items@);
        let ghost sv = self.selected@;
        let mut r: Vec<Worktree> = Vec::new();
        let mut i: usize = 0;
        assert(picked(iv.take(0), sv.take(0)) =~= seq![]);
        while i < self.items.len()
            invariant
                iv == worktree_views(self.items@),
                sv == self.selected@,
                sv.len() == iv.len(),
                i <= self.items.len(),
                worktree_views(r@) == picked(iv.take(i as int), sv.take(i as int)),
            decreases self.items.len() - i,
        {
            proof {
                assert(iv.take(i + 1).drop_last() =~= iv.take(i as int));
                assert(sv.take(i + 1).drop_last() =~= sv.take(i as int));
            }
            let ghost before = worktree_views(r@);
            if self.selected[i] {
                r.push(self.items[i].duplicate());
                assert(worktree_views(r@) =~= before.push(iv[i as int]));
            }
            assert(worktree_views(r@) =~= picked(iv.take(i + 1), sv.take(i + 1)));
            i += 1;
        }
        assert(iv.take(self.items.len() as int) =~= iv);
        assert(sv.take(self.items.len() as int) =~= sv);
        r
    }

    /// The outcome: the marked worktrees when confirmed, `None` when cancelled.
    pub fn finish(self) -> (r: Option<Vec<Worktree>>)
        ensures
            match r {
                Some(v) => choice_spec(self@) == Some(worktree_views(v@)),
                None => choice_spec(self@) is None,
            },
    {
        if self.confirmed {
            Some(self.selected_worktrees())
        } else {
            None
        }
    }
}


/// How a worktree is listed in the chooser: its mark (`[x]` or `[ ]`), its
/// path and, in parentheses, its branch column.
pub open spec fn item_label_spec(w: WorktreeView, marked: bool) -> Seq<char> {
    (if marked {
        "[x]"@
    } else {
        "[ ]"@
    }) + "  "@ + w.path + "  ("@ + branch_display_spec(w) + ")"@
}

/// How a worktree is listed in the chooser.
pub fn item_label(w: &Worktree, marked: bool) -> (r: String)
    requires
        displayable(w@),
    ensures
        r@ == item_label_spec(w@, marked),
{
    let mut r = if marked {
        "[x]".to_owned()
    } else {
        "[ ]".to_owned()
    };
    r.append("  ");
    r.append(w.path.as_str());
    r.append("  (");
    r.append(w.branch_display().as_str());
    r.append(")");
    r
}

impl SelectApp {
    /// The lines of the list, one per worktree in order.
    pub fn item_labels(&self) -> (r: Vec<String>)
        requires
            forall|i: int| 0 <= i < self@.items.len() ==> displayable(#[trigger] self@.items[i]),
        ensures
            string_views(r@) == Seq::new(
                self@.items.len(),
                |i: int| item_label_spec(self@.items[i], self@.selected[i]),
            ),
    {
        proof {
            use_type_invariant(self);
        }
        let ghost want = Seq::new(
            self@.items.len(),
            |i: int| item_label_spec(self@.items[i], self@.selected[i]),
        );
        let mut r: Vec<String> = Vec::new();
        let mut i: usize = 0;
        while i < self.items.len()
            invariant
                self.selected.len() == self.items.len(),
                want == Seq::new(
                    self@.items.len(),
                    |i: int| item_label_spec(self@.items[i], self@.selected[i]),
                ),
                forall|i: int| 0 <= i < self@.items.len() ==> displayable(#[trigger] self@.items[i]),
                i <= self.items.len(),
                string_views(r@) == want.take(i as int),
            decreases self.items.len() - i,
        {
            assert(self@.items[i as int] == self.items@[i as int]@);
            let label = item_label(&self.items[i], self.selected[i]);
            let ghost before = string_views(r@);
            r.push(label);
            assert(string_views(r@) =~= before.push(want[i as int]));
            assert(want.take(i + 1) =~= want.take(i as int).push(want[i as int]));
            i += 1;
        }
        assert(want.take(self.items.len() as int) =~= want);
        r
    }
}

/// The one-line footer inside a list frame at (`x`, `y`) of `width` ×
/// `height`: on the frame's second-to-last row, one column in, two columns
/// narrower (none when narrower than two); no footer when the frame is lower
/// than four rows.
pub open spec fn footer_area_spec(x: u16, y: u16, width: u16, height: u16) -> Option<(int, int, int, int)> {
    if height < 4 {
        None
    } else {
        Some((x + 1, y + height - 2, if width >= 2 { width - 2 } else { 0 }, 1))
    }
}

/// Where the footer hint goes inside a list frame at (`x`, `y`) of
/// `width` × `height`, as (x, y, width, height).
pub fn footer_area(x: u16, y: u16, width: u16, height: u16) -> (r: Option<(u16, u16, u16, u16)>)
    requires
        height >= 4 ==> x + 1 <= u16::MAX && y + height <= u16::MAX,
    ensures
        match r {
            Some(a) => footer_area_spec(x, y, width, height) == Some(
                (a.0 as int, a.1 as int, a.2 as int, a.3 as int),
            ),
            None => footer_area_spec(x, y, width, height) is None,
        },
{
    if height < 4 {
        return None;
    }
    Some((x + 1, y + height - 2, width.saturating_sub(2), 1))
}

/// The focus after moving down `k` times.
pub open spec fn next_focus_n(focus: Option<int>, len: int, k: nat) -> Option<int>
    decreases k,
{
    if k == 0 {
        focus
    } else {
        next_focus(next_focus_n(focus, len, (k - 1) as nat), len)
    }
}

/// Law: moving up undoes moving down.
pub proof fn law_previous_undoes_next(i: int, len: int)
    requires
        0 <= i < len,
    ensures
        previous_focus(next_focus(Some(i), len), len) == Some(i),
{
    if i + 1 < len {
        lemma_small_mod((i + 1) as nat, len as nat);
    } else {
        lemma_mod_self_0_local(len);
    }
}

/// Law: moving down undoes moving up.
pub proof fn law_next_undoes_previous(i: int, len: int)
    requires
        0 <= i < len,
    ensures
        next_focus(previous_focus(Some(i), len), len) == Some(i),
{
    if i == 0 {
        lemma_mod_self_0_local(len);
    } else {
        lemma_small_mod(i as nat, len as nat);
    }
}

/// A length modulo itself is zero.
proof fn lemma_mod_self_0_local(len: int)
    requires
        len > 0,
    ensures
        len % len == 0,
{
    lemma_mod_add_multiples_vanish(0, len);
    lemma_small_mod(0, len as nat);
}

/// Moving down `k` times from item `i` reaches item `(i + k) mod len`.
proof fn lemma_next_focus_n(i: int, len: int, k: nat)
    requires
        0 <= i < len,
    ensures
        next_focus_n(Some(i), len, k) == Some((i + k) % len),
    decreases k,
{
    if k == 0 {
        lemma_small_mod(i as nat, len as nat);
    } else {
        lemma_next_focus_n(i, len, (k - 1) as nat);
        let x = i + k - 1;
        lemma_add_mod_noop(x, 1, len);
        lemma_mod_bound(x, len);
        if len > 1 {
            lemma_small_mod(1, len as nat);
        } else {
            lemma_mod_bound(1, len);
            lemma_mod_bound(x % len + 1, len);
        }
    }
}

/// Law: moving down as many times as there are items comes back to the same
/// item.
pub proof fn law_next_wraps_around(i: int, len: int)
    requires
        0 <= i < len,
    ensures
        next_focus_n(Some(i), len, len as nat) == Some(i),
{
    lemma_next_focus_n(i, len, len as nat);
    lemma_mod_add_multiples_vanish(i, len);
    lemma_small_mod(i as nat, len as nat);
}

/// Law: toggling twice gives the marks back.
pub proof fn law_toggle_twice(selected: Seq<bool>, focus: Option<int>)
    requires
        match focus {
            Some(i) => 0 <= i < selected.len(),
            None => true,
        },
    ensures
        toggled(toggled(selected, focus), focus) == selected,
{
    assert(toggled(toggled(selected, focus), focus) =~= selected);
}

/// Law: the chosen worktrees are exactly the marked ones.
pub proof fn law_picked_are_marked(items: Seq<WorktreeView>, selected: Seq<bool>)
    requires
        items.len() == selected.len(),
    ensures
        forall|w: WorktreeView| #[trigger] picked(items, selected).contains(w) ==> exists|i: int|
            0 <= i < items.len() && selected[i] && #[trigger] items[i] == w,
        forall|i: int| 0 <= i < items.len() && #[trigger] selected[i] ==> picked(
            items,
            selected,
        ).contains(items[i]),
    decreases items.len(),
{
    if items.len() > 0 {
        let ii = items.drop_last();
        let ss = selected.drop_last();
        law_picked_are_marked(ii, ss);
        let p = picked(items, selected);
        let pp = picked(ii, ss);
        assert forall|w: WorktreeView| #[trigger] p.contains(w) implies exists|i: int|
            0 <= i < items.len() && selected[i] && #[trigger] items[i] == w by {
            let k = choose|k: int| 0 <= k < p.len() && p[k] == w;
            if k < pp.len() {
                assert(pp.contains(w));
                let j = choose|j: int| 0 <= j < ii.len() && ss[j] && #[trigger] ii[j] == w;
                assert(items[j] == w && selected[j]);
            } else {
                assert(items[items.len() - 1] == w && selected[items.len() - 1]);
            }
        }
        assert forall|i: int| 0 <= i < items.len() && #[trigger] selected[i] implies p.contains(
            items[i],
        ) by {
            if i < ii.len() {
                assert(ss[i]);
                assert(pp.contains(ii[i]));
                let k = choose|k: int| 0 <= k < pp.len() && pp[k] == ii[i];
                assert(p[k] == items[i]);
            } else {
                assert(p[pp.len() as int] == items[i]);
            }
        }
    }
}

} // verus!
