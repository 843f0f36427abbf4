use vstd::prelude::*;

use crate::text::{pad_right, pad_right_spec, repeat, repeat_spec, byte_len, string_views};
use crate::worktree::WorktreeError;

pub mod add;
pub mod init;
pub mod list;
pub mod remove;

verus! {

/// The operations that a command would carry out, listed instead of done.
pub struct DryRunPlan {
    pub title: String,
    /// (action, value) rows.
    pub rows: Vec<(String, String)>,
}

/// The views of (action, value) rows.
pub open spec fn row_views(rows: Seq<(String, String)>) -> Seq<(Seq<char>, Seq<char>)> {
    rows.map_values(|r: (String, String)| (r.0@, r.1@))
}

/// The mathematical value of a [`DryRunPlan`].
pub struct DryRunPlanView {
    pub title: Seq<char>,
    pub rows: Seq<(Seq<char>, Seq<char>)>,
}

impl View for DryRunPlan {
    type V = DryRunPlanView;

    open spec fn view(&self) -> DryRunPlanView {
        DryRunPlanView { title: self.title@, rows: row_views(self.rows@) }
    }
}

/// The largest byte length of an action.
pub open spec fn max_action_len(rows: Seq<(Seq<char>, Seq<char>)>) -> nat
    decreases rows.len(),
{
    if rows.len() == 0 {
        0
    } else {
        let rest = max_action_len(rows.drop_last());
        let here = byte_len(rows.last().0);
        if here > rest {
            here
        } else {
            rest
        }
    }
}

/// The width of the action column: the longest action in bytes, and at least
/// the width of its heading `Action`.
pub open spec fn action_width(rows: Seq<(Seq<char>, Seq<char>)>) -> nat {
    if max_action_len(rows) > 6 {
        max_action_len(rows)
    } else {
        6
    }
}

/// A plan's row as a line: the action padded to the column width, two spaces,
/// the value.
pub open spec fn row_line(row: (Seq<char>, Seq<char>), width: nat) -> Seq<char> {
    "  "@ + pad_right_spec(row.0, width) + "  "@ + row.1
}

/// The lines that show a plan: its title, an empty line, the heading, a rule
/// as wide as both columns (the value column counting forty), then a line per
/// row.
pub open spec fn plan_lines_spec(plan: DryRunPlanView) -> Seq<Seq<char>> {
    let w = action_width(plan.rows);
    seq![
        plan.title,
        seq![],
        "  "@ + pad_right_spec("Action"@, w) + "  Value"@,
        "  "@ + repeat_spec("─"@, w + 2 + 40),
    ] + plan.rows.map_values(|r: (Seq<char>, Seq<char>)| row_line(r, w))
}

impl DryRunPlan {
    /// The width of the action column.
    fn column_width(&self) -> (w: usize)
        requires
            action_width(self@.rows) <= usize::MAX,
        ensures
            w == action_width(self@.rows),
    {
        let ghost rv = self@.rows;
        let mut w: usize = 0;
        let mut i: usize = 0;
        while i < self.rows.len()
            invariant
                rv == self@.rows,
                i <= self.rows.len(),
                action_width(rv) <= usize::MAX,
                w == max_action_len(rv.take(i as int)),
                max_action_len(rv.take(i as int)) <= max_action_len(rv),
            decreases self.rows.len() - i,
        {
            proof {
                assert(rv.take(i + 1).drop_last() =~= rv.take(i as int));
                lemma_max_action_len_prefix(rv, i + 1);
            }
            let n = self.rows[i].0.as_str().len();
            proof {
                assert(byte_len(rv.take(i + 1).last().0) <= max_action_len(rv.take(i + 1)));
            }
            if n > w {
                w = n;
            }
            i += 1;
        }
        assert(rv.take(self.rows.len() as int) =~= rv);
        if w > 6 {
            w
        } else {
            6
        }
    }

    /// The lines that show this plan, as printing it writes them.
    pub fn lines(&self) -> (r: Vec<String>)
        requires
            action_width(self@.rows) + 42 <= usize::MAX,
        ensures
            string_views(r@) == plan_lines_spec(self@),
    {
        let w = self.column_width();
        let mut r: Vec<String> = Vec::new();
        r.push(self.title.clone());
        r.push(String::new());
        let mut heading = "  ".to_owned();
        heading.append(pad_right("Action", w).as_str());
        heading.append("  Value");
        r.push(heading);
        let mut rule = "  ".to_owned();
        rule.append(repeat("─", w + 2 + 40).as_str());
        r.push(rule);
        let ghost head = string_views(r@);
        let ghost rv = self@.rows;
        let mut i: usize = 0;
        assert(string_views(r@) =~= head + rv.take(0).map_values(|x: (Seq<char>, Seq<char>)| row_line(x, w as nat)));
        while i < self.rows.len()
            invariant
                rv == self@.rows,
                i <= self.rows.len(),
                string_views(r@) == head + rv.take(i as int).map_values(
                    |x: (Seq<char>, Seq<char>)| row_line(x, w as nat),
                ),
            decreases self.rows.len() - i,
        {
            let mut line = "  ".to_owned();
            line.append(pad_right(self.rows[i].0.as_str(), w).as_str());
            line.append("  ");
            line.append(self.rows[i].1.as_str());
            let ghost before = string_views(r@);
            r.push(line);
            proof {
                assert(rv[i as int] == (self.rows@[i as int].0@, self.rows@[i as int].1@));
                assert(string_views(r@) =~= before.push(row_line(rv[i as int], w as nat)));
                assert(rv.take(i + 1).map_values(|x: (Seq<char>, Seq<char>)| row_line(x, w as nat))
                    =~= rv.take(i as int).map_values(|x: (Seq<char>, Seq<char>)| row_line(x, w as nat)).push(
                    row_line(rv[i as int], w as nat),
                ));
            }
            i += 1;
        }
        assert(rv.take(self.rows.len() as int) =~= rv);
        assert(string_views(r@) =~= plan_lines_spec(self@));
        r
    }
}

/// The longest action of a prefix is no longer than that of the whole.
proof fn lemma_max_action_len_prefix(rows: Seq<(Seq<char>, Seq<char>)>, k: int)
    requires
        0 <= k <= rows.len(),
    ensures
        max_action_len(rows.take(k)) <= max_action_len(rows),
    decreases rows.len(),
{
    if k < rows.len() {
        assert(rows.drop_last().take(k) =~= rows.take(k));
        lemma_max_action_len_prefix(rows.drop_last(), k);
    } else {
        assert(rows.take(k) =~= rows);
    }
}

/// Where a command that carries out its steps in order stands.
pub enum Progress {
    /// Carry out the step at this position next.
    Next(usize),
    /// Stop, with this result.
    Finish(Result<(), WorktreeError>),
}

/// Where a command of `count` steps begins: at its first step, or finished
/// successfully at once when it has none.
pub open spec fn start_spec(count: int) -> Progress {
    if count == 0 {
        Progress::Finish(Ok(()))
    } else {
        Progress::Next(0)
    }
}

/// What follows the step at `index` of `count` steps, given what it gave: a
/// failure stops the command with that error; a success goes on to the next
/// step, or finishes the command successfully after the last one.
pub open spec fn after_step_spec(index: int, count: int, outcome: Result<(), WorktreeError>) -> Progress {
    match outcome {
        Err(e) => Progress::Finish(Err(e)),
        Ok(()) => if index + 1 < count {
            Progress::Next((index + 1) as usize)
        } else {
            Progress::Finish(Ok(()))
        },
    }
}

/// How many steps are left to carry out.
pub open spec fn steps_left(p: Progress, count: int) -> int {
    match p {
        Progress::Next(i) => count - i,
        Progress::Finish(_) => 0,
    }
}

/// Where a command of `count` steps begins.
pub fn start(count: usize) -> (p: Progress)
    ensures
        p == start_spec(count as int),
{
    if count == 0 {
        Progress::Finish(Ok(()))
    } else {
        Progress::Next(0)
    }
}

/// What follows the step at `index` of `count` steps, given what it gave.
pub fn after_step(index: usize, count: usize, outcome: Result<(), WorktreeError>) -> (p: Progress)
    requires
        index < count,
    ensures
        p == after_step_spec(index as int, count as int, outcome),
{
    match outcome {
        Err(e) => Progress::Finish(Err(e)),
        Ok(()) => if index + 1 < count {
            Progress::Next(index + 1)
        } else {
            Progress::Finish(Ok(()))
        },
    }
}

/// What carrying out `steps` in order, stopping at the first failure, with
/// `r` as the outcome means for each step (`performed` tells which outcomes a
/// step can have): success means every step succeeded; a failure is the
/// failure of some step, all steps before it having succeeded.
pub open spec fn carried_out<S>(
    steps: Seq<S>,
    performed: spec_fn(S, Result<(), WorktreeError>) -> bool,
    r: Result<(), WorktreeError>,
) -> bool {
    if r is Ok {
        forall|i: int| 0 <= i < steps.len() ==> #[trigger] performed(steps[i], Ok(()))
    } else {
        exists|k: int|
            0 <= k < steps.len() && #[trigger] performed(steps[k], Err(r->Err_0)) && forall|i: int|
                0 <= i < k ==> #[trigger] performed(steps[i], Ok(()))
    }
}

/// What holds where a command stands: before the step at `i`, every earlier
/// step succeeded; once finished, the steps were carried out with that
/// outcome.
pub open spec fn progress_holds<S>(
    steps: Seq<S>,
    performed: spec_fn(S, Result<(), WorktreeError>) -> bool,
    p: Progress,
) -> bool {
    match p {
        Progress::Next(i) => i < steps.len() && forall|j: int|
            0 <= j < i ==> #[trigger] performed(steps[j], Ok(())),
        Progress::Finish(r) => carried_out(steps, performed, r),
    }
}

/// A command starts where [`progress_holds`] holds.
pub proof fn lemma_start_holds<S>(
    steps: Seq<S>,
    performed: spec_fn(S, Result<(), WorktreeError>) -> bool,
)
    ensures
        progress_holds(steps, performed, start_spec(steps.len() as int)),
{
}

/// Following a step's outcome as [`after_step`] decides keeps
/// [`progress_holds`].
pub proof fn lemma_after_step_holds<S>(
    steps: Seq<S>,
    performed: spec_fn(S, Result<(), WorktreeError>) -> bool,
    i: usize,
    outcome: Result<(), WorktreeError>,
)
    requires
        progress_holds(steps, performed, Progress::Next(i)),
        performed(steps[i as int], outcome),
    ensures
        progress_holds(steps, performed, after_step_spec(i as int, steps.len() as int, outcome)),
{
    match outcome {
        Err(e) => {
            assert(0 <= i < steps.len() && performed(steps[i as int], Err(e)) && forall|j: int|
                0 <= j < i ==> #[trigger] performed(steps[j], Ok(())));
        },
        Ok(()) => {
            assert(outcome is Ok);
            let u: () = outcome->Ok_0;
            assert(u == ());
            assert(outcome == Ok::<(), WorktreeError>(u));
            assert(performed(steps[i as int], Ok(())));
            assert forall|j: int| 0 <= j < i + 1 implies #[trigger] performed(steps[j], Ok(())) by {
                if j < i {
                    assert(progress_holds(steps, performed, Progress::Next(i)));
                }
            }
        },
    }
}

} // verus!
