//! Merging rendered formulas back into the document, and the report of the
//! formulas that failed. Rendering itself may run in any order and on any
//! number of workers: each outcome touches only its own task's slot, and the
//! report is sorted by task before it is handed out.

use vstd::prelude::*;
use vstd::seq_lib::{to_multiset_build, to_multiset_insert};

use crate::buffer::{filled, pieces_text, slots_below, DocumentBuffer, Piece};
use crate::render::{base64_standard, error_marker, error_marker_html, image_html, image_tag,
    FormulaRenderResult};
use crate::scan::FormulaTask;

verus! {

/// Why a formula could not be rendered: the main message and the chain of
/// causes beneath it, outermost first.
pub struct RenderError {
    pub message: String,
    pub causes: Vec<String>,
}

/// What rendering one task produced.
pub enum RenderOutcome {
    Rendered(FormulaRenderResult),
    Failed(RenderError),
}

/// A formula that failed to render.
pub struct FormulaError {
    pub formula: String,
    pub error: RenderError,
    /// The task's index, from 0.
    pub formula_index: usize,
}

/// What takes the place of formula `index` with text `formula`, typeset
/// inline or not, once `outcome` is in: its image, nothing for an image
/// without pixels, or the error marker. The image's `alt` text and class
/// come from the formula element, not from the outcome.
pub open spec fn outcome_fragment(
    index: nat,
    formula: Seq<char>,
    is_inline: bool,
    outcome: RenderOutcome,
) -> Seq<char> {
    match outcome {
        RenderOutcome::Rendered(r) => if r.data@.len() == 0 {
            Seq::empty()
        } else {
            image_tag(
                formula,
                is_inline,
                r.format,
                base64_standard(r.data@),
                r.x_em.ten_thousandths as nat,
                r.y_em.ten_thousandths as nat,
            )
        },
        RenderOutcome::Failed(_) => error_marker(index, formula),
    }
}

/// The fragment for `task` once `outcome` is in.
pub fn outcome_html(task: &FormulaTask, outcome: &RenderOutcome) -> (r: String)
    requires
        task.task_index < usize::MAX,
    ensures
        r@ == outcome_fragment(
            task.task_index as nat,
            task.formula_text@,
            !(task.mode is Display),
            *outcome,
        ),
{
    match outcome {
        RenderOutcome::Rendered(result) => {
            if result.data.len() == 0 {
                String::new()
            } else {
                image_html(
                    task.formula_text.as_str(),
                    task.mode.is_inline(),
                    result.format,
                    result.data.as_slice(),
                    result.x_em,
                    result.y_em,
                )
            }
        },
        RenderOutcome::Failed(_) => error_marker_html(task.task_index, task.formula_text.as_str()),
    }
}

/// Puts the fragment for `outcome` into the slot of `task`.
pub fn merge_outcome(buffer: &mut DocumentBuffer, task: &FormulaTask, outcome: &RenderOutcome)
    requires
        old(buffer).wf(),
        task.task_index < usize::MAX,
    ensures
        final(buffer)@ == filled(
            old(buffer)@,
            task.task_index as nat,
            outcome_fragment(
                task.task_index as nat,
                task.formula_text@,
                !(task.mode is Display),
                *outcome,
            ),
        ),
        final(buffer).wf(),
{
    let fragment = outcome_html(task, outcome);
    buffer.fill(task.task_index, fragment.as_str());
}

/// The report entry for a failure of `task`.
pub open spec fn failure_of(task: FormulaTask, error: RenderError) -> FormulaError {
    FormulaError { formula: task.formula_text, error, formula_index: task.task_index }
}

/// The errors are in ascending order of task.
pub open spec fn sorted_by_task(es: Seq<FormulaError>) -> bool {
    forall|i: int, j: int| 0 <= i < j < es.len() ==> es[i].formula_index <= es[j].formula_index
}

/// The failures collected while formulas come in.
pub struct ErrorReport {
    entries: Vec<FormulaError>,
}

impl View for ErrorReport {
    type V = Seq<FormulaError>;

    closed spec fn view(&self) -> Seq<FormulaError> {
        self.entries@
    }
}

impl ErrorReport {
    pub fn new() -> (r: ErrorReport)
        ensures
            r@ == Seq::<FormulaError>::empty(),
    {
        ErrorReport { entries: Vec::new() }
    }

    /// Adds a failure of `task`.
    pub fn record(&mut self, task: &FormulaTask, error: RenderError)
        ensures
            final(self)@ == old(self)@.push(failure_of(*task, error)),
    {
        self.entries.push(
            FormulaError {
                formula: task.formula_text.clone(),
                error,
                formula_index: task.task_index,
            },
        );
    }

    /// The number of failures so far.
    pub fn len(&self) -> (r: usize)
        ensures
            r == self@.len(),
    {
        self.entries.len()
    }

    /// The failures, in ascending order of task, whatever order they came in.
    pub fn into_sorted(self) -> (r: Vec<FormulaError>)
        ensures
            sorted_by_task(r@),
            r@.to_multiset() == self@.to_multiset(),
    {
        broadcast use vstd::multiset::group_multiset_axioms;
        broadcast use vstd::seq_lib::group_to_multiset_ensures;

        let mut rest = self.entries;
        let ghost all = rest@;
        let mut out: Vec<FormulaError> = Vec::new();
        proof {
            assert(all.subrange(0, all.len() as int) =~= all);
            assert(all.subrange(0, all.len() as int).to_multiset() =~= out@.to_multiset().add(
                all.subrange(0, all.len() as int).to_multiset(),
            ));
        }
        while rest.len() > 0
            invariant
                sorted_by_task(out@),
                rest@ == all.subrange(0, rest@.len() as int),
                rest@.len() <= all.len(),
                all.to_multiset() == out@.to_multiset().add(rest@.to_multiset()),
            decreases rest@.len(),
        {
            let ghost before_rest = rest@;
            let e = rest.pop().unwrap();
            proof {
                assert(before_rest =~= rest@.push(e));
                to_multiset_build(rest@, e);
            }
            let mut pos: usize = 0;
            while pos < out.len() && out[pos].formula_index <= e.formula_index
                invariant
                    pos <= out@.len(),
                    forall|k: int| 0 <= k < pos ==> out@[k].formula_index <= e.formula_index,
                decreases out@.len() - pos,
            {
                pos = pos + 1;
            }
            let ghost before_out = out@;
            out.insert(pos, e);
            proof {
                to_multiset_insert(before_out, pos as int, e);
                assert(rest@ == all.subrange(0, rest@.len() as int));
                assert forall|i: int, j: int| 0 <= i < j < out@.len() implies out@[i].formula_index
                    <= out@[j].formula_index by {
                    if j < pos {
                    } else if j == pos {
                        assert(out@[i] == before_out[i]);
                    } else if i < pos {
                        assert(out@[j] == before_out[j - 1]);
                        if pos < before_out.len() {
                            assert(before_out[pos as int].formula_index > e.formula_index);
                        }
                    } else if i == pos {
                        assert(out@[j] == before_out[j - 1]);
                        assert(before_out[pos as int].formula_index > e.formula_index);
                        assert(before_out[pos as int].formula_index <= before_out[j - 1].formula_index
                            || pos == j - 1);
                    } else {
                        assert(out@[i] == before_out[i - 1]);
                        assert(out@[j] == before_out[j - 1]);
                    }
                }
                assert(all.to_multiset() =~= out@.to_multiset().add(rest@.to_multiset()));
            }
        }
        proof {
            assert(rest@.to_multiset() =~= vstd::multiset::Multiset::empty());
            assert(out@.to_multiset() =~= all.to_multiset());
        }
        out
    }
}

/// The runs once the fragments `fills` (task, fragment) have come in, in
/// that order.
pub open spec fn merged(ps: Seq<Piece>, fills: Seq<(nat, Seq<char>)>) -> Seq<Piece>
    decreases fills.len(),
{
    if fills.len() == 0 {
        ps
    } else {
        filled(merged(ps, fills.drop_last()), fills.last().0, fills.last().1)
    }
}

/// The task and fragment that outcome `x` for task position `x.0` brings.
pub open spec fn outcome_fill(tasks: Seq<FormulaTask>, x: (usize, RenderOutcome)) -> (nat, Seq<char>) {
    let t = tasks[x.0 as int];
    (
        t.task_index as nat,
        outcome_fragment(t.task_index as nat, t.formula_text@, !(t.mode is Display), x.1),
    )
}

pub open spec fn fills_of(tasks: Seq<FormulaTask>, outs: Seq<(usize, RenderOutcome)>) -> Seq<(nat, Seq<char>)> {
    outs.map_values(|x: (usize, RenderOutcome)| outcome_fill(tasks, x))
}

/// The report entries of the failed outcomes among `outs`, in their order.
pub open spec fn failures(tasks: Seq<FormulaTask>, outs: Seq<(usize, RenderOutcome)>) -> Seq<FormulaError>
    decreases outs.len(),
{
    if outs.len() == 0 {
        Seq::empty()
    } else {
        let rest = failures(tasks, outs.drop_last());
        match outs.last().1 {
            RenderOutcome::Failed(e) => rest.push(failure_of(tasks[outs.last().0 as int], e)),
            RenderOutcome::Rendered(_) => rest,
        }
    }
}

/// Assembles the document from its scanned `buffer` and the outcomes of its
/// `tasks`, given as (position in `tasks`, outcome) in the order they were
/// completed. Returns the document text and the failures, sorted by task.
pub fn assemble(
    buffer: DocumentBuffer,
    tasks: &Vec<FormulaTask>,
    outcomes: Vec<(usize, RenderOutcome)>,
) -> (r: (String, Vec<FormulaError>))
    requires
        buffer.wf(),
        forall|k: int| 0 <= k < outcomes@.len() ==> (#[trigger] outcomes@[k]).0 < tasks@.len(),
        forall|k: int| 0 <= k < tasks@.len() ==> (#[trigger] tasks@[k]).task_index < usize::MAX,
    ensures
        r.0@ == pieces_text(merged(buffer@, fills_of(tasks@, outcomes@))),
        sorted_by_task(r.1@),
        r.1@.to_multiset() == failures(tasks@, outcomes@).to_multiset(),
        outcomes@.len() == 0 ==> r.0@ == pieces_text(buffer@) && r.1@.len() == 0,
{
    let ghost all = outcomes@;
    let ghost start = buffer@;
    let mut buffer = buffer;
    let mut outcomes = outcomes;
    let mut report = ErrorReport::new();
    let ghost mut done: int = 0;
    proof {
        assert(all.subrange(0, 0) =~= Seq::<(usize, RenderOutcome)>::empty());
        assert(fills_of(tasks@, all.subrange(0, 0)) =~= Seq::<(nat, Seq<char>)>::empty());
        assert(all.subrange(0, all.len() as int) =~= all);
    }
    while outcomes.len() > 0
        invariant
            0 <= done <= all.len(),
            outcomes@ == all.subrange(done, all.len() as int),
            buffer.wf(),
            buffer@ == merged(start, fills_of(tasks@, all.subrange(0, done))),
            report@ == failures(tasks@, all.subrange(0, done)),
            forall|k: int| 0 <= k < all.len() ==> (#[trigger] all[k]).0 < tasks@.len(),
            forall|k: int| 0 <= k < tasks@.len() ==> (#[trigger] tasks@[k]).task_index < usize::MAX,
        decreases outcomes@.len(),
    {
        let (k, outcome) = outcomes.remove(0);
        proof {
            assert(all[done] == (k, outcome));
        }
        let task = &tasks[k];
        merge_outcome(&mut buffer, task, &outcome);
        match outcome {
            RenderOutcome::Failed(e) => report.record(task, e),
            RenderOutcome::Rendered(_) => {},
        }
        proof {
            let prefix = all.subrange(0, done + 1);
            assert(prefix.drop_last() =~= all.subrange(0, done));
            assert(prefix.last() == all[done]);
            assert(fills_of(tasks@, prefix) =~= fills_of(tasks@, all.subrange(0, done)).push(
                outcome_fill(tasks@, all[done]),
            ));
            assert(fills_of(tasks@, prefix).drop_last() =~= fills_of(tasks@, all.subrange(0, done)));
            assert(outcomes@ =~= all.subrange(done + 1, all.len() as int));
            done = done + 1;
        }
    }
    proof {
        assert(all.subrange(0, done) =~= all);
    }
    let text = buffer.text();
    let errors = report.into_sorted();
    proof {
        broadcast use vstd::seq_lib::group_to_multiset_ensures;
        broadcast use vstd::multiset::group_multiset_axioms;

        if all.len() == 0 {
            assert(failures(tasks@, all) =~= Seq::<FormulaError>::empty());
            assert(Seq::<FormulaError>::empty().to_multiset().len() == 0);
            assert(errors@.len() == 0);
        }
    }
    (text, errors)
}

/// No two fragments are for the same task.
pub open spec fn ids_distinct(fills: Seq<(nat, Seq<char>)>) -> bool {
    forall|i: int, j: int| 0 <= i < j < fills.len() ==> fills[i].0 != fills[j].0
}

pub open spec fn has_fill(fills: Seq<(nat, Seq<char>)>, id: nat) -> bool {
    exists|k: int| 0 <= k < fills.len() && fills[k].0 == id
}

/// The run `p` with the fragment for its slot, if one came in.
pub open spec fn resolve(p: Piece, fills: Seq<(nat, Seq<char>)>) -> Piece {
    match p {
        Piece::Slot(i) => if has_fill(fills, i) {
            Piece::Text(fills[choose|k: int| 0 <= k < fills.len() && fills[k].0 == i].1)
        } else {
            p
        },
        Piece::Text(_) => p,
    }
}

pub open spec fn resolved(ps: Seq<Piece>, fills: Seq<(nat, Seq<char>)>) -> Seq<Piece> {
    ps.map_values(|p: Piece| resolve(p, fills))
}

/// With one fragment per task, merging puts each fragment in its own slot,
/// whatever came before it.
pub proof fn lemma_merged_resolved(ps: Seq<Piece>, fills: Seq<(nat, Seq<char>)>)
    requires
        ids_distinct(fills),
    ensures
        merged(ps, fills) == resolved(ps, fills),
    decreases fills.len(),
{
    if fills.len() == 0 {
        assert(resolved(ps, fills) =~= ps);
    } else {
        let f0 = fills.drop_last();
        let last = fills.last();
        let n = fills.len() - 1;
        assert(ids_distinct(f0));
        lemma_merged_resolved(ps, f0);
        let m = merged(ps, fills);
        let r = resolved(ps, fills);
        assert forall|j: int| 0 <= j < ps.len() implies m[j] == r[j] by {
            match ps[j] {
                Piece::Slot(i) => {
                    if i == last.0 {
                        assert(fills[n].0 == i);
                        assert(has_fill(fills, i));
                        let c = choose|k: int| 0 <= k < fills.len() && fills[k].0 == i;
                        assert(c == n);
                        if has_fill(f0, i) {
                            let k = choose|k: int| 0 <= k < f0.len() && f0[k].0 == i;
                            assert(fills[k].0 == fills[n].0);
                        }
                    } else if has_fill(f0, i) {
                        let k0 = choose|k: int| 0 <= k < f0.len() && f0[k].0 == i;
                        assert(fills[k0].0 == i);
                        assert(has_fill(fills, i));
                        let c = choose|k: int| 0 <= k < fills.len() && fills[k].0 == i;
                        assert(c != n);
                        assert(c == k0);
                    } else {
                        if has_fill(fills, i) {
                            let c = choose|k: int| 0 <= k < fills.len() && fills[k].0 == i;
                            assert(c != n);
                            assert(f0[c].0 == i);
                        }
                    }
                },
                Piece::Text(_) => {},
            }
        }
        assert(m =~= r);
    }
}

/// The document does not depend on the order in which rendered formulas
/// come in: two orders of the same fragments, one per task, merge into the
/// same runs.
pub proof fn lemma_merge_order_independent(
    ps: Seq<Piece>,
    a: Seq<(nat, Seq<char>)>,
    b: Seq<(nat, Seq<char>)>,
)
    requires
        ids_distinct(a),
        ids_distinct(b),
        a.to_set() == b.to_set(),
    ensures
        merged(ps, a) == merged(ps, b),
{
    lemma_merged_resolved(ps, a);
    lemma_merged_resolved(ps, b);
    assert forall|j: int| 0 <= j < ps.len() implies resolve(ps[j], a) == resolve(ps[j], b) by {
        match ps[j] {
            Piece::Slot(i) => {
                if has_fill(a, i) {
                    let ca = choose|k: int| 0 <= k < a.len() && a[k].0 == i;
                    assert(a.to_set().contains(a[ca]));
                    assert(b.contains(a[ca]));
                    let m = choose|k: int| 0 <= k < b.len() && b[k] == a[ca];
                    assert(b[m].0 == i);
                    assert(has_fill(b, i));
                    let cb = choose|k: int| 0 <= k < b.len() && b[k].0 == i;
                    if cb != m {
                        if cb < m {
                            assert(b[cb].0 != b[m].0);
                        } else {
                            assert(b[m].0 != b[cb].0);
                        }
                    }
                } else if has_fill(b, i) {
                    let cb = choose|k: int| 0 <= k < b.len() && b[k].0 == i;
                    assert(b.to_set().contains(b[cb]));
                    assert(a.contains(b[cb]));
                    let m = choose|k: int| 0 <= k < a.len() && a[k] == b[cb];
                    assert(a[m].0 == i);
                }
            },
            Piece::Text(_) => {},
        }
    }
    assert(resolved(ps, a) =~= resolved(ps, b));
}

/// Once a fragment for every task below `n` has come in, one per task, no
/// slot is left open: the document text holds no placeholder token.
pub proof fn lemma_all_slots_filled(ps: Seq<Piece>, fills: Seq<(nat, Seq<char>)>, n: nat)
    requires
        slots_below(ps, n),
        ids_distinct(fills),
        forall|i: nat| i < n ==> has_fill(fills, i),
    ensures
        forall|j: int| 0 <= j < merged(ps, fills).len() ==> (#[trigger] merged(ps, fills)[j]) is Text,
{
    lemma_merged_resolved(ps, fills);
    assert forall|j: int| 0 <= j < ps.len() implies resolve(ps[j], fills) is Text by {
        match ps[j] {
            Piece::Slot(i) => {
                assert(match ps[j] {
                    Piece::Slot(k) => k < n,
                    Piece::Text(_) => true,
                });
                assert(has_fill(fills, i));
            },
            Piece::Text(_) => {},
        }
    }
}

/// An image without pixels takes its slot away, leaving nothing in its
/// place, and is no failure.
pub proof fn lemma_empty_image_leaves_nothing(
    tasks: Seq<FormulaTask>,
    outs: Seq<(usize, RenderOutcome)>,
    k: usize,
    r: FormulaRenderResult,
)
    requires
        r.data@.len() == 0,
    ensures
        outcome_fragment(
            tasks[k as int].task_index as nat,
            tasks[k as int].formula_text@,
            !(tasks[k as int].mode is Display),
            RenderOutcome::Rendered(r),
        ) == Seq::<char>::empty(),
        failures(tasks, outs.push((k, RenderOutcome::Rendered(r)))) == failures(tasks, outs),
{
    assert(outs.push((k, RenderOutcome::Rendered(r))).drop_last() =~= outs);
}

/// Each outcome is for a different task position.
pub open spec fn positions_distinct(outs: Seq<(usize, RenderOutcome)>) -> bool {
    forall|i: int, j: int| 0 <= i < j < outs.len() ==> outs[i].0 != outs[j].0
}

/// Different tasks have different indices.
pub open spec fn task_indices_distinct(tasks: Seq<FormulaTask>) -> bool {
    forall|i: int, j: int| 0 <= i < j < tasks.len() ==> tasks[i].task_index != tasks[j].task_index
}

proof fn lemma_fills_distinct(tasks: Seq<FormulaTask>, outs: Seq<(usize, RenderOutcome)>)
    requires
        positions_distinct(outs),
        task_indices_distinct(tasks),
        forall|k: int| 0 <= k < outs.len() ==> (#[trigger] outs[k]).0 < tasks.len(),
    ensures
        ids_distinct(fills_of(tasks, outs)),
{
    let f = fills_of(tasks, outs);
    assert forall|i: int, j: int| 0 <= i < j < f.len() implies f[i].0 != f[j].0 by {
        let (a, b) = (outs[i].0 as int, outs[j].0 as int);
        assert(a != b);
        if a < b {
            assert(tasks[a].task_index != tasks[b].task_index);
        } else {
            assert(tasks[b].task_index != tasks[a].task_index);
        }
    }
}

proof fn lemma_fills_subset(tasks: Seq<FormulaTask>, a: Seq<(usize, RenderOutcome)>, b: Seq<(usize, RenderOutcome)>)
    requires
        a.to_set() == b.to_set(),
    ensures
        forall|x: (nat, Seq<char>)| fills_of(tasks, a).contains(x) ==> fills_of(tasks, b).contains(x),
{
    assert forall|x: (nat, Seq<char>)| fills_of(tasks, a).contains(x) implies fills_of(tasks, b).contains(x) by {
        let k = choose|k: int| 0 <= k < fills_of(tasks, a).len() && fills_of(tasks, a)[k] == x;
        assert(a.to_set().contains(a[k]));
        assert(b.contains(a[k]));
        let m = choose|m: int| 0 <= m < b.len() && b[m] == a[k];
        assert(fills_of(tasks, b)[m] == x);
    }
}

/// The order in which workers complete does not change the document: the
/// same outcomes, one per task, assembled in any two orders give the same
/// runs.
pub proof fn lemma_completion_order_irrelevant(
    ps: Seq<Piece>,
    tasks: Seq<FormulaTask>,
    a: Seq<(usize, RenderOutcome)>,
    b: Seq<(usize, RenderOutcome)>,
)
    requires
        task_indices_distinct(tasks),
        positions_distinct(a),
        positions_distinct(b),
        a.to_set() == b.to_set(),
        forall|k: int| 0 <= k < a.len() ==> (#[trigger] a[k]).0 < tasks.len(),
        forall|k: int| 0 <= k < b.len() ==> (#[trigger] b[k]).0 < tasks.len(),
    ensures
        merged(ps, fills_of(tasks, a)) == merged(ps, fills_of(tasks, b)),
{
    lemma_fills_distinct(tasks, a);
    lemma_fills_distinct(tasks, b);
    lemma_fills_subset(tasks, a, b);
    lemma_fills_subset(tasks, b, a);
    assert(fills_of(tasks, a).to_set() =~= fills_of(tasks, b).to_set());
    lemma_merge_order_independent(ps, fills_of(tasks, a), fills_of(tasks, b));
}

/// Some outcome is for task position `i`.
pub open spec fn has_outcome(outs: Seq<(usize, RenderOutcome)>, i: int) -> bool {
    exists|k: int| 0 <= k < outs.len() && outs[k].0 == i
}

/// Once an outcome for every scanned task has been assembled, one per task,
/// no slot is left open: no placeholder token remains in the document.
pub proof fn lemma_every_outcome_closes_every_slot(
    ps: Seq<Piece>,
    tasks: Seq<FormulaTask>,
    outs: Seq<(usize, RenderOutcome)>,
)
    requires
        slots_below(ps, tasks.len()),
        forall|i: int| 0 <= i < tasks.len() ==> (#[trigger] tasks[i]).task_index == i,
        positions_distinct(outs),
        forall|k: int| 0 <= k < outs.len() ==> (#[trigger] outs[k]).0 < tasks.len(),
        forall|i: int| 0 <= i < tasks.len() ==> #[trigger] has_outcome(outs, i),
    ensures
        forall|j: int|
            0 <= j < merged(ps, fills_of(tasks, outs)).len() ==> (#[trigger] merged(
                ps,
                fills_of(tasks, outs),
            )[j]) is Text,
{
    let fills = fills_of(tasks, outs);
    assert(task_indices_distinct(tasks)) by {
        assert forall|i: int, j: int| 0 <= i < j < tasks.len() implies tasks[i].task_index
            != tasks[j].task_index by {
            assert(tasks[i].task_index == i);
            assert(tasks[j].task_index == j);
        }
    }
    lemma_fills_distinct(tasks, outs);
    assert forall|i: nat| i < tasks.len() implies has_fill(fills, i) by {
        assert(has_outcome(outs, i as int));
        let k = choose|k: int| 0 <= k < outs.len() && outs[k].0 == i;
        assert(tasks[i as int].task_index == i);
        assert(fills[k].0 == i);
    }
    lemma_all_slots_filled(ps, fills, tasks.len());
}

/// No two errors are for the same task.
pub open spec fn keys_distinct(es: Seq<FormulaError>) -> bool {
    forall|i: int, j: int| 0 <= i < es.len() && 0 <= j < es.len() && i != j ==> es[i].formula_index
        != es[j].formula_index
}

/// Outcome `k` of `outs` failed, and `x` is its report entry.
pub open spec fn reports(tasks: Seq<FormulaTask>, outs: Seq<(usize, RenderOutcome)>, k: int, x: FormulaError) -> bool {
    &&& 0 <= k < outs.len()
    &&& outs[k].1 is Failed
    &&& x == failure_of(tasks[outs[k].0 as int], outs[k].1->Failed_0)
}

proof fn lemma_failures_contains(tasks: Seq<FormulaTask>, outs: Seq<(usize, RenderOutcome)>, x: FormulaError)
    ensures
        failures(tasks, outs).contains(x) <==> exists|k: int| reports(tasks, outs, k, x),
    decreases outs.len(),
{
    if outs.len() > 0 {
        let init = outs.drop_last();
        let n = outs.len() - 1;
        lemma_failures_contains(tasks, init, x);
        let rest = failures(tasks, init);
        let f = failures(tasks, outs);
        assert(outs.drop_last() == init);
        assert(f.len() >= rest.len());
        assert forall|i: int| 0 <= i < rest.len() implies f[i] == rest[i] by {}
        if exists|k: int| reports(tasks, init, k, x) {
            let k = choose|k: int| reports(tasks, init, k, x);
            assert(reports(tasks, outs, k, x));
            let i = choose|i: int| 0 <= i < rest.len() && rest[i] == x;
            assert(f[i] == x);
        }
        if exists|k: int| reports(tasks, outs, k, x) {
            let k = choose|k: int| reports(tasks, outs, k, x);
            if k < n {
                assert(reports(tasks, init, k, x));
                let i = choose|i: int| 0 <= i < rest.len() && rest[i] == x;
                assert(f[i] == x);
            } else {
                assert(f[f.len() - 1] == x);
            }
        }
        if failures(tasks, outs).contains(x) {
            let i = choose|i: int| 0 <= i < failures(tasks, outs).len() && failures(tasks, outs)[i] == x;
            if i < failures(tasks, init).len() {
                assert(failures(tasks, init)[i] == x);
            } else {
                assert(reports(tasks, outs, n, x));
            }
        }
    }
}

proof fn lemma_failures_keys_distinct(tasks: Seq<FormulaTask>, outs: Seq<(usize, RenderOutcome)>)
    requires
        positions_distinct(outs),
        task_indices_distinct(tasks),
        forall|k: int| 0 <= k < outs.len() ==> (#[trigger] outs[k]).0 < tasks.len(),
    ensures
        keys_distinct(failures(tasks, outs)),
    decreases outs.len(),
{
    if outs.len() > 0 {
        let init = outs.drop_last();
        let n = outs.len() - 1;
        assert(positions_distinct(init));
        assert forall|k: int| 0 <= k < init.len() implies (#[trigger] init[k]).0 < tasks.len() by {
            assert(init[k] == outs[k]);
        }
        lemma_failures_keys_distinct(tasks, init);
        let rest = failures(tasks, init);
        let f = failures(tasks, outs);
        if outs[n].1 is Failed {
            assert forall|i: int, j: int| 0 <= i < f.len() && 0 <= j < f.len() && i != j implies f[i].formula_index
                != f[j].formula_index by {
                if i < rest.len() && j < rest.len() {
                } else {
                    let m = if i < rest.len() { i } else { j };
                    assert(rest.contains(f[m]));
                    lemma_failures_contains(tasks, init, f[m]);
                    let k = choose|k: int| reports(tasks, init, k, f[m]);
                    let (a, b) = (outs[k].0 as int, outs[n].0 as int);
                    assert(a != b);
                    if a < b {
                        assert(tasks[a].task_index != tasks[b].task_index);
                    } else {
                        assert(tasks[b].task_index != tasks[a].task_index);
                    }
                }
            }
        }
    }
}

proof fn lemma_strictly_sorted_equal(x: Seq<FormulaError>, y: Seq<FormulaError>)
    requires
        sorted_by_task(x),
        keys_distinct(x),
        sorted_by_task(y),
        keys_distinct(y),
        forall|e: FormulaError| x.contains(e) <==> y.contains(e),
    ensures
        x == y,
    decreases x.len(),
{
    if x.len() == 0 {
        if y.len() > 0 {
            assert(y.contains(y[0]));
        }
        assert(x =~= y);
    } else {
        assert(x.contains(x[0]));
        let m = choose|m: int| 0 <= m < y.len() && y[m] == x[0];
        assert(y.contains(y[0]));
        let n = choose|n: int| 0 <= n < x.len() && x[n] == y[0];
        assert(x[0].formula_index <= x[n].formula_index);
        assert(y[0].formula_index <= y[m].formula_index);
        if n != 0 {
            assert(x[0].formula_index != x[n].formula_index);
        }
        let (xt, yt) = (x.drop_first(), y.drop_first());
        assert forall|e: FormulaError| xt.contains(e) <==> yt.contains(e) by {
            if xt.contains(e) {
                let i = choose|i: int| 0 <= i < xt.len() && xt[i] == e;
                assert(x[i + 1] == e);
                assert(x[0].formula_index != e.formula_index);
                assert(y.contains(e));
                let j = choose|j: int| 0 <= j < y.len() && y[j] == e;
                assert(j != 0);
                assert(yt[j - 1] == e);
            }
            if yt.contains(e) {
                let i = choose|i: int| 0 <= i < yt.len() && yt[i] == e;
                assert(y[i + 1] == e);
                assert(y[0].formula_index != e.formula_index);
                assert(x.contains(e));
                let j = choose|j: int| 0 <= j < x.len() && x[j] == e;
                assert(j != 0);
                assert(xt[j - 1] == e);
            }
        }
        lemma_strictly_sorted_equal(xt, yt);
        assert(x[0] == y[0]);
        assert(x.len() == y.len());
        assert forall|i: int| 0 <= i < x.len() implies x[i] == y[i] by {
            if i > 0 {
                assert(x[i] == xt[i - 1]);
                assert(y[i] == yt[i - 1]);
            }
        }
        assert(x =~= y);
    }
}

proof fn lemma_report_matches_failures(
    tasks: Seq<FormulaTask>,
    outs: Seq<(usize, RenderOutcome)>,
    r: Seq<FormulaError>,
)
    requires
        positions_distinct(outs),
        task_indices_distinct(tasks),
        forall|k: int| 0 <= k < outs.len() ==> (#[trigger] outs[k]).0 < tasks.len(),
        r.to_multiset() == failures(tasks, outs).to_multiset(),
    ensures
        keys_distinct(r),
        forall|e: FormulaError| r.contains(e) <==> failures(tasks, outs).contains(e),
{
    broadcast use vstd::seq_lib::to_multiset_contains;

    let f = failures(tasks, outs);
    lemma_failures_keys_distinct(tasks, outs);
    assert(f.no_duplicates());
    f.lemma_multiset_has_no_duplicates();
    r.lemma_multiset_has_no_duplicates_conv();
    assert forall|e: FormulaError| r.contains(e) <==> f.contains(e) by {
        assert(r.to_multiset().count(e) == f.to_multiset().count(e));
    }
    assert forall|i: int, j: int| 0 <= i < r.len() && 0 <= j < r.len() && i != j implies r[i].formula_index
        != r[j].formula_index by {
        assert(r.contains(r[i]));
        assert(r.contains(r[j]));
        let a = choose|a: int| 0 <= a < f.len() && f[a] == r[i];
        let b = choose|b: int| 0 <= b < f.len() && f[b] == r[j];
        assert(r[i] != r[j]);
        assert(a != b);
    }
}

/// The error report does not depend on the order in which workers complete:
/// reports that [`assemble`] may give for two orders of the same outcomes,
/// one per task, are the same list.
pub proof fn lemma_report_order_irrelevant(
    tasks: Seq<FormulaTask>,
    a: Seq<(usize, RenderOutcome)>,
    b: Seq<(usize, RenderOutcome)>,
    ra: Seq<FormulaError>,
    rb: Seq<FormulaError>,
)
    requires
        task_indices_distinct(tasks),
        positions_distinct(a),
        positions_distinct(b),
        a.to_set() == b.to_set(),
        forall|k: int| 0 <= k < a.len() ==> (#[trigger] a[k]).0 < tasks.len(),
        forall|k: int| 0 <= k < b.len() ==> (#[trigger] b[k]).0 < tasks.len(),
        sorted_by_task(ra),
        ra.to_multiset() == failures(tasks, a).to_multiset(),
        sorted_by_task(rb),
        rb.to_multiset() == failures(tasks, b).to_multiset(),
    ensures
        ra == rb,
{
    lemma_report_matches_failures(tasks, a, ra);
    lemma_report_matches_failures(tasks, b, rb);
    assert forall|e: FormulaError| ra.contains(e) <==> rb.contains(e) by {
        lemma_failures_contains(tasks, a, e);
        lemma_failures_contains(tasks, b, e);
        if exists|k: int| reports(tasks, a, k, e) {
            let k = choose|k: int| reports(tasks, a, k, e);
            assert(a.to_set().contains(a[k]));
            assert(b.contains(a[k]));
            let m = choose|m: int| 0 <= m < b.len() && b[m] == a[k];
            assert(reports(tasks, b, m, e));
        }
        if exists|k: int| reports(tasks, b, k, e) {
            let k = choose|k: int| reports(tasks, b, k, e);
            assert(b.to_set().contains(b[k]));
            assert(a.contains(b[k]));
            let m = choose|m: int| 0 <= m < a.len() && a[m] == b[k];
            assert(reports(tasks, a, m, e));
        }
    }
    lemma_strictly_sorted_equal(ra, rb);
}

proof fn lemma_failures_single(tasks: Seq<FormulaTask>, outs: Seq<(usize, RenderOutcome)>, p: int)
    requires
        0 <= p < outs.len(),
        outs[p].1 is Failed,
        forall|k: int| 0 <= k < outs.len() && k != p ==> (#[trigger] outs[k]).1 is Rendered,
    ensures
        failures(tasks, outs) == seq![failure_of(tasks[outs[p].0 as int], outs[p].1->Failed_0)],
    decreases outs.len(),
{
    let init = outs.drop_last();
    let n = outs.len() - 1;
    if p < n {
        assert forall|k: int| 0 <= k < init.len() && k != p implies (#[trigger] init[k]).1 is Rendered by {
            assert(init[k] == outs[k]);
        }
        assert(init[p] == outs[p]);
        lemma_failures_single(tasks, init, p);
        assert(outs[n].1 is Rendered);
    } else {
        lemma_failures_none(tasks, init);
        assert(Seq::<FormulaError>::empty().push(failure_of(tasks[outs[p].0 as int], outs[p].1->Failed_0))
            =~= seq![failure_of(tasks[outs[p].0 as int], outs[p].1->Failed_0)]);
    }
}

proof fn lemma_failures_none(tasks: Seq<FormulaTask>, outs: Seq<(usize, RenderOutcome)>)
    requires
        forall|k: int| 0 <= k < outs.len() ==> (#[trigger] outs[k]).1 is Rendered,
    ensures
        failures(tasks, outs) == Seq::<FormulaError>::empty(),
    decreases outs.len(),
{
    if outs.len() > 0 {
        let init = outs.drop_last();
        assert forall|k: int| 0 <= k < init.len() implies (#[trigger] init[k]).1 is Rendered by {
            assert(init[k] == outs[k]);
        }
        lemma_failures_none(tasks, init);
        assert(outs[outs.len() - 1].1 is Rendered);
    }
}

/// One failing formula does not spread: when exactly one outcome failed,
/// the report holds exactly that formula, and its slot holds the error
/// marker while every other slot holds its own fragment.
pub proof fn lemma_single_failure_contained(
    ps: Seq<Piece>,
    tasks: Seq<FormulaTask>,
    outs: Seq<(usize, RenderOutcome)>,
    p: int,
    report: Seq<FormulaError>,
)
    requires
        task_indices_distinct(tasks),
        positions_distinct(outs),
        forall|k: int| 0 <= k < outs.len() ==> (#[trigger] outs[k]).0 < tasks.len(),
        0 <= p < outs.len(),
        outs[p].1 is Failed,
        forall|k: int| 0 <= k < outs.len() && k != p ==> (#[trigger] outs[k]).1 is Rendered,
        report.to_multiset() == failures(tasks, outs).to_multiset(),
    ensures
        report == seq![failure_of(tasks[outs[p].0 as int], outs[p].1->Failed_0)],
        forall|j: int, k: int|
            0 <= j < ps.len() && 0 <= k < outs.len() && ps[j] == Piece::Slot(
                tasks[outs[k].0 as int].task_index as nat,
            ) ==> #[trigger] merged(ps, fills_of(tasks, outs))[j] == Piece::Text(
                #[trigger] outcome_fill(tasks, outs[k]).1,
            ),
{
    broadcast use vstd::seq_lib::group_to_multiset_ensures;
    broadcast use vstd::multiset::group_multiset_axioms;

    let x = failure_of(tasks[outs[p].0 as int], outs[p].1->Failed_0);
    lemma_failures_single(tasks, outs, p);
    assert(seq![x] =~= Seq::<FormulaError>::empty().push(x));
    vstd::seq_lib::to_multiset_len(report);
    vstd::seq_lib::to_multiset_len(seq![x]);
    assert(report.len() == 1);
    assert(report.contains(report[0]));
    vstd::seq_lib::to_multiset_contains(report, report[0]);
    vstd::seq_lib::to_multiset_contains(seq![x], report[0]);
    assert(seq![x].contains(report[0]));
    assert(report =~= seq![x]);
    let fills = fills_of(tasks, outs);
    lemma_fills_distinct(tasks, outs);
    lemma_merged_resolved(ps, fills);
    assert forall|j: int, k: int|
        0 <= j < ps.len() && 0 <= k < outs.len() && ps[j] == Piece::Slot(
            tasks[outs[k].0 as int].task_index as nat,
        ) implies #[trigger] merged(ps, fills)[j] == Piece::Text(
        #[trigger] outcome_fill(tasks, outs[k]).1,
    ) by {
        let i = tasks[outs[k].0 as int].task_index as nat;
        assert(fills[k].0 == i);
        assert(has_fill(fills, i));
        let c = choose|c: int| 0 <= c < fills.len() && fills[c].0 == i;
        if c != k {
            if c < k {
                assert(fills[c].0 != fills[k].0);
            } else {
                assert(fills[k].0 != fills[c].0);
            }
        }
    }
}

} // verus!
