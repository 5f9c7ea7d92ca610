//! Decisions of the generate → score → revise loop. Totals are given in
//! tenths of a point (scores are rounded to one decimal); comparisons against
//! the caller's real-valued thresholds arrive as booleans.
use vstd::prelude::*;

verus! {

/// Why the loop stops.
#[derive(Clone, Copy, Debug, PartialEq, Eq)]
pub enum StopReason {
    /// The target score was reached with no format issues.
    TargetReached,
    /// `patience` consecutive iterations brought no substantive improvement.
    Stalled,
    /// The iteration budget is spent.
    MaxIterations,
}

/// What the loop does after scoring an iteration.
#[derive(Clone, Copy, Debug, PartialEq, Eq)]
pub enum LoopDecision {
    Revise,
    Stop(StopReason),
}

/// Loop bookkeeping: every iteration's total, the best iteration so far and the
/// current run of iterations without substantive improvement.
pub struct LoopTracker {
    totals: Vec<i64>,
    best: usize,
    stall: usize,
    patience: usize,
    max_iter: usize,
}

/// `ts[b]` is the greatest total and no earlier total equals it.
pub open spec fn is_first_max(ts: Seq<i64>, b: int) -> bool {
    0 <= b < ts.len() && (forall|k: int| 0 <= k < ts.len() ==> ts[k] <= ts[b]) && (forall|k: int|
        0 <= k < b ==> ts[k] < ts[b])
}

/// The bookkeeping after one more iteration with `total`: a strictly higher
/// total becomes the best; the stall count grows when there is no improvement,
/// or an improvement smaller than the minimum gain (`below_min`), and resets on
/// a substantive improvement (the first iteration always counts as one).
pub open spec fn step(ts: Seq<i64>, best: int, stall: int, total: i64, below_min: bool) -> (
    Seq<i64>,
    int,
    int,
) {
    let improved = ts.len() == 0 || total > ts[best];
    if improved {
        (ts.push(total), ts.len() as int, if ts.len() > 0 && below_min {
            stall + 1
        } else {
            0
        })
    } else {
        (ts.push(total), best, stall + 1)
    }
}

/// The decision after an iteration: stop at the target (with no format
/// issues), else stop when stalled `patience` times, else stop when
/// `max(max_iter, 1)` iterations are done, else revise.
pub open spec fn decide(iterations: int, stall: int, target_met: bool, patience: int, max_iter: int) -> LoopDecision {
    if target_met {
        LoopDecision::Stop(StopReason::TargetReached)
    } else if stall >= patience {
        LoopDecision::Stop(StopReason::Stalled)
    } else if iterations >= (if max_iter > 1 {
        max_iter
    } else {
        1
    }) {
        LoopDecision::Stop(StopReason::MaxIterations)
    } else {
        LoopDecision::Revise
    }
}

impl LoopTracker {
    pub closed spec fn totals_view(&self) -> Seq<i64> {
        self.totals@
    }

    pub closed spec fn best_view(&self) -> int {
        self.best as int
    }

    pub closed spec fn stall_view(&self) -> int {
        self.stall as int
    }

    pub closed spec fn patience_view(&self) -> int {
        self.patience as int
    }

    pub closed spec fn max_iter_view(&self) -> int {
        self.max_iter as int
    }

    /// Once an iteration is recorded, the best index holds the first greatest
    /// total; the stall count never exceeds the iterations.
    pub closed spec fn wf(&self) -> bool {
        &&& self.stall <= self.totals.len()
        &&& (self.totals.len() > 0 ==> is_first_max(self.totals@, self.best as int))
        &&& (self.totals.len() == 0 ==> self.stall == 0)
    }

    pub fn new(patience: usize, max_iter: usize) -> (t: Self)
        ensures
            t.wf(),
            t.totals_view() == Seq::<i64>::empty(),
            t.stall_view() == 0,
            t.patience_view() == patience,
            t.max_iter_view() == max_iter,
    {
        LoopTracker { totals: Vec::new(), best: 0, stall: 0, patience, max_iter }
    }

    /// Records an iteration's total (in tenths of a point). `gain_below_min`
    /// says whether the gain over the previous best is below the minimum gain;
    /// `target_met` whether the target was reached with no format issues.
    pub fn record(&mut self, total_tenths: i64, gain_below_min: bool, target_met: bool) -> (d:
        LoopDecision)
        requires
            old(self).wf(),
        ensures
            final(self).wf(),
            (final(self).totals_view(), final(self).best_view(), final(self).stall_view()) == step(
                old(self).totals_view(),
                old(self).best_view(),
                old(self).stall_view(),
                total_tenths,
                gain_below_min,
            ),
            final(self).patience_view() == old(self).patience_view(),
            final(self).max_iter_view() == old(self).max_iter_view(),
            d == decide(
                final(self).totals_view().len() as int,
                final(self).stall_view(),
                target_met,
                final(self).patience_view(),
                final(self).max_iter_view(),
            ),
    {
        let n = self.totals.len();
        let ghost ts = self.totals@;
        let improved = n == 0 || total_tenths > self.totals[self.best];
        self.totals.push(total_tenths);
        assert(self.totals@ =~= ts.push(total_tenths));
        assert(self.totals.len() == n + 1);
        assert(self.stall <= n);
        if improved {
            self.best = n;
            if n > 0 && gain_below_min {
                self.stall = self.stall + 1;
            } else {
                self.stall = 0;
            }
        } else {
            self.stall = self.stall + 1;
        }
        assert(self.totals@ =~= ts.push(total_tenths));
        let iterations = self.totals.len();
        let budget = if self.max_iter > 1 {
            self.max_iter
        } else {
            1
        };
        if target_met {
            LoopDecision::Stop(StopReason::TargetReached)
        } else if self.stall >= self.patience {
            LoopDecision::Stop(StopReason::Stalled)
        } else if iterations >= budget {
            LoopDecision::Stop(StopReason::MaxIterations)
        } else {
            LoopDecision::Revise
        }
    }

    /// Index of the best iteration (the first with the greatest total).
    pub fn best_index(&self) -> (r: usize)
        requires
            self.wf(),
            self.totals_view().len() > 0,
        ensures
            r == self.best_view(),
            is_first_max(self.totals_view(), r as int),
    {
        self.best
    }

    /// The best total so far, if any iteration was recorded.
    pub fn best_total(&self) -> (r: Option<i64>)
        requires
            self.wf(),
        ensures
            match r {
                Some(t) => self.totals_view().len() > 0 && t == self.totals_view()[self.best_view()],
                None => self.totals_view().len() == 0,
            },
    {
        if self.totals.len() == 0 {
            None
        } else {
            Some(self.totals[self.best])
        }
    }

    /// Number of iterations recorded.
    pub fn iterations(&self) -> (r: usize)
        ensures
            r == self.totals_view().len(),
    {
        self.totals.len()
    }
}

/// The loop never runs past its budget: once `max(max_iter, 1)` iterations are
/// recorded, the decision is to stop.
pub proof fn law_loop_respects_budget(iterations: int, stall: int, target_met: bool, patience: int, max_iter: int)
    requires
        iterations >= max_iter,
        iterations >= 1,
    ensures
        decide(iterations, stall, target_met, patience, max_iter) != LoopDecision::Revise,
{
}

/// The best iteration is always the earliest one with the greatest total, and
/// a substantive improvement resets the stall count.
pub proof fn law_best_is_first_max(ts: Seq<i64>, best: int, stall: int, total: i64, below_min: bool)
    requires
        ts.len() > 0 ==> is_first_max(ts, best),
    ensures
        is_first_max(step(ts, best, stall, total, below_min).0, step(ts, best, stall, total, below_min).1),
        (ts.len() == 0 || total > ts[best]) && !below_min ==> step(ts, best, stall, total, below_min).2 == 0,
{
    let r = step(ts, best, stall, total, below_min);
    let n = ts.len() as int;
    if ts.len() == 0 || total > ts[best] {
        assert forall|k: int| 0 <= k < r.0.len() implies #[trigger] r.0[k] <= r.0[r.1] by {
            if k < n {
                assert(r.0[k] == ts[k]);
            }
        }
        assert forall|k: int| 0 <= k < r.1 implies #[trigger] r.0[k] < r.0[r.1] by {
            assert(r.0[k] == ts[k]);
        }
    } else {
        assert forall|k: int| 0 <= k < r.0.len() implies #[trigger] r.0[k] <= r.0[r.1] by {
            if k < n {
                assert(r.0[k] == ts[k]);
            }
        }
        assert forall|k: int| 0 <= k < r.1 implies #[trigger] r.0[k] < r.0[r.1] by {
            assert(r.0[k] == ts[k]);
        }
    }
}


// ---------------------------------------------------------------------------
// Canaries
// ---------------------------------------------------------------------------

/// The gain of the best draft over the first is under 5 points (totals in
/// tenths of a point).
pub open spec fn small_gain(first_tenths: i64, best_tenths: i64) -> bool {
    best_tenths - first_tenths < 50
}

/// The length canary: the best draft is more than a quarter longer than the
/// first (which is not empty) while its total gained less than 5 points, a sign
/// of padding rather than substantive improvement.
pub open spec fn length_canary_spec(first_chars: nat, best_chars: nat, first_tenths: i64, best_tenths: i64) -> bool {
    first_chars > 0 && 4 * (best_chars - first_chars) > first_chars && small_gain(
        first_tenths,
        best_tenths,
    )
}

/// The keyword canary: the keyword occurs more than half again as often in the
/// best draft as in the first (where it occurs at all) while the total gained
/// less than 5 points, a sign of keyword stuffing.
pub open spec fn keyword_canary_spec(first_kw: nat, best_kw: nat, first_tenths: i64, best_tenths: i64) -> bool {
    first_kw > 0 && 2 * (best_kw - first_kw) > first_kw && small_gain(first_tenths, best_tenths)
}

fn gain_is_small(first_tenths: i64, best_tenths: i64) -> (r: bool)
    ensures
        r == small_gain(first_tenths, best_tenths),
{
    (best_tenths as i128) - (first_tenths as i128) < 50
}

pub fn length_canary(first_chars: usize, best_chars: usize, first_tenths: i64, best_tenths: i64) -> (r: bool)
    ensures
        r == length_canary_spec(first_chars as nat, best_chars as nat, first_tenths, best_tenths),
{
    first_chars > 0 && 4 * (best_chars as u128) > 5 * (first_chars as u128) && gain_is_small(
        first_tenths,
        best_tenths,
    )
}

pub fn keyword_canary(first_kw: usize, best_kw: usize, first_tenths: i64, best_tenths: i64) -> (r: bool)
    ensures
        r == keyword_canary_spec(first_kw as nat, best_kw as nat, first_tenths, best_tenths),
{
    first_kw > 0 && 2 * (best_kw as u128) > 3 * (first_kw as u128) && gain_is_small(
        first_tenths,
        best_tenths,
    )
}

/// The label of the loop iteration at 0-based position `i`: `iter01`, `iter02`, ...
pub open spec fn iteration_label_spec(i: nat) -> Seq<char> {
    "iter"@ + crate::cli::pad2(crate::text::decimal(i + 1))
}

pub fn iteration_label(i: usize) -> (r: String)
    requires
        i < usize::MAX,
    ensures
        r@ == iteration_label_spec(i as nat),
{
    crate::cli::numbered_label("iter", i)
}

} // verus!
