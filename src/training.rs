use vstd::prelude::*;

use crate::dataset::Dataset;

verus! {

/// `trace` is a run of `step`: each entry is a result that `step` may give on
/// the entry before it.
pub open spec fn is_step_trace<S, F: Fn(S) -> S>(step: F, trace: Seq<S>) -> bool {
    forall|i: int| 0 <= i < trace.len() - 1 ==> #[trigger] step.ensures((trace[i],), trace[i + 1])
}

/// `r` is a state that `n` applications of `step` may reach from `start`.
pub open spec fn steps_to<S, F: Fn(S) -> S>(step: F, start: S, n: nat, r: S) -> bool {
    exists|trace: Seq<S>|
        #![trigger is_step_trace(step, trace)]
        is_step_trace(step, trace) && trace.len() == n + 1 && trace[0] == start && trace[n as int]
            == r
}

/// `step` gives at most one result for each state.
pub open spec fn step_is_functional<S, F: Fn(S) -> S>(step: F) -> bool {
    forall|s: S, r1: S, r2: S|
        #[trigger] step.ensures((s,), r1) && #[trigger] step.ensures((s,), r2) ==> r1 == r2
}

/// Two runs of a functional step from the same start agree up to position `k`.
proof fn lemma_step_traces_agree<S, F: Fn(S) -> S>(step: F, t1: Seq<S>, t2: Seq<S>, k: int)
    requires
        step_is_functional(step),
        is_step_trace(step, t1),
        is_step_trace(step, t2),
        t1[0] == t2[0],
        0 <= k < t1.len(),
        t1.len() == t2.len(),
    ensures
        t1[k] == t2[k],
    decreases k,
{
    if k > 0 {
        let j = k - 1;
        lemma_step_traces_agree(step, t1, t2, j);
        assert(step.ensures((t1[j],), t1[j + 1]));
        assert(step.ensures((t2[j],), t2[j + 1]));
    }
}

/// Training with a step that gives one result per state is deterministic: two
/// runs of the same length from the same start end in the same state.
pub proof fn lemma_steps_deterministic<S, F: Fn(S) -> S>(step: F, start: S, n: nat, r1: S, r2: S)
    requires
        step_is_functional(step),
        steps_to(step, start, n, r1),
        steps_to(step, start, n, r2),
    ensures
        r1 == r2,
{
    let t1 = choose|t: Seq<S>|
        is_step_trace(step, t) && t.len() == n + 1 && t[0] == start && t[n as int] == r1;
    let t2 = choose|t: Seq<S>|
        is_step_trace(step, t) && t.len() == n + 1 && t[0] == start && t[n as int] == r2;
    lemma_step_traces_agree(step, t1, t2, n as int);
}

impl<T> Dataset<T> {
    /// Applies `step` exactly `epochs` times, starting from `start`, and returns
    /// the last state. When the dataset is verbose, `report` is handed the
    /// epoch's index, counted from 0, and the state just reached, after each
    /// step; it cannot change the result.
    pub fn train<S: Copy, F: Fn(S) -> S, R: Fn(u64, S)>(
        &self,
        epochs: u64,
        start: S,
        step: F,
        report: R,
    ) -> (r: S)
        requires
            forall|s: S| #[trigger] step.requires((s,)),
            self.is_verbose() ==> forall|e: u64, s: S|
                e < epochs ==> #[trigger] report.requires((e, s)),
        ensures
            steps_to(step, start, epochs as nat, r),
            epochs == 0 ==> r == start,
    {
        let verbose = self.verbose();
        let ghost mut trace: Seq<S> = seq![start];
        let mut state = start;
        let mut epoch: u64 = 0;
        while epoch < epochs
            invariant
                epoch <= epochs,
                verbose == self.is_verbose(),
                trace.len() == epoch + 1,
                trace[0] == start,
                trace[epoch as int] == state,
                is_step_trace(step, trace),
                forall|s: S| #[trigger] step.requires((s,)),
                verbose ==> forall|e: u64, s: S|
                    e < epochs ==> #[trigger] report.requires((e, s)),
            decreases epochs - epoch,
        {
            let next = step(state);
            proof {
                let old_trace = trace;
                trace = trace.push(next);
                assert forall|i: int| 0 <= i < trace.len() - 1 implies #[trigger] step.ensures(
                    (trace[i],),
                    trace[i + 1],
                ) by {
                    if i < old_trace.len() - 1 {
                        assert(step.ensures((old_trace[i],), old_trace[i + 1]));
                    }
                }
            }
            state = next;
            if verbose {
                report(epoch, state);
            }
            epoch = epoch + 1;
        }
        state
    }
}

} // verus!
