use vstd::prelude::*;

verus! {

/// `trace` records a left-to-right fold of `term` over the aligned pairs of
/// `xs` and `ys`: one entry before the first pair and one after each pair,
/// each entry a result that `term` may give on the one before it and that pair.
pub open spec fn is_pair_trace<T, A, F: Fn(A, T, T) -> A>(
    xs: Seq<T>,
    ys: Seq<T>,
    term: F,
    trace: Seq<A>,
) -> bool {
    &&& ys.len() == xs.len()
    &&& trace.len() == xs.len() + 1
    &&& forall|i: int|
        0 <= i < xs.len() ==> #[trigger] term.ensures((trace[i], xs[i], ys[i]), trace[i + 1])
}

/// `r` is a result of folding `term` over the aligned pairs, first to last,
/// starting from `init`.
pub open spec fn pair_folds_to<T, A, F: Fn(A, T, T) -> A>(
    xs: Seq<T>,
    ys: Seq<T>,
    init: A,
    term: F,
    r: A,
) -> bool {
    exists|trace: Seq<A>|
        #![trigger is_pair_trace(xs, ys, term, trace)]
        is_pair_trace(xs, ys, term, trace) && trace[0] == init && trace[xs.len() as int] == r
}

/// `term` gives at most one result for each accumulator and pair.
pub open spec fn term_is_functional<T, A, F: Fn(A, T, T) -> A>(term: F) -> bool {
    forall|a: A, x: T, y: T, r1: A, r2: A|
        #[trigger] term.ensures((a, x, y), r1) && #[trigger] term.ensures((a, x, y), r2) ==> r1
            == r2
}

/// Two traces of a functional term from the same start agree up to position `k`.
proof fn lemma_pair_traces_agree<T, A, F: Fn(A, T, T) -> A>(
    xs: Seq<T>,
    ys: Seq<T>,
    term: F,
    t1: Seq<A>,
    t2: Seq<A>,
    k: int,
)
    requires
        term_is_functional(term),
        is_pair_trace(xs, ys, term, t1),
        is_pair_trace(xs, ys, term, t2),
        t1[0] == t2[0],
        0 <= k <= xs.len(),
    ensures
        t1[k] == t2[k],
    decreases k,
{
    if k > 0 {
        let j = k - 1;
        lemma_pair_traces_agree(xs, ys, term, t1, t2, j);
        assert(term.ensures((t1[j], xs[j], ys[j]), t1[j + 1]));
        assert(term.ensures((t2[j], xs[j], ys[j]), t2[j + 1]));
    }
}

/// Folding a term that gives one result per input is deterministic: two folds
/// over the same pairs from the same start end in the same value.
pub proof fn lemma_pair_fold_deterministic<T, A, F: Fn(A, T, T) -> A>(
    xs: Seq<T>,
    ys: Seq<T>,
    init: A,
    term: F,
    r1: A,
    r2: A,
)
    requires
        term_is_functional(term),
        pair_folds_to(xs, ys, init, term, r1),
        pair_folds_to(xs, ys, init, term, r2),
    ensures
        r1 == r2,
{
    let t1 = choose|t: Seq<A>|
        is_pair_trace(xs, ys, term, t) && t[0] == init && t[xs.len() as int] == r1;
    let t2 = choose|t: Seq<A>|
        is_pair_trace(xs, ys, term, t) && t[0] == init && t[xs.len() as int] == r2;
    lemma_pair_traces_agree(xs, ys, term, t1, t2, xs.len() as int);
}

/// Why a pair of observation sequences cannot form a dataset.
#[derive(Debug, Clone, Copy, PartialEq, Eq, Structural)]
pub enum DatasetError {
    /// The two sequences have different lengths, so they cannot be paired index by index.
    LengthMismatch,
    /// There are no observations at all.
    Empty,
}

/// Paired observations `(x[i], y[i])`, at least one of them, plus a flag that
/// asks the trainer to report its progress.
pub struct Dataset<T> {
    x: Vec<T>,
    y: Vec<T>,
    verbose: bool,
}

impl<T> Dataset<T> {
    /// The independent samples, in order.
    pub closed spec fn xs(&self) -> Seq<T> {
        self.x@
    }

    /// The dependent samples, in order.
    pub closed spec fn ys(&self) -> Seq<T> {
        self.y@
    }

    /// Whether progress is reported during training.
    pub closed spec fn is_verbose(&self) -> bool {
        self.verbose
    }

    /// Both sequences have the same length, and it is not zero.
    pub open spec fn wf(&self) -> bool {
        self.xs().len() == self.ys().len() && self.xs().len() > 0
    }

    /// Pairs `x` with `y`; refuses sequences of different lengths, then empty ones.
    pub fn new(x: Vec<T>, y: Vec<T>, verbose: bool) -> (r: Result<Dataset<T>, DatasetError>)
        ensures
            x@.len() != y@.len() <==> r == Err::<Dataset<T>, DatasetError>(
                DatasetError::LengthMismatch,
            ),
            x@.len() == y@.len() && x@.len() == 0 <==> r == Err::<Dataset<T>, DatasetError>(
                DatasetError::Empty,
            ),
            r is Ok <==> x@.len() == y@.len() && x@.len() > 0,
            r is Ok ==> r->Ok_0.wf(),
            r is Ok ==> r->Ok_0.xs() == x@ && r->Ok_0.ys() == y@ && r->Ok_0.is_verbose()
                == verbose,
    {
        if x.len() != y.len() {
            Err(DatasetError::LengthMismatch)
        } else if x.len() == 0 {
            Err(DatasetError::Empty)
        } else {
            Ok(Dataset { x, y, verbose })
        }
    }

    /// The number of observations, never zero.
    pub fn len(&self) -> (r: usize)
        requires
            self.wf(),
        ensures
            r == self.xs().len(),
            r == self.ys().len(),
            r > 0,
    {
        self.x.len()
    }

    /// The independent samples.
    pub fn x(&self) -> (r: &Vec<T>)
        ensures
            r@ == self.xs(),
    {
        &self.x
    }

    /// The dependent samples.
    pub fn y(&self) -> (r: &Vec<T>)
        ensures
            r@ == self.ys(),
    {
        &self.y
    }

    /// Replaces the independent sample at `i`; everything else stays.
    pub fn set_x(&mut self, i: usize, v: T)
        requires
            old(self).wf(),
            i < old(self).xs().len(),
        ensures
            final(self).wf(),
            final(self).xs() == old(self).xs().update(i as int, v),
            final(self).ys() == old(self).ys(),
            final(self).is_verbose() == old(self).is_verbose(),
    {
        self.x.set(i, v);
    }

    /// Replaces the dependent sample at `i`; everything else stays.
    pub fn set_y(&mut self, i: usize, v: T)
        requires
            old(self).wf(),
            i < old(self).ys().len(),
        ensures
            final(self).wf(),
            final(self).xs() == old(self).xs(),
            final(self).ys() == old(self).ys().update(i as int, v),
            final(self).is_verbose() == old(self).is_verbose(),
    {
        self.y.set(i, v);
    }

    /// Whether progress is reported during training.
    pub fn verbose(&self) -> (r: bool)
        ensures
            r == self.is_verbose(),
    {
        self.verbose
    }

    /// Folds `term` over the pairs `(x[i], y[i])` from the first to the last,
    /// starting from `init`; the dataset is left as it is.
    pub fn fold_pairs<A, F: Fn(A, T, T) -> A>(&self, init: A, term: F) -> (r: A) where T: Copy
        requires
            self.wf(),
            forall|acc: A, i: int|
                0 <= i < self.xs().len() ==> #[trigger] term.requires(
                    (acc, self.xs()[i], self.ys()[i]),
                ),
        ensures
            pair_folds_to(self.xs(), self.ys(), init, term, r),
    {
        let ghost xs = self.xs();
        let ghost ys = self.ys();
        let ghost mut trace: Seq<A> = seq![init];
        let mut acc = init;
        let n = self.x.len();
        let mut i: usize = 0;
        while i < n
            invariant
                n == xs.len(),
                n == ys.len(),
                xs == self.x@,
                ys == self.y@,
                0 <= i <= n,
                trace.len() == i + 1,
                trace[0] == init,
                trace[i as int] == acc,
                forall|acc: A, j: int|
                    0 <= j < xs.len() ==> #[trigger] term.requires((acc, xs[j], ys[j])),
                forall|j: int|
                    0 <= j < i ==> #[trigger] term.ensures((trace[j], xs[j], ys[j]), trace[j + 1]),
            decreases n - i,
        {
            let next = term(acc, self.x[i], self.y[i]);
            proof {
                trace = trace.push(next);
            }
            acc = next;
            i = i + 1;
        }
        assert(is_pair_trace(xs, ys, term, trace));
        acc
    }
}

} // verus!
