//! The integer side of tree classifiers: input checks, class counts,
//! bootstrap samples, and how tree votes become per-class counts and a
//! majority class.

use vstd::prelude::*;

use rand::rngs::StdRng;
use rand::Rng;
use rand::SeedableRng;

use crate::text::{concat2, concat3, decimal, decimal_text, owned};

verus! {

/// The seeded generator forests draw bootstrap samples from.
#[verifier::external_type_specification]
#[verifier::external_body]
pub struct ExStdRng(StdRng);

/// Why a classifier cannot be trained on the given input.
#[derive(Debug, Clone, Copy, PartialEq, Eq)]
pub enum TrainingInputError {
    /// The feature matrix and the label vector differ in length.
    LengthMismatch { rows: usize, labels: usize },
    /// There is no labelled sample.
    NoSamples,
    /// The forest would have no tree.
    NoTrees,
}

impl TrainingInputError {
    /// The diagnostic text of the error, for a classifier called `model`.
    pub fn message(&self, model: &str) -> (r: String)
        ensures
            self matches TrainingInputError::LengthMismatch { rows, labels } ==> r@
                == "feature/label length mismatch: "@ + decimal(rows as nat) + " rows vs "@
                + decimal(labels as nat) + " labels"@,
            self is NoSamples ==> r@ == model@ + " training requires at least one labelled sample"@,
            self is NoTrees ==> r@ == "n_trees must be >= 1"@,
    {
        match self {
            TrainingInputError::LengthMismatch { rows, labels } => {
                let head = concat3(
                    "feature/label length mismatch: ",
                    decimal_text(*rows).as_str(),
                    " rows vs ",
                );
                concat3(head.as_str(), decimal_text(*labels).as_str(), " labels")
            },
            TrainingInputError::NoSamples => concat2(
                model,
                " training requires at least one labelled sample",
            ),
            TrainingInputError::NoTrees => owned("n_trees must be >= 1"),
        }
    }
}

/// Why a forest cannot predict.
#[derive(Debug, Clone, Copy, PartialEq, Eq)]
pub enum PredictionError {
    /// The forest has no tree.
    Unfit,
}

impl PredictionError {
    /// The diagnostic text of the error.
    pub fn message(&self) -> (r: &'static str)
        ensures
            r@ == "predict_proba called on an unfit RandomForestModel"@,
    {
        "predict_proba called on an unfit RandomForestModel"
    }
}

/// Checks that a forest of `n_trees` trees can predict: it needs a tree.
pub fn check_fitted(n_trees: usize) -> (r: Result<(), PredictionError>)
    ensures
        n_trees == 0 ==> r == Err::<(), PredictionError>(PredictionError::Unfit),
        n_trees > 0 ==> r == Ok::<(), PredictionError>(()),
{
    if n_trees == 0 {
        Err(PredictionError::Unfit)
    } else {
        Ok(())
    }
}

/// Checks that `n_rows` feature rows come with as many labels, and that
/// there is at least one.
pub fn check_labelled_samples(n_rows: usize, n_labels: usize) -> (r: Result<(), TrainingInputError>)
    ensures
        n_rows != n_labels ==> r == Err::<(), TrainingInputError>(
            TrainingInputError::LengthMismatch { rows: n_rows, labels: n_labels },
        ),
        n_rows == n_labels && n_labels == 0 ==> r == Err::<(), TrainingInputError>(
            TrainingInputError::NoSamples,
        ),
        n_rows == n_labels && n_labels > 0 ==> r == Ok::<(), TrainingInputError>(()),
{
    if n_rows != n_labels {
        Err(TrainingInputError::LengthMismatch { rows: n_rows, labels: n_labels })
    } else if n_labels == 0 {
        Err(TrainingInputError::NoSamples)
    } else {
        Ok(())
    }
}

/// Checks the input of a forest: labelled samples as for a single tree, then
/// at least one tree.
pub fn check_forest_input(n_rows: usize, n_labels: usize, n_trees: usize) -> (r: Result<
    (),
    TrainingInputError,
>)
    ensures
        n_rows != n_labels ==> r == Err::<(), TrainingInputError>(
            TrainingInputError::LengthMismatch { rows: n_rows, labels: n_labels },
        ),
        n_rows == n_labels && n_labels == 0 ==> r == Err::<(), TrainingInputError>(
            TrainingInputError::NoSamples,
        ),
        n_rows == n_labels && n_labels > 0 && n_trees == 0 ==> r == Err::<(), TrainingInputError>(
            TrainingInputError::NoTrees,
        ),
        n_rows == n_labels && n_labels > 0 && n_trees > 0 ==> r == Ok::<(), TrainingInputError>(()),
{
    match check_labelled_samples(n_rows, n_labels) {
        Err(e) => Err(e),
        Ok(()) => if n_trees == 0 {
            Err(TrainingInputError::NoTrees)
        } else {
            Ok(())
        },
    }
}

/// The number of classes labels name: one more than the largest label, 0
/// where there is no label.
pub open spec fn spec_class_count(labels: Seq<usize>) -> int
    decreases labels.len(),
{
    if labels.len() == 0 {
        0
    } else {
        let rest = spec_class_count(labels.drop_last());
        if labels.last() + 1 > rest {
            labels.last() + 1
        } else {
            rest
        }
    }
}

/// Every label is below the class count, and the largest label is one below
/// it.
pub proof fn lemma_class_count_bounds(labels: Seq<usize>)
    ensures
        forall|i: int| 0 <= i < labels.len() ==> labels[i] < spec_class_count(labels),
        labels.len() > 0 ==> exists|i: int|
            0 <= i < labels.len() && labels[i] + 1 == spec_class_count(labels),
        labels.len() == 0 ==> spec_class_count(labels) == 0,
    decreases labels.len(),
{
    if labels.len() > 0 {
        let rest = labels.drop_last();
        lemma_class_count_bounds(rest);
        assert forall|i: int| 0 <= i < labels.len() implies labels[i] < spec_class_count(labels) by {
            if i < labels.len() - 1 {
                assert(labels[i] == rest[i]);
            }
        }
        if labels.last() + 1 > spec_class_count(rest) {
            assert(labels[labels.len() - 1] + 1 == spec_class_count(labels));
        } else {
            let k = choose|k: int| 0 <= k < rest.len() && rest[k] + 1 == spec_class_count(rest);
            assert(labels[k] == rest[k]);
        }
    }
}

/// The number of classes `labels` name: one more than the largest label, 0
/// where there is no label.
pub fn class_count(labels: &Vec<usize>) -> (r: usize)
    requires
        forall|i: int| 0 <= i < labels@.len() ==> labels@[i] < usize::MAX,
    ensures
        r == spec_class_count(labels@),
{
    let n = labels.len();
    let mut count: usize = 0;
    let mut i: usize = 0;
    while i < n
        invariant
            n == labels@.len(),
            0 <= i <= n,
            forall|j: int| 0 <= j < labels@.len() ==> labels@[j] < usize::MAX,
            count == spec_class_count(labels@.take(i as int)),
        decreases n - i,
    {
        proof {
            assert(labels@.take(i + 1).drop_last() =~= labels@.take(i as int));
            assert(labels@.take(i + 1).last() == labels@[i as int]);
        }
        let label = labels[i];
        if label + 1 > count {
            count = label + 1;
        }
        i = i + 1;
    }
    proof {
        assert(labels@.take(n as int) =~= labels@);
    }
    count
}

/// The row index `rand::Rng::gen_range(0..n)` returns, where `n` is the last
/// of `bounds`, on a `StdRng` made by `rand::SeedableRng::seed_from_u64(seed)`
/// after the draws with the earlier `bounds`, in order, on the build target.
pub uninterp spec fn drawn(seed: u64, bounds: Seq<usize>) -> usize;

/// The generator a forest draws its bootstrap samples from, seeded with a
/// `u64`. Its view is the seed and the bounds of the draws made so far, in
/// order; what it draws next is a function of those alone.
pub struct BootstrapRng {
    rng: StdRng,
    seed: Ghost<u64>,
    bounds: Ghost<Seq<usize>>,
}

impl View for BootstrapRng {
    type V = (u64, Seq<usize>);

    closed spec fn view(&self) -> (u64, Seq<usize>) {
        (self.seed@, self.bounds@)
    }
}

/// Creates a generator with `rand::SeedableRng::seed_from_u64`.
///
/// Trusted: nothing is stated of the returned value; the generator's state is
/// tied to `seed` by [`BootstrapRng::new`], the only caller.
#[verifier::external_body]
fn seeded_rng(seed: u64) -> (r: StdRng) {
    StdRng::seed_from_u64(seed)
}

/// Draws a row index from `0..n` with `rand::Rng::gen_range`.
///
/// Trusted: the contract claims that the index is below `n`, that the draw
/// is recorded in the generator's view, and that the index is `drawn` of the
/// seed and the bounds so far: `StdRng` and `gen_range` are deterministic for
/// a given seed and sequence of calls on one build target. Which index that
/// is, is not stated.
#[verifier::external_body]
fn draw_index(rng: &mut BootstrapRng, n: usize) -> (r: usize)
    requires
        n > 0,
    ensures
        final(rng)@ == (old(rng)@.0, old(rng)@.1.push(n)),
        r == drawn(old(rng)@.0, old(rng)@.1.push(n)),
        r < n,
{
    rng.rng.gen_range(0..n)
}

impl BootstrapRng {
    /// A generator seeded with `seed` that has drawn nothing yet.
    pub fn new(seed: u64) -> (r: Self)
        ensures
            r@ == (seed, Seq::<usize>::empty()),
    {
        BootstrapRng { rng: seeded_rng(seed), seed: Ghost(seed), bounds: Ghost(Seq::empty()) }
    }
}

/// `count` copies of the bound `n`.
pub open spec fn repeated(n: usize, count: nat) -> Seq<usize> {
    Seq::new(count, |_k: int| n)
}

/// A bootstrap sample of `n_samples` rows: `n_samples` row indices drawn
/// with replacement from `rng`, each from `0..n_samples`. Index `i` is the
/// `i+1`-th draw from `rng` with that bound.
pub fn bootstrap_indices(rng: &mut BootstrapRng, n_samples: usize) -> (r: Vec<usize>)
    ensures
        final(rng)@.0 == old(rng)@.0,
        final(rng)@.1 == old(rng)@.1 + repeated(n_samples, n_samples as nat),
        r@.len() == n_samples,
        forall|i: int|
            0 <= i < n_samples ==> #[trigger] r@[i] == drawn(
                old(rng)@.0,
                old(rng)@.1 + repeated(n_samples, (i + 1) as nat),
            ),
        forall|i: int| 0 <= i < n_samples ==> #[trigger] r@[i] < n_samples,
{
    let ghost seed = rng@.0;
    let ghost start = rng@.1;
    let mut out: Vec<usize> = Vec::new();
    let mut i: usize = 0;
    while i < n_samples
        invariant
            0 <= i <= n_samples,
            rng@.0 == seed,
            rng@.1 == start + repeated(n_samples, i as nat),
            out@.len() == i,
            forall|j: int|
                0 <= j < i ==> #[trigger] out@[j] == drawn(
                    seed,
                    start + repeated(n_samples, (j + 1) as nat),
                ),
            forall|j: int| 0 <= j < i ==> #[trigger] out@[j] < n_samples,
        decreases n_samples - i,
    {
        let k = draw_index(rng, n_samples);
        proof {
            assert(start + repeated(n_samples, i as nat).push(n_samples) =~= start + repeated(
                n_samples,
                (i + 1) as nat,
            ));
            assert((start + repeated(n_samples, i as nat)).push(n_samples) =~= start + repeated(
                n_samples,
                (i + 1) as nat,
            ));
        }
        out.push(k);
        i = i + 1;
    }
    out
}

/// Row `i` of tree `t`'s bootstrap sample in a plan over `n_samples` rows
/// drawn from a generator seeded with `seed`: the draw that follows `t`
/// full samples and `i` rows of the next.
pub open spec fn planned_row(seed: u64, n_samples: usize, t: int, i: int) -> usize {
    drawn(seed, repeated(n_samples, (t * n_samples + i + 1) as nat))
}

/// `plan` is the bootstrap plan of `n_trees` trees over `n_samples` rows
/// drawn from a generator seeded with `seed`.
pub open spec fn is_bootstrap_plan(
    seed: u64,
    n_trees: usize,
    n_samples: usize,
    plan: Seq<Vec<usize>>,
) -> bool {
    &&& plan.len() == n_trees
    &&& forall|t: int| 0 <= t < n_trees ==> (#[trigger] plan[t])@.len() == n_samples
    &&& forall|t: int, i: int|
        0 <= t < n_trees && 0 <= i < n_samples ==> #[trigger] plan[t]@[i] == planned_row(
            seed,
            n_samples,
            t,
            i,
        )
}

/// Deterministic under a fixed seed: two bootstrap plans made with the same
/// seed, tree count and row count are the same plan.
pub proof fn lemma_bootstrap_plan_deterministic(
    seed: u64,
    n_trees: usize,
    n_samples: usize,
    a: Seq<Vec<usize>>,
    b: Seq<Vec<usize>>,
)
    requires
        is_bootstrap_plan(seed, n_trees, n_samples, a),
        is_bootstrap_plan(seed, n_trees, n_samples, b),
    ensures
        a.len() == b.len(),
        forall|t: int| 0 <= t < a.len() ==> (#[trigger] a[t])@ == b[t]@,
{
    assert forall|t: int| 0 <= t < a.len() implies (#[trigger] a[t])@ == b[t]@ by {
        assert forall|i: int| 0 <= i < a[t]@.len() implies a[t]@[i] == b[t]@[i] by {
            assert(a[t]@[i] == planned_row(seed, n_samples, t, i));
            assert(b[t]@[i] == planned_row(seed, n_samples, t, i));
        }
        assert(a[t]@ =~= b[t]@);
    }
}

/// The bootstrap samples of a forest of `n_trees` trees over `n_samples`
/// rows, drawn in tree order from one generator seeded with `seed`. The plan
/// is a function of `seed`, `n_trees` and `n_samples` alone.
pub fn bootstrap_plan(seed: u64, n_trees: usize, n_samples: usize) -> (r: Vec<Vec<usize>>)
    ensures
        is_bootstrap_plan(seed, n_trees, n_samples, r@),
        forall|t: int, i: int|
            0 <= t < n_trees && 0 <= i < n_samples ==> #[trigger] r@[t]@[i] < n_samples,
{
    let mut rng = BootstrapRng::new(seed);
    let mut plan: Vec<Vec<usize>> = Vec::new();
    let mut t: usize = 0;
    while t < n_trees
        invariant
            0 <= t <= n_trees,
            rng@.0 == seed,
            rng@.1 == repeated(n_samples, (t * n_samples) as nat),
            plan@.len() == t,
            forall|u: int| 0 <= u < t ==> (#[trigger] plan@[u])@.len() == n_samples,
            forall|u: int, i: int|
                0 <= u < t && 0 <= i < n_samples ==> #[trigger] plan@[u]@[i] == planned_row(
                    seed,
                    n_samples,
                    u,
                    i,
                ),
            forall|u: int, i: int|
                0 <= u < t && 0 <= i < n_samples ==> #[trigger] plan@[u]@[i] < n_samples,
        decreases n_trees - t,
    {
        let ghost before = rng@.1;
        let sample = bootstrap_indices(&mut rng, n_samples);
        proof {
            assert((t + 1) * n_samples == t * n_samples + n_samples) by (nonlinear_arith);
            assert(t * n_samples >= 0) by (nonlinear_arith);
            assert(before + repeated(n_samples, n_samples as nat) =~= repeated(
                n_samples,
                ((t + 1) * n_samples) as nat,
            ));
            assert forall|i: int| 0 <= i < n_samples implies #[trigger] sample@[i] == planned_row(
                seed,
                n_samples,
                t as int,
                i,
            ) by {
                assert(before + repeated(n_samples, (i + 1) as nat) =~= repeated(
                    n_samples,
                    (t * n_samples + i + 1) as nat,
                ));
            }
        }
        plan.push(sample);
        t = t + 1;
    }
    plan
}

/// How many of the trees' predictions for row `row` are class `c`.
pub open spec fn votes_for(predictions: Seq<Vec<usize>>, row: int, c: int) -> nat
    decreases predictions.len(),
{
    if predictions.len() == 0 {
        0
    } else {
        votes_for(predictions.drop_last(), row, c) + if predictions.last()@[row] == c {
            1nat
        } else {
            0nat
        }
    }
}

/// A row has at most one vote per tree.
pub proof fn lemma_votes_bounded(predictions: Seq<Vec<usize>>, row: int, c: int)
    ensures
        votes_for(predictions, row, c) <= predictions.len(),
    decreases predictions.len(),
{
    if predictions.len() > 0 {
        lemma_votes_bounded(predictions.drop_last(), row, c);
    }
}

/// Tallies the trees' class predictions row by row: `r[row][c]` is the
/// number of trees that predicted class `c` for `row`, for every class
/// `c < n_classes`. Each row has `n_classes` entries (one entry, zero,
/// where `n_classes` is 0); predictions of a class at or above `n_classes`
/// are not counted.
pub fn tally_votes(predictions: &Vec<Vec<usize>>, n_rows: usize, n_classes: usize) -> (r: Vec<
    Vec<usize>,
>)
    requires
        forall|t: int| 0 <= t < predictions@.len() ==> (#[trigger] predictions@[t])@.len() == n_rows,
    ensures
        r@.len() == n_rows,
        forall|row: int|
            0 <= row < n_rows ==> (#[trigger] r@[row])@.len() == if n_classes == 0 {
                1
            } else {
                n_classes
            },
        forall|row: int, c: int|
            0 <= row < n_rows && 0 <= c < n_classes ==> #[trigger] r@[row]@[c] == votes_for(
                predictions@,
                row,
                c,
            ),
        n_classes == 0 ==> forall|row: int| 0 <= row < n_rows ==> #[trigger] r@[row]@[0] == 0,
{
    let width: usize = if n_classes == 0 {
        1
    } else {
        n_classes
    };
    let n_trees = predictions.len();
    let mut out: Vec<Vec<usize>> = Vec::new();
    let mut row: usize = 0;
    while row < n_rows
        invariant
            0 <= row <= n_rows,
            n_trees == predictions@.len(),
            width == if n_classes == 0 {
                1
            } else {
                n_classes
            },
            forall|t: int| 0 <= t < predictions@.len() ==> (#[trigger] predictions@[t])@.len() == n_rows,
            out@.len() == row,
            forall|k: int| 0 <= k < row ==> (#[trigger] out@[k])@.len() == width,
            forall|k: int, c: int|
                0 <= k < row && 0 <= c < n_classes ==> #[trigger] out@[k]@[c] == votes_for(
                    predictions@,
                    k,
                    c,
                ),
            n_classes == 0 ==> forall|k: int| 0 <= k < row ==> #[trigger] out@[k]@[0] == 0,
        decreases n_rows - row,
    {
        let mut counts: Vec<usize> = Vec::new();
        let mut c: usize = 0;
        while c < width
            invariant
                0 <= c <= width,
                counts@.len() == c,
                forall|j: int| 0 <= j < c ==> #[trigger] counts@[j] == 0,
            decreases width - c,
        {
            counts.push(0);
            c = c + 1;
        }
        let mut t: usize = 0;
        while t < n_trees
            invariant
                0 <= t <= n_trees,
                n_trees == predictions@.len(),
                row < n_rows,
                width == if n_classes == 0 {
                    1
                } else {
                    n_classes
                },
                forall|u: int| 0 <= u < predictions@.len() ==> (#[trigger] predictions@[u])@.len() == n_rows,
                counts@.len() == width,
                forall|j: int|
                    0 <= j < n_classes ==> #[trigger] counts@[j] == votes_for(
                        predictions@.take(t as int),
                        row as int,
                        j,
                    ),
                n_classes == 0 ==> counts@[0] == 0,
            decreases n_trees - t,
        {
            proof {
                assert(predictions@.take(t + 1).drop_last() =~= predictions@.take(t as int));
                assert(predictions@.take(t + 1).last() == predictions@[t as int]);
            }
            let cls = predictions[t][row];
            if cls < n_classes {
                proof {
                    lemma_votes_bounded(predictions@.take(t as int), row as int, cls as int);
                }
                let v = counts[cls];
                counts.set(cls, v + 1);
            }
            t = t + 1;
        }
        proof {
            assert(predictions@.take(n_trees as int) =~= predictions@);
        }
        out.push(counts);
        row = row + 1;
    }
    out
}

/// The votes of row `row` for the classes below `k`, summed.
pub open spec fn votes_below(predictions: Seq<Vec<usize>>, row: int, k: nat) -> nat
    decreases k,
{
    if k == 0 {
        0
    } else {
        votes_below(predictions, row, (k - 1) as nat) + votes_for(predictions, row, k - 1)
    }
}

/// The number of trees whose prediction for row `row` is a class below `k`.
pub open spec fn trees_below(predictions: Seq<Vec<usize>>, row: int, k: nat) -> nat
    decreases predictions.len(),
{
    if predictions.len() == 0 {
        0
    } else {
        trees_below(predictions.drop_last(), row, k) + if predictions.last()@[row] < k {
            1nat
        } else {
            0nat
        }
    }
}

proof fn lemma_votes_below_push(predictions: Seq<Vec<usize>>, x: Vec<usize>, row: int, k: nat)
    ensures
        votes_below(predictions.push(x), row, k) == votes_below(predictions, row, k) + if x@[row]
            < k {
            1nat
        } else {
            0nat
        },
    decreases k,
{
    assert(predictions.push(x).drop_last() =~= predictions);
    if k > 0 {
        lemma_votes_below_push(predictions, x, row, (k - 1) as nat);
    }
}

proof fn lemma_votes_below_is_trees_below(predictions: Seq<Vec<usize>>, row: int, k: nat)
    ensures
        votes_below(predictions, row, k) == trees_below(predictions, row, k),
    decreases predictions.len(),
{
    if predictions.len() == 0 {
        lemma_votes_below_empty(predictions, row, k);
    } else {
        let rest = predictions.drop_last();
        lemma_votes_below_is_trees_below(rest, row, k);
        assert(rest.push(predictions.last()) =~= predictions);
        lemma_votes_below_push(rest, predictions.last(), row, k);
    }
}

proof fn lemma_votes_below_empty(predictions: Seq<Vec<usize>>, row: int, k: nat)
    requires
        predictions.len() == 0,
    ensures
        votes_below(predictions, row, k) == 0,
    decreases k,
{
    if k > 0 {
        lemma_votes_below_empty(predictions, row, (k - 1) as nat);
    }
}

proof fn lemma_trees_below_all(predictions: Seq<Vec<usize>>, row: int, k: nat)
    requires
        forall|t: int| 0 <= t < predictions.len() ==> (#[trigger] predictions[t])@[row] < k,
    ensures
        trees_below(predictions, row, k) == predictions.len(),
    decreases predictions.len(),
{
    if predictions.len() > 0 {
        let rest = predictions.drop_last();
        assert forall|t: int| 0 <= t < rest.len() implies (#[trigger] rest[t])@[row] < k by {
            assert(rest[t] == predictions[t]);
        }
        lemma_trees_below_all(rest, row, k);
        assert(predictions.last() == predictions[predictions.len() - 1]);
    }
}

/// Where every tree predicts one of the first `n_classes` classes for row
/// `row`, the row's votes over those classes add up to the number of trees:
/// divided by that number, the per-class vote fractions sum to one.
pub proof fn lemma_votes_cover_every_tree(predictions: Seq<Vec<usize>>, row: int, n_classes: nat)
    requires
        forall|t: int| 0 <= t < predictions.len() ==> (#[trigger] predictions[t])@[row] < n_classes,
    ensures
        votes_below(predictions, row, n_classes) == predictions.len(),
{
    lemma_votes_below_is_trees_below(predictions, row, n_classes);
    lemma_trees_below_all(predictions, row, n_classes);
}

/// With a single tree, a row's votes are one-hot: one vote for the class
/// the tree predicts, none for any other class.
pub proof fn lemma_single_tree_one_hot(predictions: Seq<Vec<usize>>, row: int, c: int)
    requires
        predictions.len() == 1,
    ensures
        votes_for(predictions, row, c) == if predictions[0]@[row] == c {
            1nat
        } else {
            0nat
        },
{
    assert(predictions.drop_last().len() == 0);
    assert(votes_for(predictions.drop_last(), row, c) == 0);
    assert(predictions.last() == predictions[0]);
}

/// Class `c` is the majority among the first `n_classes` entries of `votes`:
/// it has the most votes, and no class before it has as many; class 0 where
/// there is no class.
pub open spec fn is_majority(votes: Seq<usize>, n_classes: int, c: int) -> bool {
    if n_classes == 0 {
        c == 0
    } else {
        &&& 0 <= c < n_classes
        &&& forall|j: int| 0 <= j < n_classes ==> #[trigger] votes[j] <= votes[c]
        &&& forall|j: int| 0 <= j < c ==> #[trigger] votes[j] < votes[c]
    }
}

/// The majority class of a row of per-class votes: the first class with the
/// most votes; class 0 where there is no class.
pub fn majority_class(votes: &Vec<usize>, n_classes: usize) -> (r: usize)
    requires
        n_classes <= votes@.len(),
    ensures
        is_majority(votes@, n_classes as int, r as int),
        n_classes == 0 ==> r == 0,
        n_classes > 0 ==> r < n_classes,
        forall|j: int| 0 <= j < n_classes ==> #[trigger] votes@[j] <= votes@[r as int],
        forall|j: int| 0 <= j < r ==> #[trigger] votes@[j] < votes@[r as int],
{
    if n_classes == 0 {
        return 0;
    }
    let mut best: usize = 0;
    let mut c: usize = 1;
    while c < n_classes
        invariant
            n_classes <= votes@.len(),
            1 <= c <= n_classes,
            best < c,
            forall|j: int| 0 <= j < c ==> #[trigger] votes@[j] <= votes@[best as int],
            forall|j: int| 0 <= j < best ==> #[trigger] votes@[j] < votes@[best as int],
        decreases n_classes - c,
    {
        if votes[c] > votes[best] {
            best = c;
        }
        c = c + 1;
    }
    best
}

/// Class `c` is the forest's vote for row `row`: among the first `n_classes`
/// classes it has the most tree votes, and no class before it has as many;
/// class 0 where there is no class.
pub open spec fn is_vote_majority(
    predictions: Seq<Vec<usize>>,
    row: int,
    n_classes: int,
    c: int,
) -> bool {
    if n_classes == 0 {
        c == 0
    } else {
        &&& 0 <= c < n_classes
        &&& forall|j: int|
            0 <= j < n_classes ==> #[trigger] votes_for(predictions, row, j) <= votes_for(
                predictions,
                row,
                c,
            )
        &&& forall|j: int|
            0 <= j < c ==> #[trigger] votes_for(predictions, row, j) < votes_for(predictions, row, c)
    }
}

/// The class a forest predicts for each of `n_rows` rows from its trees'
/// predictions: the majority vote, ties going to the lowest class.
pub fn majority_classes(predictions: &Vec<Vec<usize>>, n_rows: usize, n_classes: usize) -> (r: Vec<
    usize,
>)
    requires
        forall|t: int| 0 <= t < predictions@.len() ==> (#[trigger] predictions@[t])@.len() == n_rows,
    ensures
        r@.len() == n_rows,
        forall|row: int|
            0 <= row < n_rows ==> is_vote_majority(predictions@, row, n_classes as int, #[trigger] r@[row] as int),
{
    let votes = tally_votes(predictions, n_rows, n_classes);
    let mut out: Vec<usize> = Vec::new();
    let mut row: usize = 0;
    while row < n_rows
        invariant
            0 <= row <= n_rows,
            votes@.len() == n_rows,
            forall|k: int|
                0 <= k < n_rows ==> (#[trigger] votes@[k])@.len() == if n_classes == 0 {
                    1
                } else {
                    n_classes
                },
            forall|k: int, c: int|
                0 <= k < n_rows && 0 <= c < n_classes ==> #[trigger] votes@[k]@[c] == votes_for(
                    predictions@,
                    k,
                    c,
                ),
            out@.len() == row,
            forall|k: int|
                0 <= k < row ==> is_vote_majority(predictions@, k, n_classes as int, #[trigger] out@[k] as int),
        decreases n_rows - row,
    {
        let c = majority_class(&votes[row], n_classes);
        proof {
            let v = votes@[row as int]@;
            if n_classes > 0 {
                assert forall|j: int| 0 <= j < n_classes implies #[trigger] votes_for(
                    predictions@,
                    row as int,
                    j,
                ) <= votes_for(predictions@, row as int, c as int) by {
                    assert(votes@[row as int]@[j] == votes_for(predictions@, row as int, j));
                    assert(votes@[row as int]@[c as int] == votes_for(predictions@, row as int, c as int));
                    assert(v[j] <= v[c as int]);
                }
                assert forall|j: int| 0 <= j < c implies #[trigger] votes_for(
                    predictions@,
                    row as int,
                    j,
                ) < votes_for(predictions@, row as int, c as int) by {
                    assert(votes@[row as int]@[j] == votes_for(predictions@, row as int, j));
                    assert(votes@[row as int]@[c as int] == votes_for(predictions@, row as int, c as int));
                    assert(v[j] < v[c as int]);
                }
            }
        }
        out.push(c);
        row = row + 1;
    }
    out
}

/// The per-class votes of a single tree's predictions: for each row, 1 for
/// the predicted class and 0 for every other class below `n_classes`. Each
/// row has `n_classes` entries (one entry, zero, where `n_classes` is 0); a
/// prediction at or above `n_classes` gets no vote.
pub fn one_hot_votes(predicted: &Vec<usize>, n_classes: usize) -> (r: Vec<Vec<usize>>)
    ensures
        r@.len() == predicted@.len(),
        forall|row: int|
            0 <= row < predicted@.len() ==> (#[trigger] r@[row])@.len() == if n_classes == 0 {
                1
            } else {
                n_classes
            },
        forall|row: int, c: int|
            0 <= row < predicted@.len() && 0 <= c < n_classes ==> #[trigger] r@[row]@[c] == if predicted@[row]
                == c {
                1usize
            } else {
                0usize
            },
        n_classes == 0 ==> forall|row: int| 0 <= row < predicted@.len() ==> #[trigger] r@[row]@[0] == 0,
{
    let width: usize = if n_classes == 0 {
        1
    } else {
        n_classes
    };
    let n = predicted.len();
    let mut out: Vec<Vec<usize>> = Vec::new();
    let mut row: usize = 0;
    while row < n
        invariant
            n == predicted@.len(),
            0 <= row <= n,
            width == if n_classes == 0 {
                1
            } else {
                n_classes
            },
            out@.len() == row,
            forall|k: int| 0 <= k < row ==> (#[trigger] out@[k])@.len() == width,
            forall|k: int, c: int|
                0 <= k < row && 0 <= c < n_classes ==> #[trigger] out@[k]@[c] == if predicted@[k] == c {
                    1usize
                } else {
                    0usize
                },
            n_classes == 0 ==> forall|k: int| 0 <= k < row ==> #[trigger] out@[k]@[0] == 0,
        decreases n - row,
    {
        let cls = predicted[row];
        let mut counts: Vec<usize> = Vec::new();
        let mut c: usize = 0;
        while c < width
            invariant
                0 <= c <= width,
                width == if n_classes == 0 {
                    1
                } else {
                    n_classes
                },
                counts@.len() == c,
                forall|j: int|
                    0 <= j < c ==> #[trigger] counts@[j] == if n_classes > 0 && cls == j {
                        1usize
                    } else {
                        0usize
                    },
            decreases width - c,
        {
            if n_classes > 0 && cls == c {
                counts.push(1);
            } else {
                counts.push(0);
            }
            c = c + 1;
        }
        out.push(counts);
        row = row + 1;
    }
    out
}

} // verus!
