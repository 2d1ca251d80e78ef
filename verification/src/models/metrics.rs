//! Counts that classification accuracy and the confusion matrix are made of.

use vstd::prelude::*;

verus! {

/// The number of positions `i` where `pred(predicted[i], actual[i])` holds.
pub open spec fn pair_count(
    predicted: Seq<usize>,
    actual: Seq<usize>,
    pred: spec_fn(usize, usize) -> bool,
) -> nat
    decreases predicted.len(),
{
    if predicted.len() == 0 {
        0
    } else {
        pair_count(predicted.drop_last(), actual.drop_last(), pred) + if pred(
            predicted.last(),
            actual.last(),
        ) {
            1nat
        } else {
            0nat
        }
    }
}

/// Confusion counts of predicted against actual labels, class 1 being the
/// positive class.
#[derive(Debug, Clone, Copy, PartialEq, Eq)]
pub struct ConfusionCounts {
    /// Rows whose prediction equals the actual label.
    pub correct: usize,
    pub true_positives: usize,
    pub true_negatives: usize,
    pub false_positives: usize,
    pub false_negatives: usize,
}

/// The predicate of each count.
pub open spec fn is_correct() -> spec_fn(usize, usize) -> bool {
    |p: usize, a: usize| p == a
}

pub open spec fn is_true_positive() -> spec_fn(usize, usize) -> bool {
    |p: usize, a: usize| p == 1 && a == 1
}

pub open spec fn is_true_negative() -> spec_fn(usize, usize) -> bool {
    |p: usize, a: usize| p == 0 && a == 0
}

pub open spec fn is_false_positive() -> spec_fn(usize, usize) -> bool {
    |p: usize, a: usize| p == 1 && a != 1
}

pub open spec fn is_false_negative() -> spec_fn(usize, usize) -> bool {
    |p: usize, a: usize| p != 1 && a == 1
}

proof fn lemma_pair_count_bounded(
    predicted: Seq<usize>,
    actual: Seq<usize>,
    pred: spec_fn(usize, usize) -> bool,
)
    ensures
        pair_count(predicted, actual, pred) <= predicted.len(),
    decreases predicted.len(),
{
    if predicted.len() > 0 {
        lemma_pair_count_bounded(predicted.drop_last(), actual.drop_last(), pred);
    }
}

/// The number of entries of `s` equal to `v`.
pub open spec fn occurrences(s: Seq<usize>, v: usize) -> nat
    decreases s.len(),
{
    if s.len() == 0 {
        0
    } else {
        occurrences(s.drop_last(), v) + if s.last() == v {
            1nat
        } else {
            0nat
        }
    }
}

/// Class 1 is the positive class: the rows predicted positive are the true
/// positives and the false positives, and the rows that are actually positive
/// are the true positives and the false negatives.
pub proof fn lemma_positive_rows_split(predicted: Seq<usize>, actual: Seq<usize>)
    requires
        predicted.len() == actual.len(),
    ensures
        pair_count(predicted, actual, is_true_positive()) + pair_count(
            predicted,
            actual,
            is_false_positive(),
        ) == occurrences(predicted, 1),
        pair_count(predicted, actual, is_true_positive()) + pair_count(
            predicted,
            actual,
            is_false_negative(),
        ) == occurrences(actual, 1),
    decreases predicted.len(),
{
    if predicted.len() > 0 {
        lemma_positive_rows_split(predicted.drop_last(), actual.drop_last());
    }
}

/// Counts, over the rows of `predicted` and `actual` taken pairwise, the
/// correct predictions and the four cells of the confusion matrix.
pub fn confusion_counts(predicted: &Vec<usize>, actual: &Vec<usize>) -> (r: ConfusionCounts)
    requires
        predicted@.len() == actual@.len(),
    ensures
        r.correct == pair_count(predicted@, actual@, is_correct()),
        r.true_positives == pair_count(predicted@, actual@, is_true_positive()),
        r.true_negatives == pair_count(predicted@, actual@, is_true_negative()),
        r.false_positives == pair_count(predicted@, actual@, is_false_positive()),
        r.false_negatives == pair_count(predicted@, actual@, is_false_negative()),
        r.true_positives + r.false_positives == occurrences(predicted@, 1),
        r.true_positives + r.false_negatives == occurrences(actual@, 1),
{
    proof {
        lemma_positive_rows_split(predicted@, actual@);
    }
    let n = predicted.len();
    let mut counts = ConfusionCounts {
        correct: 0,
        true_positives: 0,
        true_negatives: 0,
        false_positives: 0,
        false_negatives: 0,
    };
    let mut i: usize = 0;
    while i < n
        invariant
            n == predicted@.len(),
            n == actual@.len(),
            0 <= i <= n,
            counts.correct == pair_count(
                predicted@.take(i as int),
                actual@.take(i as int),
                is_correct(),
            ),
            counts.true_positives == pair_count(
                predicted@.take(i as int),
                actual@.take(i as int),
                is_true_positive(),
            ),
            counts.true_negatives == pair_count(
                predicted@.take(i as int),
                actual@.take(i as int),
                is_true_negative(),
            ),
            counts.false_positives == pair_count(
                predicted@.take(i as int),
                actual@.take(i as int),
                is_false_positive(),
            ),
            counts.false_negatives == pair_count(
                predicted@.take(i as int),
                actual@.take(i as int),
                is_false_negative(),
            ),
        decreases n - i,
    {
        let ghost p = predicted@.take(i as int);
        let ghost a = actual@.take(i as int);
        proof {
            assert(predicted@.take(i + 1).drop_last() =~= p);
            assert(actual@.take(i + 1).drop_last() =~= a);
            assert(predicted@.take(i + 1).last() == predicted@[i as int]);
            assert(actual@.take(i + 1).last() == actual@[i as int]);
            lemma_pair_count_bounded(p, a, is_correct());
            lemma_pair_count_bounded(p, a, is_true_positive());
            lemma_pair_count_bounded(p, a, is_true_negative());
            lemma_pair_count_bounded(p, a, is_false_positive());
            lemma_pair_count_bounded(p, a, is_false_negative());
        }
        let x = predicted[i];
        let y = actual[i];
        if x == y {
            counts.correct = counts.correct + 1;
        }
        if x == 1 && y == 1 {
            counts.true_positives = counts.true_positives + 1;
        }
        if x == 0 && y == 0 {
            counts.true_negatives = counts.true_negatives + 1;
        }
        if x == 1 && y != 1 {
            counts.false_positives = counts.false_positives + 1;
        }
        if x != 1 && y == 1 {
            counts.false_negatives = counts.false_negatives + 1;
        }
        i = i + 1;
    }
    proof {
        assert(predicted@.take(n as int) =~= predicted@);
        assert(actual@.take(n as int) =~= actual@);
    }
    counts
}

/// For binary labels, the correct predictions are the true positives and
/// true negatives, and the four cells of the confusion matrix cover every
/// row.
pub proof fn lemma_binary_confusion(predicted: Seq<usize>, actual: Seq<usize>)
    requires
        predicted.len() == actual.len(),
        forall|i: int| 0 <= i < predicted.len() ==> #[trigger] predicted[i] <= 1,
        forall|i: int| 0 <= i < actual.len() ==> #[trigger] actual[i] <= 1,
    ensures
        pair_count(predicted, actual, is_correct()) == pair_count(
            predicted,
            actual,
            is_true_positive(),
        ) + pair_count(predicted, actual, is_true_negative()),
        pair_count(predicted, actual, is_true_positive()) + pair_count(
            predicted,
            actual,
            is_true_negative(),
        ) + pair_count(predicted, actual, is_false_positive()) + pair_count(
            predicted,
            actual,
            is_false_negative(),
        ) == predicted.len(),
    decreases predicted.len(),
{
    if predicted.len() > 0 {
        let p = predicted.drop_last();
        let a = actual.drop_last();
        assert forall|i: int| 0 <= i < p.len() implies #[trigger] p[i] <= 1 by {
            assert(p[i] == predicted[i]);
        }
        assert forall|i: int| 0 <= i < a.len() implies #[trigger] a[i] <= 1 by {
            assert(a[i] == actual[i]);
        }
        lemma_binary_confusion(p, a);
        assert(predicted.last() == predicted[predicted.len() - 1]);
        assert(actual.last() == actual[actual.len() - 1]);
    }
}

/// The rows of a holdout split of `n_rows` rows: the first `n_train` rows
/// train, the rest validate.
pub fn holdout_indices(n_rows: usize, n_train: usize) -> (r: (Vec<usize>, Vec<usize>))
    requires
        n_train <= n_rows,
    ensures
        r.0@.len() == n_train,
        r.1@.len() == n_rows - n_train,
        forall|i: int| 0 <= i < n_train ==> #[trigger] r.0@[i] == i,
        forall|i: int| 0 <= i < n_rows - n_train ==> #[trigger] r.1@[i] == n_train + i,
{
    let mut train: Vec<usize> = Vec::new();
    let mut i: usize = 0;
    while i < n_train
        invariant
            0 <= i <= n_train,
            train@.len() == i,
            forall|j: int| 0 <= j < i ==> #[trigger] train@[j] == j,
        decreases n_train - i,
    {
        train.push(i);
        i = i + 1;
    }
    let mut val: Vec<usize> = Vec::new();
    let mut k: usize = n_train;
    while k < n_rows
        invariant
            n_train <= k <= n_rows,
            val@.len() == k - n_train,
            forall|j: int| 0 <= j < k - n_train ==> #[trigger] val@[j] == n_train + j,
        decreases n_rows - k,
    {
        val.push(k);
        k = k + 1;
    }
    (train, val)
}

} // verus!
