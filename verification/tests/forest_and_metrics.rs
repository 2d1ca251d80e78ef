use crucible::models::forest::{
    bootstrap_indices, bootstrap_plan, check_fitted, check_forest_input, BootstrapRng, PredictionError, check_labelled_samples, class_count,
    majority_class, majority_classes, one_hot_votes, tally_votes, TrainingInputError,
};
use crucible::models::metrics::{confusion_counts, holdout_indices};
use rand::rngs::StdRng;
use rand::{Rng, SeedableRng};

#[test]
fn random_forest_train_rejects_mismatched_lengths() {
    let err = check_forest_input(1, 2, 100).unwrap_err();
    assert!(err.message("RandomForest").contains("feature/label length mismatch"));
}

#[test]
fn train_rejects_empty_labels() {
    let err = check_forest_input(0, 0, 100).unwrap_err();
    assert!(err.message("RandomForest").contains("at least one labelled sample"));
}

#[test]
fn train_rejects_zero_trees() {
    let err = check_forest_input(100, 100, 0).unwrap_err();
    assert!(err.message("RandomForest").contains("n_trees must be >= 1"));
}

#[test]
fn decision_tree_train_rejects_mismatched_lengths() {
    let err = check_labelled_samples(1, 2).unwrap_err();
    assert!(err.message("DecisionTree").contains("feature/label length mismatch"));
}

#[test]
fn n_classes_reflects_label_max_plus_one() {
    let mut labels = vec![0usize; 50];
    labels.extend(vec![1usize; 50]);
    assert_eq!(class_count(&labels), 2);
}

#[test]
fn training_input_messages_are_exact() {
    assert_eq!(
        TrainingInputError::LengthMismatch { rows: 1, labels: 2 }.message("RandomForest"),
        "feature/label length mismatch: 1 rows vs 2 labels"
    );
    assert_eq!(
        TrainingInputError::NoSamples.message("DecisionTree"),
        "DecisionTree training requires at least one labelled sample"
    );
    assert_eq!(check_labelled_samples(3, 3), Ok(()));
    assert_eq!(check_labelled_samples(0, 0), Err(TrainingInputError::NoSamples));
    assert_eq!(check_forest_input(3, 3, 1), Ok(()));
    assert_eq!(
        check_forest_input(5, 3, 0),
        Err(TrainingInputError::LengthMismatch { rows: 5, labels: 3 })
    );
}

#[test]
fn class_count_edge_cases() {
    assert_eq!(class_count(&vec![]), 0);
    assert_eq!(class_count(&vec![0]), 1);
    assert_eq!(class_count(&vec![4, 0, 2]), 5);
}

#[test]
fn bootstrap_indices_stay_in_range() {
    let mut rng = BootstrapRng::new(7);
    let idx = bootstrap_indices(&mut rng, 50);
    assert_eq!(idx.len(), 50);
    assert!(idx.iter().all(|&i| i < 50));
    assert!(idx.iter().any(|&i| i != idx[0]));
    assert!(bootstrap_indices(&mut rng, 0).is_empty());
}

#[test]
fn bootstrap_plan_is_reproducible_under_a_seed() {
    let a = bootstrap_plan(1234, 5, 40);
    let b = bootstrap_plan(1234, 5, 40);
    assert_eq!(a, b);
    assert_eq!(a.len(), 5);
    assert!(a.iter().all(|s| s.len() == 40 && s.iter().all(|&i| i < 40)));
    let mut rng = BootstrapRng::new(1234);
    let first = bootstrap_indices(&mut rng, 40);
    assert_eq!(a[0], first);
    assert_eq!(a[1], bootstrap_indices(&mut rng, 40));
    assert_ne!(a, bootstrap_plan(1235, 5, 40));
}

#[test]
fn bootstrap_draws_follow_the_seed_and_the_bound() {
    let mut direct = StdRng::seed_from_u64(99);
    let expected: Vec<usize> = (0..30).map(|_| direct.gen_range(0..30)).collect();
    let plan = bootstrap_plan(99, 1, 30);
    assert_eq!(plan[0], expected);
}

#[test]
fn votes_count_tree_predictions_per_row() {
    // three trees, two rows, classes 0..3
    let preds = vec![vec![0, 2], vec![2, 2], vec![0, 1]];
    let votes = tally_votes(&preds, 2, 3);
    assert_eq!(votes, vec![vec![2, 0, 1], vec![0, 1, 2]]);
    assert_eq!(votes[0].iter().sum::<usize>(), 3);
    assert_eq!(majority_class(&votes[0], 3), 0);
    assert_eq!(majority_class(&votes[1], 3), 2);
}

#[test]
fn votes_ignore_classes_out_of_range_and_ties_go_to_the_first() {
    let preds = vec![vec![5], vec![1], vec![0]];
    let votes = tally_votes(&preds, 1, 2);
    assert_eq!(votes, vec![vec![1, 1]]);
    assert_eq!(majority_class(&votes[0], 2), 0);
    let none = tally_votes(&preds, 1, 0);
    assert_eq!(none, vec![vec![0]]);
    assert_eq!(majority_class(&none[0], 0), 0);
}

#[test]
fn single_tree_votes_are_one_hot() {
    let preds = vec![vec![1, 0, 1]];
    let votes = tally_votes(&preds, 3, 2);
    for row in &votes {
        assert_eq!(row.iter().filter(|&&v| v == 1).count(), 1);
        assert_eq!(row.iter().filter(|&&v| v == 0).count(), 1);
    }
}

#[test]
fn confusion_counts_cover_binary_predictions() {
    let predicted = vec![1, 0, 1, 1, 0, 0];
    let actual = vec![1, 0, 0, 1, 1, 0];
    let c = confusion_counts(&predicted, &actual);
    assert_eq!(c.true_positives, 2);
    assert_eq!(c.true_negatives, 2);
    assert_eq!(c.false_positives, 1);
    assert_eq!(c.false_negatives, 1);
    assert_eq!(c.correct, 4);
    assert_eq!(
        c.true_positives + c.true_negatives + c.false_positives + c.false_negatives,
        predicted.len()
    );
}

#[test]
fn holdout_keeps_row_order() {
    let (train, val) = holdout_indices(5, 3);
    assert_eq!(train, vec![0, 1, 2]);
    assert_eq!(val, vec![3, 4]);
    let (train, val) = holdout_indices(2, 2);
    assert_eq!(train, vec![0, 1]);
    assert!(val.is_empty());
}

#[test]
fn forest_predicts_the_majority_vote_ties_to_lowest() {
    let predictions = vec![vec![1, 0, 2], vec![0, 0, 1], vec![1, 2, 2], vec![0, 2, 1]];
    assert_eq!(majority_classes(&predictions, 3, 3), vec![0, 0, 1]);
    assert_eq!(majority_classes(&predictions, 3, 0), vec![0, 0, 0]);
}

#[test]
fn single_tree_probabilities_are_one_hot() {
    let votes = one_hot_votes(&vec![1, 0, 2], 3);
    assert_eq!(votes, vec![vec![0, 1, 0], vec![1, 0, 0], vec![0, 0, 1]]);
    assert_eq!(one_hot_votes(&vec![5], 2), vec![vec![0, 0]]);
    assert_eq!(one_hot_votes(&vec![0], 0), vec![vec![0]]);
}

#[test]
fn predict_proba_errors_on_unfit_model() {
    let err = check_fitted(0).unwrap_err();
    assert_eq!(err, PredictionError::Unfit);
    assert!(err.message().contains("unfit"));
    assert_eq!(check_fitted(3), Ok(()));
}
