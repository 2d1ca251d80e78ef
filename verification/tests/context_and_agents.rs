use crucible::context::{ContextView, FactKey, FactSummary, PayloadKind};
use crucible::training::agents::{FrameChoice, SpecOutcome};
use crucible::training::reads::{
    latest_data_quality_before_iteration, latest_evaluation_report, read_feature_spec,
    read_latest_model_meta, read_latest_plan, read_latest_split, ReadError,
};
use crucible::training::split::{balance_split, capped_rows, DatasetError, SplitRows};
use crucible::{
    ClassifierSuggestor, DataValidationAgent, DatasetAgent, DeploymentAgent,
    FeatureEngineeringAgent, HyperparameterSearchAgent, ModelEvaluationAgent, ModelRegistryAgent,
    ModelTrainingAgent, MonitoringAgent, SampleInferenceAgent,
};
use std::sync::Arc;

fn fact(key: FactKey, kind: PayloadKind, iteration: usize) -> FactSummary {
    FactSummary { key, kind, iteration, width: 0 }
}

fn ctx(facts: Vec<FactSummary>) -> ContextView {
    ContextView { facts }
}

#[test]
fn data_validation_agent_accepts_false_when_quality_already_present() {
    let agent = DataValidationAgent::new();
    let c = ctx(vec![
        fact(FactKey::Signals, PayloadKind::DatasetSplit, 5),
        fact(FactKey::Signals, PayloadKind::DataQualityReport, 5),
    ]);
    assert!(!agent.accepts(&c));
}

#[test]
fn dataset_agent_metadata_and_accepts() {
    let agent = DatasetAgent::new("/tmp/x".to_string());
    assert_eq!(agent.name(), "DatasetAgent (HuggingFace)");
    assert_eq!(agent.dependencies(), vec![FactKey::Seeds]);
    assert_eq!(agent.provenance(), "crucible");

    let ctx_empty = ctx(vec![]);
    assert!(
        !agent.accepts(&ctx_empty),
        "no seeds → must not accept (would otherwise blindly download)"
    );

    let c = ctx(vec![
        fact(FactKey::Seeds, PayloadKind::Other, 0),
        fact(FactKey::Constraints, PayloadKind::TrainingPlan, 4),
        fact(FactKey::Signals, PayloadKind::DatasetSplit, 4),
    ]);
    assert!(
        !agent.accepts(&c),
        "must not accept once split exists for this iteration"
    );
}

#[test]
fn dataset_agent_accepts_new_plan_or_first_run() {
    let agent = DatasetAgent::new("/tmp/x".to_string());
    let first = ctx(vec![fact(FactKey::Seeds, PayloadKind::Other, 0)]);
    assert!(agent.accepts(&first));
    let later = ctx(vec![
        fact(FactKey::Seeds, PayloadKind::Other, 0),
        fact(FactKey::Constraints, PayloadKind::TrainingPlan, 4),
        fact(FactKey::Constraints, PayloadKind::TrainingPlan, 5),
        fact(FactKey::Signals, PayloadKind::DatasetSplit, 4),
    ]);
    assert!(agent.accepts(&later));
    let no_plan_but_signal = ctx(vec![
        fact(FactKey::Seeds, PayloadKind::Other, 0),
        fact(FactKey::Signals, PayloadKind::Other, 0),
    ]);
    assert!(!agent.accepts(&no_plan_but_signal));
}

#[test]
fn stages_accept_until_their_output_for_the_latest_split_exists() {
    let split = fact(FactKey::Signals, PayloadKind::DatasetSplit, 2);
    let meta = fact(FactKey::Strategies, PayloadKind::ModelMetadata, 2);
    let base = vec![split, meta];
    let c = ctx(base.clone());
    assert!(ModelTrainingAgent::new("/m".to_string()).accepts(&ctx(vec![split])));
    assert!(!ModelTrainingAgent::new("/m".to_string()).accepts(&c));
    assert!(FeatureEngineeringAgent::new().accepts(&c));
    assert!(HyperparameterSearchAgent::new(3).accepts(&c));
    assert!(ModelEvaluationAgent::new().accepts(&c));
    assert!(SampleInferenceAgent::new(3).accepts(&c));
    assert!(!ModelEvaluationAgent::new().accepts(&ctx(vec![split])));

    let mut done = base.clone();
    done.push(fact(FactKey::Constraints, PayloadKind::FeatureSpec, 2));
    done.push(fact(FactKey::Evaluations, PayloadKind::HyperparameterSearchResult, 2));
    done.push(fact(FactKey::Evaluations, PayloadKind::EvaluationReport, 2));
    done.push(fact(FactKey::Hypotheses, PayloadKind::InferenceSample, 2));
    let d = ctx(done);
    assert!(!FeatureEngineeringAgent::new().accepts(&d));
    assert!(!HyperparameterSearchAgent::new(3).accepts(&d));
    assert!(!ModelEvaluationAgent::new().accepts(&d));
    assert!(!SampleInferenceAgent::new(3).accepts(&d));
}

#[test]
fn registry_monitoring_and_deployment_follow_the_latest_report() {
    let meta = fact(FactKey::Strategies, PayloadKind::ModelMetadata, 3);
    let report = fact(FactKey::Evaluations, PayloadKind::EvaluationReport, 3);
    let c = ctx(vec![meta, report]);
    assert!(ModelRegistryAgent::new().accepts(&c));
    assert!(MonitoringAgent::new().accepts(&c));
    assert!(DeploymentAgent::new().accepts(&c));
    let d = ctx(vec![
        meta,
        report,
        fact(FactKey::Strategies, PayloadKind::ModelRegistryRecord, 3),
        fact(FactKey::Evaluations, PayloadKind::MonitoringReport, 3),
        fact(FactKey::Strategies, PayloadKind::DeploymentDecision, 3),
    ]);
    assert!(!ModelRegistryAgent::new().accepts(&d));
    assert!(!MonitoringAgent::new().accepts(&d));
    assert!(!DeploymentAgent::new().accepts(&d));
    assert!(!MonitoringAgent::new().accepts(&ctx(vec![])));
}

#[test]
fn latest_reads_pick_the_first_fact_of_the_highest_iteration() {
    let c = ctx(vec![
        fact(FactKey::Signals, PayloadKind::DatasetSplit, 1),
        fact(FactKey::Signals, PayloadKind::DatasetSplit, 3),
        fact(FactKey::Signals, PayloadKind::DataQualityReport, 1),
        fact(FactKey::Signals, PayloadKind::DatasetSplit, 3),
        fact(FactKey::Signals, PayloadKind::DataQualityReport, 2),
        fact(FactKey::Constraints, PayloadKind::TrainingPlan, 9),
        fact(FactKey::Constraints, PayloadKind::FeatureSpec, 3),
        fact(FactKey::Evaluations, PayloadKind::EvaluationReport, 2),
        fact(FactKey::Evaluations, PayloadKind::EvaluationReport, 1),
        fact(FactKey::Strategies, PayloadKind::ModelMetadata, 0),
    ]);
    assert_eq!(read_latest_split(&c), Ok(1));
    assert_eq!(read_latest_plan(&c), Some(5));
    assert_eq!(read_feature_spec(&c, 3), Some(6));
    assert_eq!(read_feature_spec(&c, 2), None);
    assert_eq!(latest_evaluation_report(&c, 0), Some(7));
    assert_eq!(latest_evaluation_report(&c, 1), Some(8));
    assert_eq!(latest_evaluation_report(&c, 4), None);
    assert_eq!(read_latest_model_meta(&c), Ok(9));
    assert_eq!(latest_data_quality_before_iteration(&c, 2), Some(2));
    assert_eq!(latest_data_quality_before_iteration(&c, 3), Some(4));
    assert_eq!(latest_data_quality_before_iteration(&c, 1), None);
    assert_eq!(read_latest_split(&ctx(vec![])), Err(ReadError::MissingSplit));
    assert_eq!(read_latest_model_meta(&ctx(vec![])), Err(ReadError::MissingModelMetadata));
    assert_eq!(ReadError::MissingSplit.message(), "missing dataset split");
    assert_eq!(ReadError::MissingModelMetadata.message(), "missing model metadata");
}

#[test]
fn split_rows_are_capped_and_balanced() {
    assert_eq!(capped_rows(9, 100), Err(DatasetError::TooSmall));
    assert_eq!(DatasetError::TooSmall.message(), "dataset too small for splitting");
    assert_eq!(capped_rows(1000, 800), Ok(800));
    assert_eq!(capped_rows(20, 100), Ok(20));
    assert_eq!(capped_rows(20, 3), Ok(10));
    assert_eq!(balance_split(800, 640, 120), SplitRows { train: 640, val: 120, infer: 40 });
    assert_eq!(balance_split(10, 8, 2), SplitRows { train: 8, val: 1, infer: 1 });
    assert_eq!(balance_split(10, 9, 1), SplitRows { train: 8, val: 1, infer: 1 });
    assert_eq!(balance_split(2, 1, 1), SplitRows { train: 1, val: 1, infer: 1 });
    let rows = balance_split(100, 80, 15);
    assert_eq!(rows.val_offset(), 80);
    assert_eq!(rows.infer_offset(), 95);
    assert_eq!(rows.train + rows.val + rows.infer, 100);
}

#[test]
fn classifier_stage_reads_nonempty_feature_payloads() {
    let s = ClassifierSuggestor::new("rf-test", Arc::new(()), FactKey::Seeds, FactKey::Hypotheses);
    assert_eq!(s.name(), "rf-test");
    assert_eq!(s.dependencies(), vec![FactKey::Seeds]);
    assert_eq!(s.provenance(), "crucible");
    assert_eq!(s.output_key(), FactKey::Hypotheses);
    let features = |width| FactSummary {
        key: FactKey::Seeds,
        kind: PayloadKind::ClassificationFeatures,
        iteration: 0,
        width,
    };
    let c = ctx(vec![
        features(6),
        fact(FactKey::Seeds, PayloadKind::Other, 0),
        features(0),
        features(6),
    ]);
    assert!(s.accepts(&c));
    assert_eq!(s.classifiable(&c), vec![0, 3]);
    let wrong = ctx(vec![fact(FactKey::Seeds, PayloadKind::Other, 0)]);
    assert!(!s.accepts(&wrong));
    assert!(s.classifiable(&wrong).is_empty());
    assert!(!s.accepts(&ctx(vec![])));
}

#[test]
fn rf_suggestor_skips_empty_feature_vectors() {
    let sugg = ClassifierSuggestor::new(
        "rf-skip-empty",
        Arc::new(()),
        FactKey::Seeds,
        FactKey::Hypotheses,
    );
    let view = ctx(vec![FactSummary {
        key: FactKey::Seeds,
        kind: PayloadKind::ClassificationFeatures,
        iteration: 0,
        width: 0,
    }]);
    assert!(sugg.classifiable(&view).is_empty());
}

#[test]
fn rf_suggestor_accepts_returns_false_for_wrong_payload_family() {
    let sugg = ClassifierSuggestor::new(
        "rf-accepts-filter",
        Arc::new(()),
        FactKey::Seeds,
        FactKey::Hypotheses,
    );
    let view = ctx(vec![FactSummary {
        key: FactKey::Seeds,
        kind: PayloadKind::Other,
        iteration: 0,
        width: 2,
    }]);
    assert!(!sugg.accepts(&view));
    assert!(sugg.classifiable(&view).is_empty());
}

#[test]
fn rf_suggestor_no_features_in_context_is_inert() {
    let sugg = ClassifierSuggestor::new(
        "rf-empty-ctx",
        Arc::new(()),
        FactKey::Seeds,
        FactKey::Hypotheses,
    );
    let view = ctx(vec![]);
    assert!(!sugg.accepts(&view));
    assert!(sugg.classifiable(&view).is_empty());
}

#[test]
fn prediction_ids_join_stage_name_and_fact_id() {
    let sugg = ClassifierSuggestor::new("rf", Arc::new(()), FactKey::Seeds, FactKey::Hypotheses);
    assert_eq!(sugg.prediction_id("row-1"), "rf-row-1");
}

#[test]
fn dataset_agent_settles_once_its_split_exists() {
    let agent = DatasetAgent::new("/tmp/x".to_string());
    let mut facts = vec![
        fact(FactKey::Seeds, PayloadKind::Other, 0),
        fact(FactKey::Constraints, PayloadKind::TrainingPlan, 5),
    ];
    assert!(agent.accepts(&ctx(facts.clone())));
    facts.push(fact(FactKey::Signals, PayloadKind::DatasetSplit, 5));
    assert!(!agent.accepts(&ctx(facts)));
    let first = vec![
        fact(FactKey::Seeds, PayloadKind::Other, 0),
        fact(FactKey::Signals, PayloadKind::DatasetSplit, 1),
    ];
    assert!(!agent.accepts(&ctx(first)));
}

#[test]
fn stages_reopen_for_a_newer_split() {
    let mut facts = vec![
        fact(FactKey::Signals, PayloadKind::DatasetSplit, 1),
        fact(FactKey::Strategies, PayloadKind::ModelMetadata, 1),
        fact(FactKey::Signals, PayloadKind::DataQualityReport, 1),
    ];
    assert!(!ModelTrainingAgent::new("/m".to_string()).accepts(&ctx(facts.clone())));
    assert!(!DataValidationAgent::new().accepts(&ctx(facts.clone())));
    facts.push(fact(FactKey::Signals, PayloadKind::DatasetSplit, 2));
    assert!(ModelTrainingAgent::new("/m".to_string()).accepts(&ctx(facts.clone())));
    assert!(DataValidationAgent::new().accepts(&ctx(facts)));
}

#[test]
fn prediction_ids_differ_for_different_facts() {
    let sugg = ClassifierSuggestor::new("rf", Arc::new(()), FactKey::Seeds, FactKey::Hypotheses);
    assert_ne!(sugg.prediction_id("a"), sugg.prediction_id("b"));
    assert_ne!(sugg.prediction_id("1"), sugg.prediction_id("11"));
}

#[test]
fn classifier_proposes_one_prediction_per_successful_call() {
    let sugg = ClassifierSuggestor::new("rf", Arc::new(()), FactKey::Seeds, FactKey::Hypotheses);
    let feats = |w: usize| FactSummary {
        key: FactKey::Seeds,
        kind: PayloadKind::ClassificationFeatures,
        iteration: 0,
        width: w,
    };
    let view = ctx(vec![
        feats(6),
        fact(FactKey::Seeds, PayloadKind::Other, 0),
        feats(0),
        feats(6),
        feats(6),
    ]);
    let ids: Vec<String> = ["a", "b", "c", "d", "e"].iter().map(|s| s.to_string()).collect();
    assert_eq!(sugg.classifiable(&view), vec![0, 3, 4]);
    let planned = sugg.planned_predictions(&view, &ids, &vec![true, false, true]);
    assert_eq!(planned.len(), 2);
    assert_eq!((planned[0].fact, planned[0].id.as_str()), (0, "rf-a"));
    assert_eq!((planned[1].fact, planned[1].id.as_str()), (4, "rf-e"));
    assert!(planned.iter().all(|p| p.key == FactKey::Hypotheses));
}

#[test]
fn stages_report_failures_under_their_own_ids() {
    let d = ModelEvaluationAgent::new().diagnostic("missing dataset split");
    assert_eq!(d.agent, "ModelEvaluationAgent (MAE)");
    assert_eq!(d.id, "model-eval-error");
    assert_eq!(d.message, "missing dataset split");
    let t = ModelTrainingAgent::new("/m".to_string()).spec_failure("boom");
    assert_eq!(t.id, "model-training-error");
    assert_eq!(t.message, "feature spec application failed: boom");
    assert_eq!(DatasetAgent::new("/d".to_string()).diagnostic("x").id, "dataset-agent-error");
    assert_eq!(SampleInferenceAgent::new(1).diagnostic("x").id, "model-infer-error");
    assert_eq!(ModelRegistryAgent::new().diagnostic("x").id, "model-registry-error");
    assert_eq!(HyperparameterSearchAgent::new(1).diagnostic("x").id, "hyperparam-search-error");
    assert_eq!(FeatureEngineeringAgent::new().diagnostic("x").id, "feature-engineering-error");
    assert_eq!(DataValidationAgent::new().diagnostic("x").id, "data-validation-error");
}

#[test]
fn training_stops_on_a_failed_spec_while_evaluation_falls_back() {
    let training = ModelTrainingAgent::new("/m".to_string());
    let evaluation = ModelEvaluationAgent::new();
    assert_eq!(training.frame_after(SpecOutcome::NoSpec), FrameChoice::Raw);
    assert_eq!(training.frame_after(SpecOutcome::Applied), FrameChoice::Transformed);
    assert_eq!(training.frame_after(SpecOutcome::Failed), FrameChoice::Abort);
    assert_eq!(evaluation.frame_after(SpecOutcome::NoSpec), FrameChoice::Raw);
    assert_eq!(evaluation.frame_after(SpecOutcome::Applied), FrameChoice::Transformed);
    assert_eq!(evaluation.frame_after(SpecOutcome::Failed), FrameChoice::Raw);
}

#[test]
fn hyperparameter_plan_fields() {
    let agent = HyperparameterSearchAgent::new(12);
    let basics = agent.plan_basics(3);
    assert_eq!(basics.kind, "hyperparam_plan");
    assert_eq!(basics.iteration, 3);
    assert_eq!(basics.max_trials, 12);
    assert!(basics.early_stopping);
    assert_eq!(agent.result_kind(), "hyperparam_result");
}
