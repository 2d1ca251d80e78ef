use crucible::training::split::SplitRows;
use crucible::training::{
    proposal_id, DatasetSplit, DataValidationAgent, DatasetAgent, DeploymentAgent,
    DeploymentDecision, FeatureEngineeringAgent, FeatureInteraction, FeatureSpec,
    HyperparameterSearchAgent, ModelEvaluationAgent, ModelRegistryAgent, MonitoringAgent,
    SampleInferenceAgent,
};

#[test]
fn feature_interaction_construction() {
    let fi = FeatureInteraction {
        name: "a_x_b".into(),
        left: "a".into(),
        right: "b".into(),
        op: "multiply".into(),
    };
    assert_eq!(fi.name, "a_x_b");
    assert_eq!(fi.op, "multiply");
}

#[test]
fn deployment_decision_deploy_vs_hold() {
    let deploy = DeploymentDecision {
        kind: "deployment_decision".into(),
        iteration: 1,
        action: "deploy".into(),
        reason: "meets threshold".into(),
        retrain: false,
    };
    assert!(!deploy.retrain);

    let hold = DeploymentDecision {
        action: "hold".into(),
        retrain: true,
        ..deploy.clone()
    };
    assert!(hold.retrain);
    assert_eq!(hold.action, "hold");
}

#[test]
fn data_validation_agent_default() {
    let agent = DataValidationAgent;
    let agent2 = DataValidationAgent::new();
    assert_eq!(format!("{:?}", agent), format!("{:?}", agent2));
}

#[test]
fn feature_engineering_agent_default() {
    let agent = FeatureEngineeringAgent;
    let agent2 = FeatureEngineeringAgent::new();
    assert_eq!(format!("{:?}", agent), format!("{:?}", agent2));
}

#[test]
fn model_evaluation_agent_default() {
    let agent = ModelEvaluationAgent;
    let agent2 = ModelEvaluationAgent::new();
    assert_eq!(format!("{:?}", agent), format!("{:?}", agent2));
}

#[test]
fn model_registry_agent_default() {
    let agent = ModelRegistryAgent;
    let agent2 = ModelRegistryAgent::new();
    assert_eq!(format!("{:?}", agent), format!("{:?}", agent2));
}

#[test]
fn monitoring_agent_default() {
    let agent = MonitoringAgent;
    let agent2 = MonitoringAgent::new();
    assert_eq!(format!("{:?}", agent), format!("{:?}", agent2));
}

#[test]
fn deployment_agent_default() {
    let agent = DeploymentAgent;
    let agent2 = DeploymentAgent::new();
    assert_eq!(format!("{:?}", agent), format!("{:?}", agent2));
}

#[test]
fn mod_dataset_agent_paths() {
    let agent = DatasetAgent::new("/tmp/data".to_string());
    let _ = agent;
}

#[test]
fn sample_inference_agent_construction() {
    let agent = SampleInferenceAgent::new(100);
    assert_eq!(agent.max_rows, 100);
}

#[test]
fn hyperparameter_search_agent_construction() {
    let agent = HyperparameterSearchAgent::new(50);
    assert_eq!(agent.max_trials, 50);
}

#[test]
fn split_record_carries_paths_and_counts() {
    let agent = DatasetAgent::new("/data".to_string());
    let split: DatasetSplit = agent.split_record(
        1000,
        800,
        SplitRows { train: 640, val: 120, infer: 40 },
        1,
    );
    assert_eq!(split.source_path, "/data/california_housing_train.parquet");
    assert_eq!(split.train_path, "/data/train.parquet");
    assert_eq!(split.val_path, "/data/val.parquet");
    assert_eq!(split.infer_path, "/data/infer.parquet");
    assert_eq!(split.total_rows, 1000);
    assert_eq!(split.train_rows + split.val_rows + split.infer_rows, 800);
    assert_eq!(split.iteration, 1);
}

#[test]
fn deployment_agent_decides_deploy_or_hold() {
    let agent = DeploymentAgent::new();
    let deploy = agent.decide(1, true);
    assert_eq!(deploy.kind, "deployment_decision");
    assert_eq!(deploy.iteration, 1);
    assert_eq!(deploy.action, "deploy");
    assert_eq!(deploy.reason, "meets quality threshold");
    assert!(!deploy.retrain);

    let hold = agent.decide(7, false);
    assert_eq!(hold.iteration, 7);
    assert_eq!(hold.action, "hold");
    assert_eq!(hold.reason, "below quality threshold");
    assert!(hold.retrain);
}

#[test]
fn monitoring_status_names() {
    let agent = MonitoringAgent::new();
    assert_eq!(agent.status(true), "healthy");
    assert_eq!(agent.status(false), "needs_attention");
}

#[test]
fn sample_rows_are_clamped_to_max_rows() {
    let agent = SampleInferenceAgent::new(3);
    assert_eq!(agent.sample_rows(5), 3);
    assert_eq!(agent.sample_rows(2), 2);
    assert_eq!(agent.sample_rows(0), 1);
    assert_eq!(SampleInferenceAgent::new(0).sample_rows(0), 0);
}

#[test]
fn proposal_ids_carry_the_iteration() {
    assert_eq!(proposal_id("dataset-split", 1), "dataset-split-1");
    assert_eq!(proposal_id("trained-model", 0), "trained-model-0");
    assert_eq!(proposal_id("monitoring", 1203), "monitoring-1203");
    assert_eq!(
        proposal_id("x", usize::MAX),
        format!("x-{}", usize::MAX)
    );
}

#[test]
fn feature_spec_fields_hold_their_values() {
    let spec = FeatureSpec {
        kind: "feature_spec".into(),
        iteration: 2,
        target_column: "target".into(),
        numeric_features: vec!["a".into(), "b".into()],
        categorical_features: vec!["c".into()],
        normalization: "standardize".into(),
        interactions: vec![],
    };
    let copy = spec.clone();
    assert_eq!(copy, spec);
    assert_eq!(copy.numeric_features.len(), 2);
    assert_eq!(copy.categorical_features.len(), 1);
}

#[test]
fn proposal_ids_differ_across_iterations() {
    let ids: Vec<String> = [1usize, 10, 11, 101].iter().map(|&i| proposal_id("monitoring", i)).collect();
    for a in 0..ids.len() {
        for b in 0..ids.len() {
            assert_eq!(a == b, ids[a] == ids[b]);
        }
    }
}
