use std::path::PathBuf;

use crucible::{DatasetAgent, ModelTrainingAgent, CRUCIBLE_PROVENANCE};

#[test]
fn provenance_string_is_stable() {
    assert_eq!(CRUCIBLE_PROVENANCE.as_str(), "crucible");
}

#[test]
fn dataset_dataset_agent_paths() {
    let agent = DatasetAgent::new("/tmp/data".to_string());
    assert_eq!(
        PathBuf::from(agent.dataset_path()),
        PathBuf::from("/tmp/data/california_housing_train.parquet")
    );
    let (train, val, infer) = agent.split_paths();
    assert_eq!(PathBuf::from(train), PathBuf::from("/tmp/data/train.parquet"));
    assert_eq!(PathBuf::from(val), PathBuf::from("/tmp/data/val.parquet"));
    assert_eq!(PathBuf::from(infer), PathBuf::from("/tmp/data/infer.parquet"));
}

#[test]
fn model_training_agent_model_path() {
    let agent = ModelTrainingAgent::new("/tmp/models".to_string());
    assert_eq!(
        PathBuf::from(agent.model_path()),
        PathBuf::from("/tmp/models/baseline_mean.json")
    );
}
