//! The training pipeline: its stages, the facts they read, and the plain
//! parts of their work.

pub mod agents;
pub mod reads;
pub mod records;
pub mod columns;
pub mod features;
pub mod formats;
pub mod split;

pub use agents::{
    DataValidationAgent, DatasetAgent, DeploymentAgent, FeatureEngineeringAgent,
    HyperparameterSearchAgent, ModelEvaluationAgent, ModelRegistryAgent, ModelTrainingAgent,
    MonitoringAgent, SampleInferenceAgent,
};
pub use records::{
    proposal_id, DatasetSplit, DeploymentDecision, FeatureInteraction, FeatureSpec, StageDiagnostic,
};
