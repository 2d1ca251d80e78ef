//! Crucible: trained-model packs and the training pipeline around them.
//!
//! This crate holds the decision logic of the pipeline in a form that is
//! proved: which context fact each stage reads, when a stage accepts, how a
//! dataset is split into train / validation / inference rows, which column is
//! the training target, what feature spec is proposed and how it is applied,
//! how tree votes become class counts, and which deployment decision follows
//! an evaluation.

pub mod context;
pub mod models;
pub(crate) mod paths;
pub mod provenance;
pub mod suggestor;
pub(crate) mod text;
pub mod training;

pub use provenance::{Crucible, CRUCIBLE_PROVENANCE};
pub use suggestor::ClassifierSuggestor;
pub use training::{
    DataValidationAgent, DatasetAgent, DeploymentAgent, FeatureEngineeringAgent,
    HyperparameterSearchAgent, ModelEvaluationAgent, ModelRegistryAgent, ModelTrainingAgent,
    MonitoringAgent, SampleInferenceAgent,
};
