//! The training-pipeline stages: what each is called, what it reads, when
//! it has work to do, and the parts of its work that are plain values.

use vstd::prelude::*;

use crate::context::{
    fact_matches, has_iteration, has_key, has_kind, latest_iteration, latest_lacks,
    lemma_push_other_keeps_latest, ContextView, FactKey, FactSummary, PayloadKind,
};
use crate::paths::{join_path, joined_path, plain_base, plain_name, separated};
use crate::provenance::CRUCIBLE_PROVENANCE;
use crate::text::{concat2, owned};
use crate::training::records::{DatasetSplit, DeploymentDecision, StageDiagnostic};
use crate::training::split::SplitRows;

verus! {

/// File name of the raw dataset inside the data directory.
pub const DATASET_FILE: &'static str = "california_housing_train.parquet";

/// File names of the three parts of a split inside the data directory.
pub const TRAIN_FILE: &'static str = "train.parquet";

pub const VAL_FILE: &'static str = "val.parquet";

pub const INFER_FILE: &'static str = "infer.parquet";

/// File name of the baseline model inside the model directory.
pub const MODEL_FILE: &'static str = "baseline_mean.json";

/// The stage file names are plain relative file names.
proof fn lemma_file_names_plain()
    ensures
        plain_name(DATASET_FILE@),
        plain_name(TRAIN_FILE@),
        plain_name(VAL_FILE@),
        plain_name(INFER_FILE@),
        plain_name(MODEL_FILE@),
{
    reveal_strlit("california_housing_train.parquet");
    reveal_strlit("train.parquet");
    reveal_strlit("val.parquet");
    reveal_strlit("infer.parquet");
    reveal_strlit("baseline_mean.json");
}

/// The dataset stage has work: seeds are present and, under the latest
/// training plan, no split exists for the plan's iteration; without a plan,
/// no signal exists at all.
pub open spec fn dataset_stage_has_work(facts: Seq<FactSummary>) -> bool {
    has_key(facts, FactKey::Seeds) && if has_kind(
        facts,
        FactKey::Constraints,
        PayloadKind::TrainingPlan,
    ) {
        !has_iteration(
            facts,
            FactKey::Signals,
            PayloadKind::DatasetSplit,
            latest_iteration(facts, FactKey::Constraints, PayloadKind::TrainingPlan),
        )
    } else {
        !has_key(facts, FactKey::Signals)
    }
}

/// Without a seed the dataset stage never has work, whatever plans or
/// signals the context holds.
pub proof fn lemma_dataset_stage_needs_seeds(facts: Seq<FactSummary>)
    ensures
        dataset_stage_has_work(facts) ==> exists|i: int|
            0 <= i < facts.len() && (#[trigger] facts[i]).key == FactKey::Seeds,
{
}

/// Once the dataset stage's split joins the context (a split under
/// `Signals` for the latest plan's iteration, or any split where there is no
/// plan), the dataset stage has no work left.
pub proof fn lemma_split_settles_dataset_stage(facts: Seq<FactSummary>, split: FactSummary)
    requires
        split.key == FactKey::Signals,
        split.kind == PayloadKind::DatasetSplit,
        has_kind(facts, FactKey::Constraints, PayloadKind::TrainingPlan) ==> split.iteration
            == latest_iteration(facts, FactKey::Constraints, PayloadKind::TrainingPlan),
    ensures
        !dataset_stage_has_work(facts.push(split)),
{
    let after = facts.push(split);
    lemma_push_other_keeps_latest(facts, FactKey::Constraints, PayloadKind::TrainingPlan, split);
    assert(after[facts.len() as int] == split);
    assert(after[facts.len() as int].key == FactKey::Signals);
    assert(fact_matches(after[facts.len() as int], FactKey::Signals, PayloadKind::DatasetSplit));
}

/// What became of applying an iteration's feature spec to a data frame.
#[derive(Debug, Clone, Copy, PartialEq, Eq, Structural)]
pub enum SpecOutcome {
    /// The iteration has no feature spec.
    NoSpec,
    /// The spec was applied.
    Applied,
    /// Applying the spec failed.
    Failed,
}

/// Which data frame a stage goes on with once the feature spec was tried.
#[derive(Debug, Clone, Copy, PartialEq, Eq, Structural)]
pub enum FrameChoice {
    /// The frame as loaded.
    Raw,
    /// The frame with the feature spec applied.
    Transformed,
    /// None: the stage reports the failure and stops.
    Abort,
}

/// The plain fields of a hyperparameter search plan.
#[derive(Debug, Clone, PartialEq, Eq)]
pub struct SearchPlanBasics {
    pub kind: String,
    pub iteration: usize,
    pub max_trials: usize,
    pub early_stopping: bool,
}

/// Fetches the raw dataset and splits it into training, validation and
/// inference parts.
#[derive(Debug)]
pub struct DatasetAgent {
    data_dir: String,
}

impl DatasetAgent {
    /// The directory the agent keeps its data in.
    pub closed spec fn data_dir(&self) -> Seq<char> {
        self.data_dir@
    }

    pub fn new(data_dir: String) -> (r: Self)
        ensures
            r.data_dir() == data_dir@,
    {
        Self { data_dir }
    }

    pub fn name(&self) -> (r: &'static str)
        ensures
            r@ == "DatasetAgent (HuggingFace)"@,
    {
        "DatasetAgent (HuggingFace)"
    }

    /// The diagnostic the stage reports where a step of its work failed with
    /// `message`.
    pub fn diagnostic(&self, message: &str) -> (r: StageDiagnostic)
        ensures
            r.agent@ == "DatasetAgent (HuggingFace)"@,
            r.id@ == "dataset-agent-error"@,
            r.message@ == message@,
    {
        StageDiagnostic { agent: owned(self.name()), id: owned("dataset-agent-error"), message: owned(message) }
    }

    /// The provenance of the facts the agent emits.
    pub fn provenance(&self) -> (r: &'static str)
        ensures
            r@ == "crucible"@,
    {
        CRUCIBLE_PROVENANCE.as_str()
    }

    pub fn dependencies(&self) -> (r: Vec<FactKey>)
        ensures
            r@ == seq![FactKey::Seeds],
    {
        vec![FactKey::Seeds]
    }

    /// Where the raw dataset is stored.
    pub fn dataset_path(&self) -> (r: String)
        ensures
            r@ == joined_path(self.data_dir(), DATASET_FILE@),
            plain_base(self.data_dir()) ==> separated(self.data_dir(), DATASET_FILE@, r@),
    {
        proof {
            lemma_file_names_plain();
        }
        join_path(self.data_dir.as_str(), DATASET_FILE)
    }

    /// Where the training, validation and inference parts are stored.
    pub fn split_paths(&self) -> (r: (String, String, String))
        ensures
            r.0@ == joined_path(self.data_dir(), TRAIN_FILE@),
            r.1@ == joined_path(self.data_dir(), VAL_FILE@),
            r.2@ == joined_path(self.data_dir(), INFER_FILE@),
            plain_base(self.data_dir()) ==> separated(self.data_dir(), TRAIN_FILE@, r.0@)
                && separated(self.data_dir(), VAL_FILE@, r.1@) && separated(
                self.data_dir(),
                INFER_FILE@,
                r.2@,
            ),
    {
        proof {
            lemma_file_names_plain();
        }
        (
            join_path(self.data_dir.as_str(), TRAIN_FILE),
            join_path(self.data_dir.as_str(), VAL_FILE),
            join_path(self.data_dir.as_str(), INFER_FILE),
        )
    }

    /// The agent has work where seeds are present and, under the latest
    /// training plan, no split exists for the plan's iteration; without a
    /// plan, where no signal exists at all.
    pub fn accepts(&self, ctx: &ContextView) -> (r: bool)
        ensures
            r == dataset_stage_has_work(ctx.facts@),
            r ==> exists|i: int|
                0 <= i < ctx.facts@.len() && (#[trigger] ctx.facts@[i]).key == FactKey::Seeds,
    {
        proof {
            lemma_dataset_stage_needs_seeds(ctx.facts@);
        }
        if !ctx.has(FactKey::Seeds) {
            return false;
        }
        match ctx.latest(FactKey::Constraints, PayloadKind::TrainingPlan) {
            Some(i) => !ctx.has_iteration(
                FactKey::Signals,
                PayloadKind::DatasetSplit,
                ctx.iteration_of(i),
            ),
            None => !ctx.has(FactKey::Signals),
        }
    }

    /// The split record of a dataset of `total_rows` rows, of which the first
    /// `max_rows` were split into `rows`, for training iteration `iteration`.
    pub fn split_record(
        &self,
        total_rows: usize,
        max_rows: usize,
        rows: SplitRows,
        iteration: usize,
    ) -> (r: DatasetSplit)
        ensures
            r.source_path@ == joined_path(self.data_dir(), DATASET_FILE@),
            r.train_path@ == joined_path(self.data_dir(), TRAIN_FILE@),
            r.val_path@ == joined_path(self.data_dir(), VAL_FILE@),
            r.infer_path@ == joined_path(self.data_dir(), INFER_FILE@),
            plain_base(self.data_dir()) ==> separated(self.data_dir(), DATASET_FILE@, r.source_path@)
                && separated(self.data_dir(), TRAIN_FILE@, r.train_path@) && separated(
                self.data_dir(),
                VAL_FILE@,
                r.val_path@,
            ) && separated(self.data_dir(), INFER_FILE@, r.infer_path@),
            r.total_rows == total_rows,
            r.max_rows == max_rows,
            r.train_rows == rows.train,
            r.val_rows == rows.val,
            r.infer_rows == rows.infer,
            r.iteration == iteration,
    {
        let (train_path, val_path, infer_path) = self.split_paths();
        DatasetSplit {
            source_path: self.dataset_path(),
            train_path,
            val_path,
            infer_path,
            total_rows,
            max_rows,
            train_rows: rows.train,
            val_rows: rows.val,
            infer_rows: rows.infer,
            iteration,
        }
    }
}

/// Fits the baseline model on the training part of the latest split.
#[derive(Debug)]
pub struct ModelTrainingAgent {
    model_dir: String,
}

impl ModelTrainingAgent {
    /// The directory the agent writes models to.
    pub closed spec fn model_dir(&self) -> Seq<char> {
        self.model_dir@
    }

    pub fn new(model_dir: String) -> (r: Self)
        ensures
            r.model_dir() == model_dir@,
    {
        Self { model_dir }
    }

    pub fn name(&self) -> (r: &'static str)
        ensures
            r@ == "ModelTrainingAgent (Baseline)"@,
    {
        "ModelTrainingAgent (Baseline)"
    }

    /// The diagnostic the stage reports where a step of its work failed with
    /// `message`.
    pub fn diagnostic(&self, message: &str) -> (r: StageDiagnostic)
        ensures
            r.agent@ == "ModelTrainingAgent (Baseline)"@,
            r.id@ == "model-training-error"@,
            r.message@ == message@,
    {
        StageDiagnostic { agent: owned(self.name()), id: owned("model-training-error"), message: owned(message) }
    }

    /// The provenance of the facts the agent emits.
    pub fn provenance(&self) -> (r: &'static str)
        ensures
            r@ == "crucible"@,
    {
        CRUCIBLE_PROVENANCE.as_str()
    }

    pub fn dependencies(&self) -> (r: Vec<FactKey>)
        ensures
            r@ == seq![FactKey::Signals],
    {
        vec![FactKey::Signals]
    }

    /// The diagnostic the stage reports where applying the iteration's feature
    /// spec to the training data failed with `message`.
    pub fn spec_failure(&self, message: &str) -> (r: StageDiagnostic)
        ensures
            r.agent@ == "ModelTrainingAgent (Baseline)"@,
            r.id@ == "model-training-error"@,
            r.message@ == "feature spec application failed: "@ + message@,
    {
        let text = concat2("feature spec application failed: ", message);
        self.diagnostic(text.as_str())
    }

    /// The frame the stage trains on: the raw frame without a spec, the
    /// transformed one where the spec applied; a failed spec stops the stage.
    pub fn frame_after(&self, outcome: SpecOutcome) -> (r: FrameChoice)
        ensures
            r == match outcome {
                SpecOutcome::NoSpec => FrameChoice::Raw,
                SpecOutcome::Applied => FrameChoice::Transformed,
                SpecOutcome::Failed => FrameChoice::Abort,
            },
    {
        match outcome {
            SpecOutcome::NoSpec => FrameChoice::Raw,
            SpecOutcome::Applied => FrameChoice::Transformed,
            SpecOutcome::Failed => FrameChoice::Abort,
        }
    }

    /// Where the fitted model is written.
    pub fn model_path(&self) -> (r: String)
        ensures
            r@ == joined_path(self.model_dir(), MODEL_FILE@),
            plain_base(self.model_dir()) ==> separated(self.model_dir(), MODEL_FILE@, r@),
    {
        proof {
            lemma_file_names_plain();
        }
        join_path(self.model_dir.as_str(), MODEL_FILE)
    }

    /// The agent has work where a split exists and no model metadata belongs
    /// to the latest split's iteration.
    pub fn accepts(&self, ctx: &ContextView) -> (r: bool)
        ensures
            r == (has_key(ctx.facts@, FactKey::Signals) && latest_lacks(
                ctx.facts@,
                FactKey::Signals,
                PayloadKind::DatasetSplit,
                FactKey::Strategies,
                PayloadKind::ModelMetadata,
            )),
    {
        ctx.has(FactKey::Signals) && ctx.latest_lacks(
            FactKey::Signals,
            PayloadKind::DatasetSplit,
            FactKey::Strategies,
            PayloadKind::ModelMetadata,
        )
    }
}

/// Measures the data quality of the training part of the latest split.
#[derive(Debug, Default)]
pub struct DataValidationAgent;

impl DataValidationAgent {
    pub fn new() -> (r: Self) {
        Self
    }

    pub fn name(&self) -> (r: &'static str)
        ensures
            r@ == "DataValidationAgent"@,
    {
        "DataValidationAgent"
    }

    /// The diagnostic the stage reports where a step of its work failed with
    /// `message`.
    pub fn diagnostic(&self, message: &str) -> (r: StageDiagnostic)
        ensures
            r.agent@ == "DataValidationAgent"@,
            r.id@ == "data-validation-error"@,
            r.message@ == message@,
    {
        StageDiagnostic { agent: owned(self.name()), id: owned("data-validation-error"), message: owned(message) }
    }

    /// The provenance of the facts the agent emits.
    pub fn provenance(&self) -> (r: &'static str)
        ensures
            r@ == "crucible"@,
    {
        CRUCIBLE_PROVENANCE.as_str()
    }

    pub fn dependencies(&self) -> (r: Vec<FactKey>)
        ensures
            r@ == seq![FactKey::Signals],
    {
        vec![FactKey::Signals]
    }

    /// The agent has work where a split exists and no data-quality report
    /// belongs to the latest split's iteration.
    pub fn accepts(&self, ctx: &ContextView) -> (r: bool)
        ensures
            r == (has_key(ctx.facts@, FactKey::Signals) && latest_lacks(
                ctx.facts@,
                FactKey::Signals,
                PayloadKind::DatasetSplit,
                FactKey::Signals,
                PayloadKind::DataQualityReport,
            )),
    {
        ctx.has(FactKey::Signals) && ctx.latest_lacks(
            FactKey::Signals,
            PayloadKind::DatasetSplit,
            FactKey::Signals,
            PayloadKind::DataQualityReport,
        )
    }
}

/// Proposes the feature spec of the latest split's iteration.
#[derive(Debug, Default)]
pub struct FeatureEngineeringAgent;

impl FeatureEngineeringAgent {
    pub fn new() -> (r: Self) {
        Self
    }

    pub fn name(&self) -> (r: &'static str)
        ensures
            r@ == "FeatureEngineeringAgent"@,
    {
        "FeatureEngineeringAgent"
    }

    /// The diagnostic the stage reports where a step of its work failed with
    /// `message`.
    pub fn diagnostic(&self, message: &str) -> (r: StageDiagnostic)
        ensures
            r.agent@ == "FeatureEngineeringAgent"@,
            r.id@ == "feature-engineering-error"@,
            r.message@ == message@,
    {
        StageDiagnostic { agent: owned(self.name()), id: owned("feature-engineering-error"), message: owned(message) }
    }

    /// The provenance of the facts the agent emits.
    pub fn provenance(&self) -> (r: &'static str)
        ensures
            r@ == "crucible"@,
    {
        CRUCIBLE_PROVENANCE.as_str()
    }

    pub fn dependencies(&self) -> (r: Vec<FactKey>)
        ensures
            r@ == seq![FactKey::Signals],
    {
        vec![FactKey::Signals]
    }

    /// The agent has work where a split exists and no feature spec belongs
    /// to the latest split's iteration.
    pub fn accepts(&self, ctx: &ContextView) -> (r: bool)
        ensures
            r == (has_key(ctx.facts@, FactKey::Signals) && latest_lacks(
                ctx.facts@,
                FactKey::Signals,
                PayloadKind::DatasetSplit,
                FactKey::Constraints,
                PayloadKind::FeatureSpec,
            )),
    {
        ctx.has(FactKey::Signals) && ctx.latest_lacks(
            FactKey::Signals,
            PayloadKind::DatasetSplit,
            FactKey::Constraints,
            PayloadKind::FeatureSpec,
        )
    }
}

/// Plans a hyperparameter search for the latest split's iteration.
#[derive(Debug)]
pub struct HyperparameterSearchAgent {
    pub max_trials: usize,
}

impl HyperparameterSearchAgent {
    pub fn new(max_trials: usize) -> (r: Self)
        ensures
            r.max_trials == max_trials,
    {
        Self { max_trials }
    }

    pub fn name(&self) -> (r: &'static str)
        ensures
            r@ == "HyperparameterSearchAgent"@,
    {
        "HyperparameterSearchAgent"
    }

    /// The diagnostic the stage reports where a step of its work failed with
    /// `message`.
    pub fn diagnostic(&self, message: &str) -> (r: StageDiagnostic)
        ensures
            r.agent@ == "HyperparameterSearchAgent"@,
            r.id@ == "hyperparam-search-error"@,
            r.message@ == message@,
    {
        StageDiagnostic { agent: owned(self.name()), id: owned("hyperparam-search-error"), message: owned(message) }
    }

    /// The plain fields of the search plan for iteration `iteration`.
    pub fn plan_basics(&self, iteration: usize) -> (r: SearchPlanBasics)
        ensures
            r.kind@ == "hyperparam_plan"@,
            r.iteration == iteration,
            r.max_trials == self.max_trials,
            r.early_stopping,
    {
        SearchPlanBasics {
            kind: owned("hyperparam_plan"),
            iteration,
            max_trials: self.max_trials,
            early_stopping: true,
        }
    }

    /// The kind of the search result the stage proposes.
    pub fn result_kind(&self) -> (r: &'static str)
        ensures
            r@ == "hyperparam_result"@,
    {
        "hyperparam_result"
    }

    /// The provenance of the facts the agent emits.
    pub fn provenance(&self) -> (r: &'static str)
        ensures
            r@ == "crucible"@,
    {
        CRUCIBLE_PROVENANCE.as_str()
    }

    pub fn dependencies(&self) -> (r: Vec<FactKey>)
        ensures
            r@ == seq![FactKey::Constraints, FactKey::Signals],
    {
        vec![FactKey::Constraints, FactKey::Signals]
    }

    /// The agent has work where a split exists and no search result belongs
    /// to the latest split's iteration.
    pub fn accepts(&self, ctx: &ContextView) -> (r: bool)
        ensures
            r == (has_key(ctx.facts@, FactKey::Signals) && latest_lacks(
                ctx.facts@,
                FactKey::Signals,
                PayloadKind::DatasetSplit,
                FactKey::Evaluations,
                PayloadKind::HyperparameterSearchResult,
            )),
    {
        ctx.has(FactKey::Signals) && ctx.latest_lacks(
            FactKey::Signals,
            PayloadKind::DatasetSplit,
            FactKey::Evaluations,
            PayloadKind::HyperparameterSearchResult,
        )
    }
}

/// Scores the latest model on the validation part of the latest split.
#[derive(Debug, Default)]
pub struct ModelEvaluationAgent;

impl ModelEvaluationAgent {
    pub fn new() -> (r: Self) {
        Self
    }

    pub fn name(&self) -> (r: &'static str)
        ensures
            r@ == "ModelEvaluationAgent (MAE)"@,
    {
        "ModelEvaluationAgent (MAE)"
    }

    /// The diagnostic the stage reports where a step of its work failed with
    /// `message`.
    pub fn diagnostic(&self, message: &str) -> (r: StageDiagnostic)
        ensures
            r.agent@ == "ModelEvaluationAgent (MAE)"@,
            r.id@ == "model-eval-error"@,
            r.message@ == message@,
    {
        StageDiagnostic { agent: owned(self.name()), id: owned("model-eval-error"), message: owned(message) }
    }

    /// The frame the stage evaluates on: the transformed frame where the
    /// spec applied, the raw frame otherwise, also where the spec failed.
    pub fn frame_after(&self, outcome: SpecOutcome) -> (r: FrameChoice)
        ensures
            r == match outcome {
                SpecOutcome::Applied => FrameChoice::Transformed,
                _ => FrameChoice::Raw,
            },
    {
        match outcome {
            SpecOutcome::Applied => FrameChoice::Transformed,
            _ => FrameChoice::Raw,
        }
    }

    /// The provenance of the facts the agent emits.
    pub fn provenance(&self) -> (r: &'static str)
        ensures
            r@ == "crucible"@,
    {
        CRUCIBLE_PROVENANCE.as_str()
    }

    pub fn dependencies(&self) -> (r: Vec<FactKey>)
        ensures
            r@ == seq![FactKey::Signals, FactKey::Strategies],
    {
        vec![FactKey::Signals, FactKey::Strategies]
    }

    /// The agent has work where signals and strategies are present, a split
    /// exists and no evaluation report belongs to the latest split's
    /// iteration.
    pub fn accepts(&self, ctx: &ContextView) -> (r: bool)
        ensures
            r == (has_key(ctx.facts@, FactKey::Signals) && has_key(ctx.facts@, FactKey::Strategies)
                && latest_lacks(
                ctx.facts@,
                FactKey::Signals,
                PayloadKind::DatasetSplit,
                FactKey::Evaluations,
                PayloadKind::EvaluationReport,
            )),
    {
        ctx.has(FactKey::Signals) && ctx.has(FactKey::Strategies) && ctx.latest_lacks(
            FactKey::Signals,
            PayloadKind::DatasetSplit,
            FactKey::Evaluations,
            PayloadKind::EvaluationReport,
        )
    }
}

/// Runs the latest model on a sample of the inference part of the latest
/// split.
#[derive(Debug)]
pub struct SampleInferenceAgent {
    pub max_rows: usize,
}

impl SampleInferenceAgent {
    pub fn new(max_rows: usize) -> (r: Self)
        ensures
            r.max_rows == max_rows,
    {
        Self { max_rows }
    }

    pub fn name(&self) -> (r: &'static str)
        ensures
            r@ == "SampleInferenceAgent (Baseline)"@,
    {
        "SampleInferenceAgent (Baseline)"
    }

    /// The diagnostic the stage reports where a step of its work failed with
    /// `message`.
    pub fn diagnostic(&self, message: &str) -> (r: StageDiagnostic)
        ensures
            r.agent@ == "SampleInferenceAgent (Baseline)"@,
            r.id@ == "model-infer-error"@,
            r.message@ == message@,
    {
        StageDiagnostic { agent: owned(self.name()), id: owned("model-infer-error"), message: owned(message) }
    }

    /// The provenance of the facts the agent emits.
    pub fn provenance(&self) -> (r: &'static str)
        ensures
            r@ == "crucible"@,
    {
        CRUCIBLE_PROVENANCE.as_str()
    }

    pub fn dependencies(&self) -> (r: Vec<FactKey>)
        ensures
            r@ == seq![FactKey::Signals, FactKey::Strategies],
    {
        vec![FactKey::Signals, FactKey::Strategies]
    }

    /// The agent has work where signals and strategies are present, a split
    /// exists and no inference sample belongs to the latest split's
    /// iteration.
    pub fn accepts(&self, ctx: &ContextView) -> (r: bool)
        ensures
            r == (has_key(ctx.facts@, FactKey::Signals) && has_key(ctx.facts@, FactKey::Strategies)
                && latest_lacks(
                ctx.facts@,
                FactKey::Signals,
                PayloadKind::DatasetSplit,
                FactKey::Hypotheses,
                PayloadKind::InferenceSample,
            )),
    {
        ctx.has(FactKey::Signals) && ctx.has(FactKey::Strategies) && ctx.latest_lacks(
            FactKey::Signals,
            PayloadKind::DatasetSplit,
            FactKey::Hypotheses,
            PayloadKind::InferenceSample,
        )
    }

    /// How many rows of an inference part of `available_rows` rows go into
    /// the sample: at most `max_rows`, and at most one where the part is
    /// empty.
    pub fn sample_rows(&self, available_rows: usize) -> (r: usize)
        ensures
            r == if available_rows == 0 {
                if self.max_rows < 1 {
                    self.max_rows
                } else {
                    1
                }
            } else if self.max_rows < available_rows {
                self.max_rows
            } else {
                available_rows
            },
    {
        let available = if available_rows > 1 {
            available_rows
        } else {
            1
        };
        if self.max_rows < available {
            self.max_rows
        } else {
            available
        }
    }
}

/// Records the latest model and its metrics in the registry.
#[derive(Debug, Default)]
pub struct ModelRegistryAgent;

impl ModelRegistryAgent {
    pub fn new() -> (r: Self) {
        Self
    }

    pub fn name(&self) -> (r: &'static str)
        ensures
            r@ == "ModelRegistryAgent"@,
    {
        "ModelRegistryAgent"
    }

    /// The diagnostic the stage reports where a step of its work failed with
    /// `message`.
    pub fn diagnostic(&self, message: &str) -> (r: StageDiagnostic)
        ensures
            r.agent@ == "ModelRegistryAgent"@,
            r.id@ == "model-registry-error"@,
            r.message@ == message@,
    {
        StageDiagnostic { agent: owned(self.name()), id: owned("model-registry-error"), message: owned(message) }
    }

    /// The provenance of the facts the agent emits.
    pub fn provenance(&self) -> (r: &'static str)
        ensures
            r@ == "crucible"@,
    {
        CRUCIBLE_PROVENANCE.as_str()
    }

    pub fn dependencies(&self) -> (r: Vec<FactKey>)
        ensures
            r@ == seq![FactKey::Strategies, FactKey::Evaluations],
    {
        vec![FactKey::Strategies, FactKey::Evaluations]
    }

    /// The agent has work where strategies and evaluations are present, model
    /// metadata exists and no registry record belongs to the latest model's
    /// iteration.
    pub fn accepts(&self, ctx: &ContextView) -> (r: bool)
        ensures
            r == (has_key(ctx.facts@, FactKey::Strategies) && has_key(
                ctx.facts@,
                FactKey::Evaluations,
            ) && latest_lacks(
                ctx.facts@,
                FactKey::Strategies,
                PayloadKind::ModelMetadata,
                FactKey::Strategies,
                PayloadKind::ModelRegistryRecord,
            )),
    {
        ctx.has(FactKey::Strategies) && ctx.has(FactKey::Evaluations) && ctx.latest_lacks(
            FactKey::Strategies,
            PayloadKind::ModelMetadata,
            FactKey::Strategies,
            PayloadKind::ModelRegistryRecord,
        )
    }
}

/// Reports whether the latest evaluated model is healthy.
#[derive(Debug, Default)]
pub struct MonitoringAgent;

impl MonitoringAgent {
    pub fn new() -> (r: Self) {
        Self
    }

    pub fn name(&self) -> (r: &'static str)
        ensures
            r@ == "MonitoringAgent"@,
    {
        "MonitoringAgent"
    }

    /// The provenance of the facts the agent emits.
    pub fn provenance(&self) -> (r: &'static str)
        ensures
            r@ == "crucible"@,
    {
        CRUCIBLE_PROVENANCE.as_str()
    }

    pub fn dependencies(&self) -> (r: Vec<FactKey>)
        ensures
            r@ == seq![FactKey::Evaluations],
    {
        vec![FactKey::Evaluations]
    }

    /// The agent has work where an evaluation report exists and no
    /// monitoring report belongs to the latest report's iteration.
    pub fn accepts(&self, ctx: &ContextView) -> (r: bool)
        ensures
            r == (has_key(ctx.facts@, FactKey::Evaluations) && latest_lacks(
                ctx.facts@,
                FactKey::Evaluations,
                PayloadKind::EvaluationReport,
                FactKey::Evaluations,
                PayloadKind::MonitoringReport,
            )),
    {
        ctx.has(FactKey::Evaluations) && ctx.latest_lacks(
            FactKey::Evaluations,
            PayloadKind::EvaluationReport,
            FactKey::Evaluations,
            PayloadKind::MonitoringReport,
        )
    }

    /// The status of a model: "healthy" where its success ratio reached the
    /// monitoring threshold, "needs_attention" otherwise.
    pub fn status(&self, healthy: bool) -> (r: &'static str)
        ensures
            healthy ==> r@ == "healthy"@,
            !healthy ==> r@ == "needs_attention"@,
    {
        if healthy {
            "healthy"
        } else {
            "needs_attention"
        }
    }
}

/// Decides whether the latest evaluated model ships.
#[derive(Debug, Default)]
pub struct DeploymentAgent;

impl DeploymentAgent {
    pub fn new() -> (r: Self) {
        Self
    }

    pub fn name(&self) -> (r: &'static str)
        ensures
            r@ == "DeploymentAgent"@,
    {
        "DeploymentAgent"
    }

    /// The provenance of the facts the agent emits.
    pub fn provenance(&self) -> (r: &'static str)
        ensures
            r@ == "crucible"@,
    {
        CRUCIBLE_PROVENANCE.as_str()
    }

    pub fn dependencies(&self) -> (r: Vec<FactKey>)
        ensures
            r@ == seq![FactKey::Evaluations, FactKey::Strategies],
    {
        vec![FactKey::Evaluations, FactKey::Strategies]
    }

    /// The agent has work where evaluations and strategies are present, an
    /// evaluation report exists and no deployment decision belongs to the
    /// latest report's iteration.
    pub fn accepts(&self, ctx: &ContextView) -> (r: bool)
        ensures
            r == (has_key(ctx.facts@, FactKey::Evaluations) && has_key(
                ctx.facts@,
                FactKey::Strategies,
            ) && latest_lacks(
                ctx.facts@,
                FactKey::Evaluations,
                PayloadKind::EvaluationReport,
                FactKey::Strategies,
                PayloadKind::DeploymentDecision,
            )),
    {
        ctx.has(FactKey::Evaluations) && ctx.has(FactKey::Strategies) && ctx.latest_lacks(
            FactKey::Evaluations,
            PayloadKind::EvaluationReport,
            FactKey::Strategies,
            PayloadKind::DeploymentDecision,
        )
    }

    /// The decision for the model of iteration `iteration`: deploy it where
    /// its success ratio met the quality threshold, else hold it and retrain.
    pub fn decide(&self, iteration: usize, meets_threshold: bool) -> (r: DeploymentDecision)
        ensures
            r.kind@ == "deployment_decision"@,
            r.iteration == iteration,
            r.retrain == !meets_threshold,
            meets_threshold ==> r.action@ == "deploy"@ && r.reason@ == "meets quality threshold"@,
            !meets_threshold ==> r.action@ == "hold"@ && r.reason@ == "below quality threshold"@,
    {
        let (action, reason) = if meets_threshold {
            ("deploy", "meets quality threshold")
        } else {
            ("hold", "below quality threshold")
        };
        DeploymentDecision {
            kind: owned("deployment_decision"),
            iteration,
            action: owned(action),
            reason: owned(reason),
            retrain: !meets_threshold,
        }
    }
}

} // verus!
