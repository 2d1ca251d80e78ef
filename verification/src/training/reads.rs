//! Which context fact each pipeline stage reads.

use vstd::prelude::*;

use crate::context::{
    has_below, has_iteration, has_kind, is_first_of_iteration, is_latest, is_latest_below, ContextView,
    FactKey, PayloadKind,
};

verus! {

/// Why a stage cannot read what it works on.
#[derive(Debug, Clone, Copy, PartialEq, Eq)]
pub enum ReadError {
    /// No dataset split sits under `Signals`.
    MissingSplit,
    /// No model metadata sits under `Strategies`.
    MissingModelMetadata,
}

impl ReadError {
    /// The diagnostic text of the error.
    pub fn message(&self) -> (r: &'static str)
        ensures
            self is MissingSplit ==> r@ == "missing dataset split"@,
            self is MissingModelMetadata ==> r@ == "missing model metadata"@,
    {
        match self {
            ReadError::MissingSplit => "missing dataset split",
            ReadError::MissingModelMetadata => "missing model metadata",
        }
    }
}

/// The dataset split a stage works on: the latest split under `Signals`;
/// an error where there is none.
pub fn read_latest_split(ctx: &ContextView) -> (r: Result<usize, ReadError>)
    ensures
        match r {
            Err(e) => e == ReadError::MissingSplit && !has_kind(
                ctx.facts@,
                FactKey::Signals,
                PayloadKind::DatasetSplit,
            ),
            Ok(i) => is_latest(ctx.facts@, FactKey::Signals, PayloadKind::DatasetSplit, i as int),
        },
{
    match ctx.latest(FactKey::Signals, PayloadKind::DatasetSplit) {
        Some(i) => Ok(i),
        None => Err(ReadError::MissingSplit),
    }
}

/// The trained model a stage works on: the latest model metadata under
/// `Strategies`; an error where there is none.
pub fn read_latest_model_meta(ctx: &ContextView) -> (r: Result<usize, ReadError>)
    ensures
        match r {
            Err(e) => e == ReadError::MissingModelMetadata && !has_kind(
                ctx.facts@,
                FactKey::Strategies,
                PayloadKind::ModelMetadata,
            ),
            Ok(i) => is_latest(
                ctx.facts@,
                FactKey::Strategies,
                PayloadKind::ModelMetadata,
                i as int,
            ),
        },
{
    match ctx.latest(FactKey::Strategies, PayloadKind::ModelMetadata) {
        Some(i) => Ok(i),
        None => Err(ReadError::MissingModelMetadata),
    }
}

/// The training plan in force: the latest plan under `Constraints`.
pub fn read_latest_plan(ctx: &ContextView) -> (r: Option<usize>)
    ensures
        match r {
            None => !has_kind(ctx.facts@, FactKey::Constraints, PayloadKind::TrainingPlan),
            Some(i) => is_latest(
                ctx.facts@,
                FactKey::Constraints,
                PayloadKind::TrainingPlan,
                i as int,
            ),
        },
{
    ctx.latest(FactKey::Constraints, PayloadKind::TrainingPlan)
}

/// The feature spec of iteration `iteration`: the first one under
/// `Constraints` that belongs to it.
pub fn read_feature_spec(ctx: &ContextView, iteration: usize) -> (r: Option<usize>)
    ensures
        match r {
            None => !has_iteration(
                ctx.facts@,
                FactKey::Constraints,
                PayloadKind::FeatureSpec,
                iteration as int,
            ),
            Some(i) => is_first_of_iteration(
                ctx.facts@,
                FactKey::Constraints,
                PayloadKind::FeatureSpec,
                iteration as int,
                i as int,
            ),
        },
{
    ctx.first_of_iteration(FactKey::Constraints, PayloadKind::FeatureSpec, iteration)
}

/// The evaluation report a stage works on: for a positive `iteration`, the
/// first report under `Evaluations` of that iteration; for iteration 0, the
/// latest report.
pub fn latest_evaluation_report(ctx: &ContextView, iteration: usize) -> (r: Option<usize>)
    ensures
        iteration > 0 ==> match r {
            None => !has_iteration(
                ctx.facts@,
                FactKey::Evaluations,
                PayloadKind::EvaluationReport,
                iteration as int,
            ),
            Some(i) => is_first_of_iteration(
                ctx.facts@,
                FactKey::Evaluations,
                PayloadKind::EvaluationReport,
                iteration as int,
                i as int,
            ),
        },
        iteration == 0 ==> match r {
            None => !has_kind(ctx.facts@, FactKey::Evaluations, PayloadKind::EvaluationReport),
            Some(i) => is_latest(
                ctx.facts@,
                FactKey::Evaluations,
                PayloadKind::EvaluationReport,
                i as int,
            ),
        },
{
    if iteration > 0 {
        ctx.first_of_iteration(FactKey::Evaluations, PayloadKind::EvaluationReport, iteration)
    } else {
        ctx.latest(FactKey::Evaluations, PayloadKind::EvaluationReport)
    }
}

/// The data-quality report drift is measured against: the latest report
/// under `Signals` of an iteration before `iteration`.
pub fn latest_data_quality_before_iteration(ctx: &ContextView, iteration: usize) -> (r: Option<
    usize,
>)
    ensures
        match r {
            None => !has_below(
                ctx.facts@,
                FactKey::Signals,
                PayloadKind::DataQualityReport,
                iteration as int,
            ),
            Some(i) => is_latest_below(
                ctx.facts@,
                FactKey::Signals,
                PayloadKind::DataQualityReport,
                iteration as int,
                i as int,
            ),
        },
{
    ctx.latest_below(FactKey::Signals, PayloadKind::DataQualityReport, iteration)
}

} // verus!
