//! Pipeline payloads whose content is plain text and counts.

use vstd::prelude::*;

use crate::text::{concat3, decimal, decimal_text, lemma_decimal_injective};

verus! {

/// Where a dataset was split to, and how many rows went where.
#[derive(Debug, Clone, PartialEq, Eq)]
pub struct DatasetSplit {
    pub source_path: String,
    pub train_path: String,
    pub val_path: String,
    pub infer_path: String,
    pub total_rows: usize,
    pub max_rows: usize,
    pub train_rows: usize,
    pub val_rows: usize,
    pub infer_rows: usize,
    pub iteration: usize,
}

/// A synthesized feature: `op` applied to columns `left` and `right`,
/// stored under `name`.
#[derive(Debug, Clone, PartialEq, Eq)]
pub struct FeatureInteraction {
    pub name: String,
    pub left: String,
    pub right: String,
    pub op: String,
}

/// The feature contract for one training iteration.
#[derive(Debug, Clone, PartialEq, Eq)]
pub struct FeatureSpec {
    pub kind: String,
    pub iteration: usize,
    pub target_column: String,
    pub numeric_features: Vec<String>,
    pub categorical_features: Vec<String>,
    pub normalization: String,
    pub interactions: Vec<FeatureInteraction>,
}

/// Whether the model of an iteration ships.
#[derive(Debug, Clone, PartialEq, Eq)]
pub struct DeploymentDecision {
    pub kind: String,
    pub iteration: usize,
    pub action: String,
    pub reason: String,
    pub retrain: bool,
}

/// What a stage reports where a step of its work failed: the stage's name,
/// the stage's diagnostic id, and what went wrong.
#[derive(Debug, Clone, PartialEq, Eq)]
pub struct StageDiagnostic {
    pub agent: String,
    pub id: String,
    pub message: String,
}

/// The id of a proposal of kind `prefix` for training iteration
/// `iteration`: the prefix, a dash, and the iteration in decimal.
pub fn proposal_id(prefix: &str, iteration: usize) -> (r: String)
    ensures
        r@ == prefix@ + "-"@ + decimal(iteration as nat),
{
    concat3(prefix, "-", decimal_text(iteration).as_str())
}

/// Proposals of one kind for different iterations get different ids.
pub proof fn lemma_proposal_ids_distinct(prefix: Seq<char>, n: nat, m: nat)
    requires
        n != m,
    ensures
        prefix + "-"@ + decimal(n) != prefix + "-"@ + decimal(m),
{
    let p = prefix + "-"@;
    if p + decimal(n) == p + decimal(m) {
        assert((p + decimal(n)).subrange(p.len() as int, (p + decimal(n)).len() as int) =~= decimal(
            n,
        ));
        assert((p + decimal(m)).subrange(p.len() as int, (p + decimal(m)).len() as int) =~= decimal(
            m,
        ));
        lemma_decimal_injective(n, m);
    }
}

} // verus!
