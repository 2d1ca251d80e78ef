//! The feature spec of an iteration: how it is proposed from the training
//! columns, and which columns applying it reads, creates and standardizes.

use vstd::prelude::*;

use crate::text::{concat2, concat3, owned, same_text};
use crate::training::columns::{
    feature_names, has_target, select_target_column, selected_target_name, split_feature_columns,
    texts, ColumnInfo, TargetError,
};
use crate::training::records::{FeatureInteraction, FeatureSpec};

verus! {

/// `fi` multiplies columns `a` and `b` into a column named `a_x_b`.
pub open spec fn is_product_of(fi: FeatureInteraction, a: Seq<char>, b: Seq<char>) -> bool {
    &&& fi.name@ == a + "_x_"@ + b
    &&& fi.left@ == a
    &&& fi.right@ == b
    &&& fi.op@ == "multiply"@
}

/// The feature spec proposed for iteration `iteration` of a dataset with
/// columns `columns`: the training target, the numeric and categorical
/// features, standardization, and the product of the first two numeric
/// features where there are at least two. An error where no target can be
/// chosen.
pub fn propose_feature_spec(iteration: usize, columns: &Vec<ColumnInfo>) -> (r: Result<
    FeatureSpec,
    TargetError,
>)
    ensures
        r is Ok <==> has_target(columns@),
        r matches Err(e) ==> e == TargetError::NoNumericColumn,
        r matches Ok(spec) ==> {
            let t = selected_target_name(columns@);
            let num = feature_names(columns@, t, true);
            &&& spec.kind@ == "feature_spec"@
            &&& spec.iteration == iteration
            &&& spec.target_column@ == t
            &&& texts(spec.numeric_features@) == num
            &&& texts(spec.categorical_features@) == feature_names(columns@, t, false)
            &&& spec.normalization@ == "standardize"@
            &&& if num.len() >= 2 {
                spec.interactions@.len() == 1 && is_product_of(spec.interactions@[0], num[0], num[1])
            } else {
                spec.interactions@.len() == 0
            }
        },
{
    let t = match select_target_column(columns) {
        Ok(i) => i,
        Err(e) => {
            return Err(e);
        },
    };
    let target_column = columns[t].name.clone();
    let (numeric_features, categorical_features) = split_feature_columns(
        columns,
        target_column.as_str(),
    );
    let mut interactions: Vec<FeatureInteraction> = Vec::new();
    if numeric_features.len() >= 2 {
        let a = &numeric_features[0];
        let b = &numeric_features[1];
        proof {
            assert(texts(numeric_features@)[0] == a@);
            assert(texts(numeric_features@)[1] == b@);
        }
        interactions.push(
            FeatureInteraction {
                name: concat3(a.as_str(), "_x_", b.as_str()),
                left: a.clone(),
                right: b.clone(),
                op: owned("multiply"),
            },
        );
    }
    Ok(
        FeatureSpec {
            kind: owned("feature_spec"),
            iteration,
            target_column,
            numeric_features,
            categorical_features,
            normalization: owned("standardize"),
            interactions,
        },
    )
}

/// The arithmetic an interaction applies.
#[derive(Debug, Clone, Copy, PartialEq, Eq, Structural)]
pub enum InteractionOp {
    Multiply,
    Add,
    Subtract,
    /// Left over right, left empty where the right value is near zero.
    Divide,
}

/// The operation an op name denotes, if any.
pub open spec fn spec_parse_op(op: Seq<char>) -> Option<InteractionOp> {
    if op == "multiply"@ {
        Some(InteractionOp::Multiply)
    } else if op == "add"@ {
        Some(InteractionOp::Add)
    } else if op == "subtract"@ {
        Some(InteractionOp::Subtract)
    } else if op == "divide"@ {
        Some(InteractionOp::Divide)
    } else {
        None
    }
}

/// The operation named `op`: "multiply", "add", "subtract" or "divide".
pub fn parse_interaction_op(op: &str) -> (r: Option<InteractionOp>)
    ensures
        r == spec_parse_op(op@),
{
    if same_text(op, "multiply") {
        Some(InteractionOp::Multiply)
    } else if same_text(op, "add") {
        Some(InteractionOp::Add)
    } else if same_text(op, "subtract") {
        Some(InteractionOp::Subtract)
    } else if same_text(op, "divide") {
        Some(InteractionOp::Divide)
    } else {
        None
    }
}

/// Why a feature spec cannot be applied.
#[derive(Debug, Clone, PartialEq, Eq)]
pub enum FeatureSpecError {
    /// An interaction reads a column the data does not have.
    MissingColumn(String),
    /// An interaction names an operation there is none of.
    UnsupportedOp(String),
    /// An interaction reads a column whose values cannot be cast to f64.
    CastFailed(String),
}

impl FeatureSpecError {
    /// The diagnostic text of the error.
    pub fn message(&self) -> (r: String)
        ensures
            self matches FeatureSpecError::MissingColumn(c) ==> r@ == "missing column "@ + c@
                + " for interaction"@,
            self matches FeatureSpecError::UnsupportedOp(op) ==> r@ == "unsupported interaction op: "@
                + op@,
            self matches FeatureSpecError::CastFailed(c) ==> r@ == "column "@ + c@
                + " cannot be cast to f64"@,
    {
        match self {
            FeatureSpecError::MissingColumn(c) => concat3("missing column ", c.as_str(), " for interaction"),
            FeatureSpecError::UnsupportedOp(op) => concat2("unsupported interaction op: ", op.as_str()),
            FeatureSpecError::CastFailed(c) => concat3("column ", c.as_str(), " cannot be cast to f64"),
        }
    }
}

/// Whether `names` holds `name`.
pub fn contains_name(names: &Vec<String>, name: &str) -> (r: bool)
    ensures
        r == texts(names@).contains(name@),
{
    let n = names.len();
    let mut i: usize = 0;
    while i < n
        invariant
            n == names@.len(),
            0 <= i <= n,
            forall|j: int| 0 <= j < i ==> #[trigger] names@[j]@ != name@,
        decreases n - i,
    {
        if same_text(names[i].as_str(), name) {
            proof {
                assert(texts(names@)[i as int] == name@);
            }
            return true;
        }
        i = i + 1;
    }
    proof {
        if texts(names@).contains(name@) {
            let k = choose|k: int| 0 <= k < texts(names@).len() && texts(names@)[k] == name@;
            assert(names@[k]@ == name@);
        }
    }
    false
}

/// The operation `interaction` applies to data with columns `columns`, or
/// why it cannot be applied, checked in this order: the left column is
/// present, its values cast to f64 (`left_cast_ok`), the right column is
/// present, its values cast to f64 (`right_cast_ok`), the operation exists.
/// A cast outcome is read only once its column is known to be present.
pub fn resolve_interaction(
    columns: &Vec<String>,
    interaction: &FeatureInteraction,
    left_cast_ok: bool,
    right_cast_ok: bool,
) -> (r: Result<InteractionOp, FeatureSpecError>)
    ensures
        !texts(columns@).contains(interaction.left@) ==> (r matches Err(
            FeatureSpecError::MissingColumn(c),
        ) && c@ == interaction.left@),
        texts(columns@).contains(interaction.left@) && !left_cast_ok ==> (r matches Err(
            FeatureSpecError::CastFailed(c),
        ) && c@ == interaction.left@),
        texts(columns@).contains(interaction.left@) && left_cast_ok && !texts(columns@).contains(
            interaction.right@,
        ) ==> (r matches Err(FeatureSpecError::MissingColumn(c)) && c@ == interaction.right@),
        texts(columns@).contains(interaction.left@) && left_cast_ok && texts(columns@).contains(
            interaction.right@,
        ) && !right_cast_ok ==> (r matches Err(FeatureSpecError::CastFailed(c)) && c@
            == interaction.right@),
        texts(columns@).contains(interaction.left@) && left_cast_ok && texts(columns@).contains(
            interaction.right@,
        ) && right_cast_ok ==> match spec_parse_op(interaction.op@) {
            Some(o) => r == Ok::<InteractionOp, FeatureSpecError>(o),
            None => r matches Err(FeatureSpecError::UnsupportedOp(o)) && o@ == interaction.op@,
        },
{
    if !contains_name(columns, interaction.left.as_str()) {
        return Err(FeatureSpecError::MissingColumn(interaction.left.clone()));
    }
    if !left_cast_ok {
        return Err(FeatureSpecError::CastFailed(interaction.left.clone()));
    }
    if !contains_name(columns, interaction.right.as_str()) {
        return Err(FeatureSpecError::MissingColumn(interaction.right.clone()));
    }
    if !right_cast_ok {
        return Err(FeatureSpecError::CastFailed(interaction.right.clone()));
    }
    match parse_interaction_op(interaction.op.as_str()) {
        Some(o) => Ok(o),
        None => Err(FeatureSpecError::UnsupportedOp(interaction.op.clone())),
    }
}

/// The entries of `names` that `present` holds, in order.
pub open spec fn present_names(names: Seq<Seq<char>>, present: Seq<Seq<char>>) -> Seq<Seq<char>>
    decreases names.len(),
{
    if names.len() == 0 {
        seq![]
    } else {
        let rest = present_names(names.drop_last(), present);
        if present.contains(names.last()) {
            rest.push(names.last())
        } else {
            rest
        }
    }
}

/// The columns applying `spec` standardizes, given the columns the data has
/// once the interactions are added: under "standardize" normalization, the
/// numeric features the data has, in the spec's order; none otherwise.
pub fn standardized_columns(spec: &FeatureSpec, columns: &Vec<String>) -> (r: Vec<String>)
    ensures
        spec.normalization@ == "standardize"@ ==> texts(r@) == present_names(
            texts(spec.numeric_features@),
            texts(columns@),
        ),
        spec.normalization@ != "standardize"@ ==> r@.len() == 0,
{
    let mut out: Vec<String> = Vec::new();
    if !same_text(spec.normalization.as_str(), "standardize") {
        return out;
    }
    let names = &spec.numeric_features;
    let n = names.len();
    let mut i: usize = 0;
    while i < n
        invariant
            n == names@.len(),
            0 <= i <= n,
            texts(out@) == present_names(texts(names@).take(i as int), texts(columns@)),
        decreases n - i,
    {
        proof {
            assert(texts(names@).take(i + 1).drop_last() =~= texts(names@).take(i as int));
            assert(texts(names@).take(i + 1).last() == names@[i as int]@);
        }
        let ghost prev = out@;
        if contains_name(columns, names[i].as_str()) {
            out.push(names[i].clone());
            assert(texts(out@) =~= texts(prev).push(names@[i as int]@));
        }
        i = i + 1;
    }
    proof {
        assert(texts(names@).take(n as int) =~= texts(names@));
    }
    out
}

} // verus!
