use crucible::training::columns::{
    is_numeric_dtype, select_target_column, split_feature_columns, ColumnInfo, DType, TargetError,
};
use crucible::training::features::{
    parse_interaction_op, propose_feature_spec, resolve_interaction, standardized_columns,
    FeatureSpecError, InteractionOp,
};
use crucible::training::formats::{data_format_for_extension, DataFormat};
use crucible::training::{FeatureInteraction, FeatureSpec};

fn col(name: &str, dtype: DType) -> ColumnInfo {
    ColumnInfo { name: name.to_string(), dtype }
}

fn names(v: &[&str]) -> Vec<String> {
    v.iter().map(|s| s.to_string()).collect()
}

fn spec_with(interactions: Vec<FeatureInteraction>) -> FeatureSpec {
    FeatureSpec {
        kind: "feature_spec".into(),
        iteration: 1,
        target_column: "t".into(),
        numeric_features: vec![],
        categorical_features: vec![],
        normalization: "none".into(),
        interactions,
    }
}

fn interaction(name: &str, left: &str, right: &str, op: &str) -> FeatureInteraction {
    FeatureInteraction {
        name: name.into(),
        left: left.into(),
        right: right.into(),
        op: op.into(),
    }
}

#[test]
fn is_numeric_dtype_comprehensive() {
    assert!(is_numeric_dtype(DType::Float32));
    assert!(is_numeric_dtype(DType::Float64));
    assert!(is_numeric_dtype(DType::Int64));
    assert!(!is_numeric_dtype(DType::String));
    assert!(!is_numeric_dtype(DType::Boolean));
}

#[test]
fn split_feature_columns_separates_types() {
    let df = vec![
        col("num1", DType::Float64),
        col("num2", DType::Int32),
        col("cat1", DType::String),
        col("target", DType::Float64),
    ];
    let (numeric, categorical) = split_feature_columns(&df, "target");
    assert!(numeric.contains(&"num1".to_string()));
    assert!(numeric.contains(&"num2".to_string()));
    assert!(categorical.contains(&"cat1".to_string()));
    assert!(!numeric.contains(&"target".to_string()));
    assert!(!categorical.contains(&"target".to_string()));
}

#[test]
fn select_target_column_prefers_named_target() {
    let df = vec![col("x", DType::Float64), col("median_house_value", DType::Float64)];
    let i = select_target_column(&df).unwrap();
    assert_eq!(df[i].name, "median_house_value");
}

#[test]
fn select_target_column_falls_back_to_last_numeric() {
    let df = vec![col("a", DType::Float64), col("b", DType::Float64)];
    let i = select_target_column(&df).unwrap();
    assert_eq!(df[i].name, "b");
}

#[test]
fn select_target_column_fails_with_no_numeric() {
    let df = vec![col("text", DType::String)];
    assert!(select_target_column(&df).is_err());
}

#[test]
fn named_target_wins_even_when_not_numeric_or_last() {
    let df = vec![
        col("median_house_value", DType::String),
        col("a", DType::Float64),
        col("b", DType::Int8),
    ];
    assert_eq!(select_target_column(&df), Ok(0));
    let none: Vec<ColumnInfo> = vec![];
    assert_eq!(select_target_column(&none), Err(TargetError::NoNumericColumn));
    assert_eq!(
        TargetError::NoNumericColumn.message(),
        "no numeric columns available for target"
    );
}

#[test]
fn feature_engineering_proposes_product_of_first_two_numeric_features() {
    let df = vec![
        col("x", DType::Float64),
        col("y", DType::Float64),
        col("median_house_value", DType::Float64),
        col("city", DType::String),
    ];
    let spec = propose_feature_spec(2, &df).unwrap();
    assert_eq!(spec.kind, "feature_spec");
    assert_eq!(spec.iteration, 2);
    assert_eq!(spec.target_column, "median_house_value");
    assert_eq!(spec.numeric_features, names(&["x", "y"]));
    assert_eq!(spec.categorical_features, names(&["city"]));
    assert_eq!(spec.normalization, "standardize");
    assert_eq!(spec.interactions.len(), 1);
    assert_eq!(spec.interactions[0], interaction("x_x_y", "x", "y", "multiply"));
}

#[test]
fn feature_engineering_without_two_numeric_features_proposes_no_interaction() {
    let df = vec![col("x", DType::Float64), col("label", DType::String)];
    let spec = propose_feature_spec(1, &df).unwrap();
    assert_eq!(spec.target_column, "x");
    assert!(spec.numeric_features.is_empty());
    assert!(spec.interactions.is_empty());
    let text_only = vec![col("label", DType::String)];
    assert_eq!(propose_feature_spec(1, &text_only), Err(TargetError::NoNumericColumn));
}

#[test]
fn apply_feature_spec_errors_on_missing_left_column() {
    let columns = names(&["b"]);
    let spec = spec_with(vec![interaction("a_x_b", "a", "b", "multiply")]);
    let err = resolve_interaction(&columns, &spec.interactions[0], true, true).unwrap_err();
    assert!(err.message().contains("missing column a"));
}

#[test]
fn apply_feature_spec_errors_on_unsupported_op() {
    let columns = names(&["a", "b"]);
    let spec = spec_with(vec![interaction("weird", "a", "b", "tensor_product")]);
    let err = resolve_interaction(&columns, &spec.interactions[0], true, true).unwrap_err();
    assert!(err.message().contains("unsupported interaction op"));
}

#[test]
fn interaction_checks_left_then_right_then_op() {
    let columns = names(&["a", "b"]);
    assert_eq!(
        resolve_interaction(&columns, &interaction("n", "z", "y", "nope"), true, true),
        Err(FeatureSpecError::MissingColumn("z".into()))
    );
    assert_eq!(
        resolve_interaction(&columns, &interaction("n", "a", "y", "nope"), true, true),
        Err(FeatureSpecError::MissingColumn("y".into()))
    );
    assert_eq!(
        resolve_interaction(&columns, &interaction("n", "a", "b", "nope"), true, true),
        Err(FeatureSpecError::UnsupportedOp("nope".into()))
    );
    assert_eq!(
        resolve_interaction(&columns, &interaction("n", "a", "b", "divide"), true, true),
        Ok(InteractionOp::Divide)
    );
    assert_eq!(
        resolve_interaction(&columns, &interaction("n", "a", "y", "nope"), false, true),
        Err(FeatureSpecError::CastFailed("a".into()))
    );
    assert_eq!(
        resolve_interaction(&columns, &interaction("n", "a", "y", "nope"), true, false),
        Err(FeatureSpecError::MissingColumn("y".into()))
    );
    assert_eq!(
        resolve_interaction(&columns, &interaction("n", "a", "b", "nope"), true, false),
        Err(FeatureSpecError::CastFailed("b".into()))
    );
    assert_eq!(
        resolve_interaction(&columns, &interaction("n", "z", "b", "add"), false, false),
        Err(FeatureSpecError::MissingColumn("z".into()))
    );
    assert_eq!(
        FeatureSpecError::CastFailed("c".into()).message(),
        "column c cannot be cast to f64"
    );
    assert_eq!(
        FeatureSpecError::MissingColumn("a".into()).message(),
        "missing column a for interaction"
    );
    assert_eq!(
        FeatureSpecError::UnsupportedOp("pow".into()).message(),
        "unsupported interaction op: pow"
    );
}

#[test]
fn op_names_parse_to_operations() {
    assert_eq!(parse_interaction_op("multiply"), Some(InteractionOp::Multiply));
    assert_eq!(parse_interaction_op("add"), Some(InteractionOp::Add));
    assert_eq!(parse_interaction_op("subtract"), Some(InteractionOp::Subtract));
    assert_eq!(parse_interaction_op("divide"), Some(InteractionOp::Divide));
    assert_eq!(parse_interaction_op("Multiply"), None);
    assert_eq!(parse_interaction_op(""), None);
}

#[test]
fn standardization_covers_numeric_features_present() {
    let mut spec = spec_with(vec![]);
    spec.numeric_features = names(&["a", "missing", "b"]);
    spec.normalization = "standardize".into();
    let columns = names(&["b", "a", "target"]);
    assert_eq!(standardized_columns(&spec, &columns), names(&["a", "b"]));
    spec.normalization = "none".into();
    assert!(standardized_columns(&spec, &columns).is_empty());
}

#[test]
fn data_formats_follow_the_extension() {
    assert_eq!(data_format_for_extension("parquet"), Some(DataFormat::Parquet));
    assert_eq!(data_format_for_extension("PARQUET"), Some(DataFormat::Parquet));
    assert_eq!(data_format_for_extension("Csv"), Some(DataFormat::Csv));
    assert_eq!(data_format_for_extension("tsv"), None);
    assert_eq!(data_format_for_extension(""), None);
    assert_eq!(data_format_for_extension("parquet2"), None);
}
