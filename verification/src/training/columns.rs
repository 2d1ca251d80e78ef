//! The columns of a loaded dataset, as the pipeline sees them: names and
//! element types.

use vstd::prelude::*;

use crate::text::same_text;

verus! {

/// The column the pipeline trains on where the dataset has one by this name.
pub const TARGET_COLUMN: &'static str = "median_house_value";

/// Element type of a dataset column.
#[derive(Debug, Clone, Copy, PartialEq, Eq, Structural)]
pub enum DType {
    Int8,
    Int16,
    Int32,
    Int64,
    UInt8,
    UInt16,
    UInt32,
    UInt64,
    Float32,
    Float64,
    Boolean,
    String,
    /// Any other element type (dates, lists, categoricals, ...).
    Other,
}

/// The fixed-width integer and floating-point types are numeric.
pub open spec fn spec_is_numeric(dtype: DType) -> bool {
    match dtype {
        DType::Int8 | DType::Int16 | DType::Int32 | DType::Int64 | DType::UInt8 | DType::UInt16
        | DType::UInt32 | DType::UInt64 | DType::Float32 | DType::Float64 => true,
        _ => false,
    }
}

/// The numeric element types are the fixed-width integers, signed and
/// unsigned, and the floats: every type but Boolean, String and the others.
pub proof fn lemma_numeric_types(dtype: DType)
    ensures
        spec_is_numeric(dtype) <==> !(dtype is Boolean || dtype is String || dtype is Other),
        dtype is UInt8 || dtype is UInt16 || dtype is UInt32 || dtype is UInt64 ==> spec_is_numeric(
            dtype,
        ),
        dtype is Int8 || dtype is Int16 || dtype is Int32 || dtype is Int64 ==> spec_is_numeric(dtype),
        dtype is Float32 || dtype is Float64 ==> spec_is_numeric(dtype),
{
}

/// Whether columns of element type `dtype` are numeric.
pub fn is_numeric_dtype(dtype: DType) -> (r: bool)
    ensures
        r == spec_is_numeric(dtype),
        r <==> !(dtype is Boolean || dtype is String || dtype is Other),
{
    proof {
        lemma_numeric_types(dtype);
    }
    match dtype {
        DType::Int8 | DType::Int16 | DType::Int32 | DType::Int64 | DType::UInt8 | DType::UInt16
        | DType::UInt32 | DType::UInt64 | DType::Float32 | DType::Float64 => true,
        _ => false,
    }
}

/// A dataset column: its name and element type.
#[derive(Debug, Clone, PartialEq, Eq)]
pub struct ColumnInfo {
    pub name: String,
    pub dtype: DType,
}

/// The texts of a sequence of strings.
pub open spec fn texts(s: Seq<String>) -> Seq<Seq<char>> {
    s.map_values(|x: String| x@)
}

/// The names of the columns other than `target` that are numeric (for
/// `numeric`) or not numeric (for `!numeric`), in column order.
pub open spec fn feature_names(cols: Seq<ColumnInfo>, target: Seq<char>, numeric: bool) -> Seq<
    Seq<char>,
>
    decreases cols.len(),
{
    if cols.len() == 0 {
        seq![]
    } else {
        let rest = feature_names(cols.drop_last(), target, numeric);
        let c = cols.last();
        if c.name@ != target && spec_is_numeric(c.dtype) == numeric {
            rest.push(c.name@)
        } else {
            rest
        }
    }
}

/// Column `i` of `cols` is named `name`, is not the column `target`, and is
/// numeric exactly where `numeric` is.
pub open spec fn is_feature_column(
    cols: Seq<ColumnInfo>,
    i: int,
    name: Seq<char>,
    target: Seq<char>,
    numeric: bool,
) -> bool {
    &&& 0 <= i < cols.len()
    &&& cols[i].name@ == name
    &&& cols[i].name@ != target
    &&& spec_is_numeric(cols[i].dtype) == numeric
}

/// The position, among `cols`, of the column whose name is feature name
/// `k` of `feature_names(cols, target, numeric)`.
pub open spec fn feature_source(cols: Seq<ColumnInfo>, target: Seq<char>, numeric: bool, k: int) -> int
    decreases cols.len(),
{
    if cols.len() == 0 {
        0
    } else if k == feature_names(cols.drop_last(), target, numeric).len() {
        cols.len() - 1
    } else {
        feature_source(cols.drop_last(), target, numeric, k)
    }
}

/// The feature names are the names of the columns other than `target`
/// whose numeric-ness is `numeric`: each listed name is such a column's, and
/// each such column's name is listed.
pub proof fn lemma_feature_names_are_the_other_columns(
    cols: Seq<ColumnInfo>,
    target: Seq<char>,
    numeric: bool,
)
    ensures
        forall|k: int|
            0 <= k < feature_names(cols, target, numeric).len() ==> is_feature_column(
                cols,
                feature_source(cols, target, numeric, k),
                #[trigger] feature_names(cols, target, numeric)[k],
                target,
                numeric,
            ),
        forall|i: int|
            0 <= i < cols.len() && (#[trigger] cols[i]).name@ != target && spec_is_numeric(
                cols[i].dtype,
            ) == numeric ==> feature_names(cols, target, numeric).contains(cols[i].name@),
    decreases cols.len(),
{
    if cols.len() > 0 {
        let prev = cols.drop_last();
        let c = cols.last();
        let n = cols.len() - 1;
        lemma_feature_names_are_the_other_columns(prev, target, numeric);
        assert(cols[n] == c);
        let takes = c.name@ != target && spec_is_numeric(c.dtype) == numeric;
        if takes {
            assert(feature_names(cols, target, numeric) == feature_names(prev, target, numeric).push(
                c.name@,
            ));
        } else {
            assert(feature_names(cols, target, numeric) == feature_names(prev, target, numeric));
        }
        assert forall|k: int|
            0 <= k < feature_names(cols, target, numeric).len() implies is_feature_column(
                cols,
                feature_source(cols, target, numeric, k),
                #[trigger] feature_names(cols, target, numeric)[k],
                target,
                numeric,
            ) by {
            if k < feature_names(prev, target, numeric).len() {
                assert(feature_names(cols, target, numeric)[k] == feature_names(prev, target, numeric)[k]);
                let i = feature_source(prev, target, numeric, k);
                assert(is_feature_column(prev, i, feature_names(prev, target, numeric)[k], target, numeric));
                assert(feature_source(cols, target, numeric, k) == i);
                assert(cols[i] == prev[i]);
            } else {
                assert(feature_names(cols, target, numeric)[k] == c.name@);
                assert(feature_source(cols, target, numeric, k) == n);
            }
        }
        assert forall|i: int|
            0 <= i < cols.len() && (#[trigger] cols[i]).name@ != target && spec_is_numeric(
                cols[i].dtype,
            ) == numeric implies feature_names(cols, target, numeric).contains(cols[i].name@) by {
            if i < n {
                assert(prev[i] == cols[i]);
                assert(feature_names(prev, target, numeric).contains(prev[i].name@));
                let k = choose|k: int|
                    0 <= k < feature_names(prev, target, numeric).len() && feature_names(
                        prev,
                        target,
                        numeric,
                    )[k] == prev[i].name@;
                assert(feature_names(cols, target, numeric)[k] == feature_names(prev, target, numeric)[k]);
            } else {
                assert(feature_names(cols, target, numeric)[feature_names(cols, target, numeric).len()
                    - 1] == c.name@);
            }
        }
    } else {
        assert(feature_names(cols, target, numeric) =~= Seq::<Seq<char>>::empty());
    }
}

/// Splits the columns other than `target` into numeric and categorical
/// feature names, each in column order.
pub fn split_feature_columns(columns: &Vec<ColumnInfo>, target: &str) -> (r: (
    Vec<String>,
    Vec<String>,
))
    ensures
        texts(r.0@) == feature_names(columns@, target@, true),
        texts(r.1@) == feature_names(columns@, target@, false),
        forall|k: int|
            0 <= k < r.0@.len() ==> is_feature_column(
                columns@,
                feature_source(columns@, target@, true, k),
                (#[trigger] r.0@[k])@,
                target@,
                true,
            ),
        forall|k: int|
            0 <= k < r.1@.len() ==> is_feature_column(
                columns@,
                feature_source(columns@, target@, false, k),
                (#[trigger] r.1@[k])@,
                target@,
                false,
            ),
        forall|i: int|
            0 <= i < columns@.len() && (#[trigger] columns@[i]).name@ != target@ ==> if spec_is_numeric(
                columns@[i].dtype,
            ) {
                texts(r.0@).contains(columns@[i].name@)
            } else {
                texts(r.1@).contains(columns@[i].name@)
            },
{
    let mut numeric: Vec<String> = Vec::new();
    let mut categorical: Vec<String> = Vec::new();
    let n = columns.len();
    let mut i: usize = 0;
    while i < n
        invariant
            n == columns@.len(),
            0 <= i <= n,
            texts(numeric@) == feature_names(columns@.take(i as int), target@, true),
            texts(categorical@) == feature_names(columns@.take(i as int), target@, false),
        decreases n - i,
    {
        let c = &columns[i];
        proof {
            assert(columns@.take(i + 1).drop_last() =~= columns@.take(i as int));
            assert(columns@.take(i + 1).last() == columns@[i as int]);
        }
        let ghost prev_numeric = numeric@;
        let ghost prev_categorical = categorical@;
        if !same_text(c.name.as_str(), target) {
            if is_numeric_dtype(c.dtype) {
                numeric.push(c.name.clone());
                assert(texts(numeric@) =~= texts(prev_numeric).push(c.name@));
            } else {
                categorical.push(c.name.clone());
                assert(texts(categorical@) =~= texts(prev_categorical).push(c.name@));
            }
        }
        i = i + 1;
    }
    proof {
        assert(columns@.take(n as int) =~= columns@);
        lemma_feature_names_are_the_other_columns(columns@, target@, true);
        lemma_feature_names_are_the_other_columns(columns@, target@, false);
        assert forall|k: int| 0 <= k < numeric@.len() implies is_feature_column(
            columns@,
            feature_source(columns@, target@, true, k),
            (#[trigger] numeric@[k])@,
            target@,
            true,
        ) by {
            assert(texts(numeric@)[k] == numeric@[k]@);
        }
        assert forall|k: int| 0 <= k < categorical@.len() implies is_feature_column(
            columns@,
            feature_source(columns@, target@, false, k),
            (#[trigger] categorical@[k])@,
            target@,
            false,
        ) by {
            assert(texts(categorical@)[k] == categorical@[k]@);
        }
    }
    (numeric, categorical)
}

/// Why no training target can be chosen.
#[derive(Debug, Clone, Copy, PartialEq, Eq)]
pub enum TargetError {
    /// No column is named [`TARGET_COLUMN`] and no column is numeric.
    NoNumericColumn,
}

impl TargetError {
    /// The diagnostic text of the error.
    pub fn message(&self) -> (r: &'static str)
        ensures
            r@ == "no numeric columns available for target"@,
    {
        "no numeric columns available for target"
    }
}

/// Some column is named [`TARGET_COLUMN`].
pub open spec fn has_named_target(cols: Seq<ColumnInfo>) -> bool {
    exists|i: int| 0 <= i < cols.len() && #[trigger] cols[i].name@ == TARGET_COLUMN@
}

/// Some column is numeric.
pub open spec fn has_numeric_column(cols: Seq<ColumnInfo>) -> bool {
    exists|i: int| 0 <= i < cols.len() && spec_is_numeric(#[trigger] cols[i].dtype)
}

/// A training target can be chosen among `cols`.
pub open spec fn has_target(cols: Seq<ColumnInfo>) -> bool {
    has_named_target(cols) || has_numeric_column(cols)
}

/// Column `i` is the training target: the first column named
/// [`TARGET_COLUMN`] where there is one, else the last numeric column.
pub open spec fn is_selected_target(cols: Seq<ColumnInfo>, i: int) -> bool {
    &&& 0 <= i < cols.len()
    &&& if has_named_target(cols) {
        &&& cols[i].name@ == TARGET_COLUMN@
        &&& forall|j: int| 0 <= j < i ==> #[trigger] cols[j].name@ != TARGET_COLUMN@
    } else {
        &&& spec_is_numeric(cols[i].dtype)
        &&& forall|j: int| i < j < cols.len() ==> !spec_is_numeric(#[trigger] cols[j].dtype)
    }
}

/// The name of the training target among `cols` (meaningful where
/// `has_target(cols)`).
pub open spec fn selected_target_name(cols: Seq<ColumnInfo>) -> Seq<char> {
    cols[choose|i: int| is_selected_target(cols, i)].name@
}

/// At most one column is the training target.
pub proof fn lemma_selected_target_unique(cols: Seq<ColumnInfo>, i: int, k: int)
    requires
        is_selected_target(cols, i),
        is_selected_target(cols, k),
    ensures
        i == k,
{
    if i < k {
        if has_named_target(cols) {
            assert(cols[i].name@ != TARGET_COLUMN@);
        } else {
            assert(!spec_is_numeric(cols[k].dtype));
        }
    } else if k < i {
        if has_named_target(cols) {
            assert(cols[k].name@ != TARGET_COLUMN@);
        } else {
            assert(!spec_is_numeric(cols[i].dtype));
        }
    }
}

/// The column to train on: the first column named [`TARGET_COLUMN`], else the
/// last numeric column; an error where there is neither.
pub fn select_target_column(columns: &Vec<ColumnInfo>) -> (r: Result<usize, TargetError>)
    ensures
        r is Ok <==> has_target(columns@),
        r matches Ok(i) ==> is_selected_target(columns@, i as int) && columns@[i as int].name@
            == selected_target_name(columns@),
        r matches Err(e) ==> e == TargetError::NoNumericColumn,
{
    let n = columns.len();
    let mut i: usize = 0;
    while i < n
        invariant
            n == columns@.len(),
            0 <= i <= n,
            forall|j: int| 0 <= j < i ==> #[trigger] columns@[j].name@ != TARGET_COLUMN@,
        decreases n - i,
    {
        if same_text(columns[i].name.as_str(), TARGET_COLUMN) {
            proof {
                assert(has_named_target(columns@));
                assert(is_selected_target(columns@, i as int));
                lemma_selected_target_unique(
                    columns@,
                    i as int,
                    choose|k: int| is_selected_target(columns@, k),
                );
            }
            return Ok(i);
        }
        i = i + 1;
    }
    assert(!has_named_target(columns@));
    let mut k: usize = n;
    while k > 0
        invariant
            n == columns@.len(),
            0 <= k <= n,
            !has_named_target(columns@),
            forall|j: int| k <= j < n ==> !spec_is_numeric(#[trigger] columns@[j].dtype),
        decreases k,
    {
        k = k - 1;
        if is_numeric_dtype(columns[k].dtype) {
            proof {
                assert(is_selected_target(columns@, k as int));
                lemma_selected_target_unique(
                    columns@,
                    k as int,
                    choose|m: int| is_selected_target(columns@, m),
                );
            }
            return Ok(k);
        }
    }
    Err(TargetError::NoNumericColumn)
}

} // verus!
