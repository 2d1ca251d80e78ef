//! How many dataset rows go to training, validation and inference.

use vstd::prelude::*;

verus! {

/// A dataset with fewer rows than this is not split.
pub const MIN_DATASET_ROWS: usize = 10;

/// Why a dataset cannot be split.
#[derive(Debug, Clone, Copy, PartialEq, Eq)]
pub enum DatasetError {
    /// The dataset has fewer than [`MIN_DATASET_ROWS`] rows.
    TooSmall,
}

impl DatasetError {
    /// The diagnostic text of the error.
    pub fn message(&self) -> (r: &'static str)
        ensures
            r@ == "dataset too small for splitting"@,
    {
        "dataset too small for splitting"
    }
}

/// The number of rows a split uses: the plan's cap, but no more rows than
/// the dataset has and no fewer than [`MIN_DATASET_ROWS`]; an error where the
/// dataset itself has fewer than [`MIN_DATASET_ROWS`] rows.
pub fn capped_rows(total_rows: usize, plan_max_rows: usize) -> (r: Result<usize, DatasetError>)
    ensures
        total_rows < MIN_DATASET_ROWS ==> r == Err::<usize, DatasetError>(DatasetError::TooSmall),
        total_rows >= MIN_DATASET_ROWS ==> r == Ok::<usize, DatasetError>(
            if plan_max_rows < MIN_DATASET_ROWS {
                MIN_DATASET_ROWS
            } else if plan_max_rows <= total_rows {
                plan_max_rows
            } else {
                total_rows
            },
        ),
{
    if total_rows < MIN_DATASET_ROWS {
        return Err(DatasetError::TooSmall);
    }
    let capped = if plan_max_rows < total_rows {
        plan_max_rows
    } else {
        total_rows
    };
    Ok(
        if capped < MIN_DATASET_ROWS {
            MIN_DATASET_ROWS
        } else {
            capped
        },
    )
}

/// Row counts of the three parts of a split, taken in this order from the
/// start of the dataset.
#[derive(Debug, Clone, Copy, PartialEq, Eq)]
pub struct SplitRows {
    pub train: usize,
    pub val: usize,
    pub infer: usize,
}

impl SplitRows {
    /// The row offset at which the validation rows start.
    pub fn val_offset(&self) -> (r: usize)
        requires
            self.train + self.val <= usize::MAX,
        ensures
            r == self.train,
    {
        self.train
    }

    /// The row offset at which the inference rows start.
    pub fn infer_offset(&self) -> (r: usize)
        requires
            self.train + self.val <= usize::MAX,
        ensures
            r == self.train + self.val,
    {
        self.train + self.val
    }
}

/// The split that [`balance_split`] returns, as a spec function: the proposal unchanged where it leaves
/// rows for inference, else one row moved from validation (or else from
/// training) to an inference part of one row.
pub open spec fn spec_balance_split(max_rows: usize, train_rows: usize, val_rows: usize) -> SplitRows {
    if train_rows + val_rows < max_rows {
        SplitRows { train: train_rows, val: val_rows, infer: (max_rows - train_rows - val_rows) as usize }
    } else if val_rows > 1 {
        SplitRows { train: train_rows, val: (val_rows - 1) as usize, infer: 1 }
    } else if train_rows > 1 {
        SplitRows { train: (train_rows - 1) as usize, val: val_rows, infer: 1 }
    } else {
        SplitRows { train: train_rows, val: val_rows, infer: 1 }
    }
}

/// Balances proposed training and validation row counts against `max_rows`
/// so that the inference part is never empty: where the proposal leaves no
/// row for inference, one row is taken from validation (if it has more than
/// one) or else from training (if it has more than one), and inference gets
/// one row.
pub fn balance_split(max_rows: usize, train_rows: usize, val_rows: usize) -> (r: SplitRows)
    requires
        train_rows + val_rows <= usize::MAX,
    ensures
        r == spec_balance_split(max_rows, train_rows, val_rows),
{
    let mut train = train_rows;
    let mut val = val_rows;
    let used = train + val;
    let mut infer = if max_rows > used {
        max_rows - used
    } else {
        0
    };
    if infer == 0 {
        if val > 1 {
            val = val - 1;
        } else if train > 1 {
            train = train - 1;
        }
        let used = train + val;
        let rest = if max_rows > used {
            max_rows - used
        } else {
            0
        };
        infer = if rest > 1 {
            rest
        } else {
            1
        };
    }
    SplitRows { train, val, infer }
}

/// Where the proposed training and validation rows fit in `max_rows` (and
/// at least three rows are split), the balanced parts cover exactly
/// `max_rows` rows and inference gets at least one of them.
pub proof fn lemma_balanced_split_covers_rows(max_rows: usize, train_rows: usize, val_rows: usize)
    requires
        max_rows >= 3,
        train_rows + val_rows <= max_rows,
    ensures
        ({
            let r = spec_balance_split(max_rows, train_rows, val_rows);
            &&& r.train + r.val + r.infer == max_rows
            &&& r.infer >= 1
            &&& r.train <= train_rows
            &&& r.val <= val_rows
        }),
{
}

} // verus!
