//! Columnar query results: typed columns and batches.
//!
//! A query engine hands results back as chunks of rows sharing one schema.
//! Columns are identified by name and carry one logical type each; reading a
//! value under the wrong type is detected at the column, never a panic.

use vstd::prelude::*;
use vstd::string::StringExecFns;

verus! {

/// The values of one column, tagged with the column's logical type. A column
/// of any type other than 64-bit integer or string carries only its length:
/// the projection can never read such a value, only fail on it.
#[derive(Clone, Debug)]
pub enum ColumnData {
    Int64(Vec<i64>),
    Text(Vec<String>),
    Other(usize),
}

impl ColumnData {
    /// The number of rows the column holds.
    pub open spec fn spec_len(&self) -> nat {
        match self {
            ColumnData::Int64(v) => v@.len(),
            ColumnData::Text(v) => v@.len(),
            ColumnData::Other(n) => *n as nat,
        }
    }

    pub fn len(&self) -> (n: usize)
        ensures
            n == self.spec_len(),
    {
        match self {
            ColumnData::Int64(v) => v.len(),
            ColumnData::Text(v) => v.len(),
            ColumnData::Other(n) => *n,
        }
    }
}

/// One named column of a batch.
#[derive(Clone, Debug)]
pub struct Column {
    pub name: String,
    pub data: ColumnData,
}

/// A chunk of query-result rows sharing one schema: an ordered list of named
/// columns, all of the same length `num_rows`. Batches with zero rows are
/// legitimate; query engines emit them freely.
#[derive(Clone, Debug)]
pub struct TabularBatch {
    pub columns: Vec<Column>,
    pub num_rows: usize,
}

/// The name of the column that carries a row's metric value.
pub open spec fn count_name() -> Seq<char> {
    "count"@
}

/// Compares a column name against the reserved `count` column name.
pub fn is_count_name(s: &String) -> (b: bool)
    ensures
        b == (s@ == count_name()),
{
    let c: String = String::from_str("count");
    *s == c
}

impl TabularBatch {
    /// Every column holds exactly `num_rows` values.
    pub open spec fn wf(self) -> bool {
        forall|i: int|
            0 <= i < self.columns@.len() ==> (#[trigger] self.columns@[i]).data.spec_len()
                == self.num_rows
    }

    /// Whether some column is named `count`.
    pub open spec fn spec_has_count(self) -> bool {
        exists|i: int|
            0 <= i < self.columns@.len() && (#[trigger] self.columns@[i]).name@ == count_name()
    }

    pub fn has_count_column(&self) -> (b: bool)
        ensures
            b == self.spec_has_count(),
    {
        let n = self.columns.len();
        for i in 0..n
            invariant
                n == self.columns@.len(),
                forall|j: int| 0 <= j < i ==> (#[trigger] self.columns@[j]).name@ != count_name(),
        {
            if is_count_name(&self.columns[i].name) {
                return true;
            }
        }
        false
    }

    /// Builds a batch from columns, deriving the row count from the first
    /// column. Succeeds if and only if every column has the same length;
    /// a ragged set of columns is refused.
    pub fn new(columns: Vec<Column>) -> (r: Option<TabularBatch>)
        ensures
            match r {
                Some(b) => {
                    &&& b.wf()
                    &&& b.columns@ == columns@
                    &&& b.num_rows == (if columns@.len() == 0 {
                        0nat
                    } else {
                        columns@[0].data.spec_len()
                    })
                },
                None => exists|i: int|
                    0 <= i < columns@.len() && (#[trigger] columns@[i]).data.spec_len()
                        != columns@[0].data.spec_len(),
            },
    {
        if columns.len() == 0 {
            return Some(TabularBatch { columns, num_rows: 0 });
        }
        let num_rows = columns[0].data.len();
        let n = columns.len();
        for i in 0..n
            invariant
                n == columns@.len(),
                num_rows == columns@[0].data.spec_len(),
                forall|j: int|
                    0 <= j < i ==> (#[trigger] columns@[j]).data.spec_len() == num_rows,
        {
            if columns[i].data.len() != num_rows {
                return None;
            }
        }
        Some(TabularBatch { columns, num_rows })
    }
}

} // verus!
