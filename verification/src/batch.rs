//! The finished table: every column an array, all of them of one length.

use crate::schema::{ColumnSpec, Schema};
use crate::store::{has_null, Cell, GenericArray, GenericColumn};
use vstd::prelude::*;

verus! {

/// Why a set of columns is no table.
#[derive(Clone, Copy, Debug, PartialEq, Eq, Structural)]
pub enum BatchError {
    /// There is no column at all.
    NoColumns,
    /// This column has another number of rows than column 0.
    RowCount { column: usize },
    /// There are more or fewer columns than the schema names.
    ColumnCount,
    /// This column stores another type than the schema says.
    Storage { column: usize },
    /// This column holds a null although the schema allows none.
    Null { column: usize },
}

/// The first column from `from` on whose length differs from that of
/// column 0, if there is one.
pub open spec fn first_uneven(columns: Seq<GenericColumn>, from: int) -> Option<int>
    decreases columns.len() - from,
{
    if from < 0 || from >= columns.len() {
        None
    } else if columns[from].rows().len() != columns[0].rows().len() {
        Some(from)
    } else {
        first_uneven(columns, from + 1)
    }
}

/// What is wrong with column `index`, held against its place in the schema:
/// the wrong type, or a null where none may be.
pub open spec fn column_fault(column: GenericColumn, spec: ColumnSpec, index: int) -> Option<
    BatchError,
> {
    if column.storage() != spec.storage {
        Some(BatchError::Storage { column: index as usize })
    } else if !spec.nullable && has_null(column.rows()) {
        Some(BatchError::Null { column: index as usize })
    } else {
        None
    }
}

/// The fault of the first column from `from` on that has one.
pub open spec fn first_fault(
    columns: Seq<GenericColumn>,
    schema: Seq<ColumnSpec>,
    from: int,
) -> Option<BatchError>
    decreases columns.len() - from,
{
    if from < 0 || from >= columns.len() {
        None
    } else if column_fault(columns[from], schema[from], from) is Some {
        column_fault(columns[from], schema[from], from)
    } else {
        first_fault(columns, schema, from + 1)
    }
}

/// What keeps `columns` from being a table under `schema`, if anything does.
/// The checks come in this order: there are columns; all have the length of
/// the first; there are as many as the schema names; each has the type its
/// place asks for and nulls only where they are allowed.
pub open spec fn spec_verdict(columns: Seq<GenericColumn>, schema: Seq<ColumnSpec>) -> Option<
    BatchError,
> {
    if columns.len() == 0 {
        Some(BatchError::NoColumns)
    } else if first_uneven(columns, 1) is Some {
        Some(BatchError::RowCount { column: first_uneven(columns, 1).unwrap() as usize })
    } else if columns.len() != schema.len() {
        Some(BatchError::ColumnCount)
    } else {
        first_fault(columns, schema, 0)
    }
}

/// A table: a schema and, for each of its columns, an array. All arrays have
/// the same number of rows, each stores the type its column asks for, and a
/// column that allows no nulls holds none.
#[derive(Debug)]
pub struct RecordBatch {
    schema: Schema,
    columns: Vec<GenericArray>,
}

impl RecordBatch {
    /// The columns of the table as the schema names them.
    pub closed spec fn schema(&self) -> Seq<ColumnSpec> {
        self.schema@
    }

    /// The rows of column `i`.
    pub closed spec fn column(&self, i: int) -> Seq<Option<Cell>> {
        self.columns@[i].rows()
    }

    /// The number of rows.
    pub closed spec fn rows(&self) -> nat {
        self.columns@[0].rows().len()
    }

    #[verifier::type_invariant]
    pub closed spec fn sound(self) -> bool {
        &&& self.columns@.len() == self.schema@.len()
        &&& self.columns@.len() >= 1
        &&& forall|i: int|
            0 <= i < self.columns@.len() ==> {
                &&& (#[trigger] self.columns@[i]).rows().len() == self.columns@[0].rows().len()
                &&& self.columns@[i].storage() == self.schema@[i].storage
                &&& !self.schema@[i].nullable ==> !has_null(self.columns@[i].rows())
            }
    }

    /// The number of rows.
    pub fn num_rows(&self) -> (n: usize)
        ensures
            n == self.rows(),
    {
        proof {
            use_type_invariant(self);
        }
        self.columns[0].len()
    }

    /// The number of columns.
    pub fn num_columns(&self) -> (n: usize)
        ensures
            n == self.schema().len(),
            n >= 1,
    {
        proof {
            use_type_invariant(self);
        }
        self.columns.len()
    }

    /// The schema of the table.
    pub fn get_schema(&self) -> (schema: &Schema)
        ensures
            schema@ == self.schema(),
    {
        &self.schema
    }

    /// The array of column `index`: it has as many rows as the table, the
    /// type the schema gives the column, and no null where the schema allows
    /// none.
    pub fn get_column(&self, index: usize) -> (array: &GenericArray)
        requires
            index < self.schema().len(),
        ensures
            array.rows() == self.column(index as int),
            array.rows().len() == self.rows(),
            array.storage() == self.schema()[index as int].storage,
            !self.schema()[index as int].nullable ==> !has_null(array.rows()),
    {
        proof {
            use_type_invariant(self);
        }
        &self.columns[index]
    }
}

/// Ends all columns and binds them into a table under `schema`, or says why
/// they are none.
pub fn finish_record_batch(columns: Vec<GenericColumn>, schema: Schema) -> (made: Result<
    RecordBatch,
    BatchError,
>)
    ensures
        match spec_verdict(columns@, schema@) {
            Some(fault) => made == Err::<RecordBatch, BatchError>(fault),
            None => made matches Ok(batch) && {
                &&& batch.schema() == schema@
                &&& batch.rows() == columns@[0].rows().len()
                &&& forall|i: int|
                    0 <= i < columns@.len() ==> batch.column(i) == (#[trigger] columns@[i]).rows()
            },
        },
{
    let n = columns.len();
    if n == 0 {
        return Err(BatchError::NoColumns);
    }
    let rows = columns[0].len();
    let mut i: usize = 1;
    while i < n
        invariant
            1 <= i <= n,
            n == columns@.len(),
            rows == columns@[0].rows().len(),
            first_uneven(columns@, 1) == first_uneven(columns@, i as int),
        decreases n - i,
    {
        if columns[i].len() != rows {
            return Err(BatchError::RowCount { column: i });
        }
        i = i + 1;
    }
    if n != schema.len() {
        return Err(BatchError::ColumnCount);
    }
    let mut i: usize = 0;
    while i < n
        invariant
            i <= n,
            n == columns@.len(),
            n == schema@.len(),
            first_uneven(columns@, 1) is None,
            first_fault(columns@, schema@, 0) == first_fault(columns@, schema@, i as int),
        decreases n - i,
    {
        let spec = schema.column(i);
        if columns[i].data_type() != spec.storage {
            return Err(BatchError::Storage { column: i });
        }
        if !spec.nullable && columns[i].has_null() {
            return Err(BatchError::Null { column: i });
        }
        i = i + 1;
    }
    proof {
        lemma_no_fault(columns@, schema@, 0);
        lemma_even(columns@, 1);
    }
    let mut arrays: Vec<GenericArray> = Vec::new();
    for column in it: columns.into_iter()
        invariant
            it.seq() == columns@,
            arrays@.len() == it.index(),
            forall|k: int|
                0 <= k < arrays@.len() ==> {
                    &&& (#[trigger] arrays@[k]).rows() == columns@[k].rows()
                    &&& arrays@[k].storage() == columns@[k].storage()
                },
    {
        arrays.push(column.finish());
    }
    Ok(RecordBatch { schema, columns: arrays })
}

/// Where no column from `from` on has a fault, each has the type of its
/// place and nulls only where they are allowed.
proof fn lemma_no_fault(columns: Seq<GenericColumn>, schema: Seq<ColumnSpec>, from: int)
    requires
        0 <= from,
        first_fault(columns, schema, from) is None,
    ensures
        forall|i: int|
            from <= i < columns.len() ==> column_fault(#[trigger] columns[i], schema[i], i) is None,
    decreases columns.len() - from,
{
    if from < columns.len() {
        lemma_no_fault(columns, schema, from + 1);
    }
}

/// Where no column from `from` on is uneven, each has the length of
/// column 0.
proof fn lemma_even(columns: Seq<GenericColumn>, from: int)
    requires
        0 <= from,
        first_uneven(columns, from) is None,
    ensures
        forall|i: int|
            from <= i < columns.len() ==> (#[trigger] columns[i]).rows().len()
                == columns[0].rows().len(),
    decreases columns.len() - from,
{
    if from < columns.len() {
        lemma_even(columns, from + 1);
    }
}

} // verus!
