//! Columnar batches: typed value arrays and schema-carrying blocks.
//!
//! A `DataArray` is one column of values, all fitting the array's type. A
//! `DataBlock` is one batch: a schema plus one column per field, all of
//! the same length. Blocks are validated once at construction; every
//! consumer then relies on the well-formedness invariant.

use vstd::prelude::*;

use crate::datavalues::{value_fits, DataSchema, DataType, DataValue};
use crate::error::EngineError;

verus! {

/// One column of scalar values, all fitting `data_type`.
#[derive(Debug)]
pub struct DataArray {
    pub data_type: DataType,
    pub values: Vec<DataValue>,
}

impl DataArray {
    /// Every value of the column fits the column's type.
    pub open spec fn wf(self) -> bool {
        forall|i: int| 0 <= i < self.values@.len() ==> value_fits(#[trigger] self.values@[i], self.data_type)
    }

    /// Builds a column after checking that every value fits the type.
    pub fn create(data_type: DataType, values: Vec<DataValue>) -> (r: Result<DataArray, EngineError>)
        ensures
            match r {
                Ok(arr) => {
                    &&& arr.data_type == data_type
                    &&& arr.values@ == values@
                    &&& arr.wf()
                },
                Err(e) => {
                    &&& e == EngineError::TypeMismatch
                    &&& exists|i: int| 0 <= i < values@.len() && !value_fits(#[trigger] values@[i], data_type)
                },
            },
    {
        let n = values.len();
        for i in 0..n
            invariant
                n == values@.len(),
                forall|j: int| 0 <= j < i ==> value_fits(#[trigger] values@[j], data_type),
        {
            if !values[i].fits(data_type) {
                return Err(EngineError::TypeMismatch);
            }
        }
        Ok(DataArray { data_type, values })
    }

    /// The number of values in the column.
    pub fn len(&self) -> (r: usize)
        ensures
            r == self.values@.len(),
    {
        self.values.len()
    }

    /// The value at row `i`.
    pub fn value_at(&self, i: usize) -> (r: DataValue)
        requires
            i < self.values@.len(),
        ensures
            r == self.values@[i as int],
    {
        self.values[i]
    }
}

/// One batch of rows: a schema and one equally long column per field.
#[derive(Debug)]
pub struct DataBlock {
    pub schema: DataSchema,
    pub columns: Vec<DataArray>,
}

impl DataBlock {
    /// The number of rows of the batch.
    pub open spec fn spec_num_rows(self) -> nat {
        if self.columns@.len() == 0 {
            0
        } else {
            self.columns@[0].values@.len()
        }
    }

    /// Well-formedness of a batch: one column per field, in field order;
    /// each column carries its field's type; all columns have the same
    /// length; a column of a non-nullable field holds no null.
    pub open spec fn wf(self) -> bool {
        &&& self.columns@.len() == self.schema.fields@.len()
        &&& forall|i: int| 0 <= i < self.columns@.len() ==> (#[trigger] self.columns@[i]).wf()
        &&& forall|i: int|
            0 <= i < self.columns@.len() ==> (#[trigger] self.columns@[i]).data_type
                == self.schema.fields@[i].data_type
        &&& forall|i: int|
            0 <= i < self.columns@.len() ==> (#[trigger] self.columns@[i]).values@.len()
                == self.spec_num_rows()
        &&& forall|i: int, j: int|
            0 <= i < self.columns@.len() && 0 <= j < self.columns@[i].values@.len()
                && !self.schema.fields@[i].nullable ==> #[trigger] self.columns@[i].values@[j]
                != DataValue::Null
    }

    /// Builds a batch after checking the well-formedness invariant.
    pub fn create(schema: DataSchema, columns: Vec<DataArray>) -> (r: Result<DataBlock, EngineError>)
        ensures
            match r {
                Ok(b) => {
                    &&& b.schema.fields@ == schema.fields@
                    &&& b.columns@ == columns@
                    &&& b.wf()
                },
                Err(e) => {
                    &&& e == EngineError::TypeMismatch
                    &&& !(DataBlock { schema, columns }).wf()
                },
            },
    {
        let block = DataBlock { schema, columns };
        if block.check_wf() {
            Ok(block)
        } else {
            Err(EngineError::TypeMismatch)
        }
    }

    /// Runtime check of the well-formedness invariant.
    pub fn check_wf(&self) -> (r: bool)
        ensures
            r == self.wf(),
    {
        let ncols = self.columns.len();
        if ncols != self.schema.fields.len() {
            return false;
        }
        let rows = self.num_rows();
        for i in 0..ncols
            invariant
                ncols == self.columns@.len(),
                ncols == self.schema.fields@.len(),
                rows == self.spec_num_rows(),
                forall|k: int| 0 <= k < i ==> (#[trigger] self.columns@[k]).wf(),
                forall|k: int|
                    0 <= k < i ==> (#[trigger] self.columns@[k]).data_type
                        == self.schema.fields@[k].data_type,
                forall|k: int|
                    0 <= k < i ==> (#[trigger] self.columns@[k]).values@.len() == rows,
                forall|k: int, j: int|
                    0 <= k < i && 0 <= j < self.columns@[k].values@.len()
                        && !self.schema.fields@[k].nullable ==> #[trigger] self.columns@[k].values@[j]
                        != DataValue::Null,
        {
            let col = &self.columns[i];
            if col.len() != rows {
                return false;
            }
            let want = self.schema.fields[i].data_type;
            if col.data_type != want {
                return false;
            }
            let nullable = self.schema.fields[i].nullable;
            let nvals = col.len();
            for j in 0..nvals
                invariant
                    i < self.columns@.len(),
                    nvals == self.columns@[i as int].values@.len(),
                    col.values@ == self.columns@[i as int].values@,
                    col.data_type == want,
                    self.columns@[i as int].data_type == want,
                    self.schema.fields@[i as int].nullable == nullable,
                    self.columns@.len() == self.schema.fields@.len(),
                    forall|m: int| 0 <= m < j ==> value_fits(#[trigger] col.values@[m], want),
                    forall|m: int|
                        0 <= m < j && !nullable ==> #[trigger] col.values@[m] != DataValue::Null,
            {
                let v = col.value_at(j);
                if !v.fits(want) {
                    proof {
                        assert(self.columns@[i as int].values@[j as int] == v);
                        assert(!self.columns@[i as int].wf());
                    }
                    return false;
                }
                if !nullable && v.is_null() {
                    proof {
                        assert(self.columns@[i as int].values@[j as int] == DataValue::Null);
                    }
                    return false;
                }
            }
        }
        true
    }

    /// The number of rows of the batch.
    pub fn num_rows(&self) -> (r: usize)
        ensures
            r == self.spec_num_rows(),
    {
        if self.columns.len() == 0 {
            0
        } else {
            self.columns[0].len()
        }
    }
}

} // verus!
