//! Stateful aggregation over batches.
//!
//! An aggregator folds the values of one named column, batch by batch,
//! into a running state, and finalizes that state into a one-row column.
//! Null values are ignored by every aggregate. The running sum turns
//! null once it leaves the `i64` range; the count of folded values
//! saturates at `i64::MAX`. Folding is a sequential left fold, so folding
//! two batches one after the other is the same as folding their
//! concatenation.

use vstd::prelude::*;

use crate::datablocks::{DataArray, DataBlock};
use crate::datavalues::{field_index, is_numeric, lemma_field_index_agree, lemma_field_index_bounds, numeric_value, schemas_agree, DataType, DataValue};
use crate::error::EngineError;

verus! {

/// The closed set of aggregate operations.
#[derive(Clone, Copy, Debug, PartialEq, Eq, Structural)]
pub enum AggregateOp {
    Sum,
    Count,
    Min,
    Max,
}

/// One aggregate expression node: the operation, the argument column,
/// and the running state accumulated so far.
#[derive(Debug)]
pub struct AggregatorFunction {
    pub op: AggregateOp,
    pub column: String,
    /// Number of non-null values folded so far, saturating at `i64::MAX`.
    pub count: i64,
    /// Running sum for `Sum` (none once the sum leaves the `i64` range);
    /// current extremum for `Min` and `Max` (none before the first value).
    pub acc: Option<i64>,
}

/// The state reached from `g` after folding one value.
pub open spec fn agg_step(g: AggregatorFunction, v: DataValue) -> AggregatorFunction {
    if v == DataValue::Null {
        g
    } else {
        let x = numeric_value(v);
        let count2: i64 = if g.count < i64::MAX {
            (g.count + 1) as i64
        } else {
            g.count
        };
        let acc2: Option<i64> = match g.op {
            AggregateOp::Sum => match g.acc {
                Some(s) => if i64::MIN <= s + x <= i64::MAX {
                    Some((s + x) as i64)
                } else {
                    None
                },
                None => None,
            },
            AggregateOp::Count => g.acc,
            AggregateOp::Min => match g.acc {
                Some(m) => Some(if x < m {
                    x as i64
                } else {
                    m
                }),
                None => Some(x as i64),
            },
            AggregateOp::Max => match g.acc {
                Some(m) => Some(if x > m {
                    x as i64
                } else {
                    m
                }),
                None => Some(x as i64),
            },
        };
        AggregatorFunction { count: count2, acc: acc2, ..g }
    }
}

/// The state reached from `g` after folding `vs` left to right.
pub open spec fn agg_fold(g: AggregatorFunction, vs: Seq<DataValue>) -> AggregatorFunction
    decreases vs.len(),
{
    if vs.len() == 0 {
        g
    } else {
        agg_fold(agg_step(g, vs[0]), vs.drop_first())
    }
}

/// Folding one more value extends the fold.
pub proof fn lemma_agg_fold_snoc(g: AggregatorFunction, vs: Seq<DataValue>, v: DataValue)
    ensures
        agg_fold(g, vs.push(v)) == agg_step(agg_fold(g, vs), v),
    decreases vs.len(),
{
    let s = vs.push(v);
    if vs.len() == 0 {
        assert(s[0] == v);
        assert(s.drop_first() =~= Seq::<DataValue>::empty());
        assert(agg_fold(g, s) == agg_fold(agg_step(g, v), s.drop_first()));
        assert(agg_fold(agg_step(g, v), s.drop_first()) == agg_step(g, v));
        assert(agg_fold(g, vs) == g);
    } else {
        assert(s[0] == vs[0]);
        assert(s.drop_first() =~= vs.drop_first().push(v));
        lemma_agg_fold_snoc(agg_step(g, vs[0]), vs.drop_first(), v);
        assert(agg_fold(g, s) == agg_fold(agg_step(g, vs[0]), s.drop_first()));
        assert(agg_fold(g, vs) == agg_fold(agg_step(g, vs[0]), vs.drop_first()));
    }
}

/// A sequential fold over a concatenation is the fold of the two parts
/// one after the other.
pub proof fn lemma_agg_fold_concat(g: AggregatorFunction, v1: Seq<DataValue>, v2: Seq<DataValue>)
    ensures
        agg_fold(g, v1 + v2) == agg_fold(agg_fold(g, v1), v2),
    decreases v1.len(),
{
    if v1.len() == 0 {
        assert(v1 + v2 =~= v2);
    } else {
        assert((v1 + v2).drop_first() =~= v1.drop_first() + v2);
        lemma_agg_fold_concat(agg_step(g, v1[0]), v1.drop_first(), v2);
    }
}

/// Folding touches only the running state: the operation and the
/// argument column are preserved.
pub proof fn lemma_agg_fold_frame(g: AggregatorFunction, vs: Seq<DataValue>)
    ensures
        agg_fold(g, vs).op == g.op,
        agg_fold(g, vs).column == g.column,
    decreases vs.len(),
{
    if vs.len() > 0 {
        lemma_agg_fold_frame(agg_step(g, vs[0]), vs.drop_first());
    }
}

/// The outcome of folding one batch into state `g`: the argument column
/// is resolved in the batch's schema and must be numeric.
pub open spec fn agg_accumulate(g: AggregatorFunction, block: DataBlock) -> Result<
    AggregatorFunction,
    EngineError,
> {
    let i = field_index(block.schema.fields@, g.column@);
    if i == -1 {
        Err(EngineError::TypeMismatch)
    } else if !is_numeric(block.schema.fields@[i].data_type) {
        Err(EngineError::TypeMismatch)
    } else {
        Ok(agg_fold(g, block.columns@[i].values@))
    }
}

/// The finalized value of state `g`: the count, the sum (null when no
/// value was folded or the sum overflowed), or the extremum (null when
/// no value was folded).
pub open spec fn agg_output(g: AggregatorFunction) -> DataValue {
    match g.op {
        AggregateOp::Count => DataValue::Int64(g.count),
        AggregateOp::Sum => if g.count == 0 {
            DataValue::Null
        } else {
            match g.acc {
                Some(s) => DataValue::Int64(s),
                None => DataValue::Null,
            }
        },
        AggregateOp::Min | AggregateOp::Max => match g.acc {
            Some(m) => DataValue::Int64(m),
            None => DataValue::Null,
        },
    }
}

impl AggregatorFunction {
    /// A fresh aggregator over `column` with nothing folded yet.
    pub fn create(op: AggregateOp, column: &str) -> (r: AggregatorFunction)
        ensures
            r.op == op,
            r.column@ == column@,
            r.count == 0,
            r.acc == (if op == AggregateOp::Sum {
                Some(0i64)
            } else {
                None::<i64>
            }),
    {
        let acc: Option<i64> = match op {
            AggregateOp::Sum => Some(0),
            _ => None,
        };
        AggregatorFunction { op, column: column.to_string(), count: 0, acc }
    }

    /// Folds one batch's column into the running state; on error the
    /// state is left untouched.
    pub fn accumulate(&mut self, block: &DataBlock) -> (r: Result<(), EngineError>)
        requires
            block.wf(),
        ensures
            match r {
                Ok(_) => agg_accumulate(*old(self), *block) == Ok::<AggregatorFunction, EngineError>(
                    *final(self),
                ),
                Err(e) => agg_accumulate(*old(self), *block) == Err::<AggregatorFunction, EngineError>(e)
                    && *final(self) == *old(self),
            },
    {
        let idx = match block.schema.find_field(self.column.as_str()) {
            Some(i) => i,
            None => {
                return Err(EngineError::TypeMismatch);
            },
        };
        if block.schema.fields[idx].data_type == DataType::Boolean {
            return Err(EngineError::TypeMismatch);
        }
        let col: &DataArray = &block.columns[idx];
        let n = col.len();
        let ghost g0 = *self;
        let ghost vs = col.values@;
        for i in 0..n
            invariant
                n == vs.len(),
                col.values@ == vs,
                *self == agg_fold(g0, vs.take(i as int)),
        {
            let v = col.value_at(i);
            proof {
                assert(vs.take(i + 1) =~= vs.take(i as int).push(vs[i as int]));
                lemma_agg_fold_snoc(g0, vs.take(i as int), vs[i as int]);
            }
            if !v.is_null() {
                let x: i64 = match v {
                    DataValue::Int32(y) => y as i64,
                    DataValue::Int64(y) => y,
                    _ => 0,
                };
                if self.count < i64::MAX {
                    self.count = self.count + 1;
                }
                match self.op {
                    AggregateOp::Sum => {
                        match self.acc {
                            Some(s) => {
                                self.acc = s.checked_add(x);
                            },
                            None => {},
                        }
                    },
                    AggregateOp::Count => {},
                    AggregateOp::Min => {
                        match self.acc {
                            Some(m) => {
                                if x < m {
                                    self.acc = Some(x);
                                }
                            },
                            None => {
                                self.acc = Some(x);
                            },
                        }
                    },
                    AggregateOp::Max => {
                        match self.acc {
                            Some(m) => {
                                if x > m {
                                    self.acc = Some(x);
                                }
                            },
                            None => {
                                self.acc = Some(x);
                            },
                        }
                    },
                }
            }
        }
        proof {
            assert(vs.take(n as int) =~= vs);
        }
        Ok(())
    }

    /// Finalizes the running state into a one-row `Int64` column.
    pub fn aggregate(&self) -> (r: DataArray)
        ensures
            r.data_type == DataType::Int64,
            r.values@ =~= seq![agg_output(*self)],
            r.wf(),
    {
        let v: DataValue = match self.op {
            AggregateOp::Count => DataValue::Int64(self.count),
            AggregateOp::Sum => {
                if self.count == 0 {
                    DataValue::Null
                } else {
                    match self.acc {
                        Some(s) => DataValue::Int64(s),
                        None => DataValue::Null,
                    }
                }
            },
            AggregateOp::Min | AggregateOp::Max => {
                match self.acc {
                    Some(m) => DataValue::Int64(m),
                    None => DataValue::Null,
                }
            },
        };
        let mut values: Vec<DataValue> = Vec::new();
        values.push(v);
        DataArray { data_type: DataType::Int64, values }
    }
}

/// Whether `b12` is `b1` followed by `b2`: agreeing schemas, and each
/// column of `b12` the concatenation of the corresponding columns.
pub open spec fn block_concat_of(b12: DataBlock, b1: DataBlock, b2: DataBlock) -> bool {
    &&& schemas_agree(b12.schema, b1.schema)
    &&& schemas_agree(b12.schema, b2.schema)
    &&& b12.columns@.len() == b1.columns@.len()
    &&& b12.columns@.len() == b2.columns@.len()
    &&& forall|i: int|
        0 <= i < b12.columns@.len() ==> (#[trigger] b12.columns@[i]).values@
            == b1.columns@[i].values@ + b2.columns@[i].values@
}

/// Accumulating two batches one after the other reaches the same state
/// as accumulating their concatenation as one batch, and fails the same
/// way when either does.
pub proof fn lemma_accumulate_concat(
    g: AggregatorFunction,
    b1: DataBlock,
    b2: DataBlock,
    b12: DataBlock,
)
    requires
        b1.wf(),
        b2.wf(),
        b12.wf(),
        block_concat_of(b12, b1, b2),
    ensures
        match agg_accumulate(g, b1) {
            Ok(g1) => agg_accumulate(g, b12) == agg_accumulate(g1, b2),
            Err(e) => agg_accumulate(g, b12) == Err::<AggregatorFunction, EngineError>(e),
        },
{
    let name = g.column@;
    assert forall|k: int|
        0 <= k < b2.schema.fields@.len() implies (#[trigger] b2.schema.fields@[k]).name@
        == b1.schema.fields@[k].name@ by {
        assert(b12.schema.fields@[k].name@ == b1.schema.fields@[k].name@);
        assert(b12.schema.fields@[k].name@ == b2.schema.fields@[k].name@);
    }
    lemma_field_index_agree(b12.schema.fields@, b1.schema.fields@, name);
    let i = field_index(b1.schema.fields@, name);
    if i != -1 {
        lemma_field_index_bounds(b1.schema.fields@, name);
        assert(b12.schema.fields@[i].data_type == b1.schema.fields@[i].data_type);
        if is_numeric(b1.schema.fields@[i].data_type) {
            let v1 = b1.columns@[i].values@;
            let v2 = b2.columns@[i].values@;
            let g1 = agg_fold(g, v1);
            lemma_agg_fold_concat(g, v1, v2);
            lemma_agg_fold_frame(g, v1);
            lemma_field_index_agree(b2.schema.fields@, b1.schema.fields@, g1.column@);
            assert(b12.columns@[i].values@ == v1 + v2);
        }
    }
}

} // verus!
