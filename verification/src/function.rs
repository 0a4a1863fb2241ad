//! The closed set of expression nodes and their uniform dispatch surface.
//!
//! A `Function` is one node of a scalar or aggregate expression: a
//! constant literal, a column reference, one of the four binary
//! arithmetic operators over two sub-expressions, or a stateful
//! aggregator. Every variant answers `name`, `return_type` and
//! `nullable`; stateless evaluation is supported by every variant but
//! the aggregator, and accumulation and finalization only by the
//! aggregator — an operation outside a variant's set fails with
//! `Unsupported`, never with a panic or a default value.

use vstd::prelude::*;

use crate::aggregator::{agg_accumulate, agg_output, block_concat_of, lemma_accumulate_concat, AggregateOp, AggregatorFunction};
use crate::arithmetics::{apply_op, arith_operand, eval_op, lemma_apply_op_fits, ArithOp};
use crate::datablocks::{DataArray, DataBlock};
use crate::datavalues::{
    field_index, is_numeric, lemma_field_index_bounds, promote, value_fits, DataSchema, DataType,
    DataValue,
};
use crate::error::EngineError;

verus! {

/// A constant literal: a value and its declared type.
#[derive(Debug)]
pub struct ConstantFunction {
    pub value: DataValue,
    pub data_type: DataType,
}

/// A reference to a named column of the input batch.
#[derive(Debug)]
pub struct VariableFunction {
    pub column: String,
}

/// Two sub-expressions combined by a binary arithmetic operator; the
/// enclosing `Function` variant names the operator.
#[derive(Debug)]
pub struct ArithmeticFunction {
    pub left: Box<Function>,
    pub right: Box<Function>,
}

/// One node of an expression tree, over a deliberately closed variant
/// set: extending the set means extending every dispatch below.
#[derive(Debug)]
pub enum Function {
    Constant(ConstantFunction),
    Variable(VariableFunction),
    Add(ArithmeticFunction),
    Sub(ArithmeticFunction),
    Div(ArithmeticFunction),
    Mul(ArithmeticFunction),
    Aggregator(AggregatorFunction),
}

impl Function {
    /// Every constant of the tree carries a value fitting its type.
    pub open spec fn wf(self) -> bool
        decreases self,
    {
        match self {
            Function::Constant(c) => value_fits(c.value, c.data_type),
            Function::Variable(_) => true,
            Function::Add(a) | Function::Sub(a) | Function::Div(a) | Function::Mul(a) => {
                a.left.wf() && a.right.wf()
            },
            Function::Aggregator(_) => true,
        }
    }

    /// The operator of an arithmetic variant.
    pub open spec fn spec_arith_op(self) -> ArithOp {
        match self {
            Function::Add(_) => ArithOp::Add,
            Function::Sub(_) => ArithOp::Sub,
            Function::Div(_) => ArithOp::Div,
            Function::Mul(_) => ArithOp::Mul,
            _ => ArithOp::Add,
        }
    }

    /// The static identifier `name` returns for each variant.
    pub open spec fn spec_name(self) -> Seq<char> {
        match self {
            Function::Constant(_) => "constant"@,
            Function::Variable(_) => "variable"@,
            Function::Add(_) => "+"@,
            Function::Sub(_) => "-"@,
            Function::Div(_) => "/"@,
            Function::Mul(_) => "*"@,
            Function::Aggregator(g) => match g.op {
                AggregateOp::Sum => "sum"@,
                AggregateOp::Count => "count"@,
                AggregateOp::Min => "min"@,
                AggregateOp::Max => "max"@,
            },
        }
    }
}

/// The result type of an arithmetic node from its operands' result
/// types: both must be numeric, and the promotion rule decides the rest.
pub open spec fn arith_return_type(
    l: Result<DataType, EngineError>,
    r: Result<DataType, EngineError>,
) -> Result<DataType, EngineError> {
    match l {
        Err(e) => Err(e),
        Ok(lt) => match r {
            Err(e) => Err(e),
            Ok(rt) => if !is_numeric(lt) || !is_numeric(rt) {
                Err(EngineError::TypeMismatch)
            } else {
                Ok(promote(lt, rt))
            },
        },
    }
}

/// The statically inferred result type of `f` against `schema`.
pub open spec fn spec_return_type(f: Function, schema: DataSchema) -> Result<
    DataType,
    EngineError,
>
    decreases f,
{
    match f {
        Function::Constant(c) => Ok(c.data_type),
        Function::Variable(v) => {
            let i = field_index(schema.fields@, v.column@);
            if i == -1 {
                Err(EngineError::TypeMismatch)
            } else {
                Ok(schema.fields@[i].data_type)
            }
        },
        Function::Add(a) | Function::Sub(a) | Function::Div(a) | Function::Mul(a) => {
            arith_return_type(
                spec_return_type(*a.left, schema),
                spec_return_type(*a.right, schema),
            )
        },
        Function::Aggregator(_) => Ok(DataType::Int64),
    }
}

/// The nullability of an arithmetic node from its operands': nullable as
/// soon as either operand is.
pub open spec fn arith_nullable(
    l: Result<bool, EngineError>,
    r: Result<bool, EngineError>,
) -> Result<bool, EngineError> {
    match l {
        Err(e) => Err(e),
        Ok(ln) => match r {
            Err(e) => Err(e),
            Ok(rn) => Ok(ln || rn),
        },
    }
}

/// Whether `f`'s result may hold nulls, against `schema`. A non-null
/// constant never does; a column reference follows its field; the
/// count aggregate never does, every other aggregate may.
pub open spec fn spec_nullable(f: Function, schema: DataSchema) -> Result<bool, EngineError>
    decreases f,
{
    match f {
        Function::Constant(c) => Ok(c.value == DataValue::Null),
        Function::Variable(v) => {
            let i = field_index(schema.fields@, v.column@);
            if i == -1 {
                Err(EngineError::TypeMismatch)
            } else {
                Ok(schema.fields@[i].nullable)
            }
        },
        Function::Add(a) | Function::Sub(a) | Function::Div(a) | Function::Mul(a) => {
            arith_nullable(spec_nullable(*a.left, schema), spec_nullable(*a.right, schema))
        },
        Function::Aggregator(g) => Ok(g.op != AggregateOp::Count),
    }
}

/// The type a `Result` carries on success; `Boolean` — never numeric —
/// stands in on failure so type checks downstream fail too.
pub open spec fn ok_type(r: Result<DataType, EngineError>) -> DataType {
    match r {
        Ok(t) => t,
        Err(_) => DataType::Boolean,
    }
}

/// The column of values `f` evaluates to over `block`, one value per
/// row: an aggregator does not evaluate statelessly, a column reference
/// must resolve, and arithmetic requires numeric operands.
pub open spec fn spec_eval(f: Function, block: DataBlock) -> Result<Seq<DataValue>, EngineError>
    decreases f,
{
    match f {
        Function::Constant(c) => Ok(Seq::new(block.spec_num_rows(), |i: int| c.value)),
        Function::Variable(v) => {
            let i = field_index(block.schema.fields@, v.column@);
            if i == -1 {
                Err(EngineError::TypeMismatch)
            } else {
                Ok(block.columns@[i].values@)
            }
        },
        Function::Add(a) | Function::Sub(a) | Function::Div(a) | Function::Mul(a) => {
            spec_eval_arith(f.spec_arith_op(), a, block)
        },
        Function::Aggregator(_) => Err(EngineError::Unsupported),
    }
}

/// The arithmetic case of `spec_eval`: both operand columns, combined
/// element by element at the promoted type.
pub open spec fn spec_eval_arith(op: ArithOp, a: ArithmeticFunction, block: DataBlock) -> Result<
    Seq<DataValue>,
    EngineError,
>
    decreases a,
{
    match spec_eval(*a.left, block) {
        Err(e) => Err(e),
        Ok(lv) => match spec_eval(*a.right, block) {
            Err(e) => Err(e),
            Ok(rv) => {
                let lt = ok_type(spec_return_type(*a.left, block.schema));
                let rt = ok_type(spec_return_type(*a.right, block.schema));
                if !is_numeric(lt) || !is_numeric(rt) {
                    Err(EngineError::TypeMismatch)
                } else {
                    Ok(Seq::new(lv.len(), |i: int| apply_op(op, promote(lt, rt), lv[i], rv[i])))
                }
            },
        },
    }
}

/// The outcome of folding `block` into `f`: only an aggregator
/// accumulates.
pub open spec fn spec_accumulate(f: Function, block: DataBlock) -> Result<Function, EngineError> {
    match f {
        Function::Aggregator(g) => match agg_accumulate(g, block) {
            Ok(g2) => Ok(Function::Aggregator(g2)),
            Err(e) => Err(e),
        },
        _ => Err(EngineError::Unsupported),
    }
}

/// The finalized one-row column of `f`: only an aggregator finalizes.
pub open spec fn spec_aggregate(f: Function) -> Result<Seq<DataValue>, EngineError> {
    match f {
        Function::Aggregator(g) => Ok(seq![agg_output(g)]),
        _ => Err(EngineError::Unsupported),
    }
}

impl Function {
    /// A constant literal node; the value must fit the declared type.
    pub fn constant(value: DataValue, data_type: DataType) -> (r: Result<Function, EngineError>)
        ensures
            match r {
                Ok(f) => f == Function::Constant(ConstantFunction { value, data_type }) && f.wf(),
                Err(e) => e == EngineError::TypeMismatch && !value_fits(value, data_type),
            },
    {
        if value.fits(data_type) {
            Ok(Function::Constant(ConstantFunction { value, data_type }))
        } else {
            Err(EngineError::TypeMismatch)
        }
    }

    /// A reference to the column named `column`.
    pub fn variable(column: &str) -> (r: Function)
        ensures
            r matches Function::Variable(v) && v.column@ == column@,
            r.wf(),
    {
        Function::Variable(VariableFunction { column: column.to_string() })
    }

    /// An addition node over two operands.
    pub fn add_of(left: Function, right: Function) -> (r: Function)
        ensures
            r == Function::Add(ArithmeticFunction { left: Box::new(left), right: Box::new(right) }),
            left.wf() && right.wf() ==> r.wf(),
    {
        Function::Add(ArithmeticFunction { left: Box::new(left), right: Box::new(right) })
    }

    /// A subtraction node over two operands.
    pub fn sub_of(left: Function, right: Function) -> (r: Function)
        ensures
            r == Function::Sub(ArithmeticFunction { left: Box::new(left), right: Box::new(right) }),
            left.wf() && right.wf() ==> r.wf(),
    {
        Function::Sub(ArithmeticFunction { left: Box::new(left), right: Box::new(right) })
    }

    /// A division node over two operands.
    pub fn div_of(left: Function, right: Function) -> (r: Function)
        ensures
            r == Function::Div(ArithmeticFunction { left: Box::new(left), right: Box::new(right) }),
            left.wf() && right.wf() ==> r.wf(),
    {
        Function::Div(ArithmeticFunction { left: Box::new(left), right: Box::new(right) })
    }

    /// A multiplication node over two operands.
    pub fn mul_of(left: Function, right: Function) -> (r: Function)
        ensures
            r == Function::Mul(ArithmeticFunction { left: Box::new(left), right: Box::new(right) }),
            left.wf() && right.wf() ==> r.wf(),
    {
        Function::Mul(ArithmeticFunction { left: Box::new(left), right: Box::new(right) })
    }

    /// A fresh aggregator node over the column named `column`.
    pub fn aggregator(op: AggregateOp, column: &str) -> (r: Function)
        ensures
            r matches Function::Aggregator(g) && g.op == op && g.column@ == column@ && g.count == 0,
            r.wf(),
    {
        Function::Aggregator(AggregatorFunction::create(op, column))
    }

    /// The static identifier of this node's variant.
    pub fn name(&self) -> (r: &'static str)
        ensures
            r@ == self.spec_name(),
    {
        match self {
            Function::Constant(_) => "constant",
            Function::Variable(_) => "variable",
            Function::Add(_) => "+",
            Function::Sub(_) => "-",
            Function::Div(_) => "/",
            Function::Mul(_) => "*",
            Function::Aggregator(g) => match g.op {
                AggregateOp::Sum => "sum",
                AggregateOp::Count => "count",
                AggregateOp::Min => "min",
                AggregateOp::Max => "max",
            },
        }
    }

    /// The statically inferred result type of this node against
    /// `input_schema`; fails with `TypeMismatch` if a referenced column
    /// is absent or an arithmetic operand is not numeric.
    pub fn return_type(&self, input_schema: &DataSchema) -> (r: Result<DataType, EngineError>)
        ensures
            r == spec_return_type(*self, *input_schema),
        decreases *self,
    {
        match self {
            Function::Constant(c) => Ok(c.data_type),
            Function::Variable(v) => {
                match input_schema.find_field(v.column.as_str()) {
                    Some(i) => Ok(input_schema.fields[i].data_type),
                    None => Err(EngineError::TypeMismatch),
                }
            },
            Function::Add(a) | Function::Sub(a) | Function::Div(a) | Function::Mul(a) => {
                let lt = match a.left.return_type(input_schema) {
                    Ok(t) => t,
                    Err(e) => {
                        return Err(e);
                    },
                };
                let rt = match a.right.return_type(input_schema) {
                    Ok(t) => t,
                    Err(e) => {
                        return Err(e);
                    },
                };
                if lt == DataType::Boolean || rt == DataType::Boolean {
                    Err(EngineError::TypeMismatch)
                } else if lt == rt {
                    Ok(lt)
                } else {
                    Ok(DataType::Int64)
                }
            },
            Function::Aggregator(_) => Ok(DataType::Int64),
        }
    }

    /// Whether this node's result may hold nulls, against `input_schema`.
    pub fn nullable(&self, input_schema: &DataSchema) -> (r: Result<bool, EngineError>)
        ensures
            r == spec_nullable(*self, *input_schema),
        decreases *self,
    {
        match self {
            Function::Constant(c) => Ok(c.value.is_null()),
            Function::Variable(v) => {
                match input_schema.find_field(v.column.as_str()) {
                    Some(i) => Ok(input_schema.fields[i].nullable),
                    None => Err(EngineError::TypeMismatch),
                }
            },
            Function::Add(a) | Function::Sub(a) | Function::Div(a) | Function::Mul(a) => {
                let ln = match a.left.nullable(input_schema) {
                    Ok(n) => n,
                    Err(e) => {
                        return Err(e);
                    },
                };
                let rn = match a.right.nullable(input_schema) {
                    Ok(n) => n,
                    Err(e) => {
                        return Err(e);
                    },
                };
                Ok(ln || rn)
            },
            Function::Aggregator(g) => {
                match g.op {
                    AggregateOp::Count => Ok(false),
                    _ => Ok(true),
                }
            },
        }
    }

    /// Stateless evaluation of this node over one batch, one output value
    /// per row. Unsupported on an aggregator, which needs accumulation
    /// across batches before a result exists.
    pub fn evaluate(&self, block: &DataBlock) -> (r: Result<DataArray, EngineError>)
        requires
            self.wf(),
            block.wf(),
        ensures
            match r {
                Ok(arr) => {
                    &&& spec_eval(*self, *block) == Ok::<Seq<DataValue>, EngineError>(arr.values@)
                    &&& spec_return_type(*self, block.schema) matches Ok(t) && arr.data_type == t
                    &&& arr.wf()
                    &&& arr.values@.len() == block.spec_num_rows()
                },
                Err(e) => spec_eval(*self, *block) == Err::<Seq<DataValue>, EngineError>(e),
            },
        decreases *self,
    {
        match self {
            Function::Constant(c) => {
                let rows = block.num_rows();
                let mut values: Vec<DataValue> = Vec::new();
                let ghost target = Seq::new(block.spec_num_rows(), |i: int| c.value);
                for k in 0..rows
                    invariant
                        rows == block.spec_num_rows(),
                        values@.len() == k,
                        target == Seq::new(block.spec_num_rows(), |i: int| c.value),
                        forall|j: int| 0 <= j < k ==> values@[j] == c.value,
                {
                    values.push(c.value);
                }
                proof {
                    assert(values@ =~= target);
                }
                Ok(DataArray { data_type: c.data_type, values })
            },
            Function::Variable(v) => {
                match block.schema.find_field(v.column.as_str()) {
                    Some(i) => {
                        let col = &block.columns[i];
                        let mut values: Vec<DataValue> = Vec::new();
                        let n = col.len();
                        for k in 0..n
                            invariant
                                n == col.values@.len(),
                                values@.len() == k,
                                forall|j: int| 0 <= j < k ==> values@[j] == col.values@[j],
                        {
                            values.push(col.value_at(k));
                        }
                        proof {
                            assert(values@ =~= col.values@);
                        }
                        Ok(DataArray { data_type: col.data_type, values })
                    },
                    None => Err(EngineError::TypeMismatch),
                }
            },
            Function::Add(a) | Function::Sub(a) | Function::Div(a) | Function::Mul(a) => {
                let op = match self {
                    Function::Add(_) => ArithOp::Add,
                    Function::Sub(_) => ArithOp::Sub,
                    Function::Div(_) => ArithOp::Div,
                    _ => ArithOp::Mul,
                };
                let larr = match a.left.evaluate(block) {
                    Ok(arr) => arr,
                    Err(e) => {
                        return Err(e);
                    },
                };
                let rarr = match a.right.evaluate(block) {
                    Ok(arr) => arr,
                    Err(e) => {
                        return Err(e);
                    },
                };
                if larr.data_type == DataType::Boolean || rarr.data_type == DataType::Boolean {
                    return Err(EngineError::TypeMismatch);
                }
                let t = if larr.data_type == rarr.data_type {
                    larr.data_type
                } else {
                    DataType::Int64
                };
                let n = larr.len();
                let ghost lv = larr.values@;
                let ghost rv = rarr.values@;
                let ghost target = Seq::new(lv.len(), |i: int| apply_op(op, t, lv[i], rv[i]));
                let mut values: Vec<DataValue> = Vec::new();
                for k in 0..n
                    invariant
                        n == lv.len(),
                        n == rv.len(),
                        lv == larr.values@,
                        rv == rarr.values@,
                        larr.wf(),
                        rarr.wf(),
                        is_numeric(larr.data_type),
                        is_numeric(rarr.data_type),
                        t == promote(larr.data_type, rarr.data_type),
                        is_numeric(t),
                        values@.len() == k,
                        target == Seq::new(lv.len(), |i: int| apply_op(op, t, lv[i], rv[i])),
                        forall|j: int| 0 <= j < k ==> values@[j] == target[j],
                {
                    let x = larr.value_at(k);
                    let y = rarr.value_at(k);
                    proof {
                        assert(value_fits(lv[k as int], larr.data_type));
                        assert(value_fits(rv[k as int], rarr.data_type));
                        assert(arith_operand(x));
                        assert(arith_operand(y));
                        lemma_apply_op_fits(op, t, x, y);
                    }
                    values.push(eval_op(op, t, x, y));
                }
                proof {
                    assert(values@ =~= target);
                    assert forall|j: int|
                        0 <= j < target.len() implies value_fits(#[trigger] target[j], t) by {
                        lemma_apply_op_fits(op, t, lv[j], rv[j]);
                    }
                }
                Ok(DataArray { data_type: t, values })
            },
            Function::Aggregator(_) => Err(EngineError::Unsupported),
        }
    }

    /// Folds one batch into this node's running aggregation state; on any
    /// error, and on every non-aggregator variant, the node is untouched.
    pub fn accumulate(&mut self, block: &DataBlock) -> (r: Result<(), EngineError>)
        requires
            block.wf(),
        ensures
            match r {
                Ok(_) => spec_accumulate(*old(self), *block) == Ok::<Function, EngineError>(
                    *final(self),
                ),
                Err(e) => spec_accumulate(*old(self), *block) == Err::<Function, EngineError>(e)
                    && *final(self) == *old(self),
            },
    {
        match self {
            Function::Aggregator(g) => g.accumulate(block),
            _ => Err(EngineError::Unsupported),
        }
    }

    /// Finalizes this node's accumulated state into a one-row column;
    /// only an aggregator has one.
    pub fn aggregate(&self) -> (r: Result<DataArray, EngineError>)
        ensures
            match r {
                Ok(arr) => {
                    &&& spec_aggregate(*self) == Ok::<Seq<DataValue>, EngineError>(arr.values@)
                    &&& arr.data_type == DataType::Int64
                    &&& arr.wf()
                },
                Err(e) => spec_aggregate(*self) == Err::<Seq<DataValue>, EngineError>(e),
            },
    {
        match self {
            Function::Aggregator(g) => Ok(g.aggregate()),
            _ => Err(EngineError::Unsupported),
        }
    }
}

/// Capability boundaries of the dispatch surface: stateless evaluation
/// fails with `Unsupported` on an aggregator, and accumulation and
/// finalization fail with `Unsupported` on every other variant — never
/// a panic, never a default value.
pub proof fn lemma_capability_boundaries(f: Function, block: DataBlock)
    ensures
        f matches Function::Aggregator(_) ==> spec_eval(f, block) == Err::<
            Seq<DataValue>,
            EngineError,
        >(EngineError::Unsupported),
        !(f matches Function::Aggregator(_)) ==> spec_accumulate(f, block) == Err::<
            Function,
            EngineError,
        >(EngineError::Unsupported),
        !(f matches Function::Aggregator(_)) ==> spec_aggregate(f) == Err::<
            Seq<DataValue>,
            EngineError,
        >(EngineError::Unsupported),
{
}

/// The statically inferred type is the type evaluation delivers: when
/// both succeed, there is one output value per input row and every
/// output value fits the inferred type.
pub proof fn lemma_return_type_sound(f: Function, block: DataBlock)
    requires
        f.wf(),
        block.wf(),
    ensures
        spec_eval(f, block) is Ok && spec_return_type(f, block.schema) is Ok ==> {
            &&& spec_eval(f, block).unwrap().len() == block.spec_num_rows()
            &&& forall|i: int|
                0 <= i < block.spec_num_rows() ==> value_fits(
                    #[trigger] spec_eval(f, block).unwrap()[i],
                    spec_return_type(f, block.schema).unwrap(),
                )
        },
    decreases f,
{
    if spec_eval(f, block) is Ok {
        let vs = spec_eval(f, block).unwrap();
        let t = spec_return_type(f, block.schema).unwrap();
        match f {
            Function::Constant(_) => {},
            Function::Variable(v) => {
                lemma_field_index_bounds(block.schema.fields@, v.column@);
            },
            Function::Add(a) | Function::Sub(a) | Function::Div(a) | Function::Mul(a) => {
                lemma_return_type_sound(*a.left, block);
                lemma_return_type_sound(*a.right, block);
                let lv = spec_eval(*a.left, block).unwrap();
                let rv = spec_eval(*a.right, block).unwrap();
                assert forall|i: int| 0 <= i < block.spec_num_rows() implies value_fits(
                    #[trigger] vs[i],
                    t,
                ) by {
                    lemma_apply_op_fits(f.spec_arith_op(), t, lv[i], rv[i]);
                }
            },
            Function::Aggregator(_) => {},
        }
    }
}

/// An arithmetic node is nullable exactly when at least one operand is.
pub proof fn lemma_arith_nullable(f: Function, a: ArithmeticFunction, schema: DataSchema)
    requires
        f == Function::Add(a) || f == Function::Sub(a) || f == Function::Div(a) || f
            == Function::Mul(a),
    ensures
        spec_nullable(*a.left, schema) is Ok && spec_nullable(*a.right, schema) is Ok
            ==> spec_nullable(f, schema) == Ok::<bool, EngineError>(
            spec_nullable(*a.left, schema).unwrap() || spec_nullable(*a.right, schema).unwrap(),
        ),
{
}

/// Accumulating two batches one after the other reaches the same state
/// as accumulating their concatenation as one batch, for every
/// expression node, and fails the same way when either does.
pub proof fn lemma_accumulate_batches(f: Function, b1: DataBlock, b2: DataBlock, b12: DataBlock)
    requires
        b1.wf(),
        b2.wf(),
        b12.wf(),
        block_concat_of(b12, b1, b2),
    ensures
        match spec_accumulate(f, b1) {
            Ok(f1) => spec_accumulate(f, b12) == spec_accumulate(f1, b2),
            Err(e) => spec_accumulate(f, b12) == Err::<Function, EngineError>(e),
        },
{
    match f {
        Function::Aggregator(g) => {
            lemma_accumulate_concat(g, b1, b2, b12);
        },
        _ => {},
    }
}

} // verus!
