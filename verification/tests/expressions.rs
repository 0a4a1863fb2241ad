use fuse_query::aggregator::AggregateOp;
use fuse_query::datablocks::{DataArray, DataBlock};
use fuse_query::datavalues::{DataField, DataSchema, DataType, DataValue};
use fuse_query::error::EngineError;
use fuse_query::function::Function;

fn two_column_schema() -> DataSchema {
    DataSchema::create(vec![
        DataField::create("a", DataType::Int32, false),
        DataField::create("b", DataType::Int64, true),
    ])
}

fn two_column_block(a: Vec<DataValue>, b: Vec<DataValue>) -> DataBlock {
    let col_a = DataArray::create(DataType::Int32, a).unwrap();
    let col_b = DataArray::create(DataType::Int64, b).unwrap();
    DataBlock::create(two_column_schema(), vec![col_a, col_b]).unwrap()
}

fn int32s(xs: &[i32]) -> Vec<DataValue> {
    xs.iter().map(|x| DataValue::Int32(*x)).collect()
}

fn int64s(xs: &[i64]) -> Vec<DataValue> {
    xs.iter().map(|x| DataValue::Int64(*x)).collect()
}

#[test]
fn function_names() {
    assert_eq!(Function::variable("a").name(), "variable");
    assert_eq!(
        Function::constant(DataValue::Int32(1), DataType::Int32)
            .unwrap()
            .name(),
        "constant"
    );
    let v = || Function::variable("a");
    assert_eq!(Function::add_of(v(), v()).name(), "+");
    assert_eq!(Function::sub_of(v(), v()).name(), "-");
    assert_eq!(Function::div_of(v(), v()).name(), "/");
    assert_eq!(Function::mul_of(v(), v()).name(), "*");
    assert_eq!(Function::aggregator(AggregateOp::Sum, "a").name(), "sum");
    assert_eq!(Function::aggregator(AggregateOp::Count, "a").name(), "count");
    assert_eq!(Function::aggregator(AggregateOp::Min, "a").name(), "min");
    assert_eq!(Function::aggregator(AggregateOp::Max, "a").name(), "max");
}

#[test]
fn constant_rejects_mismatched_type() {
    let r = Function::constant(DataValue::Boolean(true), DataType::Int32);
    assert_eq!(r.unwrap_err(), EngineError::TypeMismatch);
}

#[test]
fn return_type_of_each_variant() {
    let schema = two_column_schema();
    let a = || Function::variable("a");
    let b = || Function::variable("b");
    assert_eq!(a().return_type(&schema).unwrap(), DataType::Int32);
    assert_eq!(b().return_type(&schema).unwrap(), DataType::Int64);
    // equal operand types keep their type; mixed pairs widen to Int64
    assert_eq!(
        Function::add_of(a(), a()).return_type(&schema).unwrap(),
        DataType::Int32
    );
    assert_eq!(
        Function::add_of(a(), b()).return_type(&schema).unwrap(),
        DataType::Int64
    );
    let c = Function::constant(DataValue::Int64(7), DataType::Int64).unwrap();
    assert_eq!(c.return_type(&schema).unwrap(), DataType::Int64);
    let agg = Function::aggregator(AggregateOp::Min, "a");
    assert_eq!(agg.return_type(&schema).unwrap(), DataType::Int64);
}

#[test]
fn return_type_fails_on_absent_column_and_boolean_operand() {
    let schema = two_column_schema();
    let missing = Function::variable("zzz");
    assert_eq!(
        missing.return_type(&schema).unwrap_err(),
        EngineError::TypeMismatch
    );
    let flag = Function::constant(DataValue::Boolean(true), DataType::Boolean).unwrap();
    let sum = Function::add_of(flag, Function::variable("a"));
    assert_eq!(
        sum.return_type(&schema).unwrap_err(),
        EngineError::TypeMismatch
    );
}

#[test]
fn nullable_follows_operands() {
    let schema = two_column_schema();
    let a = || Function::variable("a");
    let b = || Function::variable("b");
    assert!(!a().nullable(&schema).unwrap());
    assert!(b().nullable(&schema).unwrap());
    // nullable iff at least one operand is nullable
    assert!(!Function::mul_of(a(), a()).nullable(&schema).unwrap());
    assert!(Function::mul_of(a(), b()).nullable(&schema).unwrap());
    assert!(Function::mul_of(b(), a()).nullable(&schema).unwrap());
    let c = Function::constant(DataValue::Int32(1), DataType::Int32).unwrap();
    assert!(!c.nullable(&schema).unwrap());
    let null_c = Function::constant(DataValue::Null, DataType::Int32).unwrap();
    assert!(null_c.nullable(&schema).unwrap());
    assert!(!Function::aggregator(AggregateOp::Count, "a")
        .nullable(&schema)
        .unwrap());
    assert!(Function::aggregator(AggregateOp::Sum, "a")
        .nullable(&schema)
        .unwrap());
}

#[test]
fn evaluate_constant_fills_every_row() {
    let block = two_column_block(int32s(&[1, 2, 3]), int64s(&[4, 5, 6]));
    let c = Function::constant(DataValue::Int32(9), DataType::Int32).unwrap();
    let arr = c.evaluate(&block).unwrap();
    assert_eq!(arr.data_type, DataType::Int32);
    assert_eq!(arr.values, int32s(&[9, 9, 9]));
}

#[test]
fn evaluate_variable_returns_the_column() {
    let block = two_column_block(int32s(&[1, 2]), int64s(&[10, 20]));
    let arr = Function::variable("b").evaluate(&block).unwrap();
    assert_eq!(arr.data_type, DataType::Int64);
    assert_eq!(arr.values, int64s(&[10, 20]));
    let err = Function::variable("zzz").evaluate(&block).unwrap_err();
    assert_eq!(err, EngineError::TypeMismatch);
}

#[test]
fn evaluate_arithmetic_exact_values() {
    let block = two_column_block(int32s(&[2, 5, 6]), int64s(&[3, 7, 7]));
    let a = || Function::variable("a");
    let b = || Function::variable("b");
    let add = Function::add_of(a(), b()).evaluate(&block).unwrap();
    assert_eq!(add.data_type, DataType::Int64);
    assert_eq!(add.values, int64s(&[5, 12, 13]));
    let sub = Function::sub_of(a(), b()).evaluate(&block).unwrap();
    assert_eq!(sub.values, int64s(&[-1, -2, -1]));
    let mul = Function::mul_of(a(), b()).evaluate(&block).unwrap();
    assert_eq!(mul.values, int64s(&[6, 35, 42]));
}

#[test]
fn evaluate_division_truncates_toward_zero() {
    let block = two_column_block(int32s(&[7, -7, 7, -7]), int64s(&[2, 2, -2, -2]));
    let q = Function::div_of(Function::variable("a"), Function::variable("b"))
        .evaluate(&block)
        .unwrap();
    assert_eq!(q.values, int64s(&[3, -3, -3, 3]));
}

#[test]
fn evaluate_division_by_zero_yields_null() {
    let block = two_column_block(int32s(&[7]), int64s(&[0]));
    let q = Function::div_of(Function::variable("a"), Function::variable("b"))
        .evaluate(&block)
        .unwrap();
    assert_eq!(q.values, vec![DataValue::Null]);
}

#[test]
fn evaluate_overflow_yields_null() {
    // Int32 + Int32 stays Int32: a result past its range is null
    let block = two_column_block(int32s(&[i32::MAX, 1]), int64s(&[0, 0]));
    let sum = Function::add_of(Function::variable("a"), Function::variable("a"))
        .evaluate(&block)
        .unwrap();
    assert_eq!(sum.data_type, DataType::Int32);
    assert_eq!(sum.values, vec![DataValue::Null, DataValue::Int32(2)]);
    // Int64 division overflows only at i64::MIN / -1
    let block2 = two_column_block(int32s(&[0]), int64s(&[i64::MIN]));
    let q = Function::div_of(
        Function::variable("b"),
        Function::constant(DataValue::Int64(-1), DataType::Int64).unwrap(),
    )
    .evaluate(&block2)
    .unwrap();
    assert_eq!(q.values, vec![DataValue::Null]);
}

#[test]
fn evaluate_null_operand_yields_null() {
    let block = two_column_block(int32s(&[1, 2]), vec![DataValue::Null, DataValue::Int64(5)]);
    let sum = Function::add_of(Function::variable("a"), Function::variable("b"))
        .evaluate(&block)
        .unwrap();
    assert_eq!(sum.values, vec![DataValue::Null, DataValue::Int64(7)]);
}

#[test]
fn unsupported_operations_fail_and_never_panic() {
    let block = two_column_block(int32s(&[1]), int64s(&[2]));
    // evaluate on an aggregator
    let agg = Function::aggregator(AggregateOp::Sum, "a");
    assert_eq!(agg.evaluate(&block).unwrap_err(), EngineError::Unsupported);
    // accumulate on every non-aggregator variant
    let mut c = Function::constant(DataValue::Int32(1), DataType::Int32).unwrap();
    assert_eq!(c.accumulate(&block).unwrap_err(), EngineError::Unsupported);
    let mut v = Function::variable("a");
    assert_eq!(v.accumulate(&block).unwrap_err(), EngineError::Unsupported);
    let mut m = Function::mul_of(Function::variable("a"), Function::variable("a"));
    assert_eq!(m.accumulate(&block).unwrap_err(), EngineError::Unsupported);
    // aggregate on every non-aggregator variant
    assert_eq!(c.aggregate().unwrap_err(), EngineError::Unsupported);
    assert_eq!(v.aggregate().unwrap_err(), EngineError::Unsupported);
    assert_eq!(m.aggregate().unwrap_err(), EngineError::Unsupported);
}

#[test]
fn aggregator_sum_count_min_max_exact_values() {
    let block = two_column_block(
        int32s(&[1, 2, 3]),
        vec![DataValue::Int64(10), DataValue::Null, DataValue::Int64(30)],
    );
    let mut sum = Function::aggregator(AggregateOp::Sum, "a");
    sum.accumulate(&block).unwrap();
    assert_eq!(sum.aggregate().unwrap().values, int64s(&[6]));
    // nulls are ignored: count counts non-null values only
    let mut count = Function::aggregator(AggregateOp::Count, "b");
    count.accumulate(&block).unwrap();
    assert_eq!(count.aggregate().unwrap().values, int64s(&[2]));
    let mut min = Function::aggregator(AggregateOp::Min, "b");
    min.accumulate(&block).unwrap();
    assert_eq!(min.aggregate().unwrap().values, int64s(&[10]));
    let mut max = Function::aggregator(AggregateOp::Max, "b");
    max.accumulate(&block).unwrap();
    assert_eq!(max.aggregate().unwrap().values, int64s(&[30]));
}

#[test]
fn aggregator_over_nothing() {
    let sum = Function::aggregator(AggregateOp::Sum, "a");
    assert_eq!(sum.aggregate().unwrap().values, vec![DataValue::Null]);
    let count = Function::aggregator(AggregateOp::Count, "a");
    assert_eq!(count.aggregate().unwrap().values, int64s(&[0]));
    let min = Function::aggregator(AggregateOp::Min, "a");
    assert_eq!(min.aggregate().unwrap().values, vec![DataValue::Null]);
}

#[test]
fn aggregator_sum_overflow_yields_null() {
    let block = two_column_block(int32s(&[0, 0]), int64s(&[i64::MAX, 1]));
    let mut sum = Function::aggregator(AggregateOp::Sum, "b");
    sum.accumulate(&block).unwrap();
    assert_eq!(sum.aggregate().unwrap().values, vec![DataValue::Null]);
}

#[test]
fn aggregator_rejects_missing_or_boolean_column() {
    let block = two_column_block(int32s(&[1]), int64s(&[2]));
    let mut agg = Function::aggregator(AggregateOp::Sum, "zzz");
    assert_eq!(agg.accumulate(&block).unwrap_err(), EngineError::TypeMismatch);
    let schema = DataSchema::create(vec![DataField::create("f", DataType::Boolean, false)]);
    let col = DataArray::create(DataType::Boolean, vec![DataValue::Boolean(true)]).unwrap();
    let bool_block = DataBlock::create(schema, vec![col]).unwrap();
    let mut agg2 = Function::aggregator(AggregateOp::Max, "f");
    assert_eq!(
        agg2.accumulate(&bool_block).unwrap_err(),
        EngineError::TypeMismatch
    );
}

#[test]
fn accumulating_batches_matches_their_concatenation() {
    let b1 = two_column_block(int32s(&[3, 1]), int64s(&[5, 6]));
    let b2 = two_column_block(int32s(&[4]), vec![DataValue::Null]);
    let b12 = two_column_block(
        int32s(&[3, 1, 4]),
        vec![DataValue::Int64(5), DataValue::Int64(6), DataValue::Null],
    );
    for op in [
        AggregateOp::Sum,
        AggregateOp::Count,
        AggregateOp::Min,
        AggregateOp::Max,
    ] {
        for column in ["a", "b"] {
            let mut stepped = Function::aggregator(op, column);
            stepped.accumulate(&b1).unwrap();
            stepped.accumulate(&b2).unwrap();
            let mut whole = Function::aggregator(op, column);
            whole.accumulate(&b12).unwrap();
            assert_eq!(
                stepped.aggregate().unwrap().values,
                whole.aggregate().unwrap().values
            );
        }
    }
}

#[test]
fn block_construction_is_validated() {
    let schema = two_column_schema();
    // a value of the wrong type never enters a column
    assert_eq!(
        DataArray::create(DataType::Int32, vec![DataValue::Int64(1)]).unwrap_err(),
        EngineError::TypeMismatch
    );
    // a null in a non-nullable column is rejected
    let col_a = DataArray::create(DataType::Int32, vec![DataValue::Null]).unwrap();
    let col_b = DataArray::create(DataType::Int64, vec![DataValue::Int64(1)]).unwrap();
    assert_eq!(
        DataBlock::create(schema, vec![col_a, col_b]).unwrap_err(),
        EngineError::TypeMismatch
    );
}

#[test]
fn error_descriptions() {
    assert_eq!(EngineError::NotFound.describe(), "not found");
    assert_eq!(EngineError::Unsupported.describe(), "unsupported operation");
    assert_eq!(EngineError::TypeMismatch.describe(), "type mismatch");
    assert_eq!(EngineError::Unimplemented.describe(), "unimplemented");
}
