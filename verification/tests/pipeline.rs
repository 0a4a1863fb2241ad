use fuse_query::context::Context;
use fuse_query::database::{Database, IDatabase};
use fuse_query::datablocks::{DataArray, DataBlock};
use fuse_query::datavalues::{DataField, DataSchema, DataType, DataValue};
use fuse_query::error::EngineError;
use fuse_query::partition::Partition;
use fuse_query::table::Table;
use fuse_query::transform_source::SourceTransform;

use std::sync::Arc;

fn number_schema() -> DataSchema {
    DataSchema::create(vec![DataField::create("n", DataType::Int64, false)])
}

fn number_block(xs: &[i64]) -> DataBlock {
    let col = DataArray::create(
        DataType::Int64,
        xs.iter().map(|x| DataValue::Int64(*x)).collect(),
    )
    .unwrap();
    DataBlock::create(number_schema(), vec![col]).unwrap()
}

fn single_row_context() -> Context {
    let mut table = Table::create("t", number_schema());
    table
        .add_part(Partition::create("p0", 1), number_block(&[42]))
        .unwrap();
    let mut db = Database::create("default");
    db.add_table(Arc::new(table)).unwrap();
    let mut ctx = Context::create();
    ctx.add_database(db).unwrap();
    ctx
}

#[test]
fn partition_holds_name_and_version() {
    let p = Partition::create("shard-7", 3);
    assert_eq!(p.name, "shard-7");
    assert_eq!(p.version, 3);
    let q = p.clone();
    assert_eq!(q.name, p.name);
    assert_eq!(q.version, p.version);
}

#[test]
fn database_name_and_lookup() {
    let mut db = Database::create("default");
    assert_eq!(db.name(), "default");
    let table = Table::create("t", number_schema());
    db.add_table(Arc::new(table)).unwrap();
    assert_eq!(db.get_table("t").unwrap().name(), "t");
}

#[test]
fn get_table_of_unregistered_name_is_not_found() {
    let db = Database::create("default");
    assert_eq!(db.get_table("nope").unwrap_err(), EngineError::NotFound);
    let mut db2 = Database::create("default");
    db2.add_table(Arc::new(Table::create("t", number_schema())))
        .unwrap();
    assert_eq!(db2.get_table("u").unwrap_err(), EngineError::NotFound);
}

#[test]
fn second_add_table_under_one_name_overwrites() {
    let mut first = Table::create("t", number_schema());
    first
        .add_part(Partition::create("p0", 1), number_block(&[1]))
        .unwrap();
    let mut second = Table::create("t", number_schema());
    second
        .add_part(Partition::create("p0", 1), number_block(&[2]))
        .unwrap();
    let mut db = Database::create("default");
    db.add_table(Arc::new(first)).unwrap();
    db.add_table(Arc::new(second)).unwrap();
    let got = db.get_table("t").unwrap();
    let stream = got
        .read(&vec![Partition::create("p0", 1)])
        .unwrap();
    assert_eq!(stream.blocks[0].columns[0].values, vec![DataValue::Int64(2)]);
}

#[test]
fn read_is_deterministic_over_identical_partitions() {
    let mut table = Table::create("t", number_schema());
    table
        .add_part(Partition::create("p0", 1), number_block(&[1, 2]))
        .unwrap();
    table
        .add_part(Partition::create("p1", 1), number_block(&[3]))
        .unwrap();
    let wanted = vec![Partition::create("p1", 1), Partition::create("p0", 1)];
    let s1 = table.read(&wanted).unwrap();
    let s2 = table.read(&wanted).unwrap();
    assert_eq!(s1.blocks.len(), 2);
    assert_eq!(s2.blocks.len(), 2);
    for (x, y) in s1.blocks.iter().zip(s2.blocks.iter()) {
        assert_eq!(x.columns[0].values, y.columns[0].values);
    }
    // request order decides delivery order
    assert_eq!(s1.blocks[0].columns[0].values, vec![DataValue::Int64(3)]);
    assert_eq!(
        s1.blocks[1].columns[0].values,
        vec![DataValue::Int64(1), DataValue::Int64(2)]
    );
}

#[test]
fn read_of_unknown_partition_is_not_found() {
    let table = Table::create("t", number_schema());
    let err = table
        .read(&vec![Partition::create("missing", 1)])
        .unwrap_err();
    assert_eq!(err, EngineError::NotFound);
}

#[test]
fn source_with_empty_partitions_yields_empty_stream() {
    let ctx = single_row_context();
    let source = SourceTransform::create(ctx, "default", "t", vec![]);
    let mut stream = source.execute().unwrap();
    assert_eq!(stream.remaining(), 0);
    assert!(stream.next().is_none());
}

#[test]
fn source_yields_the_registered_row() {
    let ctx = single_row_context();
    let source =
        SourceTransform::create(ctx, "default", "t", vec![Partition::create("p0", 1)]);
    let mut stream = source.execute().unwrap();
    let block = stream.next().unwrap();
    assert_eq!(block.num_rows(), 1);
    assert_eq!(block.columns[0].values, vec![DataValue::Int64(42)]);
    assert!(stream.next().is_none());
    // a second execution is independent and yields an equivalent stream
    let mut again = source.execute().unwrap();
    let block2 = again.next().unwrap();
    assert_eq!(block2.columns[0].values, vec![DataValue::Int64(42)]);
    assert!(again.next().is_none());
}

#[test]
fn source_name_is_stable() {
    let ctx = single_row_context();
    let source = SourceTransform::create(ctx, "default", "t", vec![]);
    assert_eq!(source.name(), "SourceTransform");
}

#[test]
fn connect_to_on_a_source_is_unimplemented() {
    let mut source = SourceTransform::create(single_row_context(), "default", "t", vec![]);
    let other = SourceTransform::create(single_row_context(), "default", "t", vec![]);
    assert_eq!(
        source.connect_to(&other).unwrap_err(),
        EngineError::Unimplemented
    );
}

#[test]
fn unknown_database_or_table_fails_resolution() {
    let ctx = single_row_context();
    let bad_db = SourceTransform::create(ctx, "elsewhere", "t", vec![]);
    assert_eq!(bad_db.execute().unwrap_err(), EngineError::NotFound);
    let ctx2 = single_row_context();
    let bad_table = SourceTransform::create(ctx2, "default", "u", vec![]);
    assert_eq!(bad_table.execute().unwrap_err(), EngineError::NotFound);
}

#[test]
fn table_rejects_a_malformed_block() {
    let mut table = Table::create("t", number_schema());
    let bad = DataBlock {
        schema: number_schema(),
        columns: vec![DataArray {
            data_type: DataType::Int64,
            values: vec![DataValue::Boolean(true)],
        }],
    };
    assert_eq!(
        table
            .add_part(Partition::create("p0", 1), bad)
            .unwrap_err(),
        EngineError::TypeMismatch
    );
}

#[test]
fn stream_delivers_in_order_and_then_ends() {
    let mut table = Table::create("t", number_schema());
    table
        .add_part(Partition::create("p0", 1), number_block(&[1]))
        .unwrap();
    table
        .add_part(Partition::create("p0", 2), number_block(&[2]))
        .unwrap();
    // versions distinguish otherwise identically named partitions
    let wanted = vec![Partition::create("p0", 2), Partition::create("p0", 1)];
    let mut stream = table.read(&wanted).unwrap();
    assert_eq!(stream.remaining(), 2);
    assert_eq!(
        stream.next().unwrap().columns[0].values,
        vec![DataValue::Int64(2)]
    );
    assert_eq!(
        stream.next().unwrap().columns[0].values,
        vec![DataValue::Int64(1)]
    );
    assert!(stream.next().is_none());
    assert!(stream.next().is_none());
}
