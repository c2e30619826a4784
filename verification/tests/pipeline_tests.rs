use std::sync::Arc;

use query_engine::batch::Batch;
use query_engine::batch::ColumnData;
use query_engine::expr::Binary;
use query_engine::expr::BinaryOp;
use query_engine::expr::Expression;
use query_engine::expr::Ident;
use query_engine::expr::IntegerLiteral;
use query_engine::operators::run_filter_pipeline;
use query_engine::operators::Collect;
use query_engine::operators::FilterStep;
use query_engine::operators::Operator;
use query_engine::operators::Pipe;
use query_engine::operators::SelectStep;
use query_engine::operators::Transform;
use query_engine::schema::DataType;
use query_engine::schema::Field;
use query_engine::schema::Schema;

fn id_between(low: i32, high: i32) -> Box<Expression> {
    Box::from(Expression::Binary(Binary {
        lhs: Box::from(Expression::Binary(Binary {
            lhs: Box::from(Expression::Ident(Ident { name: "id".to_string() })),
            op: BinaryOp::Gt,
            rhs: Box::from(Expression::IntegerLiteral(IntegerLiteral { value: low })),
        })),
        op: BinaryOp::And,
        rhs: Box::from(Expression::Binary(Binary {
            lhs: Box::from(Expression::Ident(Ident { name: "id".to_string() })),
            op: BinaryOp::Lt,
            rhs: Box::from(Expression::IntegerLiteral(IntegerLiteral { value: high })),
        })),
    }))
}

fn id_batch(values: Vec<i32>) -> Batch {
    let schema = Schema::new(vec![Field::new("id".to_string(), DataType::Int32)]);
    Batch::try_new(schema, vec![ColumnData::Int32(values)]).unwrap()
}

/// One parquet file of `rows` ascending ids, held in memory.
fn parquet_id_file(rows: i32) -> bytes::Bytes {
    let schema = Arc::new(arrow::datatypes::Schema::new(vec![
        arrow::datatypes::Field::new("id", arrow::datatypes::DataType::Int32, false),
    ]));
    let ids = arrow::array::Int32Array::from((0..rows).collect::<Vec<i32>>());
    let rb = arrow::record_batch::RecordBatch::try_new(schema.clone(), vec![Arc::new(ids)])
        .unwrap();
    let mut buf: Vec<u8> = Vec::new();
    let mut writer = parquet::arrow::ArrowWriter::try_new(&mut buf, schema, None).unwrap();
    writer.write(&rb).unwrap();
    writer.close().unwrap();
    bytes::Bytes::from(buf)
}

/// Reads all batches of an in-memory parquet file in chunks of
/// `batch_size` rows.
fn read_chunked(file: bytes::Bytes, batch_size: usize) -> Vec<arrow::record_batch::RecordBatch> {
    let reader = parquet::arrow::arrow_reader::ParquetRecordBatchReaderBuilder::try_new(file)
        .unwrap()
        .with_batch_size(batch_size)
        .build()
        .unwrap();
    reader.collect::<Result<Vec<_>, _>>().unwrap()
}

fn to_engine_batch(rb: &arrow::record_batch::RecordBatch) -> Batch {
    let mut fields = Vec::new();
    let mut columns = Vec::new();
    for (i, f) in rb.schema().fields().iter().enumerate() {
        fields.push(Field::new(f.name().clone(), DataType::Int32));
        let values = rb
            .column(i)
            .as_any()
            .downcast_ref::<arrow::array::Int32Array>()
            .unwrap()
            .values()
            .to_vec();
        columns.push(ColumnData::Int32(values));
    }
    Batch::try_new(Schema::new(fields), columns).unwrap()
}

#[test]
fn end_to_end_single_batch_count() {
    let batch = id_batch((0..500).collect());
    let out = run_filter_pipeline(id_between(10, 50), vec![batch]).unwrap();
    assert_eq!(out.len(), 1);
    assert_eq!(out[0].num_rows(), 39);
    assert_eq!(out[0].num_columns(), 1);
    assert_eq!(
        out[0].column(0),
        &ColumnData::Int32((11..50).collect::<Vec<i32>>())
    );
}

#[test]
fn scan_chunking_yields_full_batches() {
    let file = parquet_id_file(1000);
    let batches = read_chunked(file, 500);
    assert_eq!(batches.len(), 2);
    for b in &batches {
        assert_eq!(b.num_rows(), 500);
        assert_eq!(b.num_columns(), 1);
    }
}

#[test]
fn pipeline_rerun_yields_identical_output() {
    let file = parquet_id_file(1000);

    let first: Vec<Batch> = read_chunked(file.clone(), 300)
        .iter()
        .map(to_engine_batch)
        .collect();
    let second: Vec<Batch> = read_chunked(file, 300)
        .iter()
        .map(to_engine_batch)
        .collect();

    let out_first = run_filter_pipeline(id_between(100, 900), first).unwrap();
    let out_second = run_filter_pipeline(id_between(100, 900), second).unwrap();
    assert_eq!(out_first, out_second);
    let total: usize = out_first.iter().map(|b| b.num_rows()).sum();
    assert_eq!(total, 799);
}

#[test]
fn pipeline_stops_at_first_failing_batch() {
    let good = id_batch(vec![1, 2, 3]);
    let schema = Schema::new(vec![Field::new("other".to_string(), DataType::Int32)]);
    let bad = Batch::try_new(schema, vec![ColumnData::Int32(vec![4])]).unwrap();
    let err = run_filter_pipeline(id_between(0, 10), vec![good, bad]).unwrap_err();
    assert_eq!(
        err,
        query_engine::errors::ExecutionError::ColumnNotFound("id".to_string())
    );
}

#[test]
fn pipeline_scan_collect_without_filter() {
    let mut sink = Collect::new();
    sink.execute(id_batch(vec![1, 2])).unwrap();
    sink.execute(id_batch(vec![3])).unwrap();
    let out = sink.into_batches();
    assert_eq!(out.len(), 2);
    assert_eq!(out[0].num_rows(), 2);
    assert_eq!(out[1].num_rows(), 1);
}

#[test]
fn pipe_chain_matches_push_chain() {
    let mut pipe = Pipe::new(FilterStep { expression: id_between(10, 50) }, SelectStep {});
    let piped = pipe.execute(id_batch((0..500).collect())).unwrap();

    let pushed = run_filter_pipeline(id_between(10, 50), vec![id_batch((0..500).collect())])
        .unwrap();

    assert_eq!(piped.num_rows(), 39);
    assert_eq!(vec![piped], pushed);
}

#[test]
fn pipe_hands_on_the_left_stage_error() {
    let mut pipe = Pipe::new(
        FilterStep { expression: id_between(0, 9) },
        SelectStep {},
    );
    let schema = Schema::new(vec![Field::new("other".to_string(), DataType::Int32)]);
    let batch = Batch::try_new(schema, vec![ColumnData::Int32(vec![1])]).unwrap();
    assert_eq!(
        pipe.execute(batch).unwrap_err(),
        query_engine::errors::ExecutionError::ColumnNotFound("id".to_string())
    );
}
