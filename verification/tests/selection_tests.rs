use query_engine::batch::Batch;
use query_engine::batch::ColumnData;
use query_engine::errors::ExecutionError;
use query_engine::schema::DataType;
use query_engine::schema::Field;
use query_engine::schema::Schema;
use query_engine::selection::build_selection;
use query_engine::selection::select_rows;

fn two_column_batch() -> Batch {
    let schema = Schema::new(vec![
        Field::new("n".to_string(), DataType::Int32),
        Field::new("s".to_string(), DataType::Utf8),
    ]);
    Batch::try_new(
        schema,
        vec![
            ColumnData::Int32(vec![10, 20, 30, 40]),
            ColumnData::Utf8(vec![
                "a".to_string(),
                "b".to_string(),
                "c".to_string(),
                "d".to_string(),
            ]),
        ],
    )
    .unwrap()
}

#[test]
fn selection_vector_lists_true_positions_ascending() {
    let mask = vec![true, false, true, true, false];
    assert_eq!(build_selection(&mask), vec![0, 2, 3]);
    assert_eq!(build_selection(&vec![]), Vec::<usize>::new());
    assert_eq!(build_selection(&vec![false, false]), Vec::<usize>::new());
}

#[test]
fn materialization_keeps_schema_and_counts() {
    let batch = two_column_batch();
    let sel: Vec<usize> = vec![1, 3];
    let out = select_rows(&batch, &sel).unwrap();
    assert_eq!(out.num_columns(), batch.num_columns());
    assert_eq!(out.schema(), batch.schema());
    assert_eq!(out.num_rows(), sel.len());
    assert_eq!(
        out.column(0),
        &ColumnData::Int32(vec![20, 40])
    );
    assert_eq!(
        out.column(1),
        &ColumnData::Utf8(vec!["b".to_string(), "d".to_string()])
    );
}

#[test]
fn materialization_rejects_out_of_bounds_selection() {
    let batch = two_column_batch();
    let sel: Vec<usize> = vec![1, 4];
    assert_eq!(select_rows(&batch, &sel), Err(ExecutionError::SelectionOutOfBounds));
}

#[test]
fn batch_construction_checks_shape() {
    let schema = Schema::new(vec![Field::new("n".to_string(), DataType::Int32)]);
    assert!(Batch::try_new(
        schema,
        vec![
            ColumnData::Int32(vec![1]),
            ColumnData::Int32(vec![2]),
        ],
    )
    .is_none());
    let schema = Schema::new(vec![Field::new("n".to_string(), DataType::Int32)]);
    assert!(Batch::try_new(schema, vec![ColumnData::Utf8(vec![])]).is_none());
    let schema = Schema::new(vec![
        Field::new("a".to_string(), DataType::Int32),
        Field::new("b".to_string(), DataType::Int32),
    ]);
    assert!(Batch::try_new(
        schema,
        vec![
            ColumnData::Int32(vec![1, 2]),
            ColumnData::Int32(vec![3]),
        ],
    )
    .is_none());
}
