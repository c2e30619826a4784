use query_engine::batch::Batch;
use query_engine::batch::ColumnData;
use query_engine::errors::ExecutionError;
use query_engine::evaluator::FilterExec;
use query_engine::expr::Binary;
use query_engine::expr::BinaryOp;
use query_engine::expr::Expression;
use query_engine::expr::Ident;
use query_engine::expr::IntegerLiteral;
use query_engine::operators::Collect;
use query_engine::operators::Filter;
use query_engine::operators::Operator;
use query_engine::operators::Select;
use query_engine::schema::DataType;
use query_engine::schema::Field;
use query_engine::schema::Schema;

fn id_in_range_expr(column: &str, low: i32, high: i32) -> Box<Expression> {
    Box::from(Expression::Binary(Binary {
        lhs: Box::from(Expression::Binary(Binary {
            lhs: Box::from(Expression::Ident(Ident { name: column.to_string() })),
            op: BinaryOp::Gt,
            rhs: Box::from(Expression::IntegerLiteral(IntegerLiteral { value: low })),
        })),
        op: BinaryOp::And,
        rhs: Box::from(Expression::Binary(Binary {
            lhs: Box::from(Expression::Ident(Ident { name: column.to_string() })),
            op: BinaryOp::Lt,
            rhs: Box::from(Expression::IntegerLiteral(IntegerLiteral { value: high })),
        })),
    }))
}

fn int_batch(name: &str, values: Vec<i32>) -> Batch {
    let schema = Schema::new(vec![Field::new(name.to_string(), DataType::Int32)]);
    Batch::try_new(schema, vec![ColumnData::Int32(values)]).unwrap()
}

#[test]
fn test_filter_kernel() {
    let batch_size = 500;
    let filter_expr = id_in_range_expr("id", 10, 50);

    let batch = int_batch("id", (0..batch_size).collect::<Vec<i32>>());

    let collect = Collect::new();
    let select = Select::new(collect);
    let mut filter = Filter::new(filter_expr, select);

    filter.execute(batch).unwrap();
    let res = filter.successor.successor.into_batches();

    assert_eq!(res.len(), 1);
    assert_eq!(res[0].num_rows(), 39);
}

#[test]
fn filter_test_filter_kernel() {
    let batch_size = 500;
    let filter_expr = id_in_range_expr("id", 10, 50);

    let batch = int_batch("id", (0..batch_size).collect::<Vec<i32>>());

    let collect = Collect::new();
    let select = Select::new(collect);
    let mut filter = Filter::new(filter_expr, select);
    filter.execute(batch).unwrap();
    let result = filter.successor.successor.into_batches();

    assert_eq!(result.len(), 1);

    let batch = result.first().unwrap();
    assert_eq!(batch.num_rows(), 39);
    assert_eq!(batch.num_columns(), 1);
}

#[test]
fn evaluator_exact_row_mask() {
    let batch = int_batch("x", vec![1, 5, 7, 2, 9]);
    let expr = Expression::Binary(Binary {
        lhs: Box::from(Expression::Ident(Ident { name: "x".to_string() })),
        op: BinaryOp::Gt,
        rhs: Box::from(Expression::IntegerLiteral(IntegerLiteral { value: 4 })),
    });
    let exec = FilterExec::new(&batch);
    let mask = exec.evaluate(&expr).unwrap();
    assert_eq!(mask, vec![false, true, true, false, true]);
}

#[test]
fn evaluator_or_and_lt() {
    let schema = Schema::new(vec![
        Field::new("a".to_string(), DataType::Int32),
        Field::new("b".to_string(), DataType::Int32),
    ]);
    let batch = Batch::try_new(
        schema,
        vec![
            ColumnData::Int32(vec![1, 10, 3]),
            ColumnData::Int32(vec![5, 2, 3]),
        ],
    )
    .unwrap();
    // a < b OR a > 9: rows 0 and 1
    let expr = Expression::Binary(Binary {
        lhs: Box::from(Expression::Binary(Binary {
            lhs: Box::from(Expression::Ident(Ident { name: "a".to_string() })),
            op: BinaryOp::Lt,
            rhs: Box::from(Expression::Ident(Ident { name: "b".to_string() })),
        })),
        op: BinaryOp::Or,
        rhs: Box::from(Expression::Binary(Binary {
            lhs: Box::from(Expression::Ident(Ident { name: "a".to_string() })),
            op: BinaryOp::Gt,
            rhs: Box::from(Expression::IntegerLiteral(IntegerLiteral { value: 9 })),
        })),
    });
    let exec = FilterExec::new(&batch);
    let mask = exec.evaluate(&expr).unwrap();
    assert_eq!(mask, vec![true, true, false]);
}

#[test]
fn evaluator_reports_missing_column() {
    let batch = int_batch("x", vec![1, 2]);
    let expr = Expression::Binary(Binary {
        lhs: Box::from(Expression::Ident(Ident { name: "y".to_string() })),
        op: BinaryOp::Gt,
        rhs: Box::from(Expression::IntegerLiteral(IntegerLiteral { value: 0 })),
    });
    let exec = FilterExec::new(&batch);
    assert_eq!(
        exec.evaluate(&expr),
        Err(ExecutionError::ColumnNotFound("y".to_string()))
    );
}

#[test]
fn evaluator_reports_column_type_mismatch() {
    let schema = Schema::new(vec![Field::new("s".to_string(), DataType::Utf8)]);
    let batch = Batch::try_new(
        schema,
        vec![ColumnData::Utf8(vec!["a".to_string(), "b".to_string()])],
    )
    .unwrap();
    let expr = Expression::Binary(Binary {
        lhs: Box::from(Expression::Ident(Ident { name: "s".to_string() })),
        op: BinaryOp::Lt,
        rhs: Box::from(Expression::IntegerLiteral(IntegerLiteral { value: 3 })),
    });
    let exec = FilterExec::new(&batch);
    assert_eq!(
        exec.evaluate(&expr),
        Err(ExecutionError::ColumnTypeMismatch("s".to_string()))
    );
}

#[test]
fn evaluator_rejects_bare_value_as_predicate() {
    let batch = int_batch("x", vec![1]);
    let expr = Expression::IntegerLiteral(IntegerLiteral { value: 1 });
    let exec = FilterExec::new(&batch);
    assert_eq!(exec.evaluate(&expr), Err(ExecutionError::UnsupportedExpression));
}

#[test]
fn evaluator_rejects_mixed_context() {
    let batch = int_batch("x", vec![1]);
    // a comparison whose operand is itself a comparison
    let inner = Expression::Binary(Binary {
        lhs: Box::from(Expression::Ident(Ident { name: "x".to_string() })),
        op: BinaryOp::Lt,
        rhs: Box::from(Expression::IntegerLiteral(IntegerLiteral { value: 3 })),
    });
    let expr = Expression::Binary(Binary {
        lhs: Box::from(inner),
        op: BinaryOp::Gt,
        rhs: Box::from(Expression::IntegerLiteral(IntegerLiteral { value: 0 })),
    });
    let exec = FilterExec::new(&batch);
    assert_eq!(exec.evaluate(&expr), Err(ExecutionError::UnsupportedExpression));
}
