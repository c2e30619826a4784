use query_engine::catalog::DummyCatalog;
use query_engine::dag_builder::DagBuilder;
use query_engine::expr::Binary;
use query_engine::expr::BinaryOp;
use query_engine::expr::Expression;
use query_engine::expr::Ident;
use query_engine::expr::IntegerLiteral;
use query_engine::schema::DataType;
use query_engine::schema::Field;
use query_engine::schema::Schema;
use query_engine::catalog::CatalogError;
use query_engine::sql_parser::parse_sql_query;
use query_engine::sql_parser::SqlExpr;
use query_engine::sql_parser::TranslationError;
use query_engine::sql_parser::VisitExpression;

fn two_int_columns_schema() -> Schema {
    Schema::new(vec![
        Field::new("a".to_string(), DataType::Int32),
        Field::new("b".to_string(), DataType::Int32),
    ])
}

#[test]
fn test_sql_parser() {
    let sql_query = "SELECT a, b FROM table_1";

    let mut catalog = DummyCatalog::new();
    let table_1_schema = two_int_columns_schema();
    catalog.add_table("table_1", table_1_schema.clone());

    let logical_plan_actual = parse_sql_query(sql_query, &catalog).unwrap();

    let mut dag_builder = DagBuilder::new();

    let project_expr = vec![
        Expression::Ident(Ident { name: "a".to_string() }),
        Expression::Ident(Ident { name: "b".to_string() }),
    ];
    let scan_id = dag_builder.create_scan("table_1".to_string(), table_1_schema.clone());
    dag_builder.create_project(project_expr, scan_id);
    let logical_plan_expected = dag_builder.into_dag();

    assert_eq!(logical_plan_actual.get_node(0), logical_plan_expected.get_node(0));
    assert_eq!(logical_plan_actual.get_node(1), logical_plan_expected.get_node(1));
}

#[test]
fn test_sql_parser_with_filter() {
    let sql_query = "SELECT a, b FROM table_1 WHERE a > 50 AND b < 100";

    let mut catalog = DummyCatalog::new();
    let table_1_schema = two_int_columns_schema();
    catalog.add_table("table_1", table_1_schema.clone());

    let logical_plan_actual = parse_sql_query(sql_query, &catalog).unwrap();

    let mut dag_builder = DagBuilder::new();

    let project_expr = vec![
        Expression::Ident(Ident { name: "a".to_string() }),
        Expression::Ident(Ident { name: "b".to_string() }),
    ];
    let filter_expr = Box::from(Expression::Binary(Binary {
        lhs: Box::from(Expression::Binary(Binary {
            lhs: Box::from(Expression::Ident(Ident { name: "a".to_string() })),
            op: BinaryOp::Gt,
            rhs: Box::from(Expression::IntegerLiteral(IntegerLiteral { value: 50 })),
        })),
        op: BinaryOp::And,
        rhs: Box::from(Expression::Binary(Binary {
            lhs: Box::from(Expression::Ident(Ident { name: "b".to_string() })),
            op: BinaryOp::Lt,
            rhs: Box::from(Expression::IntegerLiteral(IntegerLiteral { value: 100 })),
        })),
    }));

    let scan = dag_builder.create_scan("table_1".to_string(), table_1_schema.clone());
    let filter = dag_builder.create_filter(filter_expr, scan);
    dag_builder.create_project(project_expr, filter);
    let logical_plan_expected = dag_builder.into_dag();

    assert_eq!(logical_plan_actual.get_node(0), logical_plan_expected.get_node(0));
    assert_eq!(logical_plan_actual.get_node(1), logical_plan_expected.get_node(1));
    assert_eq!(logical_plan_actual.get_node(2), logical_plan_expected.get_node(2));
}

#[test]
fn translator_rejects_unknown_table() {
    let catalog = DummyCatalog::new();
    assert_eq!(
        parse_sql_query("SELECT a FROM missing", &catalog).unwrap_err(),
        TranslationError::TableNotFound("missing".to_string())
    );
}

#[test]
fn translator_rejects_joins() {
    let mut catalog = DummyCatalog::new();
    catalog.add_table("t", two_int_columns_schema());
    catalog.add_table("u", two_int_columns_schema());
    assert_eq!(
        parse_sql_query("SELECT a FROM t JOIN u ON t.a = u.a", &catalog).unwrap_err(),
        TranslationError::JoinsUnsupported
    );
}

#[test]
fn translator_rejects_two_tables() {
    let mut catalog = DummyCatalog::new();
    catalog.add_table("t", two_int_columns_schema());
    assert_eq!(
        parse_sql_query("SELECT a FROM t, t", &catalog).unwrap_err(),
        TranslationError::MultipleTables
    );
}

#[test]
fn translator_rejects_computed_projection() {
    let mut catalog = DummyCatalog::new();
    catalog.add_table("t", two_int_columns_schema());
    assert_eq!(
        parse_sql_query("SELECT a + b FROM t", &catalog).unwrap_err(),
        TranslationError::UnsupportedProjection
    );
}

#[test]
fn translator_rejects_unsupported_predicate_operator() {
    let mut catalog = DummyCatalog::new();
    catalog.add_table("t", two_int_columns_schema());
    assert_eq!(
        parse_sql_query("SELECT a FROM t WHERE a = 3", &catalog).unwrap_err(),
        TranslationError::UnsupportedExpressionForm
    );
}

#[test]
fn translator_rejects_out_of_range_literal() {
    let mut catalog = DummyCatalog::new();
    catalog.add_table("t", two_int_columns_schema());
    assert_eq!(
        parse_sql_query("SELECT a FROM t WHERE a > 99999999999", &catalog).unwrap_err(),
        TranslationError::InvalidNumber("99999999999".to_string())
    );
}

#[test]
fn translator_rejects_non_select_statement() {
    let catalog = DummyCatalog::new();
    assert_eq!(
        parse_sql_query("INSERT INTO t VALUES (1)", &catalog).unwrap_err(),
        TranslationError::UnsupportedStatement
    );
}

#[test]
fn translator_rejects_statement_count() {
    let catalog = DummyCatalog::new();
    assert_eq!(
        parse_sql_query("SELECT a FROM t; SELECT b FROM t", &catalog).unwrap_err(),
        TranslationError::NotASingleStatement
    );
}

#[test]
fn translator_reports_parse_errors() {
    let catalog = DummyCatalog::new();
    assert!(matches!(
        parse_sql_query("SELEC nonsense", &catalog),
        Err(TranslationError::SqlParse(_))
    ));
}

#[test]
fn translator_accepts_boundary_literals() {
    let mut catalog = DummyCatalog::new();
    catalog.add_table("t", two_int_columns_schema());
    let dag = parse_sql_query("SELECT a FROM t WHERE a < 2147483647", &catalog).unwrap();
    match dag.get_node(1) {
        query_engine::logical_plan::LogicalPlan::Filter(f) => match f.expr.as_ref() {
            Expression::Binary(b) => {
                assert_eq!(
                    b.rhs.as_ref(),
                    &Expression::IntegerLiteral(IntegerLiteral { value: 2147483647 })
                );
            },
            other => panic!("unexpected expression {:?}", other),
        },
        other => panic!("unexpected node {:?}", other),
    }
}

#[test]
fn visit_parses_signed_literals_exactly() {
    assert_eq!(
        VisitExpression::visit(&SqlExpr::Number("-7".to_string())).unwrap(),
        Expression::IntegerLiteral(IntegerLiteral { value: -7 })
    );
    assert_eq!(
        VisitExpression::visit(&SqlExpr::Number("-2147483648".to_string())).unwrap(),
        Expression::IntegerLiteral(IntegerLiteral { value: -2147483648 })
    );
    assert_eq!(
        VisitExpression::visit(&SqlExpr::Number("-2147483649".to_string())).unwrap_err(),
        TranslationError::InvalidNumber("-2147483649".to_string())
    );
    assert_eq!(
        VisitExpression::visit(&SqlExpr::Number("12x".to_string())).unwrap_err(),
        TranslationError::InvalidNumber("12x".to_string())
    );
}

#[test]
fn catalog_error_message_names_the_table() {
    let e = CatalogError::TableNotFound("orders".to_string());
    assert_eq!(
        e.message(),
        "Catalog Error: Table with name orders not found in catalog"
    );
}
