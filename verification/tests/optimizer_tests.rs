use query_engine::catalog::DummyCatalog;
use query_engine::dag_builder::DagBuilder;
use query_engine::optimizer::Optimizer;
use query_engine::schema::Schema;

#[test]
fn test_optimizer() {
    let catalog = DummyCatalog::new();

    let _optimizer = Optimizer::new(catalog);
}

#[test]
fn optimizer_test_optimizer() {
    let catalog = DummyCatalog::new();

    let _optimizer = Optimizer::new(catalog);
}

#[test]
fn optimizer_run_keeps_plan_unchanged() {
    let mut builder = DagBuilder::new();
    let scan = builder.create_scan("t".to_string(), Schema::empty());
    builder.create_project(Vec::new(), scan);
    let mut dag = builder.into_dag();

    let before = format!("{:?}", dag);
    let optimizer = Optimizer::new(DummyCatalog::new());
    assert!(optimizer.run(&mut dag).is_ok());
    assert_eq!(format!("{:?}", dag), before);
}
