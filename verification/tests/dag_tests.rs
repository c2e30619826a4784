use query_engine::dag::Dag;
use query_engine::dag_builder::DagBuilder;
use query_engine::logical_plan::LogicalPlan;
use query_engine::logical_plan::Projection;
use query_engine::logical_plan::TableScan;
use query_engine::schema::Schema;

#[test]
fn test_dag_builder() {
    let mut builder = DagBuilder::new();

    let scan = builder.create_scan("table".to_string(), Schema::empty());
    let project = builder.create_project(Vec::new(), scan);

    let dag = builder.into_dag();

    assert_eq!(
        dag.get_node(scan),
        &LogicalPlan::TableScan(TableScan {
            table_name: "table".to_string(),
            schema: Schema::empty(),
        })
    );
    assert_eq!(
        dag.get_node(project),
        &LogicalPlan::Projection(Projection {
            expr: Vec::new(),
            schema: Schema::empty(),
        })
    );

    assert_eq!(dag.get_inputs(scan).len(), 0);
    assert_eq!(dag.get_inputs(project)[0], scan);

    println!("{:?}", dag);
}

/// For every node wired through the store, each of its inputs lists the
/// node back among its usages, over pseudorandom insertion sequences.
#[test]
fn dag_usage_backrefs_hold_over_random_insertions() {
    let mut state: u64 = 0x853c49e6748fea9b;
    let mut draw = move || {
        state = state
            .wrapping_mul(6364136223846793005)
            .wrapping_add(1442695040888963407);
        state >> 33
    };
    for round in 0..20u64 {
        let mut dag: Dag<u64> = Dag::new();
        let mut edges: Vec<(usize, usize)> = Vec::new();
        let mut len: usize = 1;
        dag.new_node(round);
        for step in 0..60u64 {
            let r = draw();
            if len < 2 || r % 3 == 0 {
                let id = dag.new_node(step);
                assert_eq!(id, len);
                len += 1;
            } else {
                let node = 1 + (draw() as usize) % (len - 1);
                let input = (draw() as usize) % node;
                dag.add_input(node, input);
                edges.push((node, input));
            }
        }
        for &(node, input) in &edges {
            assert!(dag.get_inputs(node).contains(&input));
            assert!(dag.get_usages(input).contains(&node));
        }
        for node in 0..len {
            for &input in dag.get_inputs(node) {
                assert!(dag.get_usages(input).contains(&node));
            }
        }
    }
}
