//! The one place where plan nodes are both inserted and wired to their
//! inputs. Constructing nodes through the builder keeps the DAG's
//! usage back-references and schema propagation correct; nothing else
//! may insert a node.

use vstd::prelude::*;
use crate::dag::{Dag, NodeId};
use crate::expr::Expression;
use crate::logical_plan::{Filter, LogicalPlan, LogicalPlanView, Projection, TableScan, plan_schema};
use crate::schema::Schema;

verus! {

pub struct DagBuilder {
    dag: Dag<LogicalPlan>,
}

impl DagBuilder {
    pub closed spec fn spec_dag(self) -> Dag<LogicalPlan> {
        self.dag
    }

    pub fn new() -> (b: DagBuilder)
        ensures
            b.spec_dag().wf(),
            b.spec_dag().spec_len() == 0,
    {
        DagBuilder { dag: Dag::new() }
    }

    /// Hands the finished DAG to the caller.
    pub fn into_dag(self) -> (d: Dag<LogicalPlan>)
        ensures
            d == self.spec_dag(),
    {
        self.dag
    }

    /// Inserts a `TableScan` of `table_name` with the schema the caller
    /// already resolved through a catalog. The node has no inputs.
    pub fn create_scan(&mut self, table_name: String, schema: Schema) -> (id: NodeId)
        requires
            old(self).spec_dag().wf(),
        ensures
            final(self).spec_dag().wf(),
            id == old(self).spec_dag().spec_len(),
            final(self).spec_dag().spec_len() == old(self).spec_dag().spec_len() + 1,
            final(self).spec_dag().spec_nodes() == old(self).spec_dag().spec_nodes().push(
                LogicalPlan::TableScan(TableScan { table_name, schema }),
            ),
            final(self).spec_dag().spec_inputs()[id as int] == Seq::<NodeId>::empty(),
            forall|j: int| 0 <= j < id
                ==> #[trigger] final(self).spec_dag().spec_inputs()[j]
                    == old(self).spec_dag().spec_inputs()[j],
            forall|a: int| 0 <= a < old(self).spec_dag().spec_len()
                ==> #[trigger] final(self).spec_dag().usage_set(a)
                    == old(self).spec_dag().usage_set(a),
    {
        let id = self.dag.new_node(LogicalPlan::TableScan(TableScan { table_name, schema }));
        proof {
            let pre = old(self).spec_dag();
            crate::dag::lemma_wf_shape(pre);
            assert(pre.spec_inputs().push(Seq::<NodeId>::empty())[id as int]
                == Seq::<NodeId>::empty());
            assert forall|j: int| 0 <= j < id
                implies #[trigger] self.dag.spec_inputs()[j] == pre.spec_inputs()[j] by {
                assert(pre.spec_inputs().push(Seq::<NodeId>::empty())[j]
                    == pre.spec_inputs()[j]);
            }
        }
        id
    }

    /// Inserts a `Filter` holding `expr`, wired to consume `input`; its
    /// schema equals `input`'s schema, since filtering narrows rows and
    /// not columns.
    pub fn create_filter(&mut self, expr: Box<Expression>, input: NodeId) -> (id: NodeId)
        requires
            old(self).spec_dag().wf(),
            input < old(self).spec_dag().spec_len(),
        ensures
            final(self).spec_dag().wf(),
            id == old(self).spec_dag().spec_len(),
            final(self).spec_dag().spec_len() == old(self).spec_dag().spec_len() + 1,
            forall|j: int| 0 <= j < id
                ==> #[trigger] final(self).spec_dag().spec_nodes()[j]
                    == old(self).spec_dag().spec_nodes()[j],
            final(self).spec_dag().spec_nodes()[id as int]@ == (LogicalPlanView::Filter {
                expr: expr@,
                schema: plan_schema(old(self).spec_dag().spec_nodes()[input as int]@),
            }),
            final(self).spec_dag().spec_inputs()[id as int] == seq![input],
            forall|j: int| 0 <= j < id
                ==> #[trigger] final(self).spec_dag().spec_inputs()[j]
                    == old(self).spec_dag().spec_inputs()[j],
            final(self).spec_dag().usage_set(input as int)
                == old(self).spec_dag().usage_set(input as int).insert(id),
            forall|a: int| 0 <= a < old(self).spec_dag().spec_len() && a != input
                ==> #[trigger] final(self).spec_dag().usage_set(a)
                    == old(self).spec_dag().usage_set(a),
    {
        let schema = self.dag.get_node(input).get_schema();
        let node = LogicalPlan::Filter(Filter { expr, schema });
        let ghost node_snapshot = node;
        let id = self.dag.new_node(node);
        self.dag.add_input(id, input);
        proof {
            let pre = old(self).spec_dag();
            crate::dag::lemma_wf_shape(pre);
            let mid_inputs = pre.spec_inputs().push(Seq::<NodeId>::empty());
            let mid_nodes = pre.spec_nodes().push(node_snapshot);
            assert(mid_inputs[id as int] == Seq::<NodeId>::empty());
            assert(self.dag.spec_inputs() == mid_inputs.update(
                id as int,
                mid_inputs[id as int].push(input),
            ));
            assert(mid_inputs.update(id as int, mid_inputs[id as int].push(input))[id as int]
                == mid_inputs[id as int].push(input));
            assert(self.dag.spec_inputs()[id as int] =~= seq![input]);
            assert forall|j: int| 0 <= j < id
                implies #[trigger] self.dag.spec_inputs()[j] == pre.spec_inputs()[j] by {
                assert(mid_inputs.update(id as int, mid_inputs[id as int].push(input))[j]
                    == mid_inputs[j]);
                assert(mid_inputs[j] == pre.spec_inputs()[j]);
            }
            assert(self.dag.spec_nodes() == mid_nodes);
            assert(mid_nodes[id as int] == node_snapshot);
            assert forall|j: int| 0 <= j < id
                implies #[trigger] self.dag.spec_nodes()[j] == pre.spec_nodes()[j] by {
                assert(mid_nodes[j] == pre.spec_nodes()[j]);
            }
        }
        id
    }

    /// Inserts a `Projection` of `expr`, wired to consume `input`. Its
    /// schema is copied from `input`: narrowing it by the expression
    /// list is a known, deliberately open extension point.
    pub fn create_project(&mut self, expr: Vec<Expression>, input: NodeId) -> (id: NodeId)
        requires
            old(self).spec_dag().wf(),
            input < old(self).spec_dag().spec_len(),
        ensures
            final(self).spec_dag().wf(),
            id == old(self).spec_dag().spec_len(),
            final(self).spec_dag().spec_len() == old(self).spec_dag().spec_len() + 1,
            forall|j: int| 0 <= j < id
                ==> #[trigger] final(self).spec_dag().spec_nodes()[j]
                    == old(self).spec_dag().spec_nodes()[j],
            final(self).spec_dag().spec_nodes()[id as int]@ == (LogicalPlanView::Projection {
                expr: expr@.map_values(|e: Expression| crate::expr::expr_view(e)),
                schema: plan_schema(old(self).spec_dag().spec_nodes()[input as int]@),
            }),
            final(self).spec_dag().spec_inputs()[id as int] == seq![input],
            forall|j: int| 0 <= j < id
                ==> #[trigger] final(self).spec_dag().spec_inputs()[j]
                    == old(self).spec_dag().spec_inputs()[j],
            final(self).spec_dag().usage_set(input as int)
                == old(self).spec_dag().usage_set(input as int).insert(id),
            forall|a: int| 0 <= a < old(self).spec_dag().spec_len() && a != input
                ==> #[trigger] final(self).spec_dag().usage_set(a)
                    == old(self).spec_dag().usage_set(a),
    {
        let schema = self.dag.get_node(input).get_schema();
        let node = LogicalPlan::Projection(Projection { expr, schema });
        let ghost node_snapshot = node;
        let id = self.dag.new_node(node);
        self.dag.add_input(id, input);
        proof {
            let pre = old(self).spec_dag();
            crate::dag::lemma_wf_shape(pre);
            let mid_inputs = pre.spec_inputs().push(Seq::<NodeId>::empty());
            let mid_nodes = pre.spec_nodes().push(node_snapshot);
            assert(mid_inputs[id as int] == Seq::<NodeId>::empty());
            assert(self.dag.spec_inputs() == mid_inputs.update(
                id as int,
                mid_inputs[id as int].push(input),
            ));
            assert(mid_inputs.update(id as int, mid_inputs[id as int].push(input))[id as int]
                == mid_inputs[id as int].push(input));
            assert(self.dag.spec_inputs()[id as int] =~= seq![input]);
            assert forall|j: int| 0 <= j < id
                implies #[trigger] self.dag.spec_inputs()[j] == pre.spec_inputs()[j] by {
                assert(mid_inputs.update(id as int, mid_inputs[id as int].push(input))[j]
                    == mid_inputs[j]);
                assert(mid_inputs[j] == pre.spec_inputs()[j]);
            }
            assert(self.dag.spec_nodes() == mid_nodes);
            assert(mid_nodes[id as int] == node_snapshot);
            assert forall|j: int| 0 <= j < id
                implies #[trigger] self.dag.spec_nodes()[j] == pre.spec_nodes()[j] by {
                assert(mid_nodes[j] == pre.spec_nodes()[j]);
            }
        }
        id
    }
}

} // verus!
