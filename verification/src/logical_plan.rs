//! The logical plan: what to compute, as a DAG of TableScan, Filter and
//! Projection nodes. Every node's schema is fixed at construction and
//! never mutated; recomputing a schema means creating a new node.

use vstd::prelude::*;
use crate::expr::{Expression, ExprView, expr_view};
use crate::schema::{FieldView, Schema};

verus! {

/// A table scan: no inputs; its schema comes from the catalog at
/// construction time.
#[derive(Debug, PartialEq, Eq)]
pub struct TableScan {
    pub table_name: String,
    pub schema: Schema,
}

/// A projection over one input. Its schema is copied from the input:
/// column-level narrowing from the expression list is a deliberately
/// unimplemented extension point.
#[derive(Debug, PartialEq, Eq)]
pub struct Projection {
    pub expr: Vec<Expression>,
    pub schema: Schema,
}

/// A filter over one input; filtering narrows rows, not columns, so its
/// schema equals the input schema.
#[derive(Debug, PartialEq, Eq)]
pub struct Filter {
    pub expr: Box<Expression>,
    pub schema: Schema,
}

#[derive(Debug, PartialEq, Eq)]
pub enum LogicalPlan {
    TableScan(TableScan),
    Projection(Projection),
    Filter(Filter),
}

/// The mathematical content of a plan node.
pub enum LogicalPlanView {
    TableScan { table_name: Seq<char>, schema: Seq<FieldView> },
    Projection { expr: Seq<ExprView>, schema: Seq<FieldView> },
    Filter { expr: ExprView, schema: Seq<FieldView> },
}

impl View for LogicalPlan {
    type V = LogicalPlanView;

    open spec fn view(&self) -> LogicalPlanView {
        match self {
            LogicalPlan::TableScan(t) => LogicalPlanView::TableScan {
                table_name: t.table_name@,
                schema: t.schema@,
            },
            LogicalPlan::Projection(p) => LogicalPlanView::Projection {
                expr: p.expr@.map_values(|e: Expression| expr_view(e)),
                schema: p.schema@,
            },
            LogicalPlan::Filter(f) => LogicalPlanView::Filter {
                expr: expr_view(*f.expr),
                schema: f.schema@,
            },
        }
    }
}

/// The output schema of a plan node.
pub open spec fn plan_schema(p: LogicalPlanView) -> Seq<FieldView> {
    match p {
        LogicalPlanView::TableScan { schema, .. } => schema,
        LogicalPlanView::Projection { schema, .. } => schema,
        LogicalPlanView::Filter { schema, .. } => schema,
    }
}

impl LogicalPlan {
    /// The node's output schema, as fixed at construction.
    pub fn get_schema(&self) -> (s: Schema)
        ensures
            s@ == plan_schema(self@),
    {
        match self {
            LogicalPlan::TableScan(scan) => scan.schema.duplicate(),
            LogicalPlan::Projection(proj) => proj.schema.duplicate(),
            LogicalPlan::Filter(filter) => filter.schema.duplicate(),
        }
    }
}

} // verus!
