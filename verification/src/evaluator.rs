//! The predicate engine: evaluates an expression over a whole batch,
//! column at a time, yielding one boolean per row. The row-by-row
//! meaning of an expression is fixed by the spec functions `bool_at`
//! and `num_at`; the vectorized evaluator is proved to agree with them
//! on every row.

use vstd::prelude::*;
use crate::batch::{Batch, BatchView, ColumnData, ColumnView, col_len};
use crate::errors::{ExecutionError, ExecutionErrorView};
use crate::expr::{Binary, BinaryOp, Expression, ExprView, Ident, IntegerLiteral, expr_view};
use crate::schema::spec_field_index;

verus! {

/// Whether `e` is a valid value-context operand over batch `b`: an
/// integer literal, or a reference to an integer column that `b` has.
/// A nested comparison or logical expression is not a value.
pub open spec fn num_wf(e: ExprView, b: BatchView) -> bool {
    match e {
        ExprView::IntegerLiteral { .. } => true,
        ExprView::Ident { name } => match spec_field_index(b.schema, name) {
            Some(i) => b.columns[i] is Int32,
            None => false,
        },
        ExprView::Binary { .. } => false,
    }
}

/// Whether `e` is a valid predicate over batch `b`: a logical binary
/// over two predicates, or a comparison over two values. A bare value
/// is not a predicate.
pub open spec fn bool_wf(e: ExprView, b: BatchView) -> bool
    decreases e,
{
    match e {
        ExprView::Binary { lhs, op, rhs } => match op {
            BinaryOp::And | BinaryOp::Or => bool_wf(*lhs, b) && bool_wf(*rhs, b),
            BinaryOp::Lt | BinaryOp::Gt => num_wf(*lhs, b) && num_wf(*rhs, b),
        },
        _ => false,
    }
}

/// The integer value of `e` at row `i`, defined when `num_wf(e, b)`.
pub open spec fn num_at(e: ExprView, b: BatchView, i: int) -> i32 {
    match e {
        ExprView::IntegerLiteral { value } => value,
        ExprView::Ident { name } => match spec_field_index(b.schema, name) {
            Some(ci) => match b.columns[ci] {
                ColumnView::Int32(vals) => vals[i],
                _ => arbitrary(),
            },
            None => arbitrary(),
        },
        ExprView::Binary { .. } => arbitrary(),
    }
}

/// The boolean value of `e` at row `i`: the row-by-row reference
/// semantics of a predicate, defined when `bool_wf(e, b)`.
pub open spec fn bool_at(e: ExprView, b: BatchView, i: int) -> bool
    decreases e,
{
    match e {
        ExprView::Binary { lhs, op, rhs } => match op {
            BinaryOp::And => bool_at(*lhs, b, i) && bool_at(*rhs, b, i),
            BinaryOp::Or => bool_at(*lhs, b, i) || bool_at(*rhs, b, i),
            BinaryOp::Lt => num_at(*lhs, b, i) < num_at(*rhs, b, i),
            BinaryOp::Gt => num_at(*lhs, b, i) > num_at(*rhs, b, i),
        },
        _ => arbitrary(),
    }
}

/// The error reported for an invalid value-context operand, defined
/// when `!num_wf(e, b)` (and for an `Ident` whose column is missing).
pub open spec fn num_err(e: ExprView, b: BatchView) -> ExecutionErrorView {
    match e {
        ExprView::Binary { .. } => ExecutionErrorView::UnsupportedExpression,
        ExprView::Ident { name } => match spec_field_index(b.schema, name) {
            Some(_) => ExecutionErrorView::ColumnTypeMismatch { name },
            None => ExecutionErrorView::ColumnNotFound { name },
        },
        ExprView::IntegerLiteral { .. } => arbitrary(),
    }
}

/// The error reported for an invalid predicate, defined when
/// `!bool_wf(e, b)`: the first failure met on a left-to-right walk.
pub open spec fn bool_err(e: ExprView, b: BatchView) -> ExecutionErrorView
    decreases e,
{
    match e {
        ExprView::Binary { lhs, op, rhs } => match op {
            BinaryOp::And | BinaryOp::Or => if !bool_wf(*lhs, b) {
                bool_err(*lhs, b)
            } else {
                bool_err(*rhs, b)
            },
            BinaryOp::Lt | BinaryOp::Gt => if !num_wf(*lhs, b) {
                num_err(*lhs, b)
            } else {
                num_err(*rhs, b)
            },
        },
        _ => ExecutionErrorView::UnsupportedExpression,
    }
}

/// The stateless, reentrant evaluator: borrows the batch under
/// evaluation and holds nothing else.
#[derive(Clone, Copy)]
pub struct FilterExec<'e> {
    record_batch: &'e Batch,
}

impl<'e> FilterExec<'e> {
    pub closed spec fn bv(self) -> BatchView {
        self.record_batch@
    }

    pub fn new(record_batch: &'e Batch) -> (s: Self)
        ensures
            s.bv() == record_batch@,
    {
        Self { record_batch }
    }

    /// Evaluates a predicate over the whole batch: one boolean per row,
    /// each equal to the row-by-row meaning of the expression. Fails
    /// exactly on expressions that are no valid predicate for the
    /// batch, with the first error of a left-to-right walk.
    pub fn evaluate(&self, expression: &Expression) -> (r: Result<Vec<bool>, ExecutionError>)
        ensures
            match r {
                Ok(v) => bool_wf(expression@, self.bv())
                    && v@.len() == self.bv().num_rows()
                    && forall|i: int| 0 <= i < v@.len()
                        ==> v@[i] == bool_at(expression@, self.bv(), i),
                Err(e) => !bool_wf(expression@, self.bv())
                    && e@ == bool_err(expression@, self.bv()),
            },
    {
        self.visit_expression(expression)
    }

    fn visit_expression(&self, expression: &Expression) -> (r: Result<Vec<bool>, ExecutionError>)
        ensures
            match r {
                Ok(v) => bool_wf(expression@, self.bv())
                    && v@.len() == self.bv().num_rows()
                    && forall|i: int| 0 <= i < v@.len()
                        ==> v@[i] == bool_at(expression@, self.bv(), i),
                Err(e) => !bool_wf(expression@, self.bv())
                    && e@ == bool_err(expression@, self.bv()),
            },
        decreases *expression,
    {
        match expression {
            Expression::Binary(binary) => match binary.op {
                BinaryOp::And | BinaryOp::Or => self.visit_logical_binary(binary),
                BinaryOp::Lt | BinaryOp::Gt => self.visit_compare_binary(binary),
            },
            _ => Err(ExecutionError::UnsupportedExpression),
        }
    }

    fn visit_logical_binary(&self, expr: &Binary) -> (r: Result<Vec<bool>, ExecutionError>)
        requires
            expr.op == BinaryOp::And || expr.op == BinaryOp::Or,
        ensures
            match r {
                Ok(v) => bool_wf(expr_view(Expression::Binary(*expr)), self.bv())
                    && v@.len() == self.bv().num_rows()
                    && forall|i: int| 0 <= i < v@.len()
                        ==> v@[i] == bool_at(expr_view(Expression::Binary(*expr)), self.bv(), i),
                Err(e) => !bool_wf(expr_view(Expression::Binary(*expr)), self.bv())
                    && e@ == bool_err(expr_view(Expression::Binary(*expr)), self.bv()),
            },
        decreases *expr,
    {
        let lhs = match self.visit_expression(&expr.lhs) {
            Ok(v) => v,
            Err(e) => {
                return Err(e);
            },
        };
        let rhs = match self.visit_expression(&expr.rhs) {
            Ok(v) => v,
            Err(e) => {
                return Err(e);
            },
        };
        let ghost ev = expr_view(Expression::Binary(*expr));
        let n = lhs.len();
        let mut result: Vec<bool> = Vec::new();
        for i in 0..n
            invariant
                n == lhs.len() == rhs.len(),
                n == self.bv().num_rows(),
                expr.op == BinaryOp::And || expr.op == BinaryOp::Or,
                ev == expr_view(Expression::Binary(*expr)),
                bool_wf(ev, self.bv()),
                forall|j: int| 0 <= j < n ==> lhs@[j] == bool_at(expr.lhs@, self.bv(), j),
                forall|j: int| 0 <= j < n ==> rhs@[j] == bool_at(expr.rhs@, self.bv(), j),
                result@.len() == i,
                forall|j: int| 0 <= j < i ==> result@[j] == bool_at(ev, self.bv(), j),
        {
            let v = match expr.op {
                BinaryOp::And => lhs[i] && rhs[i],
                _ => lhs[i] || rhs[i],
            };
            result.push(v);
        }
        Ok(result)
    }

    fn visit_compare_binary(&self, expr: &Binary) -> (r: Result<Vec<bool>, ExecutionError>)
        requires
            expr.op == BinaryOp::Lt || expr.op == BinaryOp::Gt,
        ensures
            match r {
                Ok(v) => bool_wf(expr_view(Expression::Binary(*expr)), self.bv())
                    && v@.len() == self.bv().num_rows()
                    && forall|i: int| 0 <= i < v@.len()
                        ==> v@[i] == bool_at(expr_view(Expression::Binary(*expr)), self.bv(), i),
                Err(e) => !bool_wf(expr_view(Expression::Binary(*expr)), self.bv())
                    && e@ == bool_err(expr_view(Expression::Binary(*expr)), self.bv()),
            },
    {
        let lhs = match self.visit_binary_value(&expr.lhs) {
            Ok(v) => v,
            Err(e) => {
                return Err(e);
            },
        };
        let rhs = match self.visit_binary_value(&expr.rhs) {
            Ok(v) => v,
            Err(e) => {
                return Err(e);
            },
        };
        let ghost ev = expr_view(Expression::Binary(*expr));
        let n = lhs.len();
        let mut result: Vec<bool> = Vec::new();
        for i in 0..n
            invariant
                n == lhs.len() == rhs.len(),
                n == self.bv().num_rows(),
                expr.op == BinaryOp::Lt || expr.op == BinaryOp::Gt,
                ev == expr_view(Expression::Binary(*expr)),
                bool_wf(ev, self.bv()),
                forall|j: int| 0 <= j < n ==> lhs@[j] == num_at(expr.lhs@, self.bv(), j),
                forall|j: int| 0 <= j < n ==> rhs@[j] == num_at(expr.rhs@, self.bv(), j),
                result@.len() == i,
                forall|j: int| 0 <= j < i ==> result@[j] == bool_at(ev, self.bv(), j),
        {
            let v = match expr.op {
                BinaryOp::Lt => lhs[i] < rhs[i],
                _ => lhs[i] > rhs[i],
            };
            result.push(v);
        }
        Ok(result)
    }

    fn visit_binary_value(&self, expr: &Expression) -> (r: Result<Vec<i32>, ExecutionError>)
        ensures
            match r {
                Ok(v) => num_wf(expr@, self.bv())
                    && v@.len() == self.bv().num_rows()
                    && forall|i: int| 0 <= i < v@.len()
                        ==> v@[i] == num_at(expr@, self.bv(), i),
                Err(e) => !num_wf(expr@, self.bv())
                    && e@ == num_err(expr@, self.bv()),
            },
    {
        match expr {
            Expression::Binary(_) => Err(ExecutionError::UnsupportedExpression),
            Expression::Ident(ident) => self.visit_ident(ident),
            Expression::IntegerLiteral(literal) => Ok(self.visit_integer_literal(literal)),
        }
    }

    fn visit_integer_literal(&self, expr: &IntegerLiteral) -> (v: Vec<i32>)
        ensures
            v@.len() == self.bv().num_rows(),
            forall|i: int| 0 <= i < v@.len() ==> v@[i] == expr.value,
    {
        let len = self.record_batch.num_rows();
        let mut result: Vec<i32> = Vec::new();
        for i in 0..len
            invariant
                result@.len() == i,
                forall|j: int| 0 <= j < i ==> result@[j] == expr.value,
        {
            result.push(expr.value);
        }
        result
    }

    fn visit_ident(&self, expr: &Ident) -> (r: Result<Vec<i32>, ExecutionError>)
        ensures
            match r {
                Ok(v) => num_wf(ExprView::Ident { name: expr.name@ }, self.bv())
                    && v@.len() == self.bv().num_rows()
                    && forall|i: int| 0 <= i < v@.len()
                        ==> v@[i] == num_at(
                            ExprView::Ident { name: expr.name@ },
                            self.bv(),
                            i,
                        ),
                Err(e) => !num_wf(ExprView::Ident { name: expr.name@ }, self.bv())
                    && e@ == num_err(ExprView::Ident { name: expr.name@ }, self.bv()),
            },
    {
        proof {
            use_type_invariant(self.record_batch);
        }
        match self.record_batch.column_by_name(expr.name.as_str()) {
            None => Err(ExecutionError::ColumnNotFound(expr.name.clone())),
            Some(column) => match column {
                ColumnData::Int32(vals) => {
                    proof {
                        crate::schema::lemma_field_index(self.bv().schema, expr.name@);
                        let ci = choose|ci: int|
                            spec_field_index(self.bv().schema, expr.name@) == Some(ci);
                        assert(self.bv().columns[ci] == ColumnView::Int32(vals@));
                        assert(col_len(self.bv().columns[ci]) == self.bv().num_rows());
                    }
                    let mut result: Vec<i32> = Vec::new();
                    let n = vals.len();
                    for i in 0..n
                        invariant
                            n == vals@.len(),
                            result@.len() == i,
                            forall|j: int| 0 <= j < i ==> result@[j] == vals@[j],
                    {
                        result.push(vals[i]);
                    }
                    Ok(result)
                },
                _ => Err(ExecutionError::ColumnTypeMismatch(expr.name.clone())),
            },
        }
    }
}

} // verus!
