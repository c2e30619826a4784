//! Errors raised while running the physical pipeline.

use vstd::prelude::*;

verus! {

/// A fatal condition met while evaluating a predicate or materializing
/// a selection. The pipeline stops at the first of these.
#[derive(Debug, Clone, PartialEq, Eq)]
pub enum ExecutionError {
    /// The predicate names a column the batch does not have.
    ColumnNotFound(String),
    /// The predicate reads a column that is not of integer type.
    ColumnTypeMismatch(String),
    /// The expression tree puts a plain value where a predicate is
    /// needed, or a predicate where a plain value is needed.
    UnsupportedExpression,
    /// A selection vector points past the end of its batch.
    SelectionOutOfBounds,
}

/// The mathematical content of an `ExecutionError`.
pub enum ExecutionErrorView {
    ColumnNotFound { name: Seq<char> },
    ColumnTypeMismatch { name: Seq<char> },
    UnsupportedExpression,
    SelectionOutOfBounds,
}

impl View for ExecutionError {
    type V = ExecutionErrorView;

    open spec fn view(&self) -> ExecutionErrorView {
        match self {
            ExecutionError::ColumnNotFound(n) =>
                ExecutionErrorView::ColumnNotFound { name: n@ },
            ExecutionError::ColumnTypeMismatch(n) =>
                ExecutionErrorView::ColumnTypeMismatch { name: n@ },
            ExecutionError::UnsupportedExpression =>
                ExecutionErrorView::UnsupportedExpression,
            ExecutionError::SelectionOutOfBounds =>
                ExecutionErrorView::SelectionOutOfBounds,
        }
    }
}

} // verus!
