//! The predicate-expression tree: immutable once built, a pure tree with
//! parent-owned children.

use vstd::prelude::*;

verus! {

/// The operator of a binary expression. `And`/`Or` combine boolean
/// operands; `Lt`/`Gt` compare integer operands.
#[derive(Clone, Copy, Debug, PartialEq, Eq, Structural)]
pub enum BinaryOp {
    And,
    Or,
    Lt,
    Gt,
}

/// A binary node: two sub-expressions joined by an operator.
#[derive(Debug, PartialEq, Eq)]
pub struct Binary {
    pub lhs: Box<Expression>,
    pub op: BinaryOp,
    pub rhs: Box<Expression>,
}

/// A column reference by name.
#[derive(Clone, Debug, PartialEq, Eq)]
pub struct Ident {
    pub name: String,
}

/// A 32-bit integer constant.
#[derive(Clone, Debug, PartialEq, Eq)]
pub struct IntegerLiteral {
    pub value: i32,
}

/// An expression tree node.
#[derive(Debug, PartialEq, Eq)]
pub enum Expression {
    Binary(Binary),
    Ident(Ident),
    IntegerLiteral(IntegerLiteral),
}

/// The mathematical content of an `Expression`, with column names as
/// character sequences.
pub enum ExprView {
    Binary { lhs: Box<ExprView>, op: BinaryOp, rhs: Box<ExprView> },
    Ident { name: Seq<char> },
    IntegerLiteral { value: i32 },
}

pub open spec fn expr_view(e: Expression) -> ExprView
    decreases e,
{
    match e {
        Expression::Binary(b) => ExprView::Binary {
            lhs: Box::new(expr_view(*b.lhs)),
            op: b.op,
            rhs: Box::new(expr_view(*b.rhs)),
        },
        Expression::Ident(i) => ExprView::Ident { name: i.name@ },
        Expression::IntegerLiteral(l) => ExprView::IntegerLiteral { value: l.value },
    }
}

impl View for Expression {
    type V = ExprView;

    open spec fn view(&self) -> ExprView {
        expr_view(*self)
    }
}

impl Expression {
    /// A copy whose mathematical content equals this expression's.
    pub fn duplicate(&self) -> (r: Expression)
        ensures
            r@ == self@,
        decreases *self,
    {
        match self {
            Expression::Binary(b) => Expression::Binary(Binary {
                lhs: Box::new(b.lhs.duplicate()),
                op: b.op,
                rhs: Box::new(b.rhs.duplicate()),
            }),
            Expression::Ident(i) => Expression::Ident(Ident { name: i.name.clone() }),
            Expression::IntegerLiteral(l) => Expression::IntegerLiteral(IntegerLiteral {
                value: l.value,
            }),
        }
    }
}

} // verus!
