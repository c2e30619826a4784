//! The outside SQL parser, behind trusted declarations. sqlparser
//! turns SQL text into a generic statement tree; the lowerings here
//! reduce that tree to the library's statement model, folding unknown
//! forms into the `Unsupported` arms. Nothing else in the crate
//! touches the outside types.

use vstd::prelude::*;
use crate::sql_parser::ParsedSql;
use crate::sql_parser::ParsedStatement;
use crate::sql_parser::SqlBinaryOp;
use crate::sql_parser::SqlExpr;
use crate::sql_parser::SqlSelect;
use crate::sql_parser::SqlSelectItem;
use crate::sql_parser::SqlTable;
use crate::sql_parser::parsed_sql_of;

verus! {

#[verifier::external_type_specification]
#[verifier::external_body]
pub struct ExStatement(sqlparser::ast::Statement);

#[verifier::external_type_specification]
#[verifier::external_body]
pub struct ExTableWithJoins(sqlparser::ast::TableWithJoins);

#[verifier::external_type_specification]
#[verifier::external_body]
pub struct ExSelectItem(sqlparser::ast::SelectItem);

#[verifier::external_type_specification]
#[verifier::external_body]
pub struct ExAstExpr(sqlparser::ast::Expr);

#[verifier::external_type_specification]
#[verifier::external_body]
pub struct ExBinaryOperator(sqlparser::ast::BinaryOperator);

/// Relies on sqlparser's `Parser::parse_sql` with the generic dialect:
/// parses SQL text into statement trees, or fails with a parse error,
/// carried as its message; each tree is lowered by `lower_statement`.
/// The parser is deterministic — the result depends on the text alone
/// — so the lowered value bears the name `parsed_sql_of`; this call is
/// the only place that ties the name to a value.
#[verifier::external_body]
pub(crate) fn parse_sql_text(sql: &str) -> (r: ParsedSql)
    ensures
        r@ == parsed_sql_of(sql@),
{
    match sqlparser::parser::Parser::parse_sql(&sqlparser::dialect::GenericDialect {}, sql) {
        Ok(statements) => ParsedSql::Statements(
            statements.iter().map(lower_statement).collect(),
        ),
        Err(e) => ParsedSql::ParseError(e.to_string()),
    }
}

/// Relies on the shape of sqlparser's `Statement`, `Query` and
/// `SetExpr`: a plain SELECT keeps its FROM entries, WHERE expression
/// and projection list; every other statement form becomes `Other`.
#[verifier::external_body]
fn lower_statement(stmt: &sqlparser::ast::Statement) -> ParsedStatement {
    let sqlparser::ast::Statement::Query(q) = stmt else {
        return ParsedStatement::Other;
    };
    let sqlparser::ast::SetExpr::Select(s) = &*q.body else {
        return ParsedStatement::Other;
    };
    ParsedStatement::Select(SqlSelect {
        from: s.from.iter().map(lower_table).collect(),
        selection: s.selection.as_ref().map(lower_expr),
        projection: s.projection.iter().map(lower_item).collect(),
    })
}

/// Relies on sqlparser's `TableWithJoins` and `TableFactor`: keeps a
/// plain table's name and whether joins hang off the entry.
#[verifier::external_body]
fn lower_table(t: &sqlparser::ast::TableWithJoins) -> SqlTable {
    let name = match &t.relation {
        sqlparser::ast::TableFactor::Table { name, .. } => Some(name.to_string()),
        _ => None,
    };
    SqlTable { name, has_joins: !t.joins.is_empty() }
}

/// Relies on sqlparser's `SelectItem`: keeps a bare column
/// identifier's name; every other item form is unsupported.
#[verifier::external_body]
fn lower_item(item: &sqlparser::ast::SelectItem) -> SqlSelectItem {
    match item {
        sqlparser::ast::SelectItem::UnnamedExpr(sqlparser::ast::Expr::Identifier(id)) =>
            SqlSelectItem::Column(id.value.clone()),
        _ => SqlSelectItem::Unsupported,
    }
}

/// Relies on sqlparser's expression tree and `Value`: keeps binary nodes,
/// identifiers and numeric literals (their source text); every other
/// expression form is unsupported.
#[verifier::external_body]
fn lower_expr(e: &sqlparser::ast::Expr) -> SqlExpr {
    match e {
        sqlparser::ast::Expr::BinaryOp { left, op, right } => SqlExpr::Binary {
            lhs: Box::new(lower_expr(left)),
            op: lower_op(op),
            rhs: Box::new(lower_expr(right)),
        },
        sqlparser::ast::Expr::Identifier(id) => SqlExpr::Column(id.value.clone()),
        sqlparser::ast::Expr::Value(v) => match &v.value {
            sqlparser::ast::Value::Number(n, _) => SqlExpr::Number(n.clone()),
            _ => SqlExpr::Unsupported,
        },
        _ => SqlExpr::Unsupported,
    }
}

/// Relies on sqlparser's `BinaryOperator`: keeps the four operators
/// the engine evaluates; every other operator is unsupported.
#[verifier::external_body]
fn lower_op(op: &sqlparser::ast::BinaryOperator) -> SqlBinaryOp {
    match op {
        sqlparser::ast::BinaryOperator::Gt => SqlBinaryOp::Gt,
        sqlparser::ast::BinaryOperator::Lt => SqlBinaryOp::Lt,
        sqlparser::ast::BinaryOperator::And => SqlBinaryOp::And,
        sqlparser::ast::BinaryOperator::Or => SqlBinaryOp::Or,
        _ => SqlBinaryOp::Unsupported,
    }
}

} // verus!
