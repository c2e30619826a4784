//! Translation of one parsed SQL statement into a logical-plan DAG.
//! An outside parser turns SQL text into a generic statement tree; this
//! module reduces that tree to the few forms the engine understands —
//! one plain table, an optional predicate in the expression grammar,
//! and a list of bare column names — and builds the plan node by node,
//! resolving the table's schema through the catalog. Every construct
//! outside those forms fails fast with a translation error.

use vstd::prelude::*;
use crate::catalog::{Catalog, DummyCatalog};
use crate::dag::{Dag, NodeId};
use crate::dag_builder::DagBuilder;
use crate::expr::{Binary, BinaryOp, Expression, ExprView, Ident, IntegerLiteral, expr_view};
use crate::logical_plan::{LogicalPlan, LogicalPlanView, plan_schema};

verus! {

// ---------------------------------------------------------------------
// The statement model: what the translator reads of a parsed statement.
// The lowering from the outside parser's tree keeps exactly these
// forms and folds everything else into the `Unsupported` arms, so the
// translator can reject them itself.
// ---------------------------------------------------------------------

#[derive(Clone, Copy, Debug, PartialEq, Eq, Structural)]
pub enum SqlBinaryOp {
    Gt,
    Lt,
    And,
    Or,
    Unsupported,
}

/// A WHERE-clause expression as parsed: binary nodes, bare column
/// names, numeric literals still in their source text, and everything
/// else folded into `Unsupported`.
#[derive(Debug, PartialEq, Eq)]
pub enum SqlExpr {
    Binary { lhs: Box<SqlExpr>, op: SqlBinaryOp, rhs: Box<SqlExpr> },
    Column(String),
    Number(String),
    Unsupported,
}

/// One item of the projection list: a bare column name, or anything
/// else (computed or aliased expressions are unsupported).
#[derive(Debug, PartialEq, Eq)]
pub enum SqlSelectItem {
    Column(String),
    Unsupported,
}

/// One entry of the FROM clause: the table's name where the entry is a
/// plain named table, and whether joins hang off it.
#[derive(Debug, PartialEq, Eq)]
pub struct SqlTable {
    pub name: Option<String>,
    pub has_joins: bool,
}

/// A plain SELECT: its FROM entries, optional WHERE expression, and
/// projection list.
#[derive(Debug, PartialEq, Eq)]
pub struct SqlSelect {
    pub from: Vec<SqlTable>,
    pub selection: Option<SqlExpr>,
    pub projection: Vec<SqlSelectItem>,
}

pub enum SqlExprView {
    Binary { lhs: Box<SqlExprView>, op: SqlBinaryOp, rhs: Box<SqlExprView> },
    Column(Seq<char>),
    Number(Seq<char>),
    Unsupported,
}

pub open spec fn sql_expr_view(e: SqlExpr) -> SqlExprView
    decreases e,
{
    match e {
        SqlExpr::Binary { lhs, op, rhs } => SqlExprView::Binary {
            lhs: Box::new(sql_expr_view(*lhs)),
            op,
            rhs: Box::new(sql_expr_view(*rhs)),
        },
        SqlExpr::Column(n) => SqlExprView::Column(n@),
        SqlExpr::Number(n) => SqlExprView::Number(n@),
        SqlExpr::Unsupported => SqlExprView::Unsupported,
    }
}

impl View for SqlExpr {
    type V = SqlExprView;

    open spec fn view(&self) -> SqlExprView {
        sql_expr_view(*self)
    }
}

pub enum SqlSelectItemView {
    Column(Seq<char>),
    Unsupported,
}

impl View for SqlSelectItem {
    type V = SqlSelectItemView;

    open spec fn view(&self) -> SqlSelectItemView {
        match self {
            SqlSelectItem::Column(n) => SqlSelectItemView::Column(n@),
            SqlSelectItem::Unsupported => SqlSelectItemView::Unsupported,
        }
    }
}

pub struct SqlTableView {
    pub name: Option<Seq<char>>,
    pub has_joins: bool,
}

impl View for SqlTable {
    type V = SqlTableView;

    open spec fn view(&self) -> SqlTableView {
        SqlTableView {
            name: match self.name {
                Some(ref n) => Some(n@),
                None => None,
            },
            has_joins: self.has_joins,
        }
    }
}

pub struct SqlSelectView {
    pub from: Seq<SqlTableView>,
    pub selection: Option<SqlExprView>,
    pub projection: Seq<SqlSelectItemView>,
}

impl View for SqlSelect {
    type V = SqlSelectView;

    open spec fn view(&self) -> SqlSelectView {
        SqlSelectView {
            from: self.from@.map_values(|t: SqlTable| t@),
            selection: match self.selection {
                Some(ref e) => Some(sql_expr_view(*e)),
                None => None,
            },
            projection: self.projection@.map_values(|i: SqlSelectItem| i@),
        }
    }
}

/// One parsed statement, lowered: a plain SELECT in the library's
/// model, or some other statement form.
#[derive(Debug, PartialEq, Eq)]
pub enum ParsedStatement {
    Select(SqlSelect),
    Other,
}

/// What lowering SQL text yields before translation proper: the
/// parser's failure, or one entry per parsed statement.
#[derive(Debug, PartialEq, Eq)]
pub enum ParsedSql {
    ParseError(String),
    Statements(Vec<ParsedStatement>),
}

pub enum ParsedStatementView {
    Select(SqlSelectView),
    Other,
}

impl View for ParsedStatement {
    type V = ParsedStatementView;

    open spec fn view(&self) -> ParsedStatementView {
        match self {
            ParsedStatement::Select(s) => ParsedStatementView::Select(s@),
            ParsedStatement::Other => ParsedStatementView::Other,
        }
    }
}

pub enum ParsedSqlView {
    ParseError(Seq<char>),
    Statements(Seq<ParsedStatementView>),
}

impl View for ParsedSql {
    type V = ParsedSqlView;

    open spec fn view(&self) -> ParsedSqlView {
        match self {
            ParsedSql::ParseError(m) => ParsedSqlView::ParseError(m@),
            ParsedSql::Statements(v) => ParsedSqlView::Statements(
                v@.map_values(|s: ParsedStatement| s@),
            ),
        }
    }
}

/// The lowering of SQL text: what the outside parser's statement tree
/// reduces to in the library's statement model. Parsing is a function
/// of the text alone, so the lowered value bears a name; only the
/// trusted parse call states what the name is for a given text.
pub uninterp spec fn parsed_sql_of(sql: Seq<char>) -> ParsedSqlView;

// ---------------------------------------------------------------------
// Errors
// ---------------------------------------------------------------------

/// Why a statement could not be translated. Unsupported constructs are
/// rejected loudly rather than guessed at, since guessing intent would
/// corrupt the plan.
#[derive(Debug, PartialEq, Eq)]
pub enum TranslationError {
    /// The text is not valid SQL; carries the parser's message.
    SqlParse(String),
    /// The text held no statement, or more than one.
    NotASingleStatement,
    /// The statement is not a plain SELECT query.
    UnsupportedStatement,
    /// The FROM clause does not name exactly one table.
    MultipleTables,
    /// The FROM clause uses a join.
    JoinsUnsupported,
    /// The FROM entry is not a plain named table.
    UnsupportedTableFactor,
    /// The catalog knows no table of this name.
    TableNotFound(String),
    /// A projection item is not a bare column identifier.
    UnsupportedProjection,
    /// The WHERE expression falls outside the supported grammar.
    UnsupportedExpressionForm,
    /// A numeric literal does not denote a 32-bit integer.
    InvalidNumber(String),
}

pub enum TranslationErrorView {
    SqlParse { message: Seq<char> },
    NotASingleStatement,
    UnsupportedStatement,
    MultipleTables,
    JoinsUnsupported,
    UnsupportedTableFactor,
    TableNotFound { name: Seq<char> },
    UnsupportedProjection,
    UnsupportedExpressionForm,
    InvalidNumber { text: Seq<char> },
}

impl View for TranslationError {
    type V = TranslationErrorView;

    open spec fn view(&self) -> TranslationErrorView {
        match self {
            TranslationError::SqlParse(m) => TranslationErrorView::SqlParse { message: m@ },
            TranslationError::NotASingleStatement => TranslationErrorView::NotASingleStatement,
            TranslationError::UnsupportedStatement => TranslationErrorView::UnsupportedStatement,
            TranslationError::MultipleTables => TranslationErrorView::MultipleTables,
            TranslationError::JoinsUnsupported => TranslationErrorView::JoinsUnsupported,
            TranslationError::UnsupportedTableFactor =>
                TranslationErrorView::UnsupportedTableFactor,
            TranslationError::TableNotFound(n) => TranslationErrorView::TableNotFound { name: n@ },
            TranslationError::UnsupportedProjection =>
                TranslationErrorView::UnsupportedProjection,
            TranslationError::UnsupportedExpressionForm =>
                TranslationErrorView::UnsupportedExpressionForm,
            TranslationError::InvalidNumber(t) => TranslationErrorView::InvalidNumber { text: t@ },
        }
    }
}

// ---------------------------------------------------------------------
// Numeric literals
// ---------------------------------------------------------------------

pub open spec fn is_digit(c: char) -> bool {
    '0' <= c && c <= '9'
}

pub open spec fn digit_val(c: char) -> int {
    c as int - '0' as int
}

/// The value of a nonempty run of decimal digits.
pub open spec fn digits_val(s: Seq<char>) -> int
    decreases s.len(),
{
    if s.len() == 0 {
        0
    } else {
        digits_val(s.drop_last()) * 10 + digit_val(s.last())
    }
}

pub open spec fn all_digits(s: Seq<char>) -> bool {
    s.len() > 0 && forall|i: int| 0 <= i < s.len() ==> is_digit(#[trigger] s[i])
}

/// Whether `s` is the decimal text of a 32-bit integer: an optional
/// minus sign, then digits, with the value in range.
pub open spec fn is_i32_text(s: Seq<char>) -> bool {
    if s.len() > 0 && s[0] == '-' {
        all_digits(s.skip(1)) && -digits_val(s.skip(1)) >= i32::MIN
    } else {
        all_digits(s) && digits_val(s) <= i32::MAX
    }
}

/// The integer a decimal text denotes, defined when `is_i32_text(s)`.
pub open spec fn i32_of_text(s: Seq<char>) -> i32 {
    if s.len() > 0 && s[0] == '-' {
        (-digits_val(s.skip(1))) as i32
    } else {
        digits_val(s) as i32
    }
}

/// A run of digits never has a negative value, and grows (weakly) with
/// every digit appended.
proof fn lemma_digits_val_bounds(s: Seq<char>)
    requires
        forall|i: int| 0 <= i < s.len() ==> is_digit(#[trigger] s[i]),
    ensures
        digits_val(s) >= 0,
        forall|n: int| 0 <= n <= s.len()
            ==> #[trigger] digits_val(s.subrange(0, n)) <= digits_val(s),
    decreases s.len(),
{
    if s.len() > 0 {
        lemma_digits_val_bounds(s.drop_last());
        assert forall|n: int| 0 <= n <= s.len()
            implies #[trigger] digits_val(s.subrange(0, n)) <= digits_val(s) by {
            if n < s.len() {
                assert(s.subrange(0, n) =~= s.drop_last().subrange(0, n));
                assert(digits_val(s.drop_last().subrange(0, n)) <= digits_val(s.drop_last()));
                assert(digits_val(s) >= digits_val(s.drop_last()));
            } else {
                assert(s.subrange(0, n) =~= s);
            }
        }
    }
}

/// Parses the decimal text of a 32-bit integer; answers exactly on the
/// texts `is_i32_text` admits.
fn parse_i32_text(s: &str) -> (r: Option<i32>)
    ensures
        match r {
            Some(v) => is_i32_text(s@) && v == i32_of_text(s@),
            None => !is_i32_text(s@),
        },
{
    let n = s.unicode_len();
    if n == 0 {
        return None;
    }
    let negative = s.get_char(0) == '-';
    let start: usize = if negative { 1 } else { 0 };
    let ghost digits = s@.skip(start as int);
    proof {
        if !negative {
            assert(digits =~= s@);
        }
    }
    if start >= n {
        proof {
            assert(digits.len() == 0);
        }
        return None;
    }
    let limit: u64 = if negative { 2147483648u64 } else { 2147483647u64 };
    let mut acc: u64 = 0;
    let mut i = start;
    while i < n
        invariant
            start <= i <= n,
            n == s@.len(),
            start == if negative { 1int } else { 0int },
            negative ==> s@[0] == '-',
            !negative ==> s@.len() > 0 && s@[0] != '-',
            digits == s@.skip(start as int),
            digits.len() > 0,
            limit == if negative { 2147483648u64 } else { 2147483647u64 },
            forall|j: int| 0 <= j < i - start ==> is_digit(#[trigger] digits[j]),
            acc == digits_val(digits.subrange(0, i - start)),
            acc <= limit,
        decreases n - i,
    {
        let c = s.get_char(i);
        if c < '0' || c > '9' {
            proof {
                assert(digits[i - start] == s@[i as int]);
                assert(!is_digit(digits[i - start]));
                assert(!all_digits(digits));
            }
            return None;
        }
        let d: u64 = (c as u32 as u64) - 48;
        let ghost prefix = digits.subrange(0, i - start);
        let ghost prefix1 = digits.subrange(0, i + 1 - start);
        proof {
            assert(digits[i - start] == s@[i as int]);
            assert(prefix1.drop_last() =~= prefix);
            assert(prefix1.last() == digits[i - start]);
            assert(digit_val(digits[i - start]) == d);
        }
        let next: u64 = acc * 10 + d;
        if next > limit {
            proof {
                assert(digits_val(prefix) == acc);
                assert(digits_val(prefix1) == acc * 10 + d);
                assert(digits_val(prefix1) > limit);
                if all_digits(digits) {
                    lemma_digits_val_bounds(digits);
                    assert(digits_val(digits) >= digits_val(prefix1));
                    if negative {
                        assert(digits == s@.skip(1));
                        assert(-digits_val(s@.skip(1)) < i32::MIN);
                    } else {
                        assert(digits == s@);
                        assert(digits_val(s@) > i32::MAX);
                    }
                }
                assert(!is_i32_text(s@));
            }
            return None;
        }
        acc = next;
        i = i + 1;
    }
    proof {
        assert(digits.subrange(0, digits.len() as int) =~= digits);
        assert(all_digits(digits));
    }
    if negative {
        if acc == 2147483648u64 {
            Some(i32::MIN)
        } else {
            Some(-(acc as i32))
        }
    } else {
        Some(acc as i32)
    }
}

// ---------------------------------------------------------------------
// Expression conversion
// ---------------------------------------------------------------------

/// Whether a parsed WHERE expression falls inside the supported
/// grammar: binary nodes with known operators, bare column names, and
/// in-range integer literals.
pub open spec fn sql_expr_ok(e: SqlExprView) -> bool
    decreases e,
{
    match e {
        SqlExprView::Binary { lhs, op, rhs } => {
            &&& sql_expr_ok(*lhs)
            &&& !(op is Unsupported)
            &&& sql_expr_ok(*rhs)
        },
        SqlExprView::Column(_) => true,
        SqlExprView::Number(t) => is_i32_text(t),
        SqlExprView::Unsupported => false,
    }
}

pub open spec fn convert_op(op: SqlBinaryOp) -> BinaryOp {
    match op {
        SqlBinaryOp::Gt => BinaryOp::Gt,
        SqlBinaryOp::Lt => BinaryOp::Lt,
        SqlBinaryOp::And => BinaryOp::And,
        SqlBinaryOp::Or => BinaryOp::Or,
        SqlBinaryOp::Unsupported => arbitrary(),
    }
}

/// The engine expression a supported parsed expression denotes, defined
/// when `sql_expr_ok(e)`.
pub open spec fn convert_expr(e: SqlExprView) -> ExprView
    decreases e,
{
    match e {
        SqlExprView::Binary { lhs, op, rhs } => ExprView::Binary {
            lhs: Box::new(convert_expr(*lhs)),
            op: convert_op(op),
            rhs: Box::new(convert_expr(*rhs)),
        },
        SqlExprView::Column(n) => ExprView::Ident { name: n },
        SqlExprView::Number(t) => ExprView::IntegerLiteral { value: i32_of_text(t) },
        SqlExprView::Unsupported => arbitrary(),
    }
}

/// The error reported for an expression outside the grammar, defined
/// when `!sql_expr_ok(e)`: the first failure of a left-to-right walk,
/// the operator checked between the sides.
pub open spec fn convert_err(e: SqlExprView) -> TranslationErrorView
    decreases e,
{
    match e {
        SqlExprView::Binary { lhs, op, rhs } => if !sql_expr_ok(*lhs) {
            convert_err(*lhs)
        } else if op is Unsupported {
            TranslationErrorView::UnsupportedExpressionForm
        } else {
            convert_err(*rhs)
        },
        SqlExprView::Column(_) => arbitrary(),
        SqlExprView::Number(t) => TranslationErrorView::InvalidNumber { text: t },
        SqlExprView::Unsupported => TranslationErrorView::UnsupportedExpressionForm,
    }
}

/// Walks a parsed expression tree and rebuilds it as an engine
/// expression.
pub struct VisitExpression {}

impl VisitExpression {
    /// Converts a parsed WHERE expression into the engine's expression
    /// tree; rejects, with the first failure of a left-to-right walk,
    /// every tree outside the supported grammar.
    pub fn visit(expr: &SqlExpr) -> (r: Result<Expression, TranslationError>)
        ensures
            match r {
                Ok(e) => sql_expr_ok(expr@) && e@ == convert_expr(expr@),
                Err(err) => !sql_expr_ok(expr@) && err@ == convert_err(expr@),
            },
        decreases *expr,
    {
        match expr {
            SqlExpr::Binary { lhs, op, rhs } => {
                let left = match Self::visit(lhs) {
                    Ok(e) => e,
                    Err(err) => {
                        return Err(err);
                    },
                };
                let converted_op = match op {
                    SqlBinaryOp::Gt => BinaryOp::Gt,
                    SqlBinaryOp::Lt => BinaryOp::Lt,
                    SqlBinaryOp::And => BinaryOp::And,
                    SqlBinaryOp::Or => BinaryOp::Or,
                    SqlBinaryOp::Unsupported => {
                        return Err(TranslationError::UnsupportedExpressionForm);
                    },
                };
                let right = match Self::visit(rhs) {
                    Ok(e) => e,
                    Err(err) => {
                        return Err(err);
                    },
                };
                Ok(Expression::Binary(Binary {
                    lhs: Box::new(left),
                    op: converted_op,
                    rhs: Box::new(right),
                }))
            },
            SqlExpr::Column(name) => Ok(Expression::Ident(Ident { name: name.clone() })),
            SqlExpr::Number(text) => match parse_i32_text(text.as_str()) {
                Some(value) => Ok(Expression::IntegerLiteral(IntegerLiteral { value })),
                None => Err(TranslationError::InvalidNumber(text.clone())),
            },
            SqlExpr::Unsupported => Err(TranslationError::UnsupportedExpressionForm),
        }
    }
}

// ---------------------------------------------------------------------
// Statement-level translation
// ---------------------------------------------------------------------

/// Whether every projection item is a bare column name.
pub open spec fn items_ok(items: Seq<SqlSelectItemView>) -> bool {
    forall|i: int| 0 <= i < items.len() ==> items[i] is Column
}

/// The projection items as engine column references, defined when
/// `items_ok(items)`.
pub open spec fn items_as_idents(items: Seq<SqlSelectItemView>) -> Seq<ExprView> {
    items.map_values(|it: SqlSelectItemView| ExprView::Ident { name: it->Column_0 })
}

/// Whether the optional WHERE expression is absent or supported.
pub open spec fn where_ok(selection: Option<SqlExprView>) -> bool {
    match selection {
        Some(e) => sql_expr_ok(e),
        None => true,
    }
}

/// Whether a whole SELECT can be translated against the catalog.
pub open spec fn select_ok(s: SqlSelectView, c: DummyCatalog) -> bool {
    &&& s.from.len() == 1
    &&& !s.from[0].has_joins
    &&& s.from[0].name is Some
    &&& c.spec_get(s.from[0].name->0) is Some
    &&& where_ok(s.selection)
    &&& items_ok(s.projection)
}

/// The error reported for an untranslatable SELECT, defined when
/// `!select_ok(s, c)`: checks run in the translator's order — the FROM
/// count, the FROM entry, the catalog, the WHERE expression, and last
/// the projection list.
pub open spec fn select_err(s: SqlSelectView, c: DummyCatalog) -> TranslationErrorView {
    if s.from.len() != 1 {
        TranslationErrorView::MultipleTables
    } else if s.from[0].has_joins {
        TranslationErrorView::JoinsUnsupported
    } else if s.from[0].name is None {
        TranslationErrorView::UnsupportedTableFactor
    } else if c.spec_get(s.from[0].name->0) is None {
        TranslationErrorView::TableNotFound { name: s.from[0].name->0 }
    } else if !where_ok(s.selection) {
        convert_err(s.selection->0)
    } else {
        TranslationErrorView::UnsupportedProjection
    }
}

/// The one shape the translator produces: node 0 a table scan, then
/// optionally one filter, closed by exactly one projection, each node
/// consuming the one before it.
pub open spec fn is_linear_plan(d: Dag<LogicalPlan>) -> bool {
    &&& 2 <= d.spec_len() <= 3
    &&& d.spec_nodes()[0]@ is TableScan
    &&& d.spec_nodes()[d.spec_len() - 1]@ is Projection
    &&& d.spec_len() == 3 ==> d.spec_nodes()[1]@ is Filter
    &&& d.spec_inputs()[0] == Seq::<NodeId>::empty()
    &&& forall|i: int| 1 <= i < d.spec_len()
        ==> #[trigger] d.spec_inputs()[i] == seq![(i - 1) as NodeId]
}

/// The exact plan the translator builds for a supported SELECT: a
/// table scan under the catalog's schema, the optional filter over the
/// converted predicate, and the closing projection of the named
/// columns, wired linearly, every schema copied from the scan.
pub open spec fn plan_matches(d: Dag<LogicalPlan>, s: SqlSelectView, c: DummyCatalog) -> bool {
    let schema = c.spec_get(s.from[0].name->0)->0;
    &&& is_linear_plan(d)
    &&& d.spec_nodes()[0]@ == (LogicalPlanView::TableScan {
        table_name: s.from[0].name->0,
        schema: schema,
    })
    &&& match s.selection {
        Some(e) => {
            &&& d.spec_len() == 3
            &&& d.spec_nodes()[1]@ == (LogicalPlanView::Filter {
                expr: convert_expr(e),
                schema: schema,
            })
            &&& d.spec_nodes()[2]@ == (LogicalPlanView::Projection {
                expr: items_as_idents(s.projection),
                schema: schema,
            })
        },
        None => {
            &&& d.spec_len() == 2
            &&& d.spec_nodes()[1]@ == (LogicalPlanView::Projection {
                expr: items_as_idents(s.projection),
                schema: schema,
            })
        },
    }
}

/// Whether SQL text translates against the catalog: its lowering is
/// exactly one statement, that statement is a plain SELECT, and the
/// SELECT is one `select_ok` admits.
pub open spec fn query_ok(sql: Seq<char>, c: DummyCatalog) -> bool {
    match parsed_sql_of(sql) {
        ParsedSqlView::Statements(stmts) => {
            &&& stmts.len() == 1
            &&& stmts[0] is Select
            &&& select_ok(stmts[0]->Select_0, c)
        },
        ParsedSqlView::ParseError(_) => false,
    }
}

/// The error reported for untranslatable SQL text, defined when
/// `!query_ok(sql, c)`: the parser's failure first, then the statement
/// count, then the statement form, then the SELECT's own first error.
pub open spec fn query_err(sql: Seq<char>, c: DummyCatalog) -> TranslationErrorView {
    match parsed_sql_of(sql) {
        ParsedSqlView::ParseError(m) => TranslationErrorView::SqlParse { message: m },
        ParsedSqlView::Statements(stmts) => if stmts.len() != 1 {
            TranslationErrorView::NotASingleStatement
        } else {
            match stmts[0] {
                ParsedStatementView::Other => TranslationErrorView::UnsupportedStatement,
                ParsedStatementView::Select(sel) => select_err(sel, c),
            }
        },
    }
}

/// Translates one FROM entry: requires a plain named table without
/// joins, resolves its schema through the catalog, and inserts the
/// table scan.
pub fn parse_from(
    table: &SqlTable,
    dag_builder: &mut DagBuilder,
    catalog: &DummyCatalog,
) -> (r: Result<NodeId, TranslationError>)
    requires
        old(dag_builder).spec_dag().wf(),
    ensures
        final(dag_builder).spec_dag().wf(),
        match r {
            Ok(id) => {
                &&& !table@.has_joins
                &&& table@.name is Some
                &&& catalog.spec_get(table@.name->0) is Some
                &&& id == old(dag_builder).spec_dag().spec_len()
                &&& final(dag_builder).spec_dag().spec_len()
                    == old(dag_builder).spec_dag().spec_len() + 1
                &&& forall|j: int| 0 <= j < id
                    ==> #[trigger] final(dag_builder).spec_dag().spec_nodes()[j]
                        == old(dag_builder).spec_dag().spec_nodes()[j]
                &&& final(dag_builder).spec_dag().spec_nodes()[id as int]@
                    == (LogicalPlanView::TableScan {
                        table_name: table@.name->0,
                        schema: catalog.spec_get(table@.name->0)->0,
                    })
                &&& final(dag_builder).spec_dag().spec_inputs()[id as int]
                    == Seq::<NodeId>::empty()
                &&& forall|j: int| 0 <= j < id
                    ==> #[trigger] final(dag_builder).spec_dag().spec_inputs()[j]
                        == old(dag_builder).spec_dag().spec_inputs()[j]
                &&& forall|a: int| 0 <= a < old(dag_builder).spec_dag().spec_len()
                    ==> #[trigger] final(dag_builder).spec_dag().usage_set(a)
                        == old(dag_builder).spec_dag().usage_set(a)
            },
            Err(e) => {
                &&& !(!table@.has_joins && table@.name is Some
                    && catalog.spec_get(table@.name->0) is Some)
                &&& *final(dag_builder) == *old(dag_builder)
                &&& e@ == if table@.has_joins {
                    TranslationErrorView::JoinsUnsupported
                } else if table@.name is None {
                    TranslationErrorView::UnsupportedTableFactor
                } else {
                    TranslationErrorView::TableNotFound { name: table@.name->0 }
                }
            },
        },
{
    if table.has_joins {
        return Err(TranslationError::JoinsUnsupported);
    }
    let table_name = match &table.name {
        Some(n) => n.clone(),
        None => {
            return Err(TranslationError::UnsupportedTableFactor);
        },
    };
    let schema = match catalog.get_schema(table_name.as_str()) {
        Ok(s) => s,
        Err(crate::catalog::CatalogError::TableNotFound(n)) => {
            return Err(TranslationError::TableNotFound(n));
        },
    };
    let ghost tn = table_name@;
    let ghost sv = schema@;
    let id = dag_builder.create_scan(table_name, schema);
    proof {
        crate::dag::lemma_wf_shape(old(dag_builder).spec_dag());
        let pushed = old(dag_builder).spec_dag().spec_nodes().push(
            LogicalPlan::TableScan(crate::logical_plan::TableScan { table_name, schema }),
        );
        assert(dag_builder.spec_dag().spec_nodes() == pushed);
        assert(pushed[id as int] == LogicalPlan::TableScan(
            crate::logical_plan::TableScan { table_name, schema },
        ));
        assert forall|j: int| 0 <= j < id
            implies #[trigger] dag_builder.spec_dag().spec_nodes()[j]
                == old(dag_builder).spec_dag().spec_nodes()[j] by {
            assert(pushed[j] == old(dag_builder).spec_dag().spec_nodes()[j]);
        }
        assert(dag_builder.spec_dag().spec_nodes()[id as int]@
            == (LogicalPlanView::TableScan { table_name: tn, schema: sv }));
    }
    Ok(id)
}

/// Translates the WHERE expression and inserts the filter node over
/// `input`.
pub fn parse_where(
    expr: &SqlExpr,
    dag_builder: &mut DagBuilder,
    input: NodeId,
) -> (r: Result<NodeId, TranslationError>)
    requires
        old(dag_builder).spec_dag().wf(),
        input < old(dag_builder).spec_dag().spec_len(),
    ensures
        final(dag_builder).spec_dag().wf(),
        match r {
            Ok(id) => {
                &&& sql_expr_ok(expr@)
                &&& id == old(dag_builder).spec_dag().spec_len()
                &&& final(dag_builder).spec_dag().spec_len()
                    == old(dag_builder).spec_dag().spec_len() + 1
                &&& forall|j: int| 0 <= j < id
                    ==> #[trigger] final(dag_builder).spec_dag().spec_nodes()[j]
                        == old(dag_builder).spec_dag().spec_nodes()[j]
                &&& final(dag_builder).spec_dag().spec_nodes()[id as int]@
                    == (LogicalPlanView::Filter {
                        expr: convert_expr(expr@),
                        schema: plan_schema(
                            old(dag_builder).spec_dag().spec_nodes()[input as int]@,
                        ),
                    })
                &&& final(dag_builder).spec_dag().spec_inputs()[id as int] == seq![input]
                &&& forall|j: int| 0 <= j < id
                    ==> #[trigger] final(dag_builder).spec_dag().spec_inputs()[j]
                        == old(dag_builder).spec_dag().spec_inputs()[j]
            },
            Err(e) => {
                &&& !sql_expr_ok(expr@)
                &&& e@ == convert_err(expr@)
                &&& *final(dag_builder) == *old(dag_builder)
            },
        },
{
    let expression = match VisitExpression::visit(expr) {
        Ok(e) => e,
        Err(err) => {
            return Err(err);
        },
    };
    let id = dag_builder.create_filter(Box::new(expression), input);
    Ok(id)
}

/// Translates the projection list — bare column names only — and
/// inserts the projection node over `from_id`.
pub fn parse_projection(
    projection: &Vec<SqlSelectItem>,
    dag_builder: &mut DagBuilder,
    from_id: NodeId,
) -> (r: Result<NodeId, TranslationError>)
    requires
        old(dag_builder).spec_dag().wf(),
        from_id < old(dag_builder).spec_dag().spec_len(),
    ensures
        final(dag_builder).spec_dag().wf(),
        match r {
            Ok(id) => {
                &&& items_ok(projection@.map_values(|i: SqlSelectItem| i@))
                &&& id == old(dag_builder).spec_dag().spec_len()
                &&& final(dag_builder).spec_dag().spec_len()
                    == old(dag_builder).spec_dag().spec_len() + 1
                &&& forall|j: int| 0 <= j < id
                    ==> #[trigger] final(dag_builder).spec_dag().spec_nodes()[j]
                        == old(dag_builder).spec_dag().spec_nodes()[j]
                &&& final(dag_builder).spec_dag().spec_nodes()[id as int]@
                    == (LogicalPlanView::Projection {
                        expr: items_as_idents(projection@.map_values(|i: SqlSelectItem| i@)),
                        schema: plan_schema(
                            old(dag_builder).spec_dag().spec_nodes()[from_id as int]@,
                        ),
                    })
                &&& final(dag_builder).spec_dag().spec_inputs()[id as int] == seq![from_id]
                &&& forall|j: int| 0 <= j < id
                    ==> #[trigger] final(dag_builder).spec_dag().spec_inputs()[j]
                        == old(dag_builder).spec_dag().spec_inputs()[j]
            },
            Err(e) => {
                &&& !items_ok(projection@.map_values(|i: SqlSelectItem| i@))
                &&& e@ == TranslationErrorView::UnsupportedProjection
                &&& *final(dag_builder) == *old(dag_builder)
            },
        },
{
    let ghost items = projection@.map_values(|i: SqlSelectItem| i@);
    let mut vec_expr: Vec<Expression> = Vec::new();
    let n = projection.len();
    for i in 0..n
        invariant
            n == projection@.len(),
            items == projection@.map_values(|i: SqlSelectItem| i@),
            *dag_builder == *old(dag_builder),
            old(dag_builder).spec_dag().wf(),
            from_id < old(dag_builder).spec_dag().spec_len(),
            vec_expr@.len() == i,
            forall|j: int| 0 <= j < i ==> #[trigger] items[j] is Column,
            forall|j: int| 0 <= j < i
                ==> #[trigger] expr_view(vec_expr@[j])
                    == (ExprView::Ident { name: items[j]->Column_0 }),
    {
        proof {
            assert(items[i as int] == projection@[i as int]@);
        }
        match &projection[i] {
            SqlSelectItem::Column(name) => {
                vec_expr.push(Expression::Ident(Ident { name: name.clone() }));
            },
            SqlSelectItem::Unsupported => {
                return Err(TranslationError::UnsupportedProjection);
            },
        }
    }
    proof {
        assert forall|j: int| 0 <= j < vec_expr@.len()
            implies vec_expr@.map_values(|e: Expression| expr_view(e))[j]
                == items_as_idents(items)[j] by {
            assert(expr_view(vec_expr@[j]) == (ExprView::Ident { name: items[j]->Column_0 }));
        }
        assert(vec_expr@.map_values(|e: Expression| expr_view(e)) =~= items_as_idents(items));
    }
    let id = dag_builder.create_project(vec_expr, from_id);
    Ok(id)
}

/// Translates one SELECT into a fresh builder: the table scan, then
/// the optional filter, closed by the projection. Succeeds exactly on
/// the statements `select_ok` admits; on failure nothing of the
/// statement survives in the builder beyond the nodes made before the
/// failing step.
pub fn parse_select(
    select: &SqlSelect,
    dag_builder: &mut DagBuilder,
    catalog: &DummyCatalog,
) -> (r: Result<NodeId, TranslationError>)
    requires
        old(dag_builder).spec_dag().wf(),
        old(dag_builder).spec_dag().spec_len() == 0,
    ensures
        final(dag_builder).spec_dag().wf(),
        match r {
            Ok(root) => {
                &&& select_ok(select@, *catalog)
                &&& plan_matches(final(dag_builder).spec_dag(), select@, *catalog)
                &&& root == final(dag_builder).spec_dag().spec_len() - 1
            },
            Err(e) => {
                &&& !select_ok(select@, *catalog)
                &&& e@ == select_err(select@, *catalog)
            },
        },
{
    if select.from.len() != 1 {
        return Err(TranslationError::MultipleTables);
    }
    proof {
        assert(select@.from[0] == select.from@[0]@);
    }
    let from_id = match parse_from(&select.from[0], dag_builder, catalog) {
        Ok(id) => id,
        Err(e) => {
            return Err(e);
        },
    };
    let mut result = from_id;
    match &select.selection {
        Some(filter) => {
            result = match parse_where(filter, dag_builder, result) {
                Ok(id) => id,
                Err(e) => {
                    return Err(e);
                },
            };
        },
        None => {},
    }
    match parse_projection(&select.projection, dag_builder, result) {
        Ok(id) => Ok(id),
        Err(e) => Err(e),
    }
}

/// Parses SQL text and translates the one statement it holds into a
/// logical-plan DAG. Relies on the outside parser only for turning
/// text into a statement tree; every plan this returns is a
/// well-formed DAG of the linear scan–filter–projection shape.
pub fn parse_sql_query(sql_query: &str, catalog: &DummyCatalog) -> (r: Result<
    Dag<LogicalPlan>,
    TranslationError,
>)
    ensures
        r is Ok <==> query_ok(sql_query@, *catalog),
        match r {
            Ok(dag) => {
                &&& dag.wf()
                &&& plan_matches(
                    dag,
                    parsed_sql_of(sql_query@)->Statements_0[0]->Select_0,
                    *catalog,
                )
            },
            Err(e) => e@ == query_err(sql_query@, *catalog),
        },
{
    let parsed = crate::sql_ast::parse_sql_text(sql_query);
    match parsed {
        ParsedSql::ParseError(message) => Err(TranslationError::SqlParse(message)),
        ParsedSql::Statements(statements) => {
            proof {
                assert(parsed_sql_of(sql_query@) matches ParsedSqlView::Statements(stmts)
                    && stmts == statements@.map_values(|st: ParsedStatement| st@));
            }
            if statements.len() != 1 {
                return Err(TranslationError::NotASingleStatement);
            }
            proof {
                assert(statements@.map_values(|st: ParsedStatement| st@)[0]
                    == statements@[0]@);
            }
            match &statements[0] {
                ParsedStatement::Other => Err(TranslationError::UnsupportedStatement),
                ParsedStatement::Select(select) => {
                    let mut dag_builder = DagBuilder::new();
                    match parse_select(select, &mut dag_builder, catalog) {
                        Ok(_) => Ok(dag_builder.into_dag()),
                        Err(e) => Err(e),
                    }
                },
            }
        },
    }
}

} // verus!
