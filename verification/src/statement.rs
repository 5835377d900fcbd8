//! The calls into `sea_query`: what its statements, conditions and expressions hold, and what each
//! call does to them.

use sea_query::{
    Alias, Condition, ConditionExpression, Expr, MysqlQueryBuilder, Order, PostgresQueryBuilder,
    SelectStatement, SimpleExpr, SqliteQueryBuilder, Value, Values,
};
use vstd::prelude::*;

use crate::model::{
    ColumnName, Cond, DbBackend, Filter, Item, Junction, Op, OrderTerm, SelectTerm, SelectView,
    TableTerm, Term,
};

verus! {

/// A parameter of a statement. It is only carried through.
#[verifier::external_type_specification]
#[verifier::external_body]
pub struct ExValue(sea_query::Value);

/// The parameters of a statement, in order; its one field is public and stands as it is.
#[verifier::external_type_specification]
pub struct ExValues(sea_query::Values);

/// One or more values; its variants are public and stand as they are.
#[verifier::external_type_specification]
pub struct ExValueTuple(sea_query::ValueTuple);

/// The direction of a sort term; its variants are public and stand as they are.
#[verifier::external_type_specification]
pub struct ExOrder(sea_query::Order);

/// A select statement, known by [`select_view`] and [`can_build`].
#[verifier::external_type_specification]
#[verifier::external_body]
pub struct ExSelectStatement(sea_query::SelectStatement);

/// A term of a select list.
#[verifier::external_type_specification]
#[verifier::external_body]
pub struct ExSelectExpr(sea_query::SelectExpr);

/// A term of a `FROM` clause.
#[verifier::external_type_specification]
#[verifier::external_body]
pub struct ExTableRef(sea_query::TableRef);

/// A term of an `ORDER BY` clause.
#[verifier::external_type_specification]
#[verifier::external_body]
pub struct ExOrderExpr(sea_query::OrderExpr);

/// A whole `WHERE` clause.
#[verifier::external_type_specification]
#[verifier::external_body]
pub struct ExConditionHolder(sea_query::ConditionHolder);

/// A condition, known by [`condition_view`].
#[verifier::external_type_specification]
#[verifier::external_body]
pub struct ExCondition(sea_query::Condition);

/// What can be added to a condition; its variants are public and stand as they are.
#[verifier::external_type_specification]
pub struct ExConditionExpression(sea_query::ConditionExpression);

/// An expression under construction, known by [`column_view`].
#[verifier::external_type_specification]
#[verifier::external_body]
pub struct ExExpr(sea_query::Expr);

/// An expression, known by [`term_view`].
#[verifier::external_type_specification]
#[verifier::external_body]
pub struct ExSimpleExpr(sea_query::SimpleExpr);

/// A JSON value. It only says what rows become.
#[verifier::external_type_specification]
#[verifier::external_body]
pub struct ExJsonValue(serde_json::Value);

/// What a select statement holds, part by part.
pub uninterp spec fn select_view(query: SelectStatement) -> SelectView;

/// Whether a select statement can be written in the dialect of `backend`. A statement may hold a
/// clause that a dialect lacks, such as a full outer join for MySQL.
pub uninterp spec fn can_build(query: SelectStatement, backend: DbBackend) -> bool;

/// The members of a condition and how they are joined.
pub uninterp spec fn condition_view(condition: Condition) -> Cond;

/// The column that an expression under construction consists of so far, where it is one column
/// of a table.
pub uninterp spec fn column_view(expr: Expr) -> Option<ColumnName>;

/// What an expression says.
pub uninterp spec fn term_view(expr: SimpleExpr) -> Term;

/// The SQL text of a statement in a dialect, and the values of its parameters.
pub uninterp spec fn built(query: SelectView, backend: DbBackend) -> (Seq<char>, Seq<Value>);

/// Whatever dialect could express `old_query` can express `new_query`.
pub open spec fn keeps_dialects(old_query: SelectStatement, new_query: SelectStatement) -> bool {
    forall|backend: DbBackend|
        can_build(old_query, backend) ==> #[trigger] can_build(new_query, backend)
}

/// The member that an argument of `Condition::add` becomes.
pub open spec fn expression_item(expr: ConditionExpression) -> Item {
    match expr {
        ConditionExpression::Condition(condition) => condition_view(condition).as_item(),
        ConditionExpression::SimpleExpr(expr) => Item::Expr(term_view(expr)),
    }
}

/// Calls `SelectStatement::new`: a statement whose parts are all empty, which every dialect can
/// express.
#[verifier::external_body]
pub(crate) fn new_select() -> (query: SelectStatement)
    ensures
        select_view(query) == (SelectView {
            selects: seq![],
            from: seq![],
            filter: Filter::Empty,
            orders: seq![],
            limit: None,
            rest: None,
        }),
        forall|backend: DbBackend| #[trigger] can_build(query, backend),
{
    SelectStatement::new()
}

/// Calls `SelectStatement::column` with a column of a table: the column comes last in the select
/// list, and nothing else changes.
#[verifier::external_body]
pub(crate) fn select_column(query: &mut SelectStatement, table: &str, column: &str)
    ensures
        select_view(*final(query)) == (SelectView {
            selects: select_view(*old(query)).selects.push(
                SelectTerm::Column(ColumnName { table: table@, column: column@ }),
            ),
            ..select_view(*old(query))
        }),
        keeps_dialects(*old(query), *final(query)),
{
    query.column((Alias::new(table), Alias::new(column)));
}

/// Calls `SelectStatement::from` with a table: the table comes last in the `FROM` clause, and
/// nothing else changes. Every dialect can express the clause, but only with it are the index
/// hints written that the rest of the statement may hold.
#[verifier::external_body]
pub(crate) fn select_from(query: &mut SelectStatement, table: &str)
    ensures
        select_view(*final(query)) == (SelectView {
            from: select_view(*old(query)).from.push(TableTerm::Table(table@)),
            ..select_view(*old(query))
        }),
        select_view(*old(query)).rest is None ==> keeps_dialects(*old(query), *final(query)),
{
    query.from(Alias::new(table));
}

/// Calls `SelectStatement::clear_selects`: the select list becomes empty, and nothing else
/// changes.
#[verifier::external_body]
pub(crate) fn clear_selects(query: &mut SelectStatement)
    ensures
        select_view(*final(query)) == (SelectView {
            selects: seq![],
            ..select_view(*old(query))
        }),
        keeps_dialects(*old(query), *final(query)),
{
    query.clear_selects();
}

/// Calls `SelectStatement::limit`: the limit becomes `limit`, and nothing else changes.
#[verifier::external_body]
pub(crate) fn set_limit(query: &mut SelectStatement, limit: u64)
    ensures
        select_view(*final(query)) == (SelectView {
            limit: Some(limit),
            ..select_view(*old(query))
        }),
        keeps_dialects(*old(query), *final(query)),
{
    query.limit(limit);
}

/// Calls `SelectStatement::clear_order_by`: the `ORDER BY` clause becomes empty, and nothing else
/// changes.
#[verifier::external_body]
pub(crate) fn clear_order_by(query: &mut SelectStatement)
    ensures
        select_view(*final(query)) == (SelectView {
            orders: seq![],
            ..select_view(*old(query))
        }),
        keeps_dialects(*old(query), *final(query)),
{
    query.clear_order_by();
}

/// Calls `SelectStatement::order_by` with a column of a table: the column comes last in the
/// `ORDER BY` clause, in the given order, and nothing else changes. Every dialect can express an
/// ascending and a descending order.
#[verifier::external_body]
pub(crate) fn order_by(query: &mut SelectStatement, table: &str, column: &str, order: Order)
    ensures
        select_view(*final(query)) == (SelectView {
            orders: select_view(*old(query)).orders.push(
                OrderTerm::Column { column: ColumnName { table: table@, column: column@ }, order },
            ),
            ..select_view(*old(query))
        }),
        order is Asc || order is Desc ==> keeps_dialects(*old(query), *final(query)),
{
    query.order_by((Alias::new(table), Alias::new(column)), order);
}

/// Calls `SelectStatement::cond_where`: the condition is conjoined with the `WHERE` clause, and
/// nothing else changes. The call panics where the clause is a chain of operands. Every dialect
/// can express a condition that only compares columns with values.
#[verifier::external_body]
pub(crate) fn cond_where(query: &mut SelectStatement, condition: Condition)
    requires
        !(select_view(*old(query)).filter is Chain),
    ensures
        select_view(*final(query)) == (SelectView {
            filter: select_view(*old(query)).filter.and(condition_view(condition)),
            ..select_view(*old(query))
        }),
        condition_view(condition).only_compares() ==> keeps_dialects(*old(query), *final(query)),
{
    query.cond_where(condition);
}

/// Calls `Condition::all`: a conjunction without members.
#[verifier::external_body]
pub(crate) fn condition_all() -> (condition: Condition)
    ensures
        condition_view(condition) == Cond::empty(Junction::All),
{
    Condition::all()
}

/// Calls `Condition::any`: a disjunction without members.
#[verifier::external_body]
pub(crate) fn condition_any() -> (condition: Condition)
    ensures
        condition_view(condition) == Cond::empty(Junction::Any),
{
    Condition::any()
}

/// Calls `Condition::add`: the expression or condition becomes the last member. A condition whose
/// one member is not negated is replaced by that member.
#[verifier::external_body]
pub(crate) fn condition_add(condition: Condition, expr: ConditionExpression) -> (sum: Condition)
    ensures
        condition_view(sum) == condition_view(condition).push(expression_item(expr)),
{
    condition.add(expr)
}

/// Calls `Expr::col` with a column of a table: an expression that is that column.
#[verifier::external_body]
pub(crate) fn column_of(table: &str, column: &str) -> (expr: Expr)
    ensures
        column_view(expr) == Some(ColumnName { table: table@, column: column@ }),
{
    Expr::col((Alias::new(table), Alias::new(column)))
}

/// Calls `Expr::eq`: the column equals the value.
#[verifier::external_body]
pub(crate) fn column_eq(expr: Expr, value: Value) -> (comparison: SimpleExpr)
    requires
        column_view(expr) is Some,
    ensures
        term_view(comparison) == (Term::Compare {
            column: column_view(expr)->0,
            op: Op::Eq,
            value,
        }),
{
    expr.eq(value)
}

/// Calls `Expr::lt`: the column is less than the value.
#[verifier::external_body]
pub(crate) fn column_lt(expr: Expr, value: Value) -> (comparison: SimpleExpr)
    requires
        column_view(expr) is Some,
    ensures
        term_view(comparison) == (Term::Compare {
            column: column_view(expr)->0,
            op: Op::Lt,
            value,
        }),
{
    expr.lt(value)
}

/// Calls `Expr::gt`: the column is greater than the value.
#[verifier::external_body]
pub(crate) fn column_gt(expr: Expr, value: Value) -> (comparison: SimpleExpr)
    requires
        column_view(expr) is Some,
    ensures
        term_view(comparison) == (Term::Compare {
            column: column_view(expr)->0,
            op: Op::Gt,
            value,
        }),
{
    expr.gt(value)
}

/// Calls `SelectStatement::build` with the `MysqlQueryBuilder`: the text and the parameters
/// depend on the parts of the statement alone. The call panics where the dialect lacks a clause.
#[verifier::external_body]
pub(crate) fn build_mysql(query: &SelectStatement) -> (statement: (String, Values))
    requires
        can_build(*query, DbBackend::MySql),
    ensures
        (statement.0@, statement.1.0@) == built(select_view(*query), DbBackend::MySql),
{
    query.build(MysqlQueryBuilder)
}

/// Calls `SelectStatement::build` with the `PostgresQueryBuilder`: the text and the parameters
/// depend on the parts of the statement alone. The call panics where the dialect lacks a clause.
#[verifier::external_body]
pub(crate) fn build_postgres(query: &SelectStatement) -> (statement: (String, Values))
    requires
        can_build(*query, DbBackend::Postgres),
    ensures
        (statement.0@, statement.1.0@) == built(select_view(*query), DbBackend::Postgres),
{
    query.build(PostgresQueryBuilder)
}

/// Calls `SelectStatement::build` with the `SqliteQueryBuilder`: the text and the parameters
/// depend on the parts of the statement alone. The call panics where the dialect lacks a clause.
#[verifier::external_body]
pub(crate) fn build_sqlite(query: &SelectStatement) -> (statement: (String, Values))
    requires
        can_build(*query, DbBackend::Sqlite),
    ensures
        (statement.0@, statement.1.0@) == built(select_view(*query), DbBackend::Sqlite),
{
    query.build(SqliteQueryBuilder)
}

/// `Value::clone` gives back the same value.
pub assume_specification[ <sea_query::Value as Clone>::clone ](value: &sea_query::Value) -> (copy:
    sea_query::Value)
    ensures
        copy == *value,
;

/// `SelectStatement::clone` gives back the same statement.
pub assume_specification[ <sea_query::SelectStatement as Clone>::clone ](
    query: &sea_query::SelectStatement,
) -> (copy: sea_query::SelectStatement)
    ensures
        copy == *query,
;

impl DbBackend {
    /// Build the SQL text of a statement, with placeholders, and the values for them
    pub fn build(self, query: &SelectStatement) -> (statement: (String, Values))
        requires
            can_build(*query, self),
        ensures
            (statement.0@, statement.1.0@) == built(select_view(*query), self),
    {
        match self {
            DbBackend::MySql => build_mysql(query),
            DbBackend::Postgres => build_postgres(query),
            DbBackend::Sqlite => build_sqlite(query),
        }
    }
}

} // verus!
