//! Cursor pagination.

use sea_query::{
    Condition, ConditionExpression, Order, SelectStatement, SimpleExpr, Value, ValueTuple, Values,
};
use serde_json::Value as JsonValue;
use std::marker::PhantomData;
use vstd::pervasive::unreached;
use vstd::prelude::*;

use crate::identity::{tuple_values, Identity, IdentityView, IntoIdentity};
use crate::model::{
    compare_item, lexicographic_cond, prefix_cond, ColumnName, Cond, DbBackend, Item, Junction, Op,
    OrderTerm, SelectView,
};
use crate::select::{
    EntityTrait, PartialModelTrait, QuerySelect, Select, SelectModel, SelectorTrait,
};
use crate::statement::{
    built, can_build, clear_order_by, clear_selects, column_eq, column_gt, column_lt, column_of,
    cond_where, condition_add, condition_all, condition_any, condition_view, keeps_dialects,
    order_by, select_view, set_limit, term_view,
};

verus! {

/// Cursor pagination
#[derive(Debug)]
pub struct Cursor<S> {
    pub(crate) query: SelectStatement,
    pub(crate) table: String,
    pub(crate) order_columns: Identity,
    pub(crate) last: bool,
    pub(crate) phantom: PhantomData<S>,
}

/// What a [`Cursor`] holds.
pub struct CursorView {
    /// The statement.
    pub query: SelectView,
    /// The table that the order columns belong to.
    pub table: Seq<char>,
    /// The columns that the cursor is ordered by.
    pub order_columns: IdentityView,
    /// Whether the rows come back from the last one to the first.
    pub last: bool,
}

impl<S> View for Cursor<S> {
    type V = CursorView;

    open spec fn view(&self) -> CursorView {
        CursorView {
            query: select_view(self.statement()),
            table: self.table_name(),
            order_columns: self.identity(),
            last: self.backwards(),
        }
    }
}

impl<S> Cursor<S> {
    /// The statement.
    pub closed spec fn statement(&self) -> SelectStatement {
        self.query
    }

    /// The table that the order columns belong to.
    pub closed spec fn table_name(&self) -> Seq<char> {
        self.table@
    }

    /// The columns that the cursor is ordered by.
    pub closed spec fn identity(&self) -> IdentityView {
        self.order_columns@
    }

    /// Whether the rows come back from the last one to the first.
    pub closed spec fn backwards(&self) -> bool {
        self.last
    }
}

impl<S> Clone for Cursor<S> {
    fn clone(&self) -> (copy: Self)
        ensures
            copy@ == self@,
            copy.statement() == self.statement(),
    {
        Cursor {
            query: self.query.clone(),
            table: self.table.clone(),
            order_columns: self.order_columns.clone(),
            last: self.last,
            phantom: PhantomData,
        }
    }
}

impl CursorView {
    /// The condition that the order columns compare with `values` by `op`, column by column. One
    /// column is a conjunction of one member.
    pub open spec fn key_cond(self, values: ValueTuple, op: Op) -> Cond {
        let columns = self.order_columns.names();
        if self.order_columns is Unary {
            prefix_cond(self.table, columns, tuple_values(values), op, 1)
        } else {
            lexicographic_cond(self.table, columns, tuple_values(values), op)
        }
    }

    /// This cursor narrowed to the rows whose order columns compare with `values` by `op`.
    pub open spec fn narrowed(self, values: ValueTuple, op: Op) -> CursorView {
        CursorView {
            query: SelectView {
                filter: self.query.filter.and(self.key_cond(values, op)),
                ..self.query
            },
            ..self
        }
    }

    /// The `ORDER BY` clause that sorts by the order columns, all in the same direction.
    pub open spec fn order_terms(self, order: Order) -> Seq<OrderTerm> {
        let columns = self.order_columns.names();
        Seq::new(
            columns.len(),
            |i: int|
                OrderTerm::Column {
                    column: ColumnName { table: self.table, column: columns[i] },
                    order,
                },
        )
    }

    /// This cursor with nothing in its select list.
    pub open spec fn select_only(self) -> CursorView {
        CursorView { query: SelectView { selects: seq![], ..self.query }, ..self }
    }

    /// This cursor limited to the first `num_rows` rows.
    pub open spec fn first(self, num_rows: u64) -> CursorView {
        CursorView {
            query: SelectView {
                orders: self.order_terms(Order::Asc),
                limit: Some(num_rows),
                ..self.query
            },
            last: false,
            ..self
        }
    }

    /// This cursor limited to the last `num_rows` rows.
    pub open spec fn last(self, num_rows: u64) -> CursorView {
        CursorView {
            query: SelectView {
                orders: self.order_terms(Order::Desc),
                limit: Some(num_rows),
                ..self.query
            },
            last: true,
            ..self
        }
    }
}

/// The direction that the rows are asked for in.
pub open spec fn direction(last: bool) -> Order {
    if last {
        Order::Desc
    } else {
        Order::Asc
    }
}

/// Order a statement by one more column of a table
fn order_by_column(query: &mut SelectStatement, table: &String, column: &String, last: bool)
    ensures
        select_view(*final(query)) == (SelectView {
            orders: select_view(*old(query)).orders.push(
                OrderTerm::Column {
                    column: ColumnName { table: table@, column: column@ },
                    order: direction(last),
                },
            ),
            ..select_view(*old(query))
        }),
        keeps_dialects(*old(query), *final(query)),
{
    let order = if last {
        Order::Desc
    } else {
        Order::Asc
    };
    order_by(query, table.as_str(), column.as_str(), order);
}

/// The values of results that are all `Ok`.
pub open spec fn ok_values<T, E>(converted: Seq<Result<T, E>>) -> Seq<T> {
    converted.map_values(|result: Result<T, E>| result->Ok_0)
}

/// Whether `page` is what converted rows give: the first error among them or, where there is
/// none, all of them, turned round where they came from the last one to the first.
pub open spec fn is_page<T, E>(
    converted: Seq<Result<T, E>>,
    last: bool,
    page: Result<Vec<T>, E>,
) -> bool {
    match page {
        Ok(items) => {
            &&& forall|i: int| 0 <= i < converted.len() ==> (#[trigger] converted[i]) is Ok
            &&& items@ == if last {
                ok_values(converted).reverse()
            } else {
                ok_values(converted)
            }
        },
        Err(err) => exists|k: int|
            {
                &&& 0 <= k < converted.len()
                &&& #[trigger] converted[k] == Err::<T, E>(err)
                &&& forall|i: int| 0 <= i < k ==> (#[trigger] converted[i]) is Ok
            },
    }
}

/// Turns a vector round.
fn reversed<T>(items: Vec<T>) -> (result: Vec<T>)
    ensures
        result@ == items@.reverse(),
{
    let ghost whole = items@;
    let mut items = items;
    let mut result: Vec<T> = Vec::new();
    while items.len() > 0
        invariant
            items@.len() + result@.len() == whole.len(),
            items@ =~= whole.take(items@.len() as int),
            result@ =~= whole.reverse().take(result@.len() as int),
        decreases items.len(),
    {
        if let Some(item) = items.pop() {
            result.push(item);
        }
    }
    assert(result@ =~= whole.reverse());
    result
}

/// A condition over prefixes of the columns only compares columns with values.
proof fn lemma_lexicographic_only_compares(
    table: Seq<char>,
    columns: Seq<Seq<char>>,
    values: Seq<Value>,
    op: Op,
)
    ensures
        lexicographic_cond(table, columns, values, op).only_compares(),
        prefix_cond(table, columns, values, op, 1).only_compares(),
{
    reveal_with_fuel(Cond::only_compares, 2);
    let whole = lexicographic_cond(table, columns, values, op);
    assert forall|i: int|
        0 <= i < whole.items.len() implies (#[trigger] whole.items[i]).only_compares() by {
        let inner = prefix_cond(table, columns, values, op, (columns.len() - i) as nat);
        assert(inner.only_compares());
        assert(inner.as_item().only_compares());
    }
}

impl<S> Cursor<S> {
    /// Initialize a cursor
    pub fn new<C: IntoIdentity>(query: SelectStatement, table: String, order_columns: C) -> (cursor:
        Self)
        ensures
            cursor.statement() == query,
            cursor@ == (CursorView {
                query: select_view(query),
                table: table@,
                order_columns: order_columns.identity(),
                last: false,
            }),
    {
        Cursor {
            query,
            table,
            order_columns: order_columns.into_identity(),
            last: false,
            phantom: PhantomData,
        }
    }

    /// Whether `values` has one value for each order column, in the form that fits them
    pub fn accepts(&self, values: &ValueTuple) -> (accepts: bool)
        ensures
            accepts == self@.order_columns.fits(*values),
    {
        self.order_columns.fits(values)
    }

    /// Gives the statement for modification.
    pub(crate) fn statement_mut(&mut self) -> (query: &mut SelectStatement)
        ensures
            *query == old(self).statement(),
            final(self).statement() == *final(query),
            final(self)@ == (CursorView { query: select_view(*final(query)), ..old(self)@ }),
    {
        &mut self.query
    }

    /// Filter paginated result with corresponding column less than the input value
    ///
    /// The values must fit the order columns (see [`accepts`](Self::accepts)), and the `WHERE`
    /// clause of the statement must not be a chain of operands.
    pub fn before(&mut self, values: ValueTuple) -> (cursor: &mut Self)
        requires
            old(self)@.order_columns.fits(values),
            !(old(self)@.query.filter is Chain),
        ensures
            cursor@ == old(self)@.narrowed(values, Op::Lt),
            cursor@.query.filter == old(self)@.query.filter.and(
                old(self)@.key_cond(values, Op::Lt),
            ),
            cursor@.query.selects == old(self)@.query.selects,
            cursor@.query.from == old(self)@.query.from,
            cursor@.query.orders == old(self)@.query.orders,
            cursor@.query.limit == old(self)@.query.limit,
            cursor@.query.rest == old(self)@.query.rest,
            cursor@.table == old(self)@.table,
            cursor@.order_columns == old(self)@.order_columns,
            cursor@.last == old(self)@.last,
            keeps_dialects(old(self).statement(), cursor.statement()),
            *final(self) == *final(cursor),
    {
        let condition = self.apply_filter(values, Op::Lt);
        proof {
            lemma_lexicographic_only_compares(
                self@.table,
                self@.order_columns.names(),
                tuple_values(values),
                Op::Lt,
            );
        }
        cond_where(&mut self.query, condition);
        self
    }

    /// Filter paginated result with corresponding column greater than the input value
    ///
    /// The values must fit the order columns (see [`accepts`](Self::accepts)), and the `WHERE`
    /// clause of the statement must not be a chain of operands.
    pub fn after(&mut self, values: ValueTuple) -> (cursor: &mut Self)
        requires
            old(self)@.order_columns.fits(values),
            !(old(self)@.query.filter is Chain),
        ensures
            cursor@ == old(self)@.narrowed(values, Op::Gt),
            cursor@.query.filter == old(self)@.query.filter.and(
                old(self)@.key_cond(values, Op::Gt),
            ),
            cursor@.query.selects == old(self)@.query.selects,
            cursor@.query.from == old(self)@.query.from,
            cursor@.query.orders == old(self)@.query.orders,
            cursor@.query.limit == old(self)@.query.limit,
            cursor@.query.rest == old(self)@.query.rest,
            cursor@.table == old(self)@.table,
            cursor@.order_columns == old(self)@.order_columns,
            cursor@.last == old(self)@.last,
            keeps_dialects(old(self).statement(), cursor.statement()),
            *final(self) == *final(cursor),
    {
        let condition = self.apply_filter(values, Op::Gt);
        proof {
            lemma_lexicographic_only_compares(
                self@.table,
                self@.order_columns.names(),
                tuple_values(values),
                Op::Gt,
            );
        }
        cond_where(&mut self.query, condition);
        self
    }

    /// Compares an order column with a value.
    fn compare(&self, column: &String, op: Op, value: Value) -> (comparison: SimpleExpr)
        ensures
            Item::Expr(term_view(comparison)) == compare_item(self@.table, column@, op, value),
    {
        let expr = column_of(self.table.as_str(), column.as_str());
        match op {
            Op::Eq => column_eq(expr, value),
            Op::Lt => column_lt(expr, value),
            Op::Gt => column_gt(expr, value),
        }
    }

    /// The conjunction over the first `n` columns.
    fn prefix_condition(
        &self,
        columns: &Vec<String>,
        values: &Vec<Value>,
        op: Op,
        n: usize,
    ) -> (condition: Condition)
        requires
            n <= columns.len(),
            n <= values.len(),
        ensures
            condition_view(condition) == prefix_cond(
                self@.table,
                columns@.map_values(|name: String| name@),
                values@,
                op,
                n as nat,
            ),
    {
        let ghost names = columns@.map_values(|name: String| name@);
        let ghost whole = prefix_cond(self@.table, names, values@, op, n as nat);
        let mut condition = condition_all();
        let mut i: usize = 0;
        while i < n
            invariant
                i <= n,
                n <= columns.len(),
                n <= values.len(),
                names == columns@.map_values(|name: String| name@),
                whole == prefix_cond(self@.table, names, values@, op, n as nat),
                condition_view(condition).junction == Junction::All,
                !condition_view(condition).negate,
                condition_view(condition).items =~= whole.items.take(i as int),
            decreases n - i,
        {
            let op_here = if i + 1 == n {
                op
            } else {
                Op::Eq
            };
            let expr = self.compare(&columns[i], op_here, values[i].clone());
            condition = condition_add(condition, ConditionExpression::SimpleExpr(expr));
            i += 1;
        }
        assert(condition_view(condition).items =~= whole.items);
        condition
    }

    /// Build the condition that the order columns compare with `values` by `op`
    fn apply_filter(&self, values: ValueTuple, op: Op) -> (condition: Condition)
        requires
            self@.order_columns.fits(values),
        ensures
            condition_view(condition) == self@.key_cond(values, op),
    {
        let ghost key_cond = self@.key_cond(values, op);
        match (&self.order_columns, values) {
            (Identity::Unary(c1), ValueTuple::One(v1)) => {
                let condition = condition_add(
                    condition_all(),
                    ConditionExpression::SimpleExpr(self.compare(c1, op, v1)),
                );
                assert(condition_view(condition).items =~= key_cond.items);
                condition
            },
            (Identity::Binary(c1, c2), ValueTuple::Two(v1, v2)) => {
                let both = condition_add(
                    condition_add(
                        condition_all(),
                        ConditionExpression::SimpleExpr(self.compare(c1, Op::Eq, v1.clone())),
                    ),
                    ConditionExpression::SimpleExpr(self.compare(c2, op, v2)),
                );
                assert(condition_view(both).items =~= prefix_cond(
                    self@.table,
                    seq![c1@, c2@],
                    seq![v1, v2],
                    op,
                    2,
                ).items);
                let condition = condition_add(
                    condition_add(condition_any(), ConditionExpression::Condition(both)),
                    ConditionExpression::SimpleExpr(self.compare(c1, op, v1)),
                );
                assert(condition_view(condition).items =~= key_cond.items);
                condition
            },
            (Identity::Ternary(c1, c2, c3), ValueTuple::Three(v1, v2, v3)) => {
                let three = condition_add(
                    condition_add(
                        condition_add(
                            condition_all(),
                            ConditionExpression::SimpleExpr(self.compare(c1, Op::Eq, v1.clone())),
                        ),
                        ConditionExpression::SimpleExpr(self.compare(c2, Op::Eq, v2.clone())),
                    ),
                    ConditionExpression::SimpleExpr(self.compare(c3, op, v3)),
                );
                assert(condition_view(three).items =~= prefix_cond(
                    self@.table,
                    seq![c1@, c2@, c3@],
                    seq![v1, v2, v3],
                    op,
                    3,
                ).items);
                let two = condition_add(
                    condition_add(
                        condition_all(),
                        ConditionExpression::SimpleExpr(self.compare(c1, Op::Eq, v1.clone())),
                    ),
                    ConditionExpression::SimpleExpr(self.compare(c2, op, v2)),
                );
                assert(condition_view(two).items =~= prefix_cond(
                    self@.table,
                    seq![c1@, c2@, c3@],
                    seq![v1, v2, v3],
                    op,
                    2,
                ).items);
                let condition = condition_add(
                    condition_add(
                        condition_add(condition_any(), ConditionExpression::Condition(three)),
                        ConditionExpression::Condition(two),
                    ),
                    ConditionExpression::SimpleExpr(self.compare(c1, op, v1)),
                );
                assert(condition_view(condition).items =~= key_cond.items);
                condition
            },
            (Identity::Many(col_vec), ValueTuple::Many(val_vec)) => {
                // The columns are "col_1", ..., "col_n" and their values "val_1", ..., "val_n".
                // The condition is
                //   (col_1 = val_1 AND ... AND col_n-1 = val_n-1 AND col_n > val_n)
                //   OR (col_1 = val_1 AND ... AND col_n-1 > val_n-1)
                //   OR ...
                //   OR (col_1 = val_1 AND col_2 > val_2)
                //   OR (col_1 > val_1)
                // with "<" in place of ">" for the rows before the values.
                let mut condition = condition_any();
                let mut n: usize = col_vec.len();
                while n > 0
                    invariant
                        n <= col_vec.len(),
                        col_vec.len() == val_vec.len(),
                        key_cond == lexicographic_cond(
                            self@.table,
                            col_vec@.map_values(|name: String| name@),
                            val_vec@,
                            op,
                        ),
                        condition_view(condition).junction == Junction::Any,
                        !condition_view(condition).negate,
                        condition_view(condition).items =~= key_cond.items.take(
                            col_vec.len() - n,
                        ),
                    decreases n,
                {
                    let inner = self.prefix_condition(col_vec, &val_vec, op, n);
                    condition = condition_add(condition, ConditionExpression::Condition(inner));
                    n -= 1;
                }
                assert(condition_view(condition).items =~= key_cond.items);
                condition
            },
            _ => unreached(),
        }
    }

    /// Limit result set to only first N rows in ascending order of the order by column
    pub fn first(&mut self, num_rows: u64) -> (cursor: &mut Self)
        ensures
            cursor@ == old(self)@.first(num_rows),
            cursor@.query.limit == Some(num_rows),
            cursor@.query.orders.len() == old(self)@.order_columns.names().len(),
            forall|i: int|
                0 <= i < cursor@.query.orders.len() ==> #[trigger] cursor@.query.orders[i] == (
                OrderTerm::Column {
                    column: ColumnName {
                        table: old(self)@.table,
                        column: old(self)@.order_columns.names()[i],
                    },
                    order: Order::Asc,
                }),
            !cursor@.last,
            cursor@.query.selects == old(self)@.query.selects,
            cursor@.query.from == old(self)@.query.from,
            cursor@.query.filter == old(self)@.query.filter,
            cursor@.query.rest == old(self)@.query.rest,
            cursor@.table == old(self)@.table,
            cursor@.order_columns == old(self)@.order_columns,
            keeps_dialects(old(self).statement(), cursor.statement()),
            *final(self) == *final(cursor),
    {
        set_limit(&mut self.query, num_rows);
        clear_order_by(&mut self.query);
        self.apply_order_by(false);
        self.last = false;
        assert(self@.query.orders =~= old(self)@.order_terms(Order::Asc));
        self
    }

    /// Limit result set to only last N rows in ascending order of the order by column
    pub fn last(&mut self, num_rows: u64) -> (cursor: &mut Self)
        ensures
            cursor@ == old(self)@.last(num_rows),
            cursor@.query.limit == Some(num_rows),
            cursor@.query.orders.len() == old(self)@.order_columns.names().len(),
            forall|i: int|
                0 <= i < cursor@.query.orders.len() ==> #[trigger] cursor@.query.orders[i] == (
                OrderTerm::Column {
                    column: ColumnName {
                        table: old(self)@.table,
                        column: old(self)@.order_columns.names()[i],
                    },
                    order: Order::Desc,
                }),
            cursor@.last,
            cursor@.query.selects == old(self)@.query.selects,
            cursor@.query.from == old(self)@.query.from,
            cursor@.query.filter == old(self)@.query.filter,
            cursor@.query.rest == old(self)@.query.rest,
            cursor@.table == old(self)@.table,
            cursor@.order_columns == old(self)@.order_columns,
            keeps_dialects(old(self).statement(), cursor.statement()),
            *final(self) == *final(cursor),
    {
        set_limit(&mut self.query, num_rows);
        clear_order_by(&mut self.query);
        self.apply_order_by(true);
        self.last = true;
        assert(self@.query.orders =~= old(self)@.order_terms(Order::Desc));
        self
    }

    /// Order the statement by the order columns, after what it is ordered by already
    fn apply_order_by(&mut self, last: bool)
        ensures
            final(self)@ == (CursorView {
                query: SelectView {
                    orders: old(self)@.query.orders + old(self)@.order_terms(direction(last)),
                    ..old(self)@.query
                },
                ..old(self)@
            }),
            keeps_dialects(old(self).statement(), final(self).statement()),
    {
        let ghost orders = self@.query.orders;
        let ghost terms = self@.order_terms(direction(last));
        match &self.order_columns {
            Identity::Unary(c1) => {
                order_by_column(&mut self.query, &self.table, c1, last);
                assert(self@.query.orders =~= orders + terms);
            },
            Identity::Binary(c1, c2) => {
                order_by_column(&mut self.query, &self.table, c1, last);
                order_by_column(&mut self.query, &self.table, c2, last);
                assert(self@.query.orders =~= orders + terms);
            },
            Identity::Ternary(c1, c2, c3) => {
                order_by_column(&mut self.query, &self.table, c1, last);
                order_by_column(&mut self.query, &self.table, c2, last);
                order_by_column(&mut self.query, &self.table, c3, last);
                assert(self@.query.orders =~= orders + terms);
            },
            Identity::Many(col_vec) => {
                let mut i: usize = 0;
                while i < col_vec.len()
                    invariant
                        i <= col_vec.len(),
                        self.table == old(self).table,
                        self.order_columns == old(self).order_columns,
                        self.last == old(self).last,
                        self.order_columns == Identity::Many(*col_vec),
                        orders == old(self)@.query.orders,
                        terms == old(self)@.order_terms(direction(last)),
                        self@.query == (SelectView {
                            orders: orders + terms.take(i as int),
                            ..old(self)@.query
                        }),
                        keeps_dialects(old(self).statement(), self.statement()),
                    decreases col_vec.len() - i,
                {
                    order_by_column(&mut self.query, &self.table, &col_vec[i], last);
                    assert(terms.take(i + 1) =~= terms.take(i as int).push(terms[i as int]));
                    i += 1;
                }
                assert(self@.query.orders =~= orders + terms);
            },
        }
    }

    /// Build the statement to fetch the paginated result with
    ///
    /// The dialect must be able to express the statement. A statement from
    /// [`select_columns`](crate::select::select_columns) can be built for every backend, and so it
    /// can after all that a cursor does to it.
    pub fn build(&self, backend: DbBackend) -> (statement: (String, Values))
        requires
            can_build(self.statement(), backend),
        ensures
            (statement.0@, statement.1.0@) == built(self@.query, backend),
    {
        backend.build(&self.query)
    }

    /// Make a page of rows that were fetched and converted: the first error, where there is one,
    /// and otherwise all the rows in ascending order
    pub fn page<T, E>(&self, converted: Vec<Result<T, E>>) -> (page: Result<Vec<T>, E>)
        ensures
            is_page(converted@, self@.last, page),
            page is Ok <==> forall|i: int|
                0 <= i < converted@.len() ==> (#[trigger] converted@[i]) is Ok,
            page matches Ok(items) ==> items@.len() == converted@.len(),
            page matches Ok(items) ==> forall|i: int|
                0 <= i < items@.len() ==> converted@[if self@.last {
                    items@.len() - 1 - i
                } else {
                    i
                }] == Ok::<T, E>(#[trigger] items@[i]),
            page matches Err(err) ==> exists|k: int|
                {
                    &&& 0 <= k < converted@.len()
                    &&& #[trigger] converted@[k] == Err::<T, E>(err)
                    &&& forall|i: int| 0 <= i < k ==> (#[trigger] converted@[i]) is Ok
                },
    {
        let mut buffer: Vec<T> = Vec::new();
        for result in iter: converted
            invariant
                iter.seq() == converted@,
                buffer@.len() == iter.index(),
                forall|i: int|
                    0 <= i < iter.index() ==> #[trigger] converted@[i] == Ok::<T, E>(buffer@[i]),
        {
            match result {
                Ok(item) => {
                    buffer.push(item);
                },
                Err(err) => {
                    assert(converted@[buffer@.len() as int] == Err::<T, E>(err));
                    return Err(err);
                },
            }
        }
        assert(buffer@ =~= ok_values(converted@));
        if self.last {
            buffer = reversed(buffer);
        }
        Ok(buffer)
    }

    /// Fetch the paginated result from the rows that the statement selects
    ///
    /// The rows are converted one after the other, up to the first one that fails.
    pub fn all<R>(&mut self, rows: Vec<R>) -> (page: Result<Vec<S::Item>, S::Err>) where
        S: SelectorTrait<R>,

        ensures
            *final(self) == *old(self),
            page matches Ok(items) ==> items@.len() == rows@.len(),
            page matches Ok(items) ==> forall|i: int|
                0 <= i < items@.len() ==> call_ensures(
                    S::from_raw_query_result,
                    (rows@[if old(self)@.last {
                        items@.len() - 1 - i
                    } else {
                        i
                    }],),
                    Ok(#[trigger] items@[i]),
                ),
            page matches Err(err) ==> exists|k: int|
                0 <= k < rows@.len() && call_ensures(
                    S::from_raw_query_result,
                    (#[trigger] rows@[k],),
                    Err(err),
                ),
            exists|converted: Seq<Result<S::Item, S::Err>>|
                #![trigger is_page(converted, old(self)@.last, page)]
                {
                    &&& is_page(converted, old(self)@.last, page)
                    &&& converted.len() <= rows@.len()
                    &&& page is Ok ==> converted.len() == rows@.len()
                    &&& page is Err ==> converted.last() is Err
                    &&& forall|i: int|
                        0 <= i < converted.len() ==> call_ensures(
                            S::from_raw_query_result,
                            (rows@[i],),
                            #[trigger] converted[i],
                        )
                },
    {
        let mut converted: Vec<Result<S::Item, S::Err>> = Vec::new();
        for row in iter: rows
            invariant
                iter.seq() == rows@,
                *self == *old(self),
                converted@.len() == iter.index(),
                forall|i: int| 0 <= i < converted@.len() ==> (#[trigger] converted@[i]) is Ok,
                forall|i: int|
                    0 <= i < converted@.len() ==> call_ensures(
                        S::from_raw_query_result,
                        (rows@[i],),
                        #[trigger] converted@[i],
                    ),
        {
            let result = S::from_raw_query_result(row);
            let failed = result.is_err();
            converted.push(result);
            if failed {
                assert(converted@.last() is Err);
                return self.page(converted);
            }
        }
        self.page(converted)
    }

    /// Construct a [Cursor] that fetch any custom struct
    pub fn into_model<M>(self) -> (cursor: Cursor<SelectModel<M>>)
        ensures
            cursor@ == self@,
            cursor.statement() == self.statement(),
    {
        Cursor {
            query: self.query,
            table: self.table,
            order_columns: self.order_columns,
            last: self.last,
            phantom: PhantomData,
        }
    }

    /// Construct a [Cursor] that selects the columns of a partial model and fetch that model
    pub fn into_partial_model<M: PartialModelTrait>(self) -> (cursor: Cursor<SelectModel<M>>)
        ensures
            exists|cleared: Self, selected: Self|
                #![trigger call_ensures(M::select_cols::<Self>, (cleared,), selected)]
                {
                    &&& cleared@ == self@.select_only()
                    &&& cleared@.query.selects.len() == 0
                    &&& cleared@.query.from == self@.query.from
                    &&& cleared@.query.filter == self@.query.filter
                    &&& cleared@.query.orders == self@.query.orders
                    &&& cleared@.query.limit == self@.query.limit
                    &&& cleared@.query.rest == self@.query.rest
                    &&& cleared@.table == self@.table
                    &&& cleared@.order_columns == self@.order_columns
                    &&& cleared@.last == self@.last
                    &&& keeps_dialects(self.statement(), cleared.statement())
                    &&& call_ensures(M::select_cols::<Self>, (cleared,), selected)
                    &&& cursor@ == selected@
                    &&& cursor.statement() == selected.statement()
                },
    {
        M::select_cols(QuerySelect::select_only(self)).into_model::<M>()
    }

    /// Construct a [Cursor] that fetch JSON value
    pub fn into_json(self) -> (cursor: Cursor<SelectModel<JsonValue>>)
        ensures
            cursor@ == self@,
            cursor.statement() == self.statement(),
    {
        Cursor {
            query: self.query,
            table: self.table,
            order_columns: self.order_columns,
            last: self.last,
            phantom: PhantomData,
        }
    }
}

impl<S> QuerySelect for Cursor<S> {
    type QueryStatement = SelectStatement;

    open spec fn query_spec(&self) -> SelectStatement {
        self.statement()
    }

    fn query(&mut self) -> (query: &mut SelectStatement)
        ensures
            *query == old(self).statement(),
            final(self).statement() == *final(query),
            final(self)@ == (CursorView { query: select_view(*final(query)), ..old(self)@ }),
    {
        self.statement_mut()
    }

    fn select_only(self) -> (cleared: Self)
        ensures
            cleared@ == self@.select_only(),
            cleared@.query.selects.len() == 0,
            cleared@.query.from == self@.query.from,
            cleared@.query.filter == self@.query.filter,
            cleared@.query.orders == self@.query.orders,
            cleared@.query.limit == self@.query.limit,
            cleared@.query.rest == self@.query.rest,
            cleared@.table == self@.table,
            cleared@.order_columns == self@.order_columns,
            cleared@.last == self@.last,
            keeps_dialects(self.statement(), cleared.statement()),
    {
        let mut cleared = self;
        clear_selects(&mut cleared.query);
        cleared
    }
}

/// A trait for any type that can be turn into a cursor
pub trait CursorTrait: Sized {
    /// Select operation
    type Selector: Send + Sync;

    /// Convert current type into a cursor
    fn cursor_by<C: IntoIdentity>(self, order_columns: C) -> Cursor<Self::Selector>;
}

impl<E, M> CursorTrait for Select<E> where E: EntityTrait<Model = M>, M: Send + Sync {
    type Selector = SelectModel<M>;

    fn cursor_by<C: IntoIdentity>(self, order_columns: C) -> (cursor: Cursor<SelectModel<M>>)
        ensures
            cursor.statement() == self.statement(),
            exists|table: String|
                #[trigger] call_ensures(E::table_name, (), table) && cursor@ == (CursorView {
                    query: self@,
                    table: table@,
                    order_columns: order_columns.identity(),
                    last: false,
                }),
    {
        Cursor::new(self.into_statement(), E::table_name(), order_columns)
    }
}

} // verus!
