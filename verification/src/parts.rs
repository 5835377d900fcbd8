//! What each operation does, part by part.

use sea_query::{Condition, ConditionExpression, Order, SelectStatement, SimpleExpr, ValueTuple};
use vstd::prelude::*;

use crate::cursor::{is_page, CursorView};
use crate::identity::{tuple_values, Identity, IdentityView, IntoIdentity};
use crate::model::{
    ColumnName, Cond, DbBackend, Filter, Item, Junction, Op, OrderTerm, SelectTerm, TableTerm, Term,
};
use crate::select::selects_columns;
use crate::statement::{
    can_build, condition_view, expression_item, keeps_dialects, select_view, term_view,
};

verus! {

/// An identity names the columns that it was made of, all of them and in their order, and keeps
/// the form that they were given in.
pub proof fn identity_names_its_columns(identity: Identity)
    ensures
        identity matches Identity::Unary(c1) ==> {
            &&& identity@ is Unary
            &&& identity@.names().len() == 1
            &&& identity@.names()[0] == c1@
        },
        identity matches Identity::Binary(c1, c2) ==> {
            &&& identity@ is Binary
            &&& identity@.names().len() == 2
            &&& identity@.names()[0] == c1@
            &&& identity@.names()[1] == c2@
        },
        identity matches Identity::Ternary(c1, c2, c3) ==> {
            &&& identity@ is Ternary
            &&& identity@.names().len() == 3
            &&& identity@.names()[0] == c1@
            &&& identity@.names()[1] == c2@
            &&& identity@.names()[2] == c3@
        },
        identity matches Identity::Many(columns) ==> {
            &&& identity@ is Many
            &&& identity@.names().len() == columns@.len()
            &&& forall|i: int|
                0 <= i < columns@.len() ==> #[trigger] identity@.names()[i] == columns@[i]@
        },
{
}

/// Whatever names the columns of a cursor names them in the order that they were written in: a
/// string one, a pair two and a triple three, and an identity those that it holds.
pub proof fn arguments_name_their_columns(
    one: String,
    two: (String, String),
    three: (String, String, String),
    identity: Identity,
)
    ensures
        one.identity() == Identity::Unary(one)@,
        one.identity() is Unary,
        one.identity().names() == seq![one@],
        two.identity() == Identity::Binary(two.0, two.1)@,
        two.identity() is Binary,
        two.identity().names() == seq![two.0@, two.1@],
        three.identity() == Identity::Ternary(three.0, three.1, three.2)@,
        three.identity() is Ternary,
        three.identity().names() == seq![three.0@, three.1@, three.2@],
        identity.identity() == identity@,
{
}

/// A tuple holds the values that it was made of, all of them and in their order.
pub proof fn tuple_holds_its_values(values: ValueTuple)
    ensures
        values matches ValueTuple::One(v1) ==> {
            &&& tuple_values(values).len() == 1
            &&& tuple_values(values)[0] == v1
        },
        values matches ValueTuple::Two(v1, v2) ==> {
            &&& tuple_values(values).len() == 2
            &&& tuple_values(values)[0] == v1
            &&& tuple_values(values)[1] == v2
        },
        values matches ValueTuple::Three(v1, v2, v3) ==> {
            &&& tuple_values(values).len() == 3
            &&& tuple_values(values)[0] == v1
            &&& tuple_values(values)[1] == v2
            &&& tuple_values(values)[2] == v3
        },
        values matches ValueTuple::Many(vals) ==> {
            &&& tuple_values(values).len() == vals@.len()
            &&& forall|i: int|
                0 <= i < vals@.len() ==> #[trigger] tuple_values(values)[i] == vals@[i]
        },
{
}

/// Values fit the columns where both have the same form and there are as many values as columns,
/// and nowhere else.
pub proof fn fitting_is_form_and_count(columns: IdentityView, values: ValueTuple)
    ensures
        columns.fits(values) <==> {
            &&& columns is Unary == values is One
            &&& columns is Binary == values is Two
            &&& columns is Ternary == values is Three
            &&& columns is Many == values is Many
            &&& columns.names().len() == tuple_values(values).len()
        },
{
}

/// A condition without members has none, and is not negated. One more member comes last, and
/// the others stay.
pub proof fn members_are_added_last(junction: Junction, cond: Cond, item: Item)
    ensures
        Cond::empty(junction).junction == junction,
        !Cond::empty(junction).negate,
        Cond::empty(junction).items.len() == 0,
        cond.push(item).junction == cond.junction,
        cond.push(item).negate == cond.negate,
        cond.push(item).items.len() == cond.items.len() + 1,
        cond.push(item).items[cond.items.len() as int] == item,
        forall|i: int|
            0 <= i < cond.items.len() ==> #[trigger] cond.push(item).items[i] == cond.items[i],
{
}

/// A condition that becomes a member is nested as it is, unless it has one member and is not
/// negated, and so stands for that member.
pub proof fn nesting_keeps_conditions(cond: Cond)
    ensures
        cond.items.len() == 1 && !cond.negate ==> cond.as_item() == cond.items[0],
        cond.items.len() != 1 || cond.negate ==> cond.as_item() == Item::Nested(cond),
{
}

/// What is added to a condition becomes a member as it is: an expression itself, and a condition
/// nested, unless it has one member and is not negated, and so stands for that member.
pub proof fn added_expressions_are_members(condition: Condition, expr: SimpleExpr)
    ensures
        expression_item(ConditionExpression::SimpleExpr(expr)) == Item::Expr(term_view(expr)),
        ({
            let cond = condition_view(condition);
            let item = expression_item(ConditionExpression::Condition(condition));
            &&& cond.items.len() == 1 && !cond.negate ==> item == cond.items[0]
            &&& cond.items.len() != 1 || cond.negate ==> item == Item::Nested(cond)
        }),
{
}

/// A condition only compares columns with values where each of its members is such a comparison or
/// a condition that does so in turn.
pub proof fn comparing_is_by_members(cond: Cond)
    ensures
        cond.only_compares() <==> forall|i: int|
            0 <= i < cond.items.len() ==> match #[trigger] cond.items[i] {
                Item::Nested(inner) => inner.only_compares(),
                Item::Expr(term) => term is Compare,
            },
{
    assert forall|i: int|
        0 <= i < cond.items.len() implies (#[trigger] cond.items[i]).only_compares() == (
    match cond.items[i] {
        Item::Nested(inner) => inner.only_compares(),
        Item::Expr(term) => term is Compare,
    }) by {}
}

/// A condition that is added to a clause loses no member, and neither does the clause: the members
/// of the clause come first and those of the condition after them, all joined by `AND`. What is
/// not itself such a conjunction counts as one member.
pub proof fn adding_keeps_members(filter: Filter, addition: Cond)
    ensures
        filter is Empty ==> filter.and(addition) == Filter::Tree(addition),
        filter is Chain ==> filter.and(addition) == filter,
        filter matches Filter::Tree(current) ==> {
            let opened = current.junction == Junction::All && !current.negate;
            let merged = opened && addition.junction == Junction::All && !addition.negate;
            let n = if opened {
                current.items.len()
            } else {
                1
            };
            &&& filter.and(addition) matches Filter::Tree(whole)
            &&& whole.junction == Junction::All
            &&& !whole.negate
            &&& whole.items.len() == n + if merged {
                addition.items.len()
            } else {
                1
            }
            &&& opened ==> forall|i: int|
                0 <= i < n ==> whole.items[i] == #[trigger] current.items[i]
            &&& !opened && current.items.len() == 1 && !current.negate ==> whole.items[0]
                == current.items[0]
            &&& !opened && (current.items.len() != 1 || current.negate) ==> whole.items[0]
                == Item::Nested(current)
            &&& merged ==> forall|i: int|
                0 <= i < addition.items.len() ==> whole.items[n + i] == #[trigger] addition.items[i]
            &&& !merged && addition.items.len() == 1 && !addition.negate ==> whole.items[n as int]
                == addition.items[0]
            &&& !merged && (addition.items.len() != 1 || addition.negate)
                ==> whole.items[n as int] == Item::Nested(addition)
        },
{
}

/// The condition on one order column is that column compared with its value, alone in a
/// conjunction.
pub proof fn key_cond_of_one_column(cursor: CursorView, values: ValueTuple, op: Op)
    requires
        cursor.order_columns is Unary,
    ensures
        cursor.key_cond(values, op).junction == Junction::All,
        !cursor.key_cond(values, op).negate,
        cursor.key_cond(values, op).items.len() == 1,
        cursor.key_cond(values, op).items[0] == Item::Expr(
            Term::Compare {
                column: ColumnName {
                    table: cursor.table,
                    column: cursor.order_columns.names()[0],
                },
                op,
                value: tuple_values(values)[0],
            },
        ),
{
}

/// The condition on several order columns is a disjunction with one member for each of them. The
/// first member is on all the columns, and each one after it on one column less, down to the first
/// column alone. In a member the last column compares with its value by `op`, and the columns
/// before it are equal to theirs.
pub proof fn key_cond_of_columns(cursor: CursorView, values: ValueTuple, op: Op)
    requires
        !(cursor.order_columns is Unary),
    ensures
        cursor.key_cond(values, op).junction == Junction::Any,
        !cursor.key_cond(values, op).negate,
        cursor.key_cond(values, op).items.len() == cursor.order_columns.names().len(),
        forall|i: int|
            #![trigger cursor.key_cond(values, op).items[i]]
            0 <= i < cursor.order_columns.names().len() - 1 ==> {
                &&& cursor.key_cond(values, op).items[i] matches Item::Nested(member)
                &&& member.junction == Junction::All
                &&& !member.negate
                &&& member.items.len() == cursor.order_columns.names().len() - i
                &&& forall|j: int|
                    0 <= j < member.items.len() ==> #[trigger] member.items[j] == Item::Expr(
                        Term::Compare {
                            column: ColumnName {
                                table: cursor.table,
                                column: cursor.order_columns.names()[j],
                            },
                            op: if j == member.items.len() - 1 {
                                op
                            } else {
                                Op::Eq
                            },
                            value: tuple_values(values)[j],
                        },
                    )
            },
        cursor.order_columns.names().len() > 0 ==> cursor.key_cond(
            values,
            op,
        ).items[cursor.order_columns.names().len() - 1] == Item::Expr(
            Term::Compare {
                column: ColumnName {
                    table: cursor.table,
                    column: cursor.order_columns.names()[0],
                },
                op,
                value: tuple_values(values)[0],
            },
        ),
{
}

/// `before` and `after` change the filter and nothing else: what the rows show, where they come
/// from, their order and number, and the way that they are read in all stay.
pub proof fn narrowing_changes_only_the_filter(cursor: CursorView, values: ValueTuple, op: Op)
    ensures
        cursor.narrowed(values, op).query.filter == cursor.query.filter.and(
            cursor.key_cond(values, op),
        ),
        cursor.narrowed(values, op).query.selects == cursor.query.selects,
        cursor.narrowed(values, op).query.from == cursor.query.from,
        cursor.narrowed(values, op).query.orders == cursor.query.orders,
        cursor.narrowed(values, op).query.limit == cursor.query.limit,
        cursor.narrowed(values, op).query.rest == cursor.query.rest,
        cursor.narrowed(values, op).table == cursor.table,
        cursor.narrowed(values, op).order_columns == cursor.order_columns,
        cursor.narrowed(values, op).last == cursor.last,
{
}

/// `first` sorts by the order columns, one term for each in its place and all ascending, sets the
/// limit and reads forwards. All else stays.
pub proof fn first_changes_only_order_and_limit(cursor: CursorView, num_rows: u64)
    ensures
        cursor.first(num_rows).query.orders.len() == cursor.order_columns.names().len(),
        forall|i: int|
            0 <= i < cursor.order_columns.names().len() ==> #[trigger] cursor.first(
                num_rows,
            ).query.orders[i] == (OrderTerm::Column {
                column: ColumnName {
                    table: cursor.table,
                    column: cursor.order_columns.names()[i],
                },
                order: Order::Asc,
            }),
        cursor.first(num_rows).query.limit == Some(num_rows),
        !cursor.first(num_rows).last,
        cursor.first(num_rows).query.selects == cursor.query.selects,
        cursor.first(num_rows).query.from == cursor.query.from,
        cursor.first(num_rows).query.filter == cursor.query.filter,
        cursor.first(num_rows).query.rest == cursor.query.rest,
        cursor.first(num_rows).table == cursor.table,
        cursor.first(num_rows).order_columns == cursor.order_columns,
{
}

/// `last` sorts by the order columns, one term for each in its place and all descending, sets the
/// limit and reads backwards. All else stays.
pub proof fn last_changes_only_order_and_limit(cursor: CursorView, num_rows: u64)
    ensures
        cursor.last(num_rows).query.orders.len() == cursor.order_columns.names().len(),
        forall|i: int|
            0 <= i < cursor.order_columns.names().len() ==> #[trigger] cursor.last(
                num_rows,
            ).query.orders[i] == (OrderTerm::Column {
                column: ColumnName {
                    table: cursor.table,
                    column: cursor.order_columns.names()[i],
                },
                order: Order::Desc,
            }),
        cursor.last(num_rows).query.limit == Some(num_rows),
        cursor.last(num_rows).last,
        cursor.last(num_rows).query.selects == cursor.query.selects,
        cursor.last(num_rows).query.from == cursor.query.from,
        cursor.last(num_rows).query.filter == cursor.query.filter,
        cursor.last(num_rows).query.rest == cursor.query.rest,
        cursor.last(num_rows).table == cursor.table,
        cursor.last(num_rows).order_columns == cursor.order_columns,
{
}

/// The terms that a cursor is sorted by are its order columns, one for each in its place and all
/// in the same direction.
pub proof fn order_terms_are_order_columns(cursor: CursorView, order: Order)
    ensures
        cursor.order_terms(order).len() == cursor.order_columns.names().len(),
        forall|i: int|
            0 <= i < cursor.order_columns.names().len() ==> #[trigger] cursor.order_terms(order)[i]
                == (OrderTerm::Column {
                column: ColumnName {
                    table: cursor.table,
                    column: cursor.order_columns.names()[i],
                },
                order,
            }),
{
}

/// `select_only` empties the select list and changes nothing else. In particular a cursor that
/// reads backwards goes on doing so.
pub proof fn select_only_changes_only_the_select_list(cursor: CursorView)
    ensures
        cursor.select_only().query.selects.len() == 0,
        cursor.select_only().query.from == cursor.query.from,
        cursor.select_only().query.filter == cursor.query.filter,
        cursor.select_only().query.orders == cursor.query.orders,
        cursor.select_only().query.limit == cursor.query.limit,
        cursor.select_only().query.rest == cursor.query.rest,
        cursor.select_only().table == cursor.table,
        cursor.select_only().order_columns == cursor.order_columns,
        cursor.select_only().last == cursor.last,
{
}

/// A statement over the columns of a table selects each of them, in their order and each one once
/// for every time that it is named. It is over that table alone, holds nothing else, and every
/// dialect can express it.
pub proof fn every_column_is_selected(
    query: SelectStatement,
    table: Seq<char>,
    columns: Seq<Seq<char>>,
)
    requires
        selects_columns(query, table, columns),
    ensures
        select_view(query).selects.len() == columns.len(),
        forall|i: int|
            0 <= i < columns.len() ==> #[trigger] select_view(query).selects[i]
                == SelectTerm::Column(ColumnName { table, column: columns[i] }),
        select_view(query).from.len() == 1,
        select_view(query).from[0] == TableTerm::Table(table),
        select_view(query).filter is Empty,
        select_view(query).orders.len() == 0,
        select_view(query).limit is None,
        select_view(query).rest is None,
        forall|backend: DbBackend| #[trigger] can_build(query, backend),
{
}

/// Where a statement keeps its dialects, it can be written in each one that it could be written in.
pub proof fn kept_dialects_can_build(
    old_query: SelectStatement,
    new_query: SelectStatement,
    backend: DbBackend,
)
    requires
        keeps_dialects(old_query, new_query),
        can_build(old_query, backend),
    ensures
        can_build(new_query, backend),
{
}

/// A page holds every row that was converted, or the first error. Where all the rows convert there
/// are as many items as rows, each in its row's place, counted from the end where the rows came
/// from the last one to the first. Where one does not, there is no page but an error, and every row
/// before the one that it came from did convert.
pub proof fn pages_hold_every_row<T, E>(
    converted: Seq<Result<T, E>>,
    last: bool,
    page: Result<Vec<T>, E>,
)
    requires
        is_page(converted, last, page),
    ensures
        page is Ok <==> forall|i: int|
            0 <= i < converted.len() ==> (#[trigger] converted[i]) is Ok,
        page matches Ok(items) ==> items@.len() == converted.len(),
        !last ==> (page matches Ok(items) ==> forall|i: int|
            0 <= i < converted.len() ==> converted[i] == Ok::<T, E>(#[trigger] items@[i])),
        last ==> (page matches Ok(items) ==> forall|i: int|
            0 <= i < converted.len() ==> converted[converted.len() - 1 - i] == Ok::<T, E>(
                #[trigger] items@[i],
            )),
        page matches Err(err) ==> exists|k: int|
            {
                &&& 0 <= k < converted.len()
                &&& #[trigger] converted[k] == Err::<T, E>(err)
                &&& forall|i: int| 0 <= i < k ==> (#[trigger] converted[i]) is Ok
            },
{
}

/// Converted rows make one page and no other.
pub proof fn pages_are_determined<T, E>(
    converted: Seq<Result<T, E>>,
    last: bool,
    page: Result<Vec<T>, E>,
    other: Result<Vec<T>, E>,
)
    requires
        is_page(converted, last, page),
        is_page(converted, last, other),
    ensures
        match (page, other) {
            (Ok(items), Ok(others)) => items@ == others@,
            (Err(err), Err(met)) => err == met,
            _ => false,
        },
{
    if let (Err(err), Err(met)) = (page, other) {
        let k = choose|k: int|
            {
                &&& 0 <= k < converted.len()
                &&& #[trigger] converted[k] == Err::<T, E>(err)
                &&& forall|i: int| 0 <= i < k ==> (#[trigger] converted[i]) is Ok
            };
        let m = choose|m: int|
            {
                &&& 0 <= m < converted.len()
                &&& #[trigger] converted[m] == Err::<T, E>(met)
                &&& forall|i: int| 0 <= i < m ==> (#[trigger] converted[i]) is Ok
            };
        assert(converted[k] is Err && converted[m] is Err);
    }
}

} // verus!
