//! What holds of cursors as a whole.

use sea_query::{Order, SelectStatement, Value, ValueTuple};
use vstd::prelude::*;

use crate::cursor::{is_page, ok_values, CursorView};
use crate::identity::tuple_values;
use crate::model::{
    prefix_cond, ColumnName, Cond, Filter, Item, Junction, Meaning, Op, OrderTerm, Row, SelectTerm,
    SelectView, Term, Truth,
};
use crate::select::selects_columns;
use crate::statement::select_view;

verus! {

/// The column at position `k` among the order columns of a cursor.
pub open spec fn key_column(cursor: CursorView, k: int) -> ColumnName {
    ColumnName { table: cursor.table, column: cursor.order_columns.names()[k] }
}

/// Whether the comparison of order column `k` with its value is true on a row.
pub open spec fn column_holds(
    cursor: CursorView,
    values: ValueTuple,
    op: Op,
    meaning: Meaning,
    row: Row,
    k: int,
) -> bool {
    (meaning.compare)(op, row(key_column(cursor, k)), tuple_values(values)[k]) is True
}

/// Whether the order columns of a row compare with `values` by `op` lexicographically: at some
/// column they do, and at all columns before it they are equal.
pub open spec fn key_compares(
    cursor: CursorView,
    values: ValueTuple,
    op: Op,
    meaning: Meaning,
    row: Row,
) -> bool {
    exists|k: int|
        {
            &&& 0 <= k < cursor.order_columns.names().len()
            &&& #[trigger] column_holds(cursor, values, op, meaning, row, k)
            &&& forall|j: int|
                0 <= j < k ==> #[trigger] column_holds(cursor, values, Op::Eq, meaning, row, j)
        }
}

/// The order columns of a row compare with the values where, at some position, the column of that
/// name in the table compares with the value at the same position, and at all positions before it
/// the two are equal.
pub proof fn keys_compare_by_position(
    cursor: CursorView,
    values: ValueTuple,
    op: Op,
    meaning: Meaning,
    row: Row,
)
    ensures
        key_compares(cursor, values, op, meaning, row) <==> exists|k: int|
            {
                &&& 0 <= k < cursor.order_columns.names().len()
                &&& (meaning.compare)(
                    op,
                    row(
                        ColumnName {
                            table: cursor.table,
                            column: #[trigger] cursor.order_columns.names()[k],
                        },
                    ),
                    tuple_values(values)[k],
                ) is True
                &&& forall|j: int|
                    0 <= j < k ==> (meaning.compare)(
                        Op::Eq,
                        row(
                            ColumnName {
                                table: cursor.table,
                                column: #[trigger] cursor.order_columns.names()[j],
                            },
                        ),
                        tuple_values(values)[j],
                    ) is True
            },
{
    let names = cursor.order_columns.names();
    if key_compares(cursor, values, op, meaning, row) {
        let k = choose|k: int|
            {
                &&& 0 <= k < names.len()
                &&& #[trigger] column_holds(cursor, values, op, meaning, row, k)
                &&& forall|j: int|
                    0 <= j < k ==> #[trigger] column_holds(cursor, values, Op::Eq, meaning, row, j)
            };
        assert forall|j: int| 0 <= j < k implies (meaning.compare)(
            Op::Eq,
            row(ColumnName { table: cursor.table, column: #[trigger] names[j] }),
            tuple_values(values)[j],
        ) is True by {
            assert(column_holds(cursor, values, Op::Eq, meaning, row, j));
        }
        assert(key_column(cursor, k).column == names[k]);
    }
    assert forall|k: int|
        {
            &&& 0 <= k < names.len()
            &&& (meaning.compare)(
                op,
                row(ColumnName { table: cursor.table, column: #[trigger] names[k] }),
                tuple_values(values)[k],
            ) is True
            &&& forall|j: int|
                0 <= j < k ==> (meaning.compare)(
                    Op::Eq,
                    row(ColumnName { table: cursor.table, column: #[trigger] names[j] }),
                    tuple_values(values)[j],
                ) is True
        } implies key_compares(cursor, values, op, meaning, row) by {
        assert(column_holds(cursor, values, op, meaning, row, k));
        assert forall|j: int| 0 <= j < k implies #[trigger] column_holds(
            cursor,
            values,
            Op::Eq,
            meaning,
            row,
            j,
        ) by {
            assert(key_column(cursor, j).column == names[j]);
        }
    }
}

/// A comparison is as true as the database finds it. A conjunction is true where all its members
/// are and false where one is, a disjunction is true where one member is and false where all are,
/// and negation swaps the two. What is neither true nor false is unknown. A statement without a
/// filter keeps every row.
pub proof fn truth_is_that_of_sql(
    column: ColumnName,
    op: Op,
    value: Value,
    cond: Cond,
    meaning: Meaning,
    row: Row,
)
    requires
        !cond.negate,
    ensures
        Item::Expr(Term::Compare { column, op, value }).truth(meaning, row)
            == (meaning.compare)(op, row(column), value),
        cond.junction == Junction::All ==> (cond.truth(meaning, row) is True <==> forall|i: int|
            0 <= i < cond.items.len() ==> (#[trigger] cond.items[i]).truth(meaning, row) is True),
        cond.junction == Junction::All ==> (cond.truth(meaning, row) is False <==> exists|i: int|
            0 <= i < cond.items.len() && (#[trigger] cond.items[i]).truth(meaning, row) is False),
        cond.junction == Junction::Any ==> (cond.truth(meaning, row) is True <==> exists|i: int|
            0 <= i < cond.items.len() && (#[trigger] cond.items[i]).truth(meaning, row) is True),
        cond.junction == Junction::Any ==> (cond.truth(meaning, row) is False <==> forall|i: int|
            0 <= i < cond.items.len() ==> (#[trigger] cond.items[i]).truth(meaning, row) is False),
        ({
            let negated = Cond { negate: true, ..cond };
            &&& negated.truth(meaning, row) is True <==> cond.truth(meaning, row) is False
            &&& negated.truth(meaning, row) is False <==> cond.truth(meaning, row) is True
        }),
        Item::Nested(cond).truth(meaning, row) == cond.truth(meaning, row),
        Filter::Tree(cond).truth(meaning, row) == cond.truth(meaning, row),
        Filter::Empty.truth(meaning, row) is True,
{
    let negated = Cond { negate: true, ..cond };
    assert(negated.truth(meaning, row) == cond.truth(meaning, row).not());
}

/// `AND` is true where both truths are and false where one is. `NOT` swaps true and false.
pub proof fn truths_combine(left: Truth, right: Truth)
    ensures
        left.and(right) is True <==> left is True && right is True,
        left.and(right) is False <==> left is False || right is False,
        left.not() is True <==> left is False,
        left.not() is False <==> left is True,
{
}

/// A condition as a member of another one is as true as it is on its own.
proof fn lemma_as_item_truth(cond: Cond, meaning: Meaning, row: Row)
    ensures
        cond.as_item().truth(meaning, row) == cond.truth(meaning, row),
{
    if cond.items.len() == 1 && !cond.negate {
        let lone = cond.items[0];
        assert(cond.items[0].truth(meaning, row) == lone.truth(meaning, row));
    }
}

/// Narrowing a cursor conjoins: on every row, the filter is then the conjunction of what it was
/// and of the condition on the order columns, in the logic of SQL with its unknown truth.
pub proof fn narrowing_conjoins(
    cursor: CursorView,
    values: ValueTuple,
    op: Op,
    meaning: Meaning,
    row: Row,
)
    requires
        !(cursor.query.filter is Chain),
    ensures
        cursor.narrowed(values, op).query.filter.truth(meaning, row)
            == cursor.query.filter.truth(meaning, row).and(
            cursor.key_cond(values, op).truth(meaning, row),
        ),
{
    lemma_and_truth(cursor.query.filter, cursor.key_cond(values, op), meaning, row);
}

/// A clause that a condition was added to is the conjunction of the two.
proof fn lemma_and_truth(filter: Filter, addition: Cond, meaning: Meaning, row: Row)
    requires
        !(filter is Chain),
    ensures
        filter.and(addition).truth(meaning, row) == filter.truth(meaning, row).and(
            addition.truth(meaning, row),
        ),
{
    if let Filter::Tree(current) = filter {
        lemma_as_item_truth(addition, meaning, row);
        lemma_as_item_truth(current, meaning, row);
        if current.is_conjunction() {
            if addition.is_conjunction() {
                lemma_concat_truth(current, addition, meaning, row);
            } else {
                lemma_push_truth(current, addition.as_item(), meaning, row);
            }
        } else {
            let empty = Cond::empty(Junction::All);
            lemma_push_truth(empty, current.as_item(), meaning, row);
            lemma_push_truth(empty.push(current.as_item()), addition.as_item(), meaning, row);
        }
    }
}

proof fn lemma_push_truth(cond: Cond, item: Item, meaning: Meaning, row: Row)
    requires
        cond.is_conjunction(),
    ensures
        cond.push(item).truth(meaning, row) == cond.truth(meaning, row).and(
            item.truth(meaning, row),
        ),
{
    let lone = Cond { junction: Junction::All, negate: false, items: seq![item] };
    lemma_concat_truth(cond, lone, meaning, row);
    assert(cond.items + lone.items =~= cond.push(item).items);
    lemma_as_item_truth(lone, meaning, row);
}

proof fn lemma_concat_truth(left: Cond, right: Cond, meaning: Meaning, row: Row)
    requires
        left.is_conjunction(),
        right.is_conjunction(),
    ensures
        (Cond { items: left.items + right.items, ..left }).truth(meaning, row) == left.truth(
            meaning,
            row,
        ).and(right.truth(meaning, row)),
{
    let both = Cond { items: left.items + right.items, ..left };
    let n = left.items.len();
    assert forall|i: int| 0 <= i < left.items.len() implies #[trigger] left.items[i]
        == both.items[i] by {}
    assert forall|i: int| 0 <= i < right.items.len() implies #[trigger] right.items[i]
        == both.items[n + i] by {}
}

/// The conjunction over the first `k + 1` columns is true where the first `k` are equal to their
/// values and the next one compares with its value.
proof fn lemma_prefix_truth(
    cursor: CursorView,
    values: ValueTuple,
    op: Op,
    meaning: Meaning,
    row: Row,
    k: int,
)
    requires
        0 <= k < cursor.order_columns.names().len(),
    ensures
        prefix_cond(
            cursor.table,
            cursor.order_columns.names(),
            tuple_values(values),
            op,
            (k + 1) as nat,
        ).truth(meaning, row) is True <==> {
            &&& column_holds(cursor, values, op, meaning, row, k)
            &&& forall|j: int|
                0 <= j < k ==> #[trigger] column_holds(cursor, values, Op::Eq, meaning, row, j)
        },
{
    let cond = prefix_cond(
        cursor.table,
        cursor.order_columns.names(),
        tuple_values(values),
        op,
        (k + 1) as nat,
    );
    assert(cond.truth(meaning, row) is True <==> forall|i: int|
        0 <= i < cond.items.len() ==> (#[trigger] cond.items[i]).truth(meaning, row) is True);
    assert forall|i: int| 0 <= i <= k implies ((#[trigger] cond.items[i]).truth(
        meaning,
        row,
    ) is True <==> column_holds(
        cursor,
        values,
        if i == k {
            op
        } else {
            Op::Eq
        },
        meaning,
        row,
        i,
    )) by {}
    if cond.truth(meaning, row) is True {
        assert(cond.items[k].truth(meaning, row) is True);
        assert forall|j: int| 0 <= j < k implies #[trigger] column_holds(
            cursor,
            values,
            Op::Eq,
            meaning,
            row,
            j,
        ) by {
            assert(cond.items[j].truth(meaning, row) is True);
        }
    }
}

/// The condition that `before` and `after` add is true on exactly the rows whose order columns
/// come lexicographically before, or after, the values.
pub proof fn key_cond_is_lexicographic(
    cursor: CursorView,
    values: ValueTuple,
    op: Op,
    meaning: Meaning,
    row: Row,
)
    ensures
        cursor.key_cond(values, op).truth(meaning, row) is True <==> key_compares(
            cursor,
            values,
            op,
            meaning,
            row,
        ),
{
    let columns = cursor.order_columns.names();
    let n = columns.len();
    let cond = cursor.key_cond(values, op);
    if cursor.order_columns is Unary {
        lemma_prefix_truth(cursor, values, op, meaning, row, 0);
        if cond.truth(meaning, row) is True {
            assert(column_holds(cursor, values, op, meaning, row, 0));
        }
    } else {
        assert forall|k: int| 0 <= k < n implies {
            &&& (#[trigger] cond.items[n - 1 - k]).truth(meaning, row) == prefix_cond(
                cursor.table,
                columns,
                tuple_values(values),
                op,
                (k + 1) as nat,
            ).truth(meaning, row)
        } by {
            lemma_as_item_truth(
                prefix_cond(cursor.table, columns, tuple_values(values), op, (k + 1) as nat),
                meaning,
                row,
            );
        }
        if cond.truth(meaning, row) is True {
            let i = choose|i: int|
                0 <= i < cond.items.len() && (#[trigger] cond.items[i]).truth(meaning, row) is True;
            let k = n - 1 - i;
            lemma_prefix_truth(cursor, values, op, meaning, row, k);
            assert(cond.items[n - 1 - k] == cond.items[i]);
            assert(column_holds(cursor, values, op, meaning, row, k));
        }
        if key_compares(cursor, values, op, meaning, row) {
            let k = choose|k: int|
                {
                    &&& 0 <= k < n
                    &&& #[trigger] column_holds(cursor, values, op, meaning, row, k)
                    &&& forall|j: int|
                        0 <= j < k ==> #[trigger] column_holds(
                            cursor,
                            values,
                            Op::Eq,
                            meaning,
                            row,
                            j,
                        )
                };
            lemma_prefix_truth(cursor, values, op, meaning, row, k);
            assert(cond.items[n - 1 - k].truth(meaning, row) is True);
        }
    }
}

/// A narrowed cursor keeps exactly the rows that it kept before and whose order columns come
/// lexicographically before the values, with `before`, or after them, with `after`.
pub proof fn narrowing_keeps_rows(
    cursor: CursorView,
    values: ValueTuple,
    op: Op,
    meaning: Meaning,
    row: Row,
)
    requires
        !(cursor.query.filter is Chain),
    ensures
        cursor.narrowed(values, op).query.filter.truth(meaning, row) is True <==> {
            &&& cursor.query.filter.truth(meaning, row) is True
            &&& key_compares(cursor, values, op, meaning, row)
        },
{
    narrowing_conjoins(cursor, values, op, meaning, row);
    key_cond_is_lexicographic(cursor, values, op, meaning, row);
}

/// Whether exactly one of the three comparisons of two values is true. It is not so where one of
/// them is null.
pub open spec fn comparable(meaning: Meaning, left: Value, right: Value) -> bool {
    let less = (meaning.compare)(Op::Lt, left, right) is True;
    let equal = (meaning.compare)(Op::Eq, left, right) is True;
    let greater = (meaning.compare)(Op::Gt, left, right) is True;
    &&& less || equal || greater
    &&& !(less && equal)
    &&& !(less && greater)
    &&& !(equal && greater)
}

/// Whether the order columns of a row are all equal to `values`.
pub open spec fn key_equals(
    cursor: CursorView,
    values: ValueTuple,
    meaning: Meaning,
    row: Row,
) -> bool {
    forall|k: int|
        0 <= k < cursor.order_columns.names().len() ==> #[trigger] column_holds(
            cursor,
            values,
            Op::Eq,
            meaning,
            row,
            k,
        )
}

/// The first column, from `k` on, at which a row differs from `values`.
proof fn lemma_first_difference(
    cursor: CursorView,
    values: ValueTuple,
    meaning: Meaning,
    row: Row,
    k: int,
) -> (d: int)
    requires
        0 <= k <= cursor.order_columns.names().len(),
        forall|j: int|
            0 <= j < k ==> #[trigger] column_holds(cursor, values, Op::Eq, meaning, row, j),
        !key_equals(cursor, values, meaning, row),
    ensures
        0 <= d < cursor.order_columns.names().len(),
        !column_holds(cursor, values, Op::Eq, meaning, row, d),
        forall|j: int|
            0 <= j < d ==> #[trigger] column_holds(cursor, values, Op::Eq, meaning, row, j),
    decreases cursor.order_columns.names().len() - k,
{
    if k == cursor.order_columns.names().len() {
        assert(key_equals(cursor, values, meaning, row));
        k
    } else if column_holds(cursor, values, Op::Eq, meaning, row, k) {
        lemma_first_difference(cursor, values, meaning, row, k + 1)
    } else {
        k
    }
}

/// A key splits the rows in three: each row whose order columns can be compared with the values
/// is kept by exactly one of `before`, `after` and equality with the key. So the pages on the two
/// sides of a key share no row, and leave out only the rows at the key itself.
pub proof fn key_splits_rows(cursor: CursorView, values: ValueTuple, meaning: Meaning, row: Row)
    requires
        forall|k: int|
            0 <= k < cursor.order_columns.names().len() ==> comparable(
                meaning,
                row(#[trigger] key_column(cursor, k)),
                tuple_values(values)[k],
            ),
    ensures
        ({
            let is_before = cursor.key_cond(values, Op::Lt).truth(meaning, row) is True;
            let is_after = cursor.key_cond(values, Op::Gt).truth(meaning, row) is True;
            let is_at = key_equals(cursor, values, meaning, row);
            &&& is_before || is_after || is_at
            &&& !(is_before && is_after)
            &&& !(is_before && is_at)
            &&& !(is_after && is_at)
        }),
{
    key_cond_is_lexicographic(cursor, values, Op::Lt, meaning, row);
    key_cond_is_lexicographic(cursor, values, Op::Gt, meaning, row);
    assert forall|k: int|
        #![trigger column_holds(cursor, values, Op::Lt, meaning, row, k)]
        #![trigger column_holds(cursor, values, Op::Gt, meaning, row, k)]
        0 <= k < cursor.order_columns.names().len() implies {
        let less = column_holds(cursor, values, Op::Lt, meaning, row, k);
        let equal = column_holds(cursor, values, Op::Eq, meaning, row, k);
        let greater = column_holds(cursor, values, Op::Gt, meaning, row, k);
        &&& less || equal || greater
        &&& !(less && equal)
        &&& !(less && greater)
        &&& !(equal && greater)
    } by {
        assert(comparable(meaning, row(key_column(cursor, k)), tuple_values(values)[k]));
    }
    if !key_equals(cursor, values, meaning, row) {
        let d = lemma_first_difference(cursor, values, meaning, row, 0);
        assert(column_holds(cursor, values, Op::Lt, meaning, row, d) || column_holds(
            cursor,
            values,
            Op::Gt,
            meaning,
            row,
            d,
        ));
    }
}

/// The order in which a cursor is narrowed does not matter: whichever of two keys comes first,
/// the same rows pass.
pub proof fn narrowing_commutes(
    cursor: CursorView,
    first_values: ValueTuple,
    first_op: Op,
    second_values: ValueTuple,
    second_op: Op,
    meaning: Meaning,
    row: Row,
)
    requires
        !(cursor.query.filter is Chain),
    ensures
        cursor.narrowed(first_values, first_op).narrowed(
            second_values,
            second_op,
        ).query.filter.truth(meaning, row) == cursor.narrowed(second_values, second_op).narrowed(
            first_values,
            first_op,
        ).query.filter.truth(meaning, row),
{
    narrowing_conjoins(cursor, first_values, first_op, meaning, row);
    narrowing_conjoins(cursor, second_values, second_op, meaning, row);
    narrowing_conjoins(
        cursor.narrowed(first_values, first_op),
        second_values,
        second_op,
        meaning,
        row,
    );
    narrowing_conjoins(
        cursor.narrowed(second_values, second_op),
        first_values,
        first_op,
        meaning,
        row,
    );
}

/// It does not matter whether a cursor is narrowed before or after it is limited.
pub proof fn narrowing_and_limiting_commute(
    cursor: CursorView,
    values: ValueTuple,
    op: Op,
    num_rows: u64,
)
    ensures
        cursor.narrowed(values, op).first(num_rows) == cursor.first(num_rows).narrowed(values, op),
        cursor.narrowed(values, op).last(num_rows) == cursor.last(num_rows).narrowed(values, op),
{
    assert(cursor.narrowed(values, op).order_terms(Order::Asc) =~= cursor.order_terms(Order::Asc));
    assert(cursor.narrowed(values, op).order_terms(Order::Desc) =~= cursor.order_terms(
        Order::Desc,
    ));
}

/// Of several calls of `first` and `last` the latest one counts.
pub proof fn latest_limit_counts(cursor: CursorView, earlier: u64, num_rows: u64)
    ensures
        cursor.first(earlier).first(num_rows) == cursor.first(num_rows),
        cursor.last(earlier).first(num_rows) == cursor.first(num_rows),
        cursor.first(earlier).last(num_rows) == cursor.last(num_rows),
        cursor.last(earlier).last(num_rows) == cursor.last(num_rows),
{
    assert(cursor.first(earlier).order_terms(Order::Asc) =~= cursor.order_terms(Order::Asc));
    assert(cursor.first(earlier).order_terms(Order::Desc) =~= cursor.order_terms(Order::Desc));
    assert(cursor.last(earlier).order_terms(Order::Asc) =~= cursor.order_terms(Order::Asc));
    assert(cursor.last(earlier).order_terms(Order::Desc) =~= cursor.order_terms(Order::Desc));
}

/// The form in which columns and values are given does not matter. Two or three columns, narrowed
/// by two or three values, give the very condition that a list of the same columns gives, narrowed
/// by a list of the same values; one column gives a condition with the same truth on every row.
/// The order is the same in every form.
pub proof fn forms_agree(
    cursor: CursorView,
    other: CursorView,
    values: ValueTuple,
    other_values: ValueTuple,
    op: Op,
    meaning: Meaning,
    row: Row,
)
    requires
        cursor.table == other.table,
        cursor.order_columns.names() == other.order_columns.names(),
        tuple_values(values) == tuple_values(other_values),
    ensures
        cursor.order_columns is Unary == other.order_columns is Unary ==> cursor.key_cond(
            values,
            op,
        ) == other.key_cond(other_values, op),
        cursor.key_cond(values, op).truth(meaning, row) == other.key_cond(other_values, op).truth(
            meaning,
            row,
        ),
        cursor.order_terms(Order::Asc) == other.order_terms(Order::Asc),
        cursor.order_terms(Order::Desc) == other.order_terms(Order::Desc),
{
    if cursor.order_columns is Unary != other.order_columns is Unary {
        let cond = cursor.key_cond(values, op);
        let other_cond = other.key_cond(other_values, op);
        lemma_as_item_truth(cond, meaning, row);
        lemma_as_item_truth(other_cond, meaning, row);
        assert(cond.as_item() == other_cond.as_item());
    }
    assert(cursor.order_terms(Order::Asc) =~= other.order_terms(Order::Asc));
    assert(cursor.order_terms(Order::Desc) =~= other.order_terms(Order::Desc));
}

/// The strict order of values that a database sorts by.
pub type ValueOrder = spec_fn(Value, Value) -> bool;

/// Whether a term of an `ORDER BY` clause is a column, ascending or descending.
pub open spec fn is_column_order(term: OrderTerm) -> bool {
    term matches OrderTerm::Column { order, .. } && (order is Asc || order is Desc)
}

/// Whether a statement selects from one table and holds nothing beside its select list, its filter,
/// an order by columns and a limit: no join, no grouping, no `DISTINCT`, no offset.
pub open spec fn is_plain(query: SelectView) -> bool {
    &&& query.from.len() == 1
    &&& query.from[0] is Table
    &&& query.rest is None
    &&& forall|i: int| 0 <= i < query.orders.len() ==> is_column_order(#[trigger] query.orders[i])
}

/// Whether one term of an `ORDER BY` clause puts row `a` before row `b`. A term that is not a
/// column, ascending or descending, is not interpreted.
pub open spec fn term_precedes(term: OrderTerm, less: ValueOrder, a: Row, b: Row) -> bool {
    match term {
        OrderTerm::Column { column, order: Order::Asc } => less(a(column), b(column)),
        OrderTerm::Column { column, order: Order::Desc } => less(b(column), a(column)),
        _ => false,
    }
}

/// Whether one term of an `ORDER BY` clause leaves open which of two rows comes first.
pub open spec fn term_ties(term: OrderTerm, less: ValueOrder, a: Row, b: Row) -> bool {
    !term_precedes(term, less, a, b) && !term_precedes(term, less, b, a)
}

/// Whether an `ORDER BY` clause puts row `a` before row `b`: the first term that does not leave
/// it open does.
pub open spec fn precedes(orders: Seq<OrderTerm>, less: ValueOrder, a: Row, b: Row) -> bool {
    exists|k: int|
        {
            &&& 0 <= k < orders.len()
            &&& term_precedes(#[trigger] orders[k], less, a, b)
            &&& forall|j: int| 0 <= j < k ==> term_ties(#[trigger] orders[j], less, a, b)
        }
}

/// Whether a statement is plain, and `picks` lists, by their positions in its table, rows that a
/// database may answer it with: rows that pass the filter, none of them twice, sorted, and as many
/// as there are up to the limit, so that no row that was left out belongs before one that was
/// picked.
pub open spec fn is_answer(
    query: SelectView,
    meaning: Meaning,
    less: ValueOrder,
    table: Seq<Row>,
    picks: Seq<int>,
) -> bool {
    &&& is_plain(query)
    &&& forall|i: int|
        0 <= i < picks.len() ==> 0 <= #[trigger] picks[i] < table.len() && query.filter.truth(
            meaning,
            table[picks[i]],
        ) is True
    &&& picks.no_duplicates()
    &&& forall|i: int, j: int|
        0 <= i < j < picks.len() ==> !precedes(
            query.orders,
            less,
            table[#[trigger] picks[j]],
            table[#[trigger] picks[i]],
        )
    &&& query.limit is Some ==> picks.len() <= query.limit->0
    &&& forall|q: int|
        0 <= q < table.len() && query.filter.truth(meaning, #[trigger] table[q]) is True
            && !picks.contains(q) ==> query.limit == Some(picks.len() as u64) && forall|i: int|
            0 <= i < picks.len() ==> !precedes(
                query.orders,
                less,
                table[q],
                table[#[trigger] picks[i]],
            )
}

/// Where one clause puts a pair of rows in order, so does another one that agrees with it term by
/// term on another pair.
proof fn lemma_precedes_by_terms(
    orders: Seq<OrderTerm>,
    a: Row,
    b: Row,
    others: Seq<OrderTerm>,
    c: Row,
    d: Row,
    less: ValueOrder,
)
    requires
        orders.len() == others.len(),
        forall|k: int|
            0 <= k < orders.len() ==> term_precedes(#[trigger] orders[k], less, a, b)
                == term_precedes(others[k], less, c, d),
        forall|k: int|
            0 <= k < orders.len() ==> term_precedes(#[trigger] orders[k], less, b, a)
                == term_precedes(others[k], less, d, c),
    ensures
        precedes(orders, less, a, b) ==> precedes(others, less, c, d),
{
    if precedes(orders, less, a, b) {
        let k = choose|k: int|
            {
                &&& 0 <= k < orders.len()
                &&& term_precedes(#[trigger] orders[k], less, a, b)
                &&& forall|j: int| 0 <= j < k ==> term_ties(#[trigger] orders[j], less, a, b)
            };
        assert(term_precedes(others[k], less, c, d));
        assert forall|j: int| 0 <= j < k implies term_ties(#[trigger] others[j], less, c, d) by {
            assert(term_ties(orders[j], less, a, b));
        }
    }
}

/// The descending order of the order columns is the ascending one turned round.
pub proof fn descending_is_ascending_reversed(
    cursor: CursorView,
    less: ValueOrder,
    a: Row,
    b: Row,
)
    ensures
        precedes(cursor.order_terms(Order::Desc), less, a, b) == precedes(
            cursor.order_terms(Order::Asc),
            less,
            b,
            a,
        ),
{
    let asc = cursor.order_terms(Order::Asc);
    let desc = cursor.order_terms(Order::Desc);
    lemma_precedes_by_terms(desc, a, b, asc, b, a, less);
    lemma_precedes_by_terms(asc, b, a, desc, a, b, less);
}

/// Whether the rows at `page`, in a table, are in ascending order of the order columns.
pub open spec fn is_ascending(
    cursor: CursorView,
    less: ValueOrder,
    table: Seq<Row>,
    page: Seq<int>,
) -> bool {
    forall|i: int, j: int|
        0 <= i < j < page.len() ==> !precedes(
            cursor.order_terms(Order::Asc),
            less,
            table[#[trigger] page[j]],
            table[#[trigger] page[i]],
        )
}

/// What a row shows through the select list of a statement: for each term of the list the value in
/// that column, and nothing for a term that is not a column, which is not interpreted.
pub open spec fn shown(query: SelectView, row: Row) -> Seq<Option<Value>> {
    Seq::new(
        query.selects.len(),
        |i: int|
            match query.selects[i] {
                SelectTerm::Column(column) => Some(row(column)),
                SelectTerm::Other(_) => None,
            },
    )
}

/// After `first` on a plain statement the page holds the first rows that pass the filter, in
/// ascending order and each showing what it showed before: where a row was left out, the page is
/// full and no row of it comes after that row.
pub proof fn first_page<T, E>(
    cursor: CursorView,
    num_rows: u64,
    meaning: Meaning,
    less: ValueOrder,
    table: Seq<Row>,
    picks: Seq<int>,
    converted: Seq<Result<T, E>>,
    page: Result<Vec<T>, E>,
)
    requires
        is_answer(cursor.first(num_rows).query, meaning, less, table, picks),
        converted.len() == picks.len(),
        is_page(converted, cursor.first(num_rows).last, page),
    ensures
        page matches Ok(items) ==> items@ == ok_values(converted),
        page matches Ok(items) ==> items@.len() == picks.len(),
        page matches Ok(items) ==> forall|i: int|
            0 <= i < picks.len() ==> converted[i] == Ok::<T, E>(#[trigger] items@[i]),
        cursor.first(num_rows).query.selects == cursor.query.selects,
        forall|i: int|
            0 <= i < picks.len() ==> shown(
                cursor.first(num_rows).query,
                table[#[trigger] picks[i]],
            ) == shown(cursor.query, table[picks[i]]),
        forall|i: int|
            0 <= i < picks.len() ==> cursor.query.filter.truth(
                meaning,
                table[#[trigger] picks[i]],
            ) is True,
        picks.len() <= num_rows,
        is_ascending(cursor, less, table, picks),
        forall|q: int|
            0 <= q < table.len() && cursor.query.filter.truth(meaning, #[trigger] table[q]) is True
                && !picks.contains(q) ==> picks.len() == num_rows && forall|i: int|
                0 <= i < picks.len() ==> !precedes(
                    cursor.order_terms(Order::Asc),
                    less,
                    table[q],
                    table[#[trigger] picks[i]],
                ),
{
}

/// After `last` on a plain statement the page holds the last rows that pass the filter, still in
/// ascending order and each showing what it showed before: where a row was left out, the page is
/// full and no row of it comes before that row.
pub proof fn last_page<T, E>(
    cursor: CursorView,
    num_rows: u64,
    meaning: Meaning,
    less: ValueOrder,
    table: Seq<Row>,
    picks: Seq<int>,
    converted: Seq<Result<T, E>>,
    page: Result<Vec<T>, E>,
)
    requires
        is_answer(cursor.last(num_rows).query, meaning, less, table, picks),
        converted.len() == picks.len(),
        is_page(converted, cursor.last(num_rows).last, page),
    ensures
        page matches Ok(items) ==> items@ == ok_values(converted).reverse(),
        page matches Ok(items) ==> items@.len() == picks.len(),
        page matches Ok(items) ==> forall|i: int|
            0 <= i < picks.len() ==> converted[picks.len() - 1 - i] == Ok::<T, E>(
                #[trigger] items@[i],
            ),
        cursor.last(num_rows).query.selects == cursor.query.selects,
        forall|i: int|
            0 <= i < picks.len() ==> shown(
                cursor.last(num_rows).query,
                table[#[trigger] picks[i]],
            ) == shown(cursor.query, table[picks[i]]),
        forall|i: int|
            0 <= i < picks.len() ==> cursor.query.filter.truth(
                meaning,
                table[#[trigger] picks[i]],
            ) is True,
        picks.len() <= num_rows,
        is_ascending(cursor, less, table, picks.reverse()),
        forall|q: int|
            0 <= q < table.len() && cursor.query.filter.truth(meaning, #[trigger] table[q]) is True
                && !picks.contains(q) ==> picks.len() == num_rows && forall|i: int|
                0 <= i < picks.len() ==> !precedes(
                    cursor.order_terms(Order::Asc),
                    less,
                    table[#[trigger] picks[i]],
                    table[q],
                ),
{
    let reversed = picks.reverse();
    let desc = cursor.order_terms(Order::Desc);
    assert forall|i: int, j: int| 0 <= i < j < reversed.len() implies !precedes(
        cursor.order_terms(Order::Asc),
        less,
        table[#[trigger] reversed[j]],
        table[#[trigger] reversed[i]],
    ) by {
        let n = picks.len();
        assert(reversed[i] == picks[n - 1 - i]);
        assert(reversed[j] == picks[n - 1 - j]);
        descending_is_ascending_reversed(cursor, less, table[reversed[i]], table[reversed[j]]);
    }
    assert forall|q: int|
        0 <= q < table.len() && cursor.query.filter.truth(meaning, #[trigger] table[q]) is True
            && !picks.contains(q) implies picks.len() == num_rows && forall|i: int|
        0 <= i < picks.len() ==> !precedes(
            cursor.order_terms(Order::Asc),
            less,
            table[#[trigger] picks[i]],
            table[q],
        ) by {
        assert forall|i: int| 0 <= i < picks.len() implies !precedes(
            cursor.order_terms(Order::Asc),
            less,
            table[#[trigger] picks[i]],
            table[q],
        ) by {
            descending_is_ascending_reversed(cursor, less, table[q], table[picks[i]]);
        }
    }
}

/// What answers one statement answers another one that differs from it in the select list alone.
proof fn lemma_same_answer(
    query: SelectView,
    other: SelectView,
    meaning: Meaning,
    less: ValueOrder,
    table: Seq<Row>,
    picks: Seq<int>,
)
    requires
        query.from == other.from,
        query.filter == other.filter,
        query.orders == other.orders,
        query.limit == other.limit,
        query.rest == other.rest,
        is_answer(query, meaning, less, table, picks),
    ensures
        is_answer(other, meaning, less, table, picks),
{
}

/// A statement picks the same rows whatever its select list is.
pub proof fn selecting_keeps_answers(
    cursor: CursorView,
    selects: Seq<SelectTerm>,
    meaning: Meaning,
    less: ValueOrder,
    table: Seq<Row>,
    picks: Seq<int>,
)
    ensures
        is_answer(
            SelectView { selects, ..cursor.select_only().query },
            meaning,
            less,
            table,
            picks,
        ) == is_answer(cursor.query, meaning, less, table, picks),
        is_answer(cursor.select_only().query, meaning, less, table, picks) == is_answer(
            cursor.query,
            meaning,
            less,
            table,
            picks,
        ),
{
    let cleared = cursor.select_only().query;
    let selected = SelectView { selects, ..cleared };
    if is_answer(cursor.query, meaning, less, table, picks) {
        lemma_same_answer(cursor.query, selected, meaning, less, table, picks);
        lemma_same_answer(cursor.query, cleared, meaning, less, table, picks);
    }
    if is_answer(selected, meaning, less, table, picks) {
        lemma_same_answer(selected, cursor.query, meaning, less, table, picks);
    }
    if is_answer(cleared, meaning, less, table, picks) {
        lemma_same_answer(cleared, cursor.query, meaning, less, table, picks);
    }
}

/// The page of a partial model, whose own columns took the place of the select list after `last`,
/// is the last page as well: it has an item for each row that was picked, from the one that was
/// picked last to the one that was picked first, which is in ascending order. Where a row was left
/// out, the page is full and no row of it comes before that row.
pub proof fn last_page_of_partial_model<T, E>(
    cursor: CursorView,
    num_rows: u64,
    selects: Seq<SelectTerm>,
    meaning: Meaning,
    less: ValueOrder,
    table: Seq<Row>,
    picks: Seq<int>,
    converted: Seq<Result<T, E>>,
    page: Result<Vec<T>, E>,
)
    requires
        is_answer(
            SelectView { selects, ..cursor.last(num_rows).select_only().query },
            meaning,
            less,
            table,
            picks,
        ),
        converted.len() == picks.len(),
        is_page(converted, cursor.last(num_rows).select_only().last, page),
    ensures
        page matches Ok(items) ==> items@.len() == picks.len(),
        page matches Ok(items) ==> forall|i: int|
            0 <= i < picks.len() ==> converted[picks.len() - 1 - i] == Ok::<T, E>(
                #[trigger] items@[i],
            ),
        picks.len() <= num_rows,
        is_ascending(cursor, less, table, picks.reverse()),
        forall|q: int|
            0 <= q < table.len() && cursor.query.filter.truth(meaning, #[trigger] table[q]) is True
                && !picks.contains(q) ==> picks.len() == num_rows && forall|i: int|
                0 <= i < picks.len() ==> !precedes(
                    cursor.order_terms(Order::Asc),
                    less,
                    table[#[trigger] picks[i]],
                    table[q],
                ),
{
    selecting_keeps_answers(cursor.last(num_rows), selects, meaning, less, table, picks);
    last_page(cursor, num_rows, meaning, less, table, picks, converted, page);
}

/// The page of a partial model, whose own columns took the place of the select list after `first`,
/// is the first page as well: it has an item for each row that was picked, in the order that they
/// were picked in, which is ascending. Where a row was left out, the page is full and no row of it
/// comes after that row.
pub proof fn first_page_of_partial_model<T, E>(
    cursor: CursorView,
    num_rows: u64,
    selects: Seq<SelectTerm>,
    meaning: Meaning,
    less: ValueOrder,
    table: Seq<Row>,
    picks: Seq<int>,
    converted: Seq<Result<T, E>>,
    page: Result<Vec<T>, E>,
)
    requires
        is_answer(
            SelectView { selects, ..cursor.first(num_rows).select_only().query },
            meaning,
            less,
            table,
            picks,
        ),
        converted.len() == picks.len(),
        is_page(converted, cursor.first(num_rows).select_only().last, page),
    ensures
        page matches Ok(items) ==> items@.len() == picks.len(),
        page matches Ok(items) ==> forall|i: int|
            0 <= i < picks.len() ==> converted[i] == Ok::<T, E>(#[trigger] items@[i]),
        picks.len() <= num_rows,
        is_ascending(cursor, less, table, picks),
        forall|q: int|
            0 <= q < table.len() && cursor.query.filter.truth(meaning, #[trigger] table[q]) is True
                && !picks.contains(q) ==> picks.len() == num_rows && forall|i: int|
                0 <= i < picks.len() ==> !precedes(
                    cursor.order_terms(Order::Asc),
                    less,
                    table[q],
                    table[#[trigger] picks[i]],
                ),
{
    selecting_keeps_answers(cursor.first(num_rows), selects, meaning, less, table, picks);
    first_page(cursor, num_rows, meaning, less, table, picks, converted, page);
}

/// Each row of a page shows every column of its table: a cursor over the columns of a table,
/// narrowed by a key and limited from either end, shows for each of the columns, in their order,
/// the value that the row holds in it.
pub proof fn pages_show_every_column(
    query: SelectStatement,
    columns: Seq<Seq<char>>,
    cursor: CursorView,
    values: ValueTuple,
    op: Op,
    num_rows: u64,
    row: Row,
)
    requires
        selects_columns(query, cursor.table, columns),
        cursor.query == select_view(query),
    ensures
        ({
            let forwards = shown(cursor.narrowed(values, op).first(num_rows).query, row);
            let backwards = shown(cursor.narrowed(values, op).last(num_rows).query, row);
            &&& forwards.len() == columns.len()
            &&& backwards.len() == columns.len()
            &&& forall|i: int|
                0 <= i < columns.len() ==> {
                    let value = row(
                        ColumnName { table: cursor.table, column: #[trigger] columns[i] },
                    );
                    forwards[i] == Some(value) && backwards[i] == Some(value)
                }
        }),
{
}

/// A cursor over one table stays plain: `first` and `last` put an order by columns in place of
/// whatever order there was.
pub proof fn limited_cursors_are_plain(cursor: CursorView, num_rows: u64)
    requires
        cursor.query.from.len() == 1,
        cursor.query.from[0] is Table,
        cursor.query.rest is None,
    ensures
        is_plain(cursor.first(num_rows).query),
        is_plain(cursor.last(num_rows).query),
{
}

/// The same rows make the same page from either end: fetched forwards and kept as they are, or
/// fetched backwards and turned round. It is so unless two rows fail to convert with different
/// errors, of which each end meets another one first.
pub proof fn ends_agree<T, E>(
    converted: Seq<Result<T, E>>,
    forwards: Result<Vec<T>, E>,
    backwards: Result<Vec<T>, E>,
)
    requires
        forall|i: int, j: int|
            0 <= i < converted.len() && 0 <= j < converted.len() && (#[trigger] converted[i]) is Err
                && (#[trigger] converted[j]) is Err ==> converted[i] == converted[j],
        is_page(converted, false, forwards),
        is_page(converted.reverse(), true, backwards),
    ensures
        match (forwards, backwards) {
            (Ok(items), Ok(turned)) => items@ == turned@,
            (Err(err), Err(met)) => err == met,
            _ => false,
        },
{
    let turned = converted.reverse();
    let n = converted.len();
    assert forall|i: int| 0 <= i < n implies #[trigger] converted[i] == turned[n - 1 - i] by {}
    assert forall|i: int| 0 <= i < n implies #[trigger] turned[i] == converted[n - 1 - i] by {}
    assert(ok_values(turned).reverse() =~= ok_values(converted));
}

/// Whether a database compares two values in conditions as it sorts them.
pub open spec fn sorted_as_compared(
    meaning: Meaning,
    less: ValueOrder,
    left: Value,
    right: Value,
) -> bool {
    &&& (meaning.compare)(Op::Lt, left, right) is True <==> less(left, right)
    &&& (meaning.compare)(Op::Gt, left, right) is True <==> less(right, left)
    &&& (meaning.compare)(Op::Eq, left, right) is True <==> !less(left, right) && !less(
        right,
        left,
    )
}

/// The ascending order puts `a` before `b` where the order columns of `row` compare with the values
/// by `op`, if that is so column by column.
proof fn lemma_precedes_is_key_compares(
    cursor: CursorView,
    values: ValueTuple,
    op: Op,
    meaning: Meaning,
    less: ValueOrder,
    a: Row,
    b: Row,
    row: Row,
)
    requires
        forall|k: int|
            0 <= k < cursor.order_columns.names().len() ==> {
                let term = #[trigger] cursor.order_terms(Order::Asc)[k];
                &&& term_precedes(term, less, a, b) == column_holds(
                    cursor,
                    values,
                    op,
                    meaning,
                    row,
                    k,
                )
                &&& term_ties(term, less, a, b) == column_holds(
                    cursor,
                    values,
                    Op::Eq,
                    meaning,
                    row,
                    k,
                )
            },
    ensures
        precedes(cursor.order_terms(Order::Asc), less, a, b) == key_compares(
            cursor,
            values,
            op,
            meaning,
            row,
        ),
{
    let asc = cursor.order_terms(Order::Asc);
    if precedes(asc, less, a, b) {
        let k = choose|k: int|
            {
                &&& 0 <= k < asc.len()
                &&& term_precedes(#[trigger] asc[k], less, a, b)
                &&& forall|j: int| 0 <= j < k ==> term_ties(#[trigger] asc[j], less, a, b)
            };
        assert(column_holds(cursor, values, op, meaning, row, k));
        assert forall|j: int| 0 <= j < k implies #[trigger] column_holds(
            cursor,
            values,
            Op::Eq,
            meaning,
            row,
            j,
        ) by {
            assert(term_ties(asc[j], less, a, b));
        }
    }
    if key_compares(cursor, values, op, meaning, row) {
        let k = choose|k: int|
            {
                &&& 0 <= k < cursor.order_columns.names().len()
                &&& #[trigger] column_holds(cursor, values, op, meaning, row, k)
                &&& forall|j: int|
                    0 <= j < k ==> #[trigger] column_holds(
                        cursor,
                        values,
                        Op::Eq,
                        meaning,
                        row,
                        j,
                    )
            };
        assert(term_precedes(asc[k], less, a, b));
        assert forall|j: int| 0 <= j < k implies term_ties(#[trigger] asc[j], less, a, b) by {
            assert(column_holds(cursor, values, Op::Eq, meaning, row, j));
        }
    }
}

/// Pages continue one another: with the order columns of a row as the values, `after` keeps
/// exactly the rows that come after that row, and `before` exactly those that come before it.
pub proof fn pages_continue(
    cursor: CursorView,
    values: ValueTuple,
    meaning: Meaning,
    less: ValueOrder,
    at: Row,
    row: Row,
)
    requires
        forall|k: int|
            0 <= k < cursor.order_columns.names().len() ==> tuple_values(values)[k] == at(
                #[trigger] key_column(cursor, k),
            ),
        forall|k: int|
            0 <= k < cursor.order_columns.names().len() ==> sorted_as_compared(
                meaning,
                less,
                row(#[trigger] key_column(cursor, k)),
                tuple_values(values)[k],
            ),
    ensures
        cursor.key_cond(values, Op::Gt).truth(meaning, row) is True <==> precedes(
            cursor.order_terms(Order::Asc),
            less,
            at,
            row,
        ),
        cursor.key_cond(values, Op::Lt).truth(meaning, row) is True <==> precedes(
            cursor.order_terms(Order::Asc),
            less,
            row,
            at,
        ),
{
    key_cond_is_lexicographic(cursor, values, Op::Gt, meaning, row);
    key_cond_is_lexicographic(cursor, values, Op::Lt, meaning, row);
    assert forall|k: int| 0 <= k < cursor.order_columns.names().len() implies sorted_as_compared(
        meaning,
        less,
        row(#[trigger] cursor.order_terms(Order::Asc)[k]->Column_column),
        tuple_values(values)[k],
    ) by {
        assert(cursor.order_terms(Order::Asc)[k]->Column_column == key_column(cursor, k));
    }
    lemma_precedes_is_key_compares(cursor, values, Op::Gt, meaning, less, at, row, row);
    lemma_precedes_is_key_compares(cursor, values, Op::Lt, meaning, less, row, at, row);
}

} // verus!
