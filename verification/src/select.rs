//! Select statements over entities, and the traits around them.

use sea_query::SelectStatement;
use std::marker::PhantomData;
use vstd::prelude::*;

use crate::model::{ColumnName, DbBackend, Filter, SelectTerm, SelectView, TableTerm};
use crate::statement::{
    can_build, keeps_dialects, new_select, select_column, select_from, select_view,
};

verus! {

/// A table whose rows have a model.
pub trait EntityTrait {
    /// What a row becomes.
    type Model;

    /// The name of the table.
    fn table_name() -> String;

    /// The names of the columns, in the order they are selected in.
    fn columns() -> Vec<String>;
}

/// A statement that selects the rows of an entity.
pub struct Select<E> {
    pub(crate) query: SelectStatement,
    pub(crate) entity: PhantomData<E>,
}

impl<E> Select<E> {
    /// The statement.
    pub closed spec fn statement(self) -> SelectStatement {
        self.query
    }
}

impl<E> View for Select<E> {
    type V = SelectView;

    open spec fn view(&self) -> SelectView {
        select_view(self.statement())
    }
}

impl<E> Select<E> {
    /// Gives the statement.
    pub(crate) fn into_statement(self) -> (query: SelectStatement)
        ensures
            query == self.statement(),
    {
        self.query
    }
}

/// The select list that names the given columns of a table.
pub open spec fn column_terms(table: Seq<char>, columns: Seq<Seq<char>>) -> Seq<SelectTerm> {
    Seq::new(
        columns.len(),
        |i: int| SelectTerm::Column(ColumnName { table, column: columns[i] }),
    )
}

/// Whether `query` selects the given columns of a table, and holds nothing else.
pub open spec fn selects_columns(
    query: SelectStatement,
    table: Seq<char>,
    columns: Seq<Seq<char>>,
) -> bool {
    let view = select_view(query);
    &&& view.selects == column_terms(table, columns)
    &&& view.from == seq![TableTerm::Table(table)]
    &&& view.filter is Empty
    &&& view.orders.len() == 0
    &&& view.limit is None
    &&& view.rest is None
    &&& forall|backend: DbBackend| #[trigger] can_build(query, backend)
}

/// The statement that selects the given columns of a table.
pub fn select_columns(table: &String, columns: &Vec<String>) -> (query: SelectStatement)
    ensures
        selects_columns(query, table@, columns@.map_values(|name: String| name@)),
        select_view(query).selects.len() == columns@.len(),
        forall|i: int|
            0 <= i < columns@.len() ==> #[trigger] select_view(query).selects[i]
                == SelectTerm::Column(ColumnName { table: table@, column: columns@[i]@ }),
        select_view(query).from == seq![TableTerm::Table(table@)],
        select_view(query).filter is Empty,
        select_view(query).orders.len() == 0,
        select_view(query).limit is None,
        select_view(query).rest is None,
        forall|backend: DbBackend| #[trigger] can_build(query, backend),
{
    let ghost terms = column_terms(table@, columns@.map_values(|name: String| name@));
    let mut query = new_select();
    assert(terms.take(0) =~= seq![]);
    let mut i: usize = 0;
    while i < columns.len()
        invariant
            i <= columns.len(),
            terms == column_terms(table@, columns@.map_values(|name: String| name@)),
            select_view(query) == (SelectView {
                selects: terms.take(i as int),
                from: seq![],
                filter: Filter::Empty,
                orders: seq![],
                limit: None,
                rest: None,
            }),
            forall|backend: DbBackend| #[trigger] can_build(query, backend),
        decreases columns.len() - i,
    {
        let ghost before = query;
        select_column(&mut query, table.as_str(), columns[i].as_str());
        assert(terms.take(i as int).push(terms[i as int]) =~= terms.take(i + 1));
        assert forall|backend: DbBackend| #[trigger] can_build(query, backend) by {
            assert(can_build(before, backend));
        }
        i += 1;
    }
    assert(terms.take(i as int) =~= terms);
    let ghost before = query;
    select_from(&mut query, table.as_str());
    assert forall|backend: DbBackend| #[trigger] can_build(query, backend) by {
        assert(can_build(before, backend));
    }
    assert(select_view(query).from =~= seq![TableTerm::Table(table@)]);
    query
}

impl<E: EntityTrait> Select<E> {
    /// Select all the columns of the entity
    pub fn new() -> (select: Self)
        ensures
            exists|table: String, columns: Vec<String>|
                {
                    &&& #[trigger] call_ensures(E::table_name, (), table)
                    &&& #[trigger] call_ensures(E::columns, (), columns)
                    &&& selects_columns(
                        select.statement(),
                        table@,
                        columns@.map_values(|name: String| name@),
                    )
                },
    {
        let table = E::table_name();
        let columns = E::columns();
        Select { query: select_columns(&table, &columns), entity: PhantomData }
    }
}

/// A statement that can be told what to select.
pub trait QuerySelect: Sized {
    /// The kind of statement.
    type QueryStatement;

    /// The statement.
    spec fn query_spec(&self) -> SelectStatement;

    /// Gives the statement for modification.
    fn query(&mut self) -> (query: &mut SelectStatement)
        ensures
            *query == old(self).query_spec(),
            final(self).query_spec() == *final(query),
    ;

    /// Clear the select list
    fn select_only(self) -> (cleared: Self)
        ensures
            select_view(cleared.query_spec()) == (SelectView {
                selects: seq![],
                ..select_view(self.query_spec())
            }),
            keeps_dialects(self.query_spec(), cleared.query_spec()),
    ;
}

/// A type that can be made from a row `R` of a query result.
pub trait FromQueryResult<R>: Sized {
    /// What goes wrong where a row does not fit.
    type Err;

    /// Makes a value from a row, whose column names start with `pre`.
    fn from_query_result(res: &R, pre: &str) -> Result<Self, Self::Err>;
}

/// Says what the rows `R` of a query result become.
pub trait SelectorTrait<R> {
    /// What a row becomes.
    type Item;

    /// What goes wrong where a row does not fit.
    type Err;

    /// Converts a row.
    fn from_raw_query_result(res: R) -> Result<Self::Item, Self::Err>;
}

/// Rows become models.
#[derive(Debug)]
pub struct SelectModel<M> {
    pub(crate) model: PhantomData<M>,
}

impl<R, M: FromQueryResult<R>> SelectorTrait<R> for SelectModel<M> {
    type Item = M;

    type Err = M::Err;

    fn from_raw_query_result(res: R) -> (item: Result<M, M::Err>)
        ensures
            exists|pre: &str|
                #[trigger] call_ensures(M::from_query_result, (&res, pre), item) && pre@.len() == 0,
    {
        let pre = "";
        proof {
            reveal_strlit("");
        }
        M::from_query_result(&res, pre)
    }
}

/// A model that selects its own columns.
pub trait PartialModelTrait {
    /// Adds the columns of the model to the select list.
    fn select_cols<Q: QuerySelect>(select: Q) -> Q;
}

} // verus!
