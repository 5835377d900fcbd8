//! Statements that can be ordered.

use sea_query::SelectStatement;
use vstd::prelude::*;

use crate::cursor::{Cursor, CursorView};
use crate::statement::select_view;

verus! {

/// A statement that can be told how to order its rows.
pub trait QueryOrder: Sized {
    /// The kind of statement.
    type QueryStatement;

    /// The statement.
    spec fn query_spec(&self) -> SelectStatement;

    /// Gives the statement for modification.
    fn query(&mut self) -> (query: &mut SelectStatement)
        ensures
            *query == old(self).query_spec(),
            final(self).query_spec() == *final(query),
    ;
}

impl<S> QueryOrder for Cursor<S> {
    type QueryStatement = SelectStatement;

    open spec fn query_spec(&self) -> SelectStatement {
        self.statement()
    }

    fn query(&mut self) -> (query: &mut SelectStatement)
        ensures
            *query == old(self).statement(),
            final(self).statement() == *final(query),
            final(self)@ == (CursorView { query: select_view(*final(query)), ..old(self)@ }),
    {
        self.statement_mut()
    }
}

} // verus!
