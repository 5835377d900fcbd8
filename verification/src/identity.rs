//! The columns a cursor is ordered by.

use sea_query::{Value, ValueTuple};
use vstd::prelude::*;

verus! {

/// One or more column names.
#[derive(Debug)]
pub enum Identity {
    /// One column.
    Unary(String),
    /// Two columns.
    Binary(String, String),
    /// Three columns.
    Ternary(String, String, String),
    /// Any number of columns.
    Many(Vec<String>),
}

/// The names in an [`Identity`].
pub enum IdentityView {
    Unary(Seq<char>),
    Binary(Seq<char>, Seq<char>),
    Ternary(Seq<char>, Seq<char>, Seq<char>),
    Many(Seq<Seq<char>>),
}

impl View for Identity {
    type V = IdentityView;

    open spec fn view(&self) -> IdentityView {
        match self {
            Identity::Unary(c1) => IdentityView::Unary(c1@),
            Identity::Binary(c1, c2) => IdentityView::Binary(c1@, c2@),
            Identity::Ternary(c1, c2, c3) => IdentityView::Ternary(c1@, c2@, c3@),
            Identity::Many(names) => IdentityView::Many(names@.map_values(|name: String| name@)),
        }
    }
}

impl Clone for Identity {
    fn clone(&self) -> (copy: Self)
        ensures
            copy@ == self@,
    {
        let copy = match self {
            Identity::Unary(c1) => Identity::Unary(c1.clone()),
            Identity::Binary(c1, c2) => Identity::Binary(c1.clone(), c2.clone()),
            Identity::Ternary(c1, c2, c3) => Identity::Ternary(c1.clone(), c2.clone(), c3.clone()),
            Identity::Many(names) => Identity::Many(names.clone()),
        };
        assert(copy@.names() =~= self@.names());
        copy
    }
}

impl IdentityView {
    /// The names in order.
    pub open spec fn names(self) -> Seq<Seq<char>> {
        match self {
            IdentityView::Unary(c1) => seq![c1],
            IdentityView::Binary(c1, c2) => seq![c1, c2],
            IdentityView::Ternary(c1, c2, c3) => seq![c1, c2, c3],
            IdentityView::Many(names) => names,
        }
    }

    /// Whether `values` gives one value to each of these columns, in the form that fits them.
    pub open spec fn fits(self, values: ValueTuple) -> bool {
        match (self, values) {
            (IdentityView::Unary(..), ValueTuple::One(..)) => true,
            (IdentityView::Binary(..), ValueTuple::Two(..)) => true,
            (IdentityView::Ternary(..), ValueTuple::Three(..)) => true,
            (IdentityView::Many(names), ValueTuple::Many(vals)) => names.len() == vals@.len(),
            _ => false,
        }
    }
}

/// The values of a tuple in order.
pub open spec fn tuple_values(values: ValueTuple) -> Seq<Value> {
    match values {
        ValueTuple::One(v1) => seq![v1],
        ValueTuple::Two(v1, v2) => seq![v1, v2],
        ValueTuple::Three(v1, v2, v3) => seq![v1, v2, v3],
        ValueTuple::Many(vals) => vals@,
    }
}

impl Identity {
    /// Whether `values` gives one value to each of these columns, in the form that fits them.
    pub fn fits(&self, values: &ValueTuple) -> (fits: bool)
        ensures
            fits == self@.fits(*values),
    {
        match (self, values) {
            (Identity::Unary(_), ValueTuple::One(_)) => true,
            (Identity::Binary(_, _), ValueTuple::Two(_, _)) => true,
            (Identity::Ternary(_, _, _), ValueTuple::Three(_, _, _)) => true,
            (Identity::Many(names), ValueTuple::Many(vals)) => names.len() == vals.len(),
            _ => false,
        }
    }
}

/// Anything that names columns.
pub trait IntoIdentity: Sized {
    /// The names.
    spec fn identity(self) -> IdentityView;

    /// Gives the names as an [`Identity`].
    fn into_identity(self) -> (identity: Identity)
        ensures
            identity@ == self.identity(),
    ;
}

impl IntoIdentity for Identity {
    open spec fn identity(self) -> IdentityView {
        self@
    }

    fn into_identity(self) -> (identity: Identity) {
        self
    }
}

impl IntoIdentity for String {
    open spec fn identity(self) -> IdentityView {
        IdentityView::Unary(self@)
    }

    fn into_identity(self) -> (identity: Identity) {
        Identity::Unary(self)
    }
}

impl IntoIdentity for (String, String) {
    open spec fn identity(self) -> IdentityView {
        IdentityView::Binary(self.0@, self.1@)
    }

    fn into_identity(self) -> (identity: Identity) {
        Identity::Binary(self.0, self.1)
    }
}

impl IntoIdentity for (String, String, String) {
    open spec fn identity(self) -> IdentityView {
        IdentityView::Ternary(self.0@, self.1@, self.2@)
    }

    fn into_identity(self) -> (identity: Identity) {
        Identity::Ternary(self.0, self.1, self.2)
    }
}

} // verus!
