//! What a select statement says, as mathematical values, and what it means for a row.

use sea_query::{
    ConditionHolder, Order, OrderExpr, SelectExpr, SelectStatement, SimpleExpr, TableRef, Value,
};
use vstd::prelude::*;

verus! {

/// The database whose SQL dialect a statement is written in.
#[derive(Clone, Copy, PartialEq, Eq, Structural, Debug)]
pub enum DbBackend {
    MySql,
    Postgres,
    Sqlite,
}

/// A comparison between a column and a value.
#[derive(Clone, Copy, PartialEq, Eq, Structural, Debug)]
pub enum Op {
    /// `=`
    Eq,
    /// `<`
    Lt,
    /// `>`
    Gt,
}

/// How the members of a condition are joined.
#[derive(Clone, Copy, PartialEq, Eq, Structural, Debug)]
pub enum Junction {
    /// By `OR`.
    Any,
    /// By `AND`.
    All,
}

/// A column, qualified by its table.
pub struct ColumnName {
    pub table: Seq<char>,
    pub column: Seq<char>,
}

/// An expression in a condition.
pub enum Term {
    /// A column compared with a value.
    Compare { column: ColumnName, op: Op, value: Value },
    /// Any other expression.
    Other(SimpleExpr),
}

/// A member of a condition.
pub enum Item {
    Nested(Cond),
    Expr(Term),
}

/// A condition: its members, how they are joined, and whether the whole is negated.
pub struct Cond {
    pub junction: Junction,
    pub negate: bool,
    pub items: Seq<Item>,
}

/// The `WHERE` clause of a statement.
pub enum Filter {
    /// No clause.
    Empty,
    /// A condition.
    Tree(Cond),
    /// A chain of operands, which no condition can be added to.
    Chain(ConditionHolder),
}

/// One term of an `ORDER BY` clause.
pub enum OrderTerm {
    Column { column: ColumnName, order: Order },
    Other(OrderExpr),
}

/// One term of the select list.
pub enum SelectTerm {
    Column(ColumnName),
    Other(SelectExpr),
}

/// One term of the `FROM` clause.
pub enum TableTerm {
    Table(Seq<char>),
    Other(TableRef),
}

/// A select statement, taken apart. `rest` is what the statement holds beside the parts named here,
/// such as joins and groups, if it holds anything else.
pub struct SelectView {
    pub selects: Seq<SelectTerm>,
    pub from: Seq<TableTerm>,
    pub filter: Filter,
    pub orders: Seq<OrderTerm>,
    pub limit: Option<u64>,
    pub rest: Option<SelectStatement>,
}

impl Cond {
    /// The condition without members.
    pub open spec fn empty(junction: Junction) -> Cond {
        Cond { junction, negate: false, items: seq![] }
    }

    /// This condition with one more member at its end.
    pub open spec fn push(self, item: Item) -> Cond {
        Cond { items: self.items.push(item), ..self }
    }

    /// This condition as a member of another one: a lone member that is not negated stands for
    /// the whole.
    pub open spec fn as_item(self) -> Item {
        if self.items.len() == 1 && !self.negate {
            self.items[0]
        } else {
            Item::Nested(self)
        }
    }

    /// Whether this is a conjunction that is not negated.
    pub open spec fn is_conjunction(self) -> bool {
        self.junction == Junction::All && !self.negate
    }

    /// Whether every expression in this condition compares a column with a value.
    pub open spec fn only_compares(self) -> bool
        decreases self,
    {
        forall|i: int| 0 <= i < self.items.len() ==> (#[trigger] self.items[i]).only_compares()
    }
}

impl Item {
    /// Whether every expression in this member compares a column with a value.
    pub open spec fn only_compares(self) -> bool
        decreases self,
    {
        match self {
            Item::Nested(cond) => cond.only_compares(),
            Item::Expr(term) => term is Compare,
        }
    }
}

impl Filter {
    /// This clause conjoined with `addition`.
    pub open spec fn and(self, addition: Cond) -> Filter {
        match self {
            Filter::Empty => Filter::Tree(addition),
            Filter::Tree(current) => if current.is_conjunction() {
                if addition.is_conjunction() {
                    Filter::Tree(Cond { items: current.items + addition.items, ..current })
                } else {
                    Filter::Tree(current.push(addition.as_item()))
                }
            } else {
                Filter::Tree(
                    Cond::empty(Junction::All).push(current.as_item()).push(addition.as_item()),
                )
            },
            Filter::Chain(_) => self,
        }
    }
}

/// The three truth values of SQL.
pub enum Truth {
    True,
    False,
    Unknown,
}

impl Truth {
    /// `NOT`: an unknown truth stays unknown.
    pub open spec fn not(self) -> Truth {
        match self {
            Truth::True => Truth::False,
            Truth::False => Truth::True,
            Truth::Unknown => Truth::Unknown,
        }
    }

    /// `AND` of two truths.
    pub open spec fn and(self, other: Truth) -> Truth {
        if self is True && other is True {
            Truth::True
        } else if self is False || other is False {
            Truth::False
        } else {
            Truth::Unknown
        }
    }
}

/// A row: the value that it holds in each column.
pub type Row = spec_fn(ColumnName) -> Value;

/// How a database reads expressions.
pub struct Meaning {
    /// The truth of a comparison between two values.
    pub compare: spec_fn(Op, Value, Value) -> Truth,
    /// The truth of any other expression on a row.
    pub other: spec_fn(SimpleExpr, Row) -> Truth,
    /// The truth of a chain of operands on a row.
    pub chain: spec_fn(ConditionHolder, Row) -> Truth,
}

impl Term {
    /// The truth of this expression on a row.
    pub open spec fn truth(self, meaning: Meaning, row: Row) -> Truth {
        match self {
            Term::Compare { column, op, value } => (meaning.compare)(op, row(column), value),
            Term::Other(expr) => (meaning.other)(expr, row),
        }
    }
}

impl Item {
    /// The truth of this member on a row.
    pub open spec fn truth(self, meaning: Meaning, row: Row) -> Truth
        decreases self,
    {
        match self {
            Item::Nested(cond) => cond.truth(meaning, row),
            Item::Expr(term) => term.truth(meaning, row),
        }
    }
}

impl Cond {
    /// The truth of this condition on a row. Without members, a conjunction is true and a
    /// disjunction is false.
    pub open spec fn truth(self, meaning: Meaning, row: Row) -> Truth
        decreases self,
    {
        let all_true = forall|i: int|
            0 <= i < self.items.len() ==> (#[trigger] self.items[i]).truth(meaning, row) is True;
        let all_false = forall|i: int|
            0 <= i < self.items.len() ==> (#[trigger] self.items[i]).truth(meaning, row) is False;
        let some_true = exists|i: int|
            0 <= i < self.items.len() && (#[trigger] self.items[i]).truth(meaning, row) is True;
        let some_false = exists|i: int|
            0 <= i < self.items.len() && (#[trigger] self.items[i]).truth(meaning, row) is False;
        let joined = match self.junction {
            Junction::All => if all_true {
                Truth::True
            } else if some_false {
                Truth::False
            } else {
                Truth::Unknown
            },
            Junction::Any => if some_true {
                Truth::True
            } else if all_false {
                Truth::False
            } else {
                Truth::Unknown
            },
        };
        if self.negate {
            joined.not()
        } else {
            joined
        }
    }
}

impl Filter {
    /// The truth of this clause on a row. A statement keeps the rows on which it is true.
    pub open spec fn truth(self, meaning: Meaning, row: Row) -> Truth {
        match self {
            Filter::Empty => Truth::True,
            Filter::Tree(cond) => cond.truth(meaning, row),
            Filter::Chain(chain) => (meaning.chain)(chain, row),
        }
    }
}

/// A comparison as a member of a condition.
pub open spec fn compare_item(
    table: Seq<char>,
    column: Seq<char>,
    op: Op,
    value: Value,
) -> Item {
    Item::Expr(Term::Compare { column: ColumnName { table, column }, op, value })
}

/// The conjunction over the first `n` columns: each but the last of them equals its value, and
/// the last one compares with its value by `op`.
pub open spec fn prefix_cond(
    table: Seq<char>,
    columns: Seq<Seq<char>>,
    values: Seq<Value>,
    op: Op,
    n: nat,
) -> Cond {
    Cond {
        junction: Junction::All,
        negate: false,
        items: Seq::new(
            n,
            |i: int|
                compare_item(
                    table,
                    columns[i],
                    if i + 1 == n {
                        op
                    } else {
                        Op::Eq
                    },
                    values[i],
                ),
        ),
    }
}

/// The disjunction of the conjunctions over ever shorter prefixes of the columns, from all of
/// them down to the first alone.
pub open spec fn lexicographic_cond(
    table: Seq<char>,
    columns: Seq<Seq<char>>,
    values: Seq<Value>,
    op: Op,
) -> Cond {
    Cond {
        junction: Junction::Any,
        negate: false,
        items: Seq::new(
            columns.len(),
            |i: int|
                prefix_cond(table, columns, values, op, (columns.len() - i) as nat).as_item(),
        ),
    }
}

} // verus!
