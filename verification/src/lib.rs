//! Cursor pagination over SQL `SELECT` statements.
//!
//! A [`Cursor`](cursor::Cursor) takes a `sea_query` select statement together with the columns it
//! is paged by. It narrows the statement to the rows before or after a key, orders it, limits it,
//! and puts the rows that come back in ascending order.

use vstd::prelude::*;

pub mod cursor;
pub mod identity;
pub mod laws;
pub mod model;
pub mod parts;
pub mod query_order;
pub mod select;
pub mod statement;
