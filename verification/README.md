# sea_cursor

Cursor pagination over `sea_query` select statements, verified with Verus.

A `Cursor` takes a select statement and the columns it is paged by. `before` and `after` narrow it
to the rows on one side of a key, `first` and `last` limit it to the rows at one end, and `all`
puts the rows that come back in ascending order.

- `src/cursor.rs`: the cursor.
- `src/identity.rs`: the order columns.
- `src/select.rs`, `src/query_order.rs`: select statements over entities, and the traits around
  them.
- `src/model.rs`: what a statement says, as mathematical values, and what it means for a row.
- `src/statement.rs`: the calls into `sea_query` and what is taken for granted of each.
- `src/laws.rs`: what holds of cursors as a whole.
- `app/`: fetching pages over a database connection.
