# wyrtloom-store-sqlite

A document store over SQLite, verified with Verus.

- A collection is a table of `id TEXT PRIMARY KEY, doc TEXT`, the document as JSON text.
- A declared field of the documents has an index over `json_extract(doc, '$.<field>')`, and is
  the only kind of field that can be queried by value.
- Declared collections are recorded in the catalog `__wyrtloom_collections` and restored when
  the database is opened.

## Layout

| | |
|---|---|
| `src/store.rs` | the store and its operations |
| `src/model.rs` | what each operation does, as a relation between states |
| `src/answers.rs` | what is handed to SQLite, what it answers, and when a database obeys |
| `src/consistency.rs` | what the operations do to a database that obeys, and why the store stays consistent |
| `src/laws.rs`, `src/opening.rs`, `src/runs.rs` | what holds of the operations together, of opening, and of any sequence of calls |
| `src/plan.rs`, `src/rows.rs`, `src/collections.rs` | from a query to a statement, from rows to records, and from the catalog to collections |
| `src/sql.rs`, `src/identifier.rs` | the SQL texts and the names that may stand in them |
| `src/json.rs`, `src/sqlite.rs` | the calls into `serde_json` and `rusqlite` |
| `src/database.rs` | what a database holds and what a statement does to it |
| `src/persistence.rs`, `src/text.rs` | what callers hand in and get back; text helpers |
| `app/` | the store behind a lock |

## What is taken on trust

The contracts of the functions marked `external_body` in `src/json.rs`, `src/sqlite.rs` and
`src/collections.rs`, and of the copy of a `serde_json::Number`.

The state of a store records the path that it was opened at and every statement that was handed to SQLite, with its values and with
what SQLite answered. For any database the contracts fix which statements are handed over, and what
is returned and declared for each answer. What the database holds is known for a store in memory,
which no other connection can reach. For a database at a path the laws take it as an assumption that
nobody else writes to it: that what was handed over was *obeyed*.
