//! The calls into SQLite.

use vstd::prelude::*;

use crate::answers::{answered, asks, done_answer, reads, Answer, Handed};
use crate::database::{value_of, Database, Row};
use crate::json::{sql_views, SqlValue, SqlView};
use crate::sql::Statement;

verus! {

#[verifier::external_type_specification]
#[verifier::external_body]
pub struct ExConnection(rusqlite::Connection);

#[verifier::external_type_specification]
#[verifier::external_body]
pub struct ExSqlError(rusqlite::Error);

#[verifier::external_type_specification]
#[verifier::external_body]
pub struct ExSqlValue(rusqlite::types::Value);

/// What a database holds that this connection alone can reach. `None` stands for a
/// database that others may reach and change; nothing is said of what it holds.
pub uninterp spec fn database(conn: rusqlite::Connection) -> Option<Database>;

/// The statements handed to SQLite over a connection, in order, each with its bound values
/// and with what SQLite answered.
pub uninterp spec fn history(conn: rusqlite::Connection) -> Seq<Handed>;

/// The path that a connection was opened at. `None` stands for a new database in memory.
pub uninterp spec fn opened_at(conn: rusqlite::Connection) -> Option<Seq<char>>;

/// Whether this error came back from a call that opens this path. Of when opening fails it
/// says nothing.
pub uninterp spec fn failed_to_open(path: Seq<char>, error: rusqlite::Error) -> bool;

/// The value that a `rusqlite::types::Value` binds, a floating-point number given by its bits.
pub uninterp spec fn bound_value(value: rusqlite::types::Value) -> SqlView;

/// Whether SQLite's `json_extract(doc, '$.field') IS NULL` is true.
pub uninterp spec fn field_is_null(doc: Seq<char>, field: Seq<char>) -> bool;

/// Whether SQLite's `json_extract(doc, '$.field') = wanted` is true.
pub uninterp spec fn field_equals(doc: Seq<char>, field: Seq<char>, wanted: SqlView) -> bool;

/// The values that a list binds.
pub open spec fn bound_values(values: Seq<rusqlite::types::Value>) -> Seq<SqlView> {
    Seq::new(values.len(), |i: int| bound_value(values[i]))
}

/// The rows that a statement returned, without the errors.
pub open spec fn row_views<E>(rows: Seq<Result<(String, String), E>>) -> Seq<Row> {
    Seq::new(
        rows.len(),
        |i: int|
            match rows[i] {
                Ok(row) => Some((row.0@, row.1@)),
                Err(_) => None,
            },
    )
}

/// Calls `rusqlite::Connection::open_in_memory`, which opens `:memory:`. The new database is
/// empty, and no other connection can reach it. Whether it can be opened is not said: it
/// depends on the machine.
#[verifier::external_body]
pub(crate) fn open_in_memory() -> (result: Result<rusqlite::Connection, rusqlite::Error>)
    ensures
        match result {
            Ok(conn) => {
                &&& opened_at(conn) is None
                &&& history(conn).len() == 0
                &&& database(conn) == Some(Database::empty())
            },
            Err(error) => failed_to_open(":memory:"@, error),
        },
{
    rusqlite::Connection::open_in_memory()
}

/// Calls `rusqlite::Connection::open` with a path, which is where the connection is opened.
/// What the database there holds, and whether it can be opened, is not said: it depends on
/// what is on disk.
#[verifier::external_body]
pub(crate) fn open_path(path: &str) -> (result: Result<rusqlite::Connection, rusqlite::Error>)
    ensures
        match result {
            Ok(conn) => {
                &&& opened_at(conn) == Some(path@)
                &&& history(conn).len() == 0
                &&& database(conn) is None
            },
            Err(error) => failed_to_open(path@, error),
        },
{
    rusqlite::Connection::open(path)
}

/// Makes the `rusqlite::types::Value` that binds a value. A number that reads as a
/// floating-point number binds the result of `serde_json::Number::as_f64`.
#[verifier::external_body]
fn bind(value: &SqlValue) -> (bound: rusqlite::types::Value)
    requires
        value matches SqlValue::Real(number) ==> number.readable(),
    ensures
        bound_value(bound) == value@,
{
    match value {
        SqlValue::Null => rusqlite::types::Value::Null,
        SqlValue::Integer(i) => rusqlite::types::Value::Integer(*i),
        SqlValue::Real(r) => rusqlite::types::Value::Real(r.number.as_f64().unwrap_or_default()),
        SqlValue::Text(text) => rusqlite::types::Value::Text(text.clone()),
    }
}

/// The values, ready to be bound.
pub(crate) fn bind_all(values: &Vec<SqlValue>) -> (bound: Vec<rusqlite::types::Value>)
    ensures
        bound_values(bound@) == sql_views(values@),
{
    let mut bound: Vec<rusqlite::types::Value> = Vec::new();
    for i in 0..values.len()
        invariant
            bound@.len() == i,
            forall|j: int| 0 <= j < i ==> bound_value(#[trigger] bound@[j]) == values@[j]@,
    {
        let value = &values[i];
        if let SqlValue::Real(number) = value {
            proof {
                use_type_invariant(number);
            }
        }
        bound.push(bind(value));
    }
    assert(bound_values(bound@) =~= sql_views(values@));
    bound
}

/// What handing over a statement does to a database that no other connection can reach, and
/// what is answered. Nothing is said of a text that is no statement of the store.
pub open spec fn ran(
    before: Option<Database>,
    after: Option<Database>,
    handed: Handed,
) -> bool {
    match before {
        None => after is None,
        Some(db) => forall|s: Statement| #[trigger]
            asks(db, s, handed.sql, handed.values) ==> after is Some && answered(
                db,
                s,
                handed.values,
                handed.answer,
                after->0,
            ),
    }
}

/// The same of the statements that only read.
pub open spec fn only_read(
    before: Option<Database>,
    after: Option<Database>,
    handed: Handed,
) -> bool {
    match before {
        None => after is None,
        Some(db) => forall|s: Statement| #[trigger]
            asks(db, s, handed.sql, handed.values) && reads(s) ==> after is Some && answered(
                db,
                s,
                handed.values,
                handed.answer,
                after->0,
            ),
    }
}

/// Calls `rusqlite::Connection::execute_batch` with a text. What the text does to a
/// database that no other connection can reach is said of the store's own statements, as
/// SQLite documents them: `IF NOT EXISTS` leaves alone what is there, and a statement that
/// fails is rolled back.
#[verifier::external_body]
pub(crate) fn execute_batch(conn: &mut rusqlite::Connection, sql: &str) -> (result: Result<
    (),
    rusqlite::Error,
>)
    ensures
        opened_at(*final(conn)) == opened_at(*old(conn)),
        history(*final(conn)) == history(*old(conn)).push(
            (Handed { sql: sql@, values: Seq::empty(), answer: done_answer(result is Ok) }),
        ),
        ran(database(*old(conn)), database(*final(conn)), history(*final(conn)).last()),
{
    conn.execute_batch(sql)
}

/// Calls `rusqlite::Connection::execute` with a text and the values to bind. What it does
/// to a database that no other connection can reach is said of the store's own
/// statements, as SQLite documents them: `INSERT OR REPLACE` puts the row in place of one
/// with the same primary key, `DELETE` removes the row where there is one, keys are
/// compared byte by byte, and a statement that fails is rolled back.
#[verifier::external_body]
pub(crate) fn execute(
    conn: &mut rusqlite::Connection,
    sql: &str,
    values: &Vec<rusqlite::types::Value>,
) -> (result: Result<usize, rusqlite::Error>)
    ensures
        opened_at(*final(conn)) == opened_at(*old(conn)),
        history(*final(conn)) == history(*old(conn)).push(
            (Handed {
                sql: sql@,
                values: bound_values(values@),
                answer: done_answer(result is Ok),
            }),
        ),
        ran(database(*old(conn)), database(*final(conn)), history(*final(conn)).last()),
{
    conn.execute(sql, rusqlite::params_from_iter(values))
}

/// The text that a value holds.
pub open spec fn text_view(text: Option<String>) -> Option<Seq<char>> {
    match text {
        Some(text) => Some(text@),
        None => None,
    }
}

/// The answer to a statement that reads one text.
pub open spec fn text_answer<E>(result: Result<Option<String>, E>) -> Answer {
    match result {
        Ok(found) => Answer::Document(text_view(found)),
        Err(_) => Answer::Failed,
    }
}

/// Calls `rusqlite::Connection::query_row` for the first column of the first row, and
/// `rusqlite::OptionalExtension::optional` on the result. Of a database that no other
/// connection can reach, the text that reads a document by its id gives the document under
/// that id, or nothing where there is none.
#[verifier::external_body]
pub(crate) fn query_text(
    conn: &mut rusqlite::Connection,
    sql: &str,
    values: &Vec<rusqlite::types::Value>,
) -> (result: Result<Option<String>, rusqlite::Error>)
    ensures
        opened_at(*final(conn)) == opened_at(*old(conn)),
        history(*final(conn)) == history(*old(conn)).push(
            (Handed { sql: sql@, values: bound_values(values@), answer: text_answer(result) }),
        ),
        only_read(database(*old(conn)), database(*final(conn)), history(*final(conn)).last()),
{
    let found = conn.query_row(sql, rusqlite::params_from_iter(values), |row| row.get(0));
    rusqlite::OptionalExtension::optional(found)
}

/// The answer to a statement that reads rows.
pub open spec fn rows_answer<E, F, G>(
    result: Result<Result<Vec<Result<(String, String), E>>, F>, G>,
) -> Answer {
    match result {
        Ok(Ok(rows)) => Answer::Rows(row_views(rows@)),
        Ok(Err(_)) => Answer::Failed,
        Err(_) => Answer::Unprepared,
    }
}

/// Whether the `i`-th row is one that the statement returned.
pub open spec fn row_for(
    before: Option<Database>,
    statement: Statement,
    sql: Seq<char>,
    values: Seq<SqlView>,
    answer: Answer,
    i: int,
) -> bool {
    &&& before matches Some(db) && asks(db, statement, sql, values)
    &&& answer matches Answer::Rows(rows) && 0 <= i < rows.len() && rows[i] is Some
}

/// The document in the `i`-th row.
pub open spec fn document_at(answer: Answer, i: int) -> Seq<char> {
    match answer {
        Answer::Rows(rows) => value_of(rows[i]),
        _ => Seq::empty(),
    }
}

/// Calls `rusqlite::Connection::prepare` with a text, then `rusqlite::Statement::query_map`
/// with the values to bind, for the first two columns of every row. The outer error is
/// that of `prepare`, the inner one that of `query_map`. Of a database that no other
/// connection can reach, the store's own texts give the rows that they select, each once;
/// in which order is not said. Where a document is the text of a JSON value,
/// `json_extract` finds its top-level field: a missing field is NULL, as a null is; text,
/// 64-bit integers and booleans compare as `field_is` says, and an array or an object is its
/// compact JSON text. SQLite ends a key at a NUL, so nothing is said where a key is the
/// field, a NUL and more. Nor is it said when a floating-point number equals a value.
#[verifier::external_body]
pub(crate) fn query_rows(
    conn: &mut rusqlite::Connection,
    sql: &str,
    values: &Vec<rusqlite::types::Value>,
) -> (result: Result<
    Result<Vec<Result<(String, String), rusqlite::Error>>, rusqlite::Error>,
    rusqlite::Error,
>)
    ensures
        opened_at(*final(conn)) == opened_at(*old(conn)),
        history(*final(conn)) == history(*old(conn)).push(
            (Handed { sql: sql@, values: bound_values(values@), answer: rows_answer(result) }),
        ),
        only_read(database(*old(conn)), database(*final(conn)), history(*final(conn)).last()),
        forall|name: Seq<char>, field: Seq<char>, i: int|
            #[trigger] row_for(
                database(*old(conn)),
                (Statement::SelectFieldNull { name, field }),
                sql@,
                bound_values(values@),
                rows_answer(result),
                i,
            ) ==> field_is_null(document_at(rows_answer(result), i), field),
        forall|name: Seq<char>, field: Seq<char>, i: int|
            #[trigger] row_for(
                database(*old(conn)),
                (Statement::SelectFieldEqual { name, field }),
                sql@,
                bound_values(values@),
                rows_answer(result),
                i,
            ) ==> field_equals(
                document_at(rows_answer(result), i),
                field,
                bound_values(values@)[0],
            ),
{
    let mut statement = conn.prepare(sql)?;
    let values = rusqlite::params_from_iter(values);
    let rows = statement.query_map(values, |row| Ok((row.get(0)?, row.get(1)?)));
    let rows = match rows {
        Ok(rows) => Ok(rows.collect()),
        Err(error) => Err(error),
    };
    Ok(rows)
}

} // verus!
