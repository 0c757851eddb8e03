//! What is handed to SQLite, what it answers, and what a database does and holds where the
//! answers are right.

use vstd::prelude::*;

use crate::database::{
    all_read, bound_text, comparable, field_is, is_null_or_absent, listed, lists, rows_where,
    Database, Row, Table,
};
use crate::json::{field_of, json_text, JsonView, SqlView};
use crate::sql::{catalog_table, Statement};
use crate::sqlite::{field_equals, field_is_null};

verus! {

/// What SQLite answers to a statement.
pub enum Answer {
    /// The statement could not be prepared.
    Unprepared,
    /// The statement was prepared, or was to be run at once, and failed.
    Failed,
    /// The statement ran.
    Done,
    /// The text in the first column of the first row, if there is a row.
    Document(Option<Seq<char>>),
    /// The rows.
    Rows(Seq<Row>),
}

/// A statement that was handed to SQLite: its text, its bound values, and the answer.
pub struct Handed {
    pub sql: Seq<char>,
    pub values: Seq<SqlView>,
    pub answer: Answer,
}

/// A statement with its answer.
pub open spec fn handed(statement: Statement, values: Seq<SqlView>, answer: Answer) -> Handed {
    Handed { sql: statement.text(), values, answer }
}

/// The answer to a statement that is run at once.
pub open spec fn done_answer(succeeded: bool) -> Answer {
    if succeeded {
        Answer::Done
    } else {
        Answer::Failed
    }
}

/// Whether this text with these values is that statement, about a table that is there.
pub open spec fn asks(
    db: Database,
    statement: Statement,
    sql: Seq<char>,
    values: Seq<SqlView>,
) -> bool {
    statement.well_formed() && statement.text() == sql && db.ready(statement, values)
}

/// Whether a statement reads rows of two columns.
pub open spec fn reads_rows(statement: Statement) -> bool {
    match statement {
        Statement::SelectCatalog => true,
        Statement::SelectAll { .. } => true,
        Statement::SelectById { .. } => true,
        Statement::SelectFieldNull { .. } => true,
        Statement::SelectFieldEqual { .. } => true,
        _ => false,
    }
}

/// Whether a statement only reads.
pub open spec fn reads(statement: Statement) -> bool {
    statement is SelectDocument || reads_rows(statement)
}

/// The rows that a statement reads.
pub open spec fn selected(db: Database, statement: Statement, values: Seq<SqlView>) -> Table {
    match statement {
        Statement::SelectCatalog => db.tables[catalog_table()],
        Statement::SelectAll { name } => db.tables[name],
        Statement::SelectById { name } => rows_where(
            db.tables[name],
            |key: Seq<char>| key == bound_text(values[0]),
        ),
        Statement::SelectFieldNull { name, field } => rows_where(
            db.tables[name],
            |key: Seq<char>| field_is_null(db.tables[name][key], field),
        ),
        Statement::SelectFieldEqual { name, field } => rows_where(
            db.tables[name],
            |key: Seq<char>| field_equals(db.tables[name][key], field, values[0]),
        ),
        _ => Map::empty(),
    }
}

/// Whether the text of `doc` stands under a key of a table.
pub open spec fn holds_json(db: Database, table: Seq<char>, key: Seq<char>, doc: JsonView) -> bool {
    db.row(table, key) is Some && db.row(table, key) == json_text(doc)
}

/// Whether a key is `field`, a NUL and anything. SQLite reads such a key as `field`: it ends
/// the key at the NUL.
pub open spec fn ends_at_nul(key: Seq<char>, field: Seq<char>) -> bool {
    key.len() > field.len() && key.take(field.len() as int) == field && key[field.len() as int]
        == '\0'
}

/// Whether no top-level key of a document can be taken for `field` but `field` itself.
pub open spec fn unmistakable(doc: JsonView, field: Seq<char>) -> bool {
    match doc {
        JsonView::Object(entries) => forall|i: int|
            0 <= i < entries.len() ==> !ends_at_nul((#[trigger] entries[i]).0, field),
        _ => true,
    }
}

/// Whether the documents among `rows` are there according to their field: a document that is
/// the text of a JSON value, none of whose keys can be mistaken for the field.
pub open spec fn fields_agree(
    db: Database,
    statement: Statement,
    values: Seq<SqlView>,
    rows: Seq<Row>,
) -> bool {
    forall|key: Seq<char>, doc: JsonView|
        #![trigger listed(rows, key), json_text(doc)]
        match statement {
            Statement::SelectFieldNull { name, field } => holds_json(db, name, key, doc)
                && unmistakable(doc, field) ==> (listed(rows, key) <==> is_null_or_absent(
                field_of(doc, field),
            )),
            Statement::SelectFieldEqual { name, field } => holds_json(db, name, key, doc)
                && unmistakable(doc, field) && comparable(field_of(doc, field), values[0]) ==> (
            listed(rows, key) <==> field_is(field_of(doc, field), values[0])),
            _ => true,
        }
}

/// What a database that nobody else changes becomes by a statement, and what is answered: a
/// statement that ran does what it says, any other leaves the database as it is; what is read
/// is what stands there.
pub open spec fn answered(
    db: Database,
    statement: Statement,
    values: Seq<SqlView>,
    answer: Answer,
    after: Database,
) -> bool {
    &&& after == (if answer is Done {
        db.after(statement, values)
    } else {
        db
    })
    &&& match answer {
        Answer::Document(found) => document_read(db, statement, values, found),
        Answer::Rows(rows) => all_read(rows) && reads_rows(statement) ==> {
            &&& lists(rows, selected(db, statement, values))
            &&& fields_agree(db, statement, values, rows)
        },
        _ => true,
    }
}

/// Whether a document that was read is the one that stands under the id.
pub open spec fn document_read(
    db: Database,
    statement: Statement,
    values: Seq<SqlView>,
    found: Option<Seq<char>>,
) -> bool {
    match statement {
        Statement::SelectDocument { name } => found == db.row(name, bound_text(values[0])),
        _ => true,
    }
}

/// Whether what was handed to SQLite was answered as by a database that holds `db`, that
/// nobody else changes, and that holds `after` then.
pub open spec fn obeys(db: Database, handed: Handed, after: Database) -> bool {
    forall|s: Statement| #[trigger]
        asks(db, s, handed.sql, handed.values) ==> answered(
            db,
            s,
            handed.values,
            handed.answer,
            after,
        )
}

/// Whether all that was handed to SQLite was answered as by one database that nobody else
/// changes.
pub open spec fn obeyed(db: Database, handed: Seq<Handed>, after: Database) -> bool
    decreases handed.len(),
{
    if handed.len() == 0 {
        after == db
    } else {
        exists|mid: Database|
            obeyed(db, handed.drop_last(), mid) && #[trigger] obeys(mid, handed.last(), after)
    }
}

/// One statement is answered as all that was handed is.
pub proof fn lemma_obeyed_one(db: Database, handed: Handed, after: Database)
    ensures
        obeyed(db, seq![handed], after) <==> obeys(db, handed, after),
{
    reveal_with_fuel(obeyed, 2);
    let all = seq![handed];
    assert(all.drop_last() =~= Seq::empty());
    assert(all.last() == handed);
    if obeys(db, handed, after) {
        assert(obeyed(db, all.drop_last(), db));
        assert(obeys(db, all.last(), after));
    }
}

/// One more statement may follow.
pub proof fn lemma_obeyed_push(
    db: Database,
    earlier: Seq<Handed>,
    mid: Database,
    handed: Handed,
    after: Database,
)
    requires
        obeyed(db, earlier, mid),
        obeys(mid, handed, after),
    ensures
        obeyed(db, earlier.push(handed), after),
{
    assert(earlier.push(handed).drop_last() =~= earlier);
    assert(obeys(mid, earlier.push(handed).last(), after));
}

/// The last statement was answered by what the earlier ones left.
pub proof fn lemma_obeyed_pop(
    db: Database,
    earlier: Seq<Handed>,
    handed: Handed,
    after: Database,
) -> (mid: Database)
    requires
        obeyed(db, earlier.push(handed), after),
    ensures
        obeyed(db, earlier, mid),
        obeys(mid, handed, after),
{
    let all = earlier.push(handed);
    assert(all.drop_last() =~= earlier);
    choose|mid: Database|
        obeyed(db, all.drop_last(), mid) && #[trigger] obeys(mid, all.last(), after)
}

} // verus!
