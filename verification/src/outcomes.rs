//! What each operation hands to SQLite, word for word, and what it returns for each answer.
//!
//! The laws say when an operation fails: where the request is refused, where SQLite fails, and
//! where what SQLite returned is damaged. Nothing else makes one fail, whatever the names, the
//! ids, the documents and their number.

use vstd::prelude::*;

use crate::answers::Answer;
use crate::collections::{all_valid, debug_text, load_of, Specs};
use crate::consistency::lemma_none_invalid;
use crate::database::{key_of, value_of, Row};
use crate::identifier::{has_parent_component, valid_identifier};
use crate::json::{json_parse, json_text, list_parse, list_text, JsonView, SqlView};
use crate::model::{
    declared_in_steps, fresh, is_delete, is_ensure, is_get, is_open, is_put, is_query, is_start,
    start_failed, step, step_values, steps, StoreView,
};
use crate::persistence::{ErrorView, QueryView, RecordView, SpecView};
use crate::rows::records_of;
use crate::sqlite::failed_to_open;
use crate::store::SqliteStore;
use crate::text::decimal;

verus! {

/// `put` on a declared collection hands SQLite one statement: the insertion into the table of
/// that name, with the id and the document's text bound. It succeeds exactly where SQLite ran
/// the statement, whatever the id and the document are.
pub proof fn put_fails_only_with_sqlite(
    before: StoreView,
    after: StoreView,
    collection: Seq<char>,
    record: RecordView,
    text: Seq<char>,
    result: Result<(), ErrorView>,
)
    requires
        is_put(before, after, collection, record, result),
        valid_identifier(collection),
        before.specs.contains_key(collection),
        json_text(record.doc) == Some(text),
    ensures
        after.path == before.path,
        after.specs == before.specs,
        after.history == before.history.push(after.history.last()),
        after.history.last().sql == "INSERT OR REPLACE INTO \""@ + collection
            + "\" (id, doc) VALUES (?1, ?2)"@,
        after.history.last().values == seq![SqlView::Text(record.id), SqlView::Text(text)],
        after.history.last().answer is Done || after.history.last().answer is Failed,
        result is Ok <==> after.history.last().answer is Done,
        result matches Err(error) ==> error == ErrorView::Storage("insert failed"@),
{
}

/// A document that has no text is the only one that `put` on a declared collection does not
/// hand to SQLite.
pub proof fn put_refuses_only_what_has_no_text(
    before: StoreView,
    after: StoreView,
    collection: Seq<char>,
    record: RecordView,
    result: Result<(), ErrorView>,
)
    requires
        is_put(before, after, collection, record, result),
        valid_identifier(collection),
        before.specs.contains_key(collection),
    ensures
        json_text(record.doc) is None <==> after == before,
        json_text(record.doc) is None <==> result == Err::<(), ErrorView>(
            ErrorView::Storage("serialize doc failed"@),
        ),
{
    reveal_strlit("serialize doc failed");
    reveal_strlit("insert failed");
    assert("serialize doc failed"@[0] != "insert failed"@[0]);
    if json_text(record.doc) is Some {
        assert(after.history.len() == before.history.len() + 1);
    }
}

/// `delete` on a declared collection hands SQLite one statement: the deletion from the table of
/// that name, with the id bound. It succeeds exactly where SQLite ran the statement.
pub proof fn delete_fails_only_with_sqlite(
    before: StoreView,
    after: StoreView,
    collection: Seq<char>,
    id: Seq<char>,
    result: Result<(), ErrorView>,
)
    requires
        is_delete(before, after, collection, id, result),
        valid_identifier(collection),
        before.specs.contains_key(collection),
    ensures
        after.path == before.path,
        after.specs == before.specs,
        after.history == before.history.push(after.history.last()),
        after.history.last().sql == "DELETE FROM \""@ + collection + "\" WHERE id = ?1"@,
        after.history.last().values == seq![SqlView::Text(id)],
        after.history.last().answer is Done || after.history.last().answer is Failed,
        result is Ok <==> after.history.last().answer is Done,
        result matches Err(error) ==> error == ErrorView::Storage("delete failed"@),
{
}

/// `get` on a declared collection hands SQLite one statement: the selection of the document in
/// the table of that name, with the id bound. It returns the document under that id where the
/// text that SQLite found parses, `NotFound` where SQLite found none, the integrity error where
/// the text does not parse, and fails else only where SQLite did.
pub proof fn get_fails_only_with_sqlite_or_the_document(
    before: StoreView,
    after: StoreView,
    collection: Seq<char>,
    id: Seq<char>,
    result: Result<RecordView, ErrorView>,
)
    requires
        is_get(before, after, collection, id, result),
        valid_identifier(collection),
        before.specs.contains_key(collection),
    ensures
        after.path == before.path,
        after.specs == before.specs,
        after.history == before.history.push(after.history.last()),
        after.history.last().sql == "SELECT doc FROM \""@ + collection + "\" WHERE id = ?1"@,
        after.history.last().values == seq![SqlView::Text(id)],
        match after.history.last().answer {
            Answer::Document(Some(text)) => match json_parse(text) {
                Some(doc) => result matches Ok(record) && record.id == id && record.doc == doc,
                None => result == Err::<RecordView, ErrorView>(
                    ErrorView::Storage("integrity error: malformed JSON document"@),
                ),
            },
            Answer::Document(None) => result == Err::<RecordView, ErrorView>(
                ErrorView::NotFound(id),
            ),
            Answer::Failed => result == Err::<RecordView, ErrorView>(
                ErrorView::Storage("query failed"@),
            ),
            _ => false,
        },
{
}

/// `query` for everything hands SQLite one statement: the selection of every row of the table
/// of that name, with nothing bound and no limit.
pub proof fn query_all_asks_for_every_row(
    before: StoreView,
    after: StoreView,
    collection: Seq<char>,
    result: Result<Seq<RecordView>, ErrorView>,
)
    requires
        is_query(before, after, collection, QueryView::All, result),
        valid_identifier(collection),
        before.specs.contains_key(collection),
    ensures
        after.path == before.path,
        after.specs == before.specs,
        after.history == before.history.push(after.history.last()),
        after.history.last().sql == "SELECT id, doc FROM \""@ + collection + "\""@,
        after.history.last().values.len() == 0,
{
}

/// `query` by id hands SQLite one statement: the selection of the row of the table of that name
/// with the id, which is bound.
pub proof fn query_by_id_asks_for_that_row(
    before: StoreView,
    after: StoreView,
    collection: Seq<char>,
    id: Seq<char>,
    result: Result<Seq<RecordView>, ErrorView>,
)
    requires
        is_query(before, after, collection, QueryView::ById(id), result),
        valid_identifier(collection),
        before.specs.contains_key(collection),
    ensures
        after.path == before.path,
        after.specs == before.specs,
        after.history == before.history.push(after.history.last()),
        after.history.last().sql == "SELECT id, doc FROM \""@ + collection + "\" WHERE id = ?1"@,
        after.history.last().values == seq![SqlView::Text(id)],
{
}

/// `query` for null at a declared field hands SQLite one statement: the selection of the rows
/// of the table of that name whose field is NULL, with nothing bound.
pub proof fn query_for_null_asks_for_null(
    before: StoreView,
    after: StoreView,
    collection: Seq<char>,
    field: Seq<char>,
    result: Result<Seq<RecordView>, ErrorView>,
)
    requires
        is_query(
            before,
            after,
            collection,
            (QueryView::ByField { field, value: JsonView::Null }),
            result,
        ),
        valid_identifier(collection),
        before.specs.contains_key(collection),
        valid_identifier(field),
        before.specs[collection].contains(field),
    ensures
        after.path == before.path,
        after.specs == before.specs,
        after.history == before.history.push(after.history.last()),
        after.history.last().sql == "SELECT id, doc FROM \""@ + collection
            + "\" WHERE json_extract(doc, '$."@ + field + "') IS NULL"@,
        after.history.last().values.len() == 0,
{
    assert(after.history.last().sql =~= "SELECT id, doc FROM \""@ + collection
        + "\" WHERE json_extract(doc, '$."@ + field + "') IS NULL"@);
}

/// `query` for a scalar at a declared field hands SQLite one statement: the selection of the
/// rows of the table of that name whose field equals the one bound value. That value is the
/// same text for a string; 1 or 0 for a boolean; the same integer for a number that is a signed
/// 64-bit integer; for every other number that reads as a floating-point number, whatever its
/// sign and its text, the REAL with exactly those bits; and the text of a number only where it
/// has neither reading.
pub proof fn query_by_field_binds_the_same_scalar(
    before: StoreView,
    after: StoreView,
    collection: Seq<char>,
    field: Seq<char>,
    value: JsonView,
    result: Result<Seq<RecordView>, ErrorView>,
)
    requires
        is_query(before, after, collection, (QueryView::ByField { field, value }), result),
        valid_identifier(collection),
        before.specs.contains_key(collection),
        valid_identifier(field),
        before.specs[collection].contains(field),
        value is String || value is Bool || value is Number,
    ensures
        after.path == before.path,
        after.specs == before.specs,
        after.history == before.history.push(after.history.last()),
        after.history.last().sql == "SELECT id, doc FROM \""@ + collection
            + "\" WHERE json_extract(doc, '$."@ + field + "') = ?1"@,
        after.history.last().values.len() == 1,
        value matches JsonView::String(text) ==> after.history.last().values[0] == SqlView::Text(
            text,
        ),
        value == JsonView::Bool(true) ==> after.history.last().values[0] == SqlView::Integer(1),
        value == JsonView::Bool(false) ==> after.history.last().values[0] == SqlView::Integer(0),
        value matches JsonView::Number(n) ==> {
            &&& n.integer matches Some(i) ==> after.history.last().values[0] == SqlView::Integer(i)
            &&& n.integer is None ==> (n.floating matches Some(bits)
                ==> after.history.last().values[0] == SqlView::Real(bits))
            &&& n.integer is None && n.floating is None ==> after.history.last().values[0]
                == SqlView::Text(n.text)
        },
{
    assert(after.history.last().sql =~= "SELECT id, doc FROM \""@ + collection
        + "\" WHERE json_extract(doc, '$."@ + field + "') = ?1"@);
}

/// `query` by field is refused exactly in three ways, in this order: the field is no identifier,
/// the field was not declared, the value is an array or an object.
pub proof fn query_by_field_is_refused_in_three_ways(
    before: StoreView,
    after: StoreView,
    collection: Seq<char>,
    field: Seq<char>,
    value: JsonView,
    result: Result<Seq<RecordView>, ErrorView>,
)
    requires
        is_query(before, after, collection, (QueryView::ByField { field, value }), result),
        valid_identifier(collection),
        before.specs.contains_key(collection),
    ensures
        !valid_identifier(field) ==> after == before && result == Err::<Seq<RecordView>, ErrorView>(
            ErrorView::InvalidIdentifier(field),
        ),
        valid_identifier(field) && !before.specs[collection].contains(field) ==> after == before
            && result == Err::<Seq<RecordView>, ErrorView>(ErrorView::FieldNotIndexed(field)),
        valid_identifier(field) && before.specs[collection].contains(field) && (value is Array
            || value is Object) ==> after == before && result == Err::<Seq<RecordView>, ErrorView>(
            ErrorView::Storage("ByField value must be a scalar (string/number/bool/null)"@),
        ),
{
}

/// Whether a document in a row that was read parses.
pub open spec fn parses(row: Row) -> bool {
    row is Some && json_parse(value_of(row)) is Some
}

/// The records of rows that all parse: one for each row, in order.
proof fn lemma_all_parse(rows: Seq<Row>)
    requires
        forall|i: int| 0 <= i < rows.len() ==> parses(#[trigger] rows[i]),
    ensures
        records_of(rows) is Ok,
        records_of(rows)->Ok_0.len() == rows.len(),
        forall|i: int|
            0 <= i < rows.len() ==> {
                &&& (#[trigger] records_of(rows)->Ok_0[i]).id == key_of(rows[i])
                &&& json_parse(value_of(rows[i])) == Some(records_of(rows)->Ok_0[i].doc)
            },
    decreases rows.len(),
{
    if rows.len() > 0 {
        let rest = rows.drop_last();
        assert forall|i: int| 0 <= i < rest.len() implies parses(#[trigger] rest[i]) by {
            assert(parses(rows[i]));
        }
        lemma_all_parse(rest);
        assert(parses(rows[rows.len() - 1]));
        let records = records_of(rows)->Ok_0;
        let earlier = records_of(rest)->Ok_0;
        assert(records.drop_last() =~= earlier);
        assert forall|i: int| 0 <= i < rows.len() implies {
            &&& (#[trigger] records[i]).id == key_of(rows[i])
            &&& json_parse(value_of(rows[i])) == Some(records[i].doc)
        } by {
            if i < rest.len() {
                assert(records[i] == earlier[i]);
                assert(rest[i] == rows[i]);
            }
        }
    }
}

/// The error of rows of which the first that does not parse is the `n`-th.
proof fn lemma_first_fails(rows: Seq<Row>, n: int)
    requires
        0 <= n < rows.len(),
        forall|i: int| 0 <= i < n ==> parses(#[trigger] rows[i]),
        !parses(rows[n]),
    ensures
        records_of(rows) == Err::<Seq<RecordView>, ErrorView>(
            ErrorView::Storage(
                if rows[n] is None {
                    "row read failed"@
                } else {
                    "integrity error: malformed JSON document"@
                },
            ),
        ),
    decreases rows.len(),
{
    let rest = rows.drop_last();
    assert forall|i: int| 0 <= i < rest.len() implies rest[i] == rows[i] by {}
    if n < rest.len() {
        lemma_first_fails(rest, n);
    } else {
        lemma_all_parse(rest);
    }
}

/// `query` fails only where SQLite or a document does. Where the request is handed to SQLite,
/// SQLite answers with rows, all of them were read and every document among them parses, the
/// result is one record for each row, however many there are and in their order. Else it is the
/// error of the first row that was not read or does not parse, or SQLite failed.
pub proof fn query_fails_only_with_sqlite_or_a_document(
    before: StoreView,
    after: StoreView,
    collection: Seq<char>,
    query: QueryView,
    result: Result<Seq<RecordView>, ErrorView>,
)
    requires
        is_query(before, after, collection, query, result),
        after.history.len() > before.history.len(),
    ensures
        match after.history.last().answer {
            Answer::Rows(rows) => {
                &&& (forall|i: int| 0 <= i < rows.len() ==> parses(#[trigger] rows[i])) ==> {
                    &&& result matches Ok(records)
                    &&& records.len() == rows.len()
                    &&& forall|i: int|
                        0 <= i < rows.len() ==> (#[trigger] records[i]).id == key_of(rows[i])
                            && json_parse(value_of(rows[i])) == Some(records[i].doc)
                }
                &&& forall|n: int|
                    0 <= n < rows.len() && !parses(#[trigger] rows[n]) && (forall|i: int|
                        0 <= i < n ==> parses(#[trigger] rows[i])) ==> result == Err::<
                        Seq<RecordView>,
                        ErrorView,
                    >(
                        ErrorView::Storage(
                            if rows[n] is None {
                                "row read failed"@
                            } else {
                                "integrity error: malformed JSON document"@
                            },
                        ),
                    )
            },
            Answer::Unprepared => result == Err::<Seq<RecordView>, ErrorView>(
                ErrorView::Storage("prepare failed"@),
            ),
            Answer::Failed => result == Err::<Seq<RecordView>, ErrorView>(
                ErrorView::Storage("query failed"@),
            ),
            _ => false,
        },
{
    match after.history.last().answer {
        Answer::Rows(rows) => {
            if forall|i: int| 0 <= i < rows.len() ==> parses(#[trigger] rows[i]) {
                lemma_all_parse(rows);
            }
            assert forall|n: int|
                0 <= n < rows.len() && !parses(#[trigger] rows[n]) && (forall|i: int|
                    0 <= i < n ==> parses(#[trigger] rows[i])) implies result == Err::<
                Seq<RecordView>,
                ErrorView,
            >(
                ErrorView::Storage(
                    if rows[n] is None {
                        "row read failed"@
                    } else {
                        "integrity error: malformed JSON document"@
                    },
                ),
            ) by {
                lemma_first_fails(rows, n);
            }
        },
        _ => {},
    }
}

/// A request on a name that is no identifier, or on a collection that was not declared, is
/// refused by every operation; any other is handed to SQLite, but for a field query that is
/// refused and a document without a text.
pub proof fn requests_are_refused_by_name_alone(
    before: StoreView,
    after: StoreView,
    collection: Seq<char>,
    id: Seq<char>,
    query: QueryView,
    got: Result<RecordView, ErrorView>,
    found: Result<Seq<RecordView>, ErrorView>,
    deleted: Result<(), ErrorView>,
)
    ensures
        is_get(before, after, collection, id, got) ==> (after.history.len() > before.history.len()
            <==> valid_identifier(collection) && before.specs.contains_key(collection)),
        is_delete(before, after, collection, id, deleted) ==> (after.history.len()
            > before.history.len() <==> valid_identifier(collection) && before.specs.contains_key(
            collection,
        )),
        is_query(before, after, collection, query, found) && !(query is ByField) ==> (
        after.history.len() > before.history.len() <==> valid_identifier(collection)
            && before.specs.contains_key(collection)),
{
}

/// The text that creates the table of a collection: two columns, of which the id is the only
/// key.
pub open spec fn table_text(name: Seq<char>) -> Seq<char> {
    "CREATE TABLE IF NOT EXISTS \""@ + name
        + "\" (\n                id  TEXT PRIMARY KEY,\n                doc TEXT NOT NULL\n            );"@
}

/// The text that creates the index on a field of a collection.
pub open spec fn index_text(name: Seq<char>, field: Seq<char>) -> Seq<char> {
    "CREATE INDEX IF NOT EXISTS \""@ + "idx_"@ + decimal(name.len()) + "_"@ + name + "_"@ + field
        + "\" ON \""@ + name + "\" (json_extract(doc, '$."@ + field + "'));"@
}

/// A declaration whose names are identifiers hands SQLite, in this order, the text that creates
/// the table, the text that creates the index for each field, and the text that saves the name
/// and the list of fields, both bound. It stops at the first that SQLite did not run. It succeeds
/// exactly where all ran, whatever the names and the number of fields; then, and only then, the
/// collection is declared with those fields, and no other collection is touched.
pub proof fn declaring_fails_only_with_sqlite(
    before: StoreView,
    after: StoreView,
    spec: SpecView,
    text: Seq<char>,
    result: Result<(), ErrorView>,
)
    requires
        is_ensure(before, after, spec, result),
        valid_identifier(spec.name),
        all_valid(spec.indexed_fields),
        list_text(spec.indexed_fields) == Some(text),
    ensures
        ({
            let asked = after.since(before);
            let n = spec.indexed_fields.len();
            &&& after.path == before.path
            &&& after.history == before.history + asked
            &&& 1 <= asked.len() <= n + 2
            &&& asked[0].sql == table_text(spec.name)
            &&& forall|i: int|
                1 <= i <= n && i < asked.len() ==> (#[trigger] asked[i]).sql == index_text(
                    spec.name,
                    spec.indexed_fields[i - 1],
                )
            &&& forall|i: int|
                0 <= i <= n && i < asked.len() ==> (#[trigger] asked[i]).values.len() == 0
            &&& asked.len() == n + 2 ==> asked[n as int + 1].sql
                == "INSERT OR REPLACE INTO __wyrtloom_collections (name, indexed_fields) VALUES (?1, ?2)"@
                && asked[n as int + 1].values == seq![
                SqlView::Text(spec.name),
                SqlView::Text(text),
            ]
            &&& forall|i: int| 0 <= i < asked.len() - 1 ==> (#[trigger] asked[i]).answer is Done
            &&& asked.last().answer is Done || asked.last().answer is Failed
            &&& asked.last().answer is Done <==> result is Ok
            &&& result is Ok ==> asked.len() == n + 2
            &&& result is Ok ==> after.specs == before.specs.insert(
                spec.name,
                spec.indexed_fields,
            ) && list_parse(text) == Some(spec.indexed_fields)
            &&& result matches Err(error) ==> after.specs == before.specs && error
                == ErrorView::Storage(
                if asked.len() == 1 {
                    "create table failed"@
                } else if asked.len() <= n + 1 {
                    "create index failed"@
                } else {
                    "persist spec failed"@
                },
            )
        }),
{
    lemma_none_invalid(spec.indexed_fields);
    let done = choose|done: nat| declared_in_steps(before, after, spec, result, done);
    assert(declared_in_steps(before, after, spec, result, done));
    let asked = after.since(before);
    let n = spec.indexed_fields.len();
    assert(after.history =~= before.history + asked);
    assert(asked.len() > 0);
    assert(asked.last() == after.history.last());
    assert forall|i: int| 0 <= i < asked.len() implies (#[trigger] asked[i]).sql == step(
        spec,
        i,
    ).text() && asked[i].values == step_values(spec, i) by {}
    assert forall|i: int| 1 <= i <= n && i < asked.len() implies (#[trigger] asked[i]).sql
        == index_text(spec.name, spec.indexed_fields[i - 1]) by {
        assert(asked[i].sql =~= index_text(spec.name, spec.indexed_fields[i - 1]));
    }
    if result is Ok {
        assert(asked.last() == steps(spec, done)[done - 1]);
    }
}

/// A list of fields that has no text is the only one that a declaration whose other statements
/// ran does not save: the error says so, and nothing is declared.
pub proof fn declaring_saves_what_has_a_text(
    before: StoreView,
    after: StoreView,
    spec: SpecView,
    result: Result<(), ErrorView>,
)
    requires
        is_ensure(before, after, spec, result),
        valid_identifier(spec.name),
        all_valid(spec.indexed_fields),
        list_text(spec.indexed_fields) is None,
    ensures
        ({
            let asked = after.since(before);
            let n = spec.indexed_fields.len();
            &&& after.specs == before.specs
            &&& 1 <= asked.len() <= n + 1
            &&& asked.last().answer is Done <==> result == Err::<(), ErrorView>(
                ErrorView::Storage("serialize spec failed"@),
            )
            &&& asked.last().answer is Done ==> asked.len() == n + 1
            &&& !(asked.last().answer is Done) ==> result == Err::<(), ErrorView>(
                ErrorView::Storage(
                    if asked.len() == 1 {
                        "create table failed"@
                    } else {
                        "create index failed"@
                    },
                ),
            )
        }),
{
    reveal_strlit("serialize spec failed");
    reveal_strlit("create table failed");
    reveal_strlit("create index failed");
    assert("serialize spec failed"@[0] != "create table failed"@[0]);
    assert("serialize spec failed"@[0] != "create index failed"@[0]);
    lemma_none_invalid(spec.indexed_fields);
    let done = choose|done: nat| declared_in_steps(before, after, spec, result, done);
    assert(declared_in_steps(before, after, spec, result, done));
    let asked = after.since(before);
    assert(asked.last() == after.history.last());
    if done == spec.indexed_fields.len() + 1 {
        assert(asked.last() == steps(spec, done)[done - 1]);
    }
}

/// The text that creates the catalog: two columns, of which the name is the only key.
pub open spec fn catalog_text() -> Seq<char> {
    "CREATE TABLE IF NOT EXISTS __wyrtloom_collections (\n                name           TEXT PRIMARY KEY,\n                indexed_fields TEXT NOT NULL\n            );"@
}

/// A start hands SQLite, in this order, the pragmas, the text that creates the catalog, and the
/// text that reads it, with nothing bound, and stops at the first that SQLite did not run. It
/// fails where SQLite fails, with the error that says at what, and where the catalog cannot be
/// loaded.
pub proof fn starting_fails_only_with_sqlite_or_the_catalog(
    before: StoreView,
    after: StoreView,
    result: Result<(), ErrorView>,
)
    requires
        is_start(before, after, result),
    ensures
        ({
            let asked = after.since(before);
            &&& after.path == before.path
            &&& after.history == before.history + asked
            &&& 1 <= asked.len() <= 3
            &&& asked[0].sql == "PRAGMA journal_mode=WAL; PRAGMA busy_timeout=5000;"@
            &&& asked.len() >= 2 ==> asked[0].answer is Done && asked[1].sql == catalog_text()
            &&& asked.len() >= 3 ==> asked[1].answer is Done && asked[2].sql
                == "SELECT name, indexed_fields FROM __wyrtloom_collections"@
            &&& forall|i: int| 0 <= i < asked.len() ==> (#[trigger] asked[i]).values.len() == 0
            &&& asked.len() == 1 ==> asked[0].answer is Failed && after.specs == before.specs
                && result == Err::<(), ErrorView>(ErrorView::Storage("configure pragmas failed"@))
            &&& asked.len() == 2 ==> asked[1].answer is Failed && after.specs == before.specs
                && result == Err::<(), ErrorView>(ErrorView::Storage("init schema failed"@))
            &&& asked.len() == 3 ==> match asked[2].answer {
                Answer::Rows(rows) => load_of(before.specs, rows).specs == after.specs && load_of(
                    before.specs,
                    rows,
                ).result == result,
                Answer::Unprepared => after.specs == before.specs && result == Err::<
                    (),
                    ErrorView,
                >(ErrorView::Storage("load specs: prepare failed"@)),
                Answer::Failed => after.specs == before.specs && result == Err::<(), ErrorView>(
                    ErrorView::Storage("load specs: query failed"@),
                ),
                _ => false,
            }
        }),
{
    let asked = after.since(before);
    assert(after.history =~= before.history + asked);
    assert(asked.last() == after.history.last());
}

/// To load one more row of the catalog, where the rows before it were loaded: a row that could
/// not be read, or whose list of fields does not parse, is the error that says so, and what was
/// declared stays. A row whose name and fields are all identifiers declares that collection with
/// those fields, in place of an earlier one of that name, whatever they are and however many.
/// Any other row changes nothing.
pub proof fn every_row_of_the_catalog_counts(specs: Specs, rows: Seq<Row>, row: Row)
    requires
        load_of(specs, rows).result is Ok,
    ensures
        ({
            let earlier = load_of(specs, rows).specs;
            let load = load_of(specs, rows.push(row));
            match row {
                None => load.specs == earlier && load.result == Err::<(), ErrorView>(
                    ErrorView::Storage("load specs: row read failed"@),
                ),
                Some((name, text)) => match list_parse(text) {
                    None => load.specs == earlier && load.result == Err::<(), ErrorView>(
                        ErrorView::Storage(
                            "integrity error: malformed indexed_fields in catalog for collection "@
                                + debug_text(name),
                        ),
                    ),
                    Some(fields) => {
                        &&& load.result is Ok
                        &&& valid_identifier(name) && (forall|i: int|
                            0 <= i < fields.len() ==> valid_identifier(#[trigger] fields[i]))
                            ==> load.specs == earlier.insert(name, fields)
                        &&& !valid_identifier(name) || (exists|i: int|
                            0 <= i < fields.len() && !valid_identifier(#[trigger] fields[i]))
                            ==> load.specs == earlier
                    },
                },
            }
        }),
        load_of(specs, Seq::empty()).specs == specs,
        load_of(specs, Seq::empty()).result is Ok,
{
    assert(rows.push(row).drop_last() =~= rows);
}

/// Rows behind the first error of a catalog change nothing.
pub proof fn rows_behind_an_error_do_not_count(specs: Specs, rows: Seq<Row>, row: Row)
    requires
        load_of(specs, rows).result is Err,
    ensures
        load_of(specs, rows.push(row)) == load_of(specs, rows),
{
    assert(rows.push(row).drop_last() =~= rows);
}

/// What can be wrong with a catalog.
proof fn lemma_catalog_errors(specs: Specs, rows: Seq<Row>)
    ensures
        load_of(specs, rows).result matches Err(error) ==> {
            ||| error == ErrorView::Storage("load specs: row read failed"@)
            ||| exists|name: Seq<char>|
                error == ErrorView::Storage(
                    "integrity error: malformed indexed_fields in catalog for collection "@
                        + #[trigger] debug_text(name),
                )
        },
    decreases rows.len(),
{
    if rows.len() > 0 {
        lemma_catalog_errors(specs, rows.drop_last());
    }
}

/// `open` on a path without a `..` component fails only where opening the database fails, with
/// the error that says so, or where the start fails, with the error of the start; it is never
/// refused. A store that it returns is at the path.
pub proof fn opening_fails_only_with_sqlite_or_the_catalog(
    path: Seq<char>,
    result: Result<StoreView, ErrorView>,
)
    requires
        is_open(path, result),
        path == ":memory:"@ || !has_parent_component(path),
    ensures
        match result {
            Ok(store) => is_start(fresh(path), store, Ok(())) && store.path == (if path
                == ":memory:"@ {
                None::<Seq<char>>
            } else {
                Some(path)
            }),
            Err(error) => {
                ||| error == ErrorView::Storage(
                    if path == ":memory:"@ {
                        "open in-memory failed"@
                    } else {
                        "open database failed"@
                    },
                ) && exists|e: rusqlite::Error| #[trigger] failed_to_open(path, e)
                ||| exists|store: SqliteStore| #[trigger] start_failed(fresh(path), store, error)
            },
        },
{
}

/// The error that refuses a path comes exactly for the paths that are refused.
pub proof fn the_refusal_of_a_path_is_told_apart(
    path: Seq<char>,
    result: Result<StoreView, ErrorView>,
)
    requires
        is_open(path, result),
    ensures
        result == Err::<StoreView, ErrorView>(
            ErrorView::Storage("invalid path: "@ + "path traversal (..) is not allowed"@),
        ) <==> path != ":memory:"@ && has_parent_component(path),
{
    let refused = "invalid path: "@ + "path traversal (..) is not allowed"@;
    reveal_strlit("invalid path: ");
    reveal_strlit("open in-memory failed");
    reveal_strlit("open database failed");
    reveal_strlit("configure pragmas failed");
    reveal_strlit("init schema failed");
    reveal_strlit("load specs: prepare failed");
    reveal_strlit("load specs: query failed");
    reveal_strlit("load specs: row read failed");
    reveal_strlit("integrity error: malformed indexed_fields in catalog for collection ");
    assert(refused[0] == 'i' && refused[2] == 'v');
    if path == ":memory:"@ || !has_parent_component(path) {
        match result {
            Err(error) => {
                if exists|store: SqliteStore| #[trigger] start_failed(fresh(path), store, error) {
                    let store = choose|store: SqliteStore| #[trigger]
                        start_failed(fresh(path), store, error);
                    let end = Err::<(), ErrorView>(error);
                    starting_fails_only_with_sqlite_or_the_catalog(fresh(path), store@, end);
                    if store@.last_answer() is Rows {
                        let rows = store@.last_answer()->Rows_0;
                        lemma_catalog_errors(fresh(path).specs, rows);
                        if error != ErrorView::Storage("load specs: row read failed"@) {
                            let name = choose|name: Seq<char>|
                                error == ErrorView::Storage(
                                    "integrity error: malformed indexed_fields in catalog for collection "@
                                        + #[trigger] debug_text(name),
                                );
                            let text =
                                "integrity error: malformed indexed_fields in catalog for collection "@
                                + debug_text(name);
                            assert(text[2] == 't');
                        }
                    }
                }
                assert(error != ErrorView::Storage(refused));
            },
            Ok(_) => {},
        }
    }
}

} // verus!
