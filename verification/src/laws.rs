//! What holds of the store's operations taken together.
//!
//! A law about what the database holds takes it as a parameter: `db` before an operation and
//! `next` after it. It holds where the store rests on `db` and what was handed to SQLite was
//! obeyed, that is, answered as by a database that nobody else changes. The contracts of the
//! operations say so of a store in memory; of a database at a path it is the assumption that
//! there is no other writer.

use vstd::prelude::*;
use vstd::seq_lib::*;

use crate::answers::{fields_agree, holds_json, obeyed, selected, unmistakable, Answer};
use crate::collections::Specs;
use crate::consistency::{
    delete_effect, ensure_effect, get_effect, put_effect, query_effect,
};
use crate::database::{
    all_read, comparable, field_is, is_null_or_absent, key_of, listed, lists, value_of, Database,
    Row, Table,
};
use crate::identifier::valid_identifier;
use crate::json::{
    field_of, field_view, is_plain, json_parse, json_text, sql_of, JsonView, MAX_NESTING,
};
use crate::model::{
    after_steps, database_serves, has_index, is_delete, is_ensure, is_get, is_put, is_query,
    known_text, step_count, StoreView,
};
use crate::persistence::{ErrorView, QueryView, RecordView, SpecView};
use crate::plan::plan_of;
use crate::rows::{record_of, records_of};
use crate::sql::{catalog_table, Statement};

verus! {

/// Whether what is stored under an id is the text of this record.
pub open spec fn stores(db: Database, collection: Seq<char>, record: RecordView) -> bool {
    db.row(collection, record.id) matches Some(text) && json_parse(text) == Some(record.doc)
}

/// Whether a record with this id is among `records`.
pub open spec fn has_id(records: Seq<RecordView>, id: Seq<char>) -> bool {
    exists|i: int| 0 <= i < records.len() && (#[trigger] records[i]).id == id
}

/// Whether no two of the records have the same id.
pub open spec fn ids_differ(records: Seq<RecordView>) -> bool {
    forall|i: int, j: int|
        0 <= i < j < records.len() ==> (#[trigger] records[i]).id != (#[trigger] records[j]).id
}

/// What was written is read back: `get` after a `put` that succeeded returns the record where
/// SQLite answers, for every document that parsing gives back from its text.
pub proof fn get_returns_what_put_wrote(
    before: StoreView,
    written: StoreView,
    after: StoreView,
    db: Database,
    mid: Database,
    next: Database,
    collection: Seq<char>,
    record: RecordView,
    result: Result<RecordView, ErrorView>,
)
    requires
        before.rests_on(db),
        json_parse(json_text(record.doc)->0) == Some(record.doc),
        is_put(before, written, collection, record, Ok(())),
        obeyed(db, written.since(before), mid),
        is_get(written, after, collection, record.id, result),
        obeyed(mid, after.since(written), next),
    ensures
        result == (if after.last_answer() is Failed {
            Err::<RecordView, ErrorView>(ErrorView::Storage("query failed"@))
        } else {
            Ok::<RecordView, ErrorView>(record)
        }),
{
    put_effect(before, written, db, mid, collection, record, Ok(()));
    get_effect(written, after, mid, next, collection, record.id, result);
}

/// Parsing gives back, from its text, every document that was written, holds no
/// floating-point number and nests no deeper than the parser goes.
pub proof fn plain_documents_are_read_back(
    before: StoreView,
    after: StoreView,
    collection: Seq<char>,
    record: RecordView,
)
    requires
        is_put(before, after, collection, record, Ok(())),
        is_plain(record.doc, MAX_NESTING as nat),
    ensures
        json_parse(json_text(record.doc)->0) == Some(record.doc),
{
}

/// A second `put` under the same id takes the place of the first: the database is as if the
/// second alone had been made.
pub proof fn put_replaces(
    before: StoreView,
    first: StoreView,
    second: StoreView,
    db: Database,
    mid: Database,
    next: Database,
    collection: Seq<char>,
    id: Seq<char>,
    doc1: JsonView,
    doc2: JsonView,
)
    requires
        before.rests_on(db),
        is_put(before, first, collection, (RecordView { id, doc: doc1 }), Ok(())),
        obeyed(db, first.since(before), mid),
        is_put(first, second, collection, (RecordView { id, doc: doc2 }), Ok(())),
        obeyed(mid, second.since(first), next),
    ensures
        next == db.with_row(collection, id, json_text(doc2)->0),
{
    put_effect(before, first, db, mid, collection, RecordView { id, doc: doc1 }, Ok(()));
    put_effect(first, second, mid, next, collection, RecordView { id, doc: doc2 }, Ok(()));
    let once = db.tables[collection].insert(id, json_text(doc2)->0);
    assert(db.tables[collection].insert(id, json_text(doc1)->0).insert(id, json_text(doc2)->0)
        =~= once);
    assert(next.tables =~= db.tables.insert(collection, once));
    assert(next =~= db.with_row(collection, id, json_text(doc2)->0));
}

/// `put` touches no other record, in this collection or in another, and no declaration.
pub proof fn put_touches_no_other_record(
    before: StoreView,
    after: StoreView,
    db: Database,
    next: Database,
    collection: Seq<char>,
    record: RecordView,
    result: Result<(), ErrorView>,
    other: Seq<char>,
    id: Seq<char>,
)
    requires
        before.rests_on(db),
        is_put(before, after, collection, record, result),
        obeyed(db, after.since(before), next),
        other != collection || id != record.id,
    ensures
        next.row(other, id) == db.row(other, id),
        after.specs == before.specs,
{
    put_effect(before, after, db, next, collection, record, result);
}

/// What was deleted is gone: `get` after a `delete` that succeeded finds nothing where SQLite
/// answers.
pub proof fn get_misses_what_delete_removed(
    before: StoreView,
    deleted: StoreView,
    after: StoreView,
    db: Database,
    mid: Database,
    next: Database,
    collection: Seq<char>,
    id: Seq<char>,
    result: Result<RecordView, ErrorView>,
)
    requires
        before.rests_on(db),
        is_delete(before, deleted, collection, id, Ok(())),
        obeyed(db, deleted.since(before), mid),
        is_get(deleted, after, collection, id, result),
        obeyed(mid, after.since(deleted), next),
    ensures
        result == Err::<RecordView, ErrorView>(
            if after.last_answer() is Failed {
                ErrorView::Storage("query failed"@)
            } else {
                ErrorView::NotFound(id)
            },
        ),
{
    delete_effect(before, deleted, db, mid, collection, id, Ok(()));
    get_effect(deleted, after, mid, next, collection, id, result);
}

/// `delete` touches no other record, in this collection or in another, and no declaration.
pub proof fn delete_touches_no_other_record(
    before: StoreView,
    after: StoreView,
    db: Database,
    next: Database,
    collection: Seq<char>,
    id: Seq<char>,
    result: Result<(), ErrorView>,
    other: Seq<char>,
    other_id: Seq<char>,
)
    requires
        before.rests_on(db),
        is_delete(before, after, collection, id, result),
        obeyed(db, after.since(before), next),
        other != collection || other_id != id,
    ensures
        next.row(other, other_id) == db.row(other, other_id),
        after.specs == before.specs,
{
    delete_effect(before, after, db, next, collection, id, result);
}

/// To delete a record that is not there changes nothing.
pub proof fn delete_of_absent_is_no_op(
    before: StoreView,
    after: StoreView,
    db: Database,
    next: Database,
    collection: Seq<char>,
    id: Seq<char>,
    result: Result<(), ErrorView>,
)
    requires
        before.rests_on(db),
        db.row(collection, id) is None,
        is_delete(before, after, collection, id, result),
        obeyed(db, after.since(before), next),
    ensures
        next == db,
        after.specs == before.specs,
{
    delete_effect(before, after, db, next, collection, id, result);
    if before.refusal(collection) is None {
        assert(db.tables[collection].remove(id) =~= db.tables[collection]);
        assert(db.without_row(collection, id).tables =~= db.tables);
        assert(db.without_row(collection, id) =~= db);
    }
}

/// A second `delete` of the same record changes nothing, and succeeds where SQLite does.
pub proof fn delete_again_is_no_op(
    before: StoreView,
    deleted: StoreView,
    after: StoreView,
    db: Database,
    mid: Database,
    next: Database,
    collection: Seq<char>,
    id: Seq<char>,
    result: Result<(), ErrorView>,
)
    requires
        before.rests_on(db),
        is_delete(before, deleted, collection, id, Ok(())),
        obeyed(db, deleted.since(before), mid),
        is_delete(deleted, after, collection, id, result),
        obeyed(mid, after.since(deleted), next),
    ensures
        next == mid,
        result is Ok <==> !(after.last_answer() is Failed),
{
    delete_effect(before, deleted, db, mid, collection, id, Ok(()));
    delete_of_absent_is_no_op(deleted, after, mid, next, collection, id, result);
}

/// A `put` under an id that was free and a `delete` of it leave the database as it was: every
/// later answer is as if neither had been.
pub proof fn delete_undoes_put(
    before: StoreView,
    written: StoreView,
    after: StoreView,
    db: Database,
    mid: Database,
    next: Database,
    collection: Seq<char>,
    record: RecordView,
)
    requires
        before.rests_on(db),
        db.row(collection, record.id) is None,
        is_put(before, written, collection, record, Ok(())),
        obeyed(db, written.since(before), mid),
        is_delete(written, after, collection, record.id, Ok(())),
        obeyed(mid, after.since(written), next),
    ensures
        next == db,
        after.specs == before.specs,
{
    put_effect(before, written, db, mid, collection, record, Ok(()));
    delete_effect(written, after, mid, next, collection, record.id, Ok(()));
    let text = json_text(record.doc)->0;
    assert(db.tables[collection].insert(record.id, text).remove(record.id)
        =~= db.tables[collection]);
    assert(next.tables =~= db.tables);
    assert(next =~= db);
}

/// A write that fails changes neither what is stored nor which collections are declared.
pub proof fn failed_write_changes_nothing(
    before: StoreView,
    after: StoreView,
    db: Database,
    next: Database,
    collection: Seq<char>,
    record: RecordView,
    error: ErrorView,
)
    requires
        before.rests_on(db),
        is_put(before, after, collection, record, Err(error)) || is_delete(
            before,
            after,
            collection,
            record.id,
            Err(error),
        ),
        obeyed(db, after.since(before), next),
    ensures
        next == db,
        after.specs == before.specs,
{
    if is_put(before, after, collection, record, Err(error)) {
        put_effect(before, after, db, next, collection, record, Err(error));
    } else {
        delete_effect(before, after, db, next, collection, record.id, Err(error));
    }
}

/// The records that rows stand for are the rows, one for one: every row was read and its
/// document parsed.
proof fn lemma_records_of(rows: Seq<Row>)
    requires
        records_of(rows) is Ok,
    ensures
        all_read(rows),
        records_of(rows)->Ok_0.len() == rows.len(),
        forall|i: int|
            0 <= i < rows.len() ==> {
                &&& (#[trigger] records_of(rows)->Ok_0[i]).id == key_of(rows[i])
                &&& json_parse(value_of(rows[i])) == Some(records_of(rows)->Ok_0[i].doc)
            },
    decreases rows.len(),
{
    if rows.len() > 0 {
        let rest = rows.drop_last();
        lemma_records_of(rest);
        let records = records_of(rows)->Ok_0;
        let earlier = records_of(rest)->Ok_0;
        assert(records.drop_last() =~= earlier);
        assert forall|i: int| 0 <= i < rows.len() implies (#[trigger] rows[i]) is Some by {
            if i < rest.len() {
                assert(rest[i] is Some);
            }
        }
        assert forall|i: int| 0 <= i < rows.len() implies {
            &&& (#[trigger] records[i]).id == key_of(rows[i])
            &&& json_parse(value_of(rows[i])) == Some(records[i].doc)
        } by {
            if i < rest.len() {
                assert(records[i] == earlier[i]);
                assert(rest[i] == rows[i]);
            }
        }
    }
}

/// A table that is listed has as many rows as the list.
proof fn lemma_listed_count(rows: Seq<Row>, table: Table)
    requires
        lists(rows, table),
    ensures
        table.dom().finite(),
        table.dom().len() == rows.len(),
{
    let keys = Seq::new(rows.len(), |i: int| key_of(rows[i]));
    assert(keys.no_duplicates()) by {
        assert forall|i: int, j: int| 0 <= i < keys.len() && 0 <= j < keys.len() && i != j
            implies keys[i] != keys[j] by {
            if i < j {
                assert(key_of(rows[i]) != key_of(rows[j]));
            } else {
                assert(key_of(rows[j]) != key_of(rows[i]));
            }
        }
    }
    assert forall|key: Seq<char>| #[trigger]
        table.dom().contains(key) implies keys.to_set().contains(key) by {
        assert(table.contains_key(key));
        assert(listed(rows, key));
        let i = choose|i: int|
            0 <= i < rows.len() && (#[trigger] rows[i]) is Some && key_of(rows[i]) == key;
        assert(keys[i] == key);
    }
    assert forall|key: Seq<char>| #[trigger]
        keys.to_set().contains(key) implies table.dom().contains(key) by {
        let i = choose|i: int| 0 <= i < keys.len() && keys[i] == key;
        assert(table.contains_key(key_of(rows[i])));
    }
    assert(keys.to_set() =~= table.dom());
    keys.unique_seq_to_set();
    seq_to_set_is_finite(keys);
}

/// The records that a listing of rows stands for: they are stored, each once, and a record is
/// among them where its row is.
pub(crate) proof fn lemma_listed_records(db: Database, collection: Seq<char>, rows: Seq<Row>, table: Table)
    requires
        records_of(rows) is Ok,
        lists(rows, table),
        forall|key: Seq<char>| #[trigger]
            table.contains_key(key) ==> db.row(collection, key) == Some(table[key]),
    ensures
        forall|i: int|
            0 <= i < records_of(rows)->Ok_0.len() ==> stores(
                db,
                collection,
                #[trigger] records_of(rows)->Ok_0[i],
            ),
        ids_differ(records_of(rows)->Ok_0),
        forall|key: Seq<char>| #[trigger]
            has_id(records_of(rows)->Ok_0, key) <==> table.contains_key(key),
        forall|key: Seq<char>| #[trigger]
            has_id(records_of(rows)->Ok_0, key) <==> listed(rows, key),
{
    lemma_records_of(rows);
    let records = records_of(rows)->Ok_0;
    assert forall|i: int| 0 <= i < records.len() implies stores(
        db,
        collection,
        #[trigger] records[i],
    ) by {
        assert(table.contains_key(key_of(rows[i])));
    }
    assert forall|i: int, j: int| 0 <= i < j < records.len() implies (#[trigger] records[i]).id != (
    #[trigger] records[j]).id by {
        assert(key_of(rows[i]) != key_of(rows[j]));
    }
    assert forall|key: Seq<char>| #[trigger] has_id(records, key) implies table.contains_key(key)
        && listed(rows, key) by {
        let i = choose|i: int| 0 <= i < records.len() && (#[trigger] records[i]).id == key;
        assert(rows[i] is Some);
        assert(table.contains_key(key_of(rows[i])));
    }
    assert forall|key: Seq<char>| listed(rows, key) implies #[trigger] has_id(records, key) by {
        let i = choose|i: int|
            0 <= i < rows.len() && (#[trigger] rows[i]) is Some && key_of(rows[i]) == key;
        assert(records[i].id == key);
    }
    assert forall|key: Seq<char>| table.contains_key(key) implies #[trigger] has_id(
        records,
        key,
    ) by {
        assert(listed(rows, key));
    }
}

/// What stands behind the records that a query returned: rows that were all read, and that
/// are those that the statement selects.
pub(crate) proof fn lemma_query_rows(
    before: StoreView,
    after: StoreView,
    db: Database,
    next: Database,
    collection: Seq<char>,
    query: QueryView,
    records: Seq<RecordView>,
) -> (rows: Seq<Row>)
    requires
        before.rests_on(db),
        is_query(before, after, collection, query, Ok(records)),
        obeyed(db, after.since(before), next),
    ensures
        before.refusal(collection) is None,
        plan_of(collection, before.specs[collection], query) is Ok,
        after.last_answer() == Answer::Rows(rows),
        records_of(rows) == Ok::<Seq<RecordView>, ErrorView>(records),
        all_read(rows),
        db.tables.contains_key(collection),
        ({
            let plan = plan_of(collection, before.specs[collection], query)->Ok_0;
            &&& lists(rows, selected(db, plan.statement, plan.values))
            &&& fields_agree(db, plan.statement, plan.values, rows)
        }),
{
    query_effect(before, after, db, next, collection, query, Ok(records));
    let rows = after.last_answer()->Rows_0;
    lemma_records_of(rows);
    rows
}

/// `query` for everything returns everything, each record once.
pub proof fn query_all_returns_everything(
    before: StoreView,
    after: StoreView,
    db: Database,
    next: Database,
    collection: Seq<char>,
    records: Seq<RecordView>,
)
    requires
        before.rests_on(db),
        is_query(before, after, collection, QueryView::All, Ok(records)),
        obeyed(db, after.since(before), next),
    ensures
        forall|i: int|
            0 <= i < records.len() ==> stores(db, collection, #[trigger] records[i]),
        ids_differ(records),
        forall|id: Seq<char>| #[trigger]
            has_id(records, id) <==> db.row(collection, id) is Some,
        db.tables[collection].dom().finite(),
        records.len() == db.tables[collection].dom().len(),
{
    let rows = lemma_query_rows(before, after, db, next, collection, QueryView::All, records);
    lemma_listed_records(db, collection, rows, db.tables[collection]);
    lemma_listed_count(rows, db.tables[collection]);
    lemma_records_of(rows);
}

/// `query` for everything and `get` agree: a record is among everything exactly where `get`
/// returns it.
pub proof fn query_all_agrees_with_get(
    before: StoreView,
    queried: StoreView,
    after: StoreView,
    db: Database,
    mid: Database,
    next: Database,
    collection: Seq<char>,
    records: Seq<RecordView>,
    record: RecordView,
    result: Result<RecordView, ErrorView>,
)
    requires
        before.rests_on(db),
        is_query(before, queried, collection, QueryView::All, Ok(records)),
        obeyed(db, queried.since(before), mid),
        is_get(queried, after, collection, record.id, result),
        obeyed(mid, after.since(queried), next),
        !(after.last_answer() is Failed),
    ensures
        records.contains(record) <==> result == Ok::<RecordView, ErrorView>(record),
        ids_differ(records),
{
    query_all_returns_everything(before, queried, db, mid, collection, records);
    query_effect(before, queried, db, mid, collection, QueryView::All, Ok(records));
    get_effect(queried, after, mid, next, collection, record.id, result);
    if records.contains(record) {
        let i = choose|i: int| 0 <= i < records.len() && records[i] == record;
        assert(stores(db, collection, records[i]));
    }
    if result == Ok::<RecordView, ErrorView>(record) {
        assert(has_id(records, record.id));
        let i = choose|i: int| 0 <= i < records.len() && (#[trigger] records[i]).id == record.id;
        assert(stores(db, collection, records[i]));
        assert(records[i] == record);
    }
}

/// After a `put`, everything is one record more where the id was free, and as many records
/// where it was taken.
pub proof fn put_adds_one_record_or_none(
    before: StoreView,
    counted: StoreView,
    written: StoreView,
    after: StoreView,
    db: Database,
    db1: Database,
    db2: Database,
    next: Database,
    collection: Seq<char>,
    record: RecordView,
    old_records: Seq<RecordView>,
    new_records: Seq<RecordView>,
)
    requires
        before.rests_on(db),
        is_query(before, counted, collection, QueryView::All, Ok(old_records)),
        obeyed(db, counted.since(before), db1),
        is_put(counted, written, collection, record, Ok(())),
        obeyed(db1, written.since(counted), db2),
        is_query(written, after, collection, QueryView::All, Ok(new_records)),
        obeyed(db2, after.since(written), next),
    ensures
        new_records.len() == old_records.len() + (if has_id(old_records, record.id) {
            0int
        } else {
            1int
        }),
{
    query_all_returns_everything(before, counted, db, db1, collection, old_records);
    query_effect(before, counted, db, db1, collection, QueryView::All, Ok(old_records));
    put_effect(counted, written, db1, db2, collection, record, Ok(()));
    query_all_returns_everything(written, after, db2, next, collection, new_records);
    let table = db.tables[collection];
    let text = json_text(record.doc)->0;
    assert(db2.tables[collection] == table.insert(record.id, text));
    assert(table.insert(record.id, text).dom() =~= table.dom().insert(record.id));
    assert(has_id(old_records, record.id) <==> db.row(collection, record.id) is Some);
    lemma_query_rows(before, counted, db, db1, collection, QueryView::All, old_records);
}

/// `get` and `query` by id agree, whatever stands under the id: the record alone where `get`
/// returns it, nothing where it finds none, and the same error where the document is damaged.
pub proof fn query_by_id_agrees_with_get(
    before: StoreView,
    queried: StoreView,
    after: StoreView,
    db: Database,
    mid: Database,
    next: Database,
    collection: Seq<char>,
    id: Seq<char>,
    found: Result<Seq<RecordView>, ErrorView>,
    result: Result<RecordView, ErrorView>,
)
    requires
        before.rests_on(db),
        before.refusal(collection) is None,
        is_query(before, queried, collection, QueryView::ById(id), found),
        obeyed(db, queried.since(before), mid),
        queried.last_answer() matches Answer::Rows(rows) && all_read(rows),
        is_get(queried, after, collection, id, result),
        obeyed(mid, after.since(queried), next),
        !(after.last_answer() is Failed),
    ensures
        found == (match result {
            Ok(record) => Ok::<Seq<RecordView>, ErrorView>(seq![record]),
            Err(ErrorView::NotFound(_)) => Ok::<Seq<RecordView>, ErrorView>(seq![]),
            Err(error) => Err::<Seq<RecordView>, ErrorView>(error),
        }),
        result matches Ok(record) ==> record.id == id,
{
    query_effect(before, queried, db, mid, collection, QueryView::ById(id), found);
    get_effect(queried, after, mid, next, collection, id, result);
    let rows = queried.last_answer()->Rows_0;
    let plan = plan_of(collection, before.specs[collection], QueryView::ById(id))->Ok_0;
    let table = selected(db, plan.statement, plan.values);
    assert forall|i: int| 0 <= i < rows.len() implies key_of(#[trigger] rows[i]) == id by {
        assert(table.contains_key(key_of(rows[i])));
    }
    if rows.len() > 1 {
        assert(key_of(rows[0]) != key_of(rows[1]));
    }
    if db.row(collection, id) is Some {
        assert(table.contains_key(id));
        assert(listed(rows, id));
        assert(rows.len() == 1);
        assert(rows[0] is Some && value_of(rows[0]) == db.row(collection, id)->0);
        assert(rows.drop_last() =~= Seq::empty());
        assert(records_of(rows.drop_last()) == Ok::<Seq<RecordView>, ErrorView>(Seq::empty()));
        assert(rows.last() == rows[0]);
        match record_of(id, value_of(rows[0])) {
            Ok(record) => {
                assert(Seq::<RecordView>::empty().push(record) =~= seq![record]);
            },
            Err(_) => {},
        }
    } else {
        if rows.len() > 0 {
            assert(table.contains_key(key_of(rows[0])));
        }
    }
}

/// `query` for a null field returns stored records, each once, and a document that is the
/// text of a JSON value is among them exactly where the field is null or absent. No key of
/// the document may be the field, a NUL and more.
pub proof fn query_null_matches_null_and_absent(
    before: StoreView,
    after: StoreView,
    db: Database,
    next: Database,
    collection: Seq<char>,
    field: Seq<char>,
    records: Seq<RecordView>,
    id: Seq<char>,
    doc: JsonView,
)
    requires
        before.rests_on(db),
        is_query(
            before,
            after,
            collection,
            (QueryView::ByField { field, value: JsonView::Null }),
            Ok(records),
        ),
        obeyed(db, after.since(before), next),
        holds_json(db, collection, id, doc),
        unmistakable(doc, field),
    ensures
        forall|i: int|
            0 <= i < records.len() ==> stores(db, collection, #[trigger] records[i]),
        ids_differ(records),
        has_id(records, id) <==> is_null_or_absent(field_of(doc, field)),
{
    let query = QueryView::ByField { field, value: JsonView::Null };
    let rows = lemma_query_rows(before, after, db, next, collection, query, records);
    let plan = plan_of(collection, before.specs[collection], query)->Ok_0;
    lemma_listed_records(db, collection, rows, selected(db, plan.statement, plan.values));
    assert(json_text(doc) is Some);
    assert(has_id(records, id) <==> listed(rows, id));
}

/// `query` by the value of a field returns stored records, each once, and a document that is
/// the text of a JSON value is among them exactly where its field equals the value: the same
/// text, the same 64-bit integer, a boolean for 1 or 0, or an array or object whose JSON text
/// it is. Floating-point numbers against numbers are left out, and so is a document with a
/// key that is the field, a NUL and more.
pub proof fn query_by_field_matches_equal_fields(
    before: StoreView,
    after: StoreView,
    db: Database,
    next: Database,
    collection: Seq<char>,
    field: Seq<char>,
    value: JsonView,
    records: Seq<RecordView>,
    id: Seq<char>,
    doc: JsonView,
)
    requires
        before.rests_on(db),
        is_query(
            before,
            after,
            collection,
            (QueryView::ByField { field, value }),
            Ok(records),
        ),
        obeyed(db, after.since(before), next),
        holds_json(db, collection, id, doc),
        unmistakable(doc, field),
        sql_of(field_view(value)) is Ok,
        comparable(field_of(doc, field), sql_of(field_view(value))->Ok_0),
    ensures
        forall|i: int|
            0 <= i < records.len() ==> stores(db, collection, #[trigger] records[i]),
        ids_differ(records),
        has_id(records, id) <==> field_is(
            field_of(doc, field),
            sql_of(field_view(value))->Ok_0,
        ),
{
    let query = QueryView::ByField { field, value };
    let rows = lemma_query_rows(before, after, db, next, collection, query, records);
    let plan = plan_of(collection, before.specs[collection], query)->Ok_0;
    lemma_listed_records(db, collection, rows, selected(db, plan.statement, plan.values));
    assert(json_text(doc) is Some);
    assert(has_id(records, id) <==> listed(rows, id));
}

/// Whether a query for a value at a field wants this document.
pub open spec fn wants(value: JsonView, doc: JsonView, field: Seq<char>) -> bool {
    if value is Null {
        is_null_or_absent(field_of(doc, field))
    } else {
        field_is(field_of(doc, field), sql_of(field_view(value))->Ok_0)
    }
}

/// Whether it is said above which documents a query for this value wants.
pub open spec fn said(value: JsonView, doc: JsonView, field: Seq<char>) -> bool {
    &&& unmistakable(doc, field)
    &&& value is Null || (sql_of(field_view(value)) is Ok && comparable(
        field_of(doc, field),
        sql_of(field_view(value))->Ok_0,
    ))
}

/// `query` by field is a selection from everything: a record is among its records exactly
/// where it is among everything and its document is wanted. So none is missing, none is extra,
/// and none comes twice. What is stored must be the text of the document, as `put` writes it.
pub proof fn query_by_field_selects_from_everything(
    before: StoreView,
    listed_all: StoreView,
    after: StoreView,
    db: Database,
    mid: Database,
    next: Database,
    collection: Seq<char>,
    field: Seq<char>,
    value: JsonView,
    all: Seq<RecordView>,
    records: Seq<RecordView>,
    record: RecordView,
)
    requires
        before.rests_on(db),
        is_query(before, listed_all, collection, QueryView::All, Ok(all)),
        obeyed(db, listed_all.since(before), mid),
        is_query(
            listed_all,
            after,
            collection,
            (QueryView::ByField { field, value }),
            Ok(records),
        ),
        obeyed(mid, after.since(listed_all), next),
        stores(db, collection, record) ==> holds_json(
            db,
            collection,
            record.id,
            record.doc,
        ),
        said(value, record.doc, field),
    ensures
        records.contains(record) <==> all.contains(record) && wants(value, record.doc, field),
        ids_differ(records),
{
    query_all_returns_everything(before, listed_all, db, mid, collection, all);
    query_effect(before, listed_all, db, mid, collection, QueryView::All, Ok(all));
    let query = QueryView::ByField { field, value };
    let rows = lemma_query_rows(listed_all, after, mid, next, collection, query, records);
    let plan = plan_of(collection, listed_all.specs[collection], query)->Ok_0;
    lemma_listed_records(db, collection, rows, selected(db, plan.statement, plan.values));
    if stores(db, collection, record) {
        if value is Null {
            query_null_matches_null_and_absent(
                listed_all,
                after,
                mid,
                next,
                collection,
                field,
                records,
                record.id,
                record.doc,
            );
        } else {
            query_by_field_matches_equal_fields(
                listed_all,
                after,
                mid,
                next,
                collection,
                field,
                value,
                records,
                record.id,
                record.doc,
            );
        }
    }
    lemma_same_record(db, collection, all, record);
    lemma_same_record(db, collection, records, record);
}

/// Among stored records, the one with an id is the one that is stored under it.
proof fn lemma_same_record(
    db: Database,
    collection: Seq<char>,
    records: Seq<RecordView>,
    record: RecordView,
)
    requires
        forall|i: int|
            0 <= i < records.len() ==> stores(db, collection, #[trigger] records[i]),
    ensures
        records.contains(record) <==> has_id(records, record.id) && stores(db, collection, record),
{
    if records.contains(record) {
        let i = choose|i: int| 0 <= i < records.len() && records[i] == record;
        assert(stores(db, collection, records[i]));
        assert(records[i].id == record.id);
    }
    if has_id(records, record.id) && stores(db, collection, record) {
        let i = choose|i: int| 0 <= i < records.len() && (#[trigger] records[i]).id == record.id;
        assert(stores(db, collection, records[i]));
        assert(records[i] == record);
    }
}

/// A record is found by its own field: after a `put` that succeeded, a query for the text,
/// the 64-bit integer, the boolean or the null that its field holds returns it.
pub proof fn query_finds_what_put_wrote(
    before: StoreView,
    written: StoreView,
    after: StoreView,
    db: Database,
    mid: Database,
    next: Database,
    collection: Seq<char>,
    record: RecordView,
    field: Seq<char>,
    held: JsonView,
    records: Seq<RecordView>,
)
    requires
        before.rests_on(db),
        is_put(before, written, collection, record, Ok(())),
        obeyed(db, written.since(before), mid),
        field_of(record.doc, field) == Some(held),
        unmistakable(record.doc, field),
        held is String || held is Bool || held is Null || (held matches JsonView::Number(n)
            && n.integer is Some),
        is_query(
            written,
            after,
            collection,
            (QueryView::ByField { field, value: held }),
            Ok(records),
        ),
        obeyed(mid, after.since(written), next),
    ensures
        has_id(records, record.id),
{
    put_effect(before, written, db, mid, collection, record, Ok(()));
    assert(holds_json(mid, collection, record.id, record.doc));
    if held is Null {
        query_null_matches_null_and_absent(
            written,
            after,
            mid,
            next,
            collection,
            field,
            records,
            record.id,
            record.doc,
        );
    } else {
        query_by_field_matches_equal_fields(
            written,
            after,
            mid,
            next,
            collection,
            field,
            held,
            records,
            record.id,
            record.doc,
        );
    }
}

/// Whether an error says that a request was refused before SQLite was asked.
pub open spec fn is_refusal(error: ErrorView) -> bool {
    error is InvalidIdentifier || error is CollectionNotFound || error is FieldNotIndexed
}

/// A refused request touches nothing: no statement is handed to SQLite, no table is created
/// and no collection declared.
pub proof fn refused_requests_touch_nothing(
    before: StoreView,
    after: StoreView,
    collection: Seq<char>,
    record: RecordView,
    query: QueryView,
    spec: SpecView,
    error: ErrorView,
)
    requires
        is_refusal(error),
        is_put(before, after, collection, record, Err(error)) || is_get(
            before,
            after,
            collection,
            record.id,
            Err(error),
        ) || is_query(before, after, collection, query, Err(error)) || is_delete(
            before,
            after,
            collection,
            record.id,
            Err(error),
        ) || is_ensure(before, after, spec, Err(error)),
    ensures
        after == before,
{
    if after.last_answer() is Rows {
        lemma_row_errors(after.last_answer()->Rows_0);
    }
}

/// What goes wrong with rows is never a refusal.
proof fn lemma_row_errors(rows: Seq<Row>)
    ensures
        records_of(rows) matches Err(error) ==> error is Storage,
    decreases rows.len(),
{
    if rows.len() > 0 {
        lemma_row_errors(rows.drop_last());
    }
}

/// A name that is no identifier is refused by every operation, and an identifier that was not
/// declared by every operation on a collection, with the error that says so.
pub proof fn undeclared_collections_are_refused(
    before: StoreView,
    after: StoreView,
    collection: Seq<char>,
    record: RecordView,
    query: QueryView,
    put: Result<(), ErrorView>,
    got: Result<RecordView, ErrorView>,
    found: Result<Seq<RecordView>, ErrorView>,
    deleted: Result<(), ErrorView>,
)
    requires
        !valid_identifier(collection) || !before.specs.contains_key(collection),
    ensures
        ({
            let error = if valid_identifier(collection) {
                ErrorView::CollectionNotFound(collection)
            } else {
                ErrorView::InvalidIdentifier(collection)
            };
            &&& is_put(before, after, collection, record, put) ==> put == Err::<(), ErrorView>(
                error,
            )
            &&& is_get(before, after, collection, record.id, got) ==> got == Err::<
                RecordView,
                ErrorView,
            >(error)
            &&& is_query(before, after, collection, query, found) ==> found == Err::<
                Seq<RecordView>,
                ErrorView,
            >(error)
            &&& is_delete(before, after, collection, record.id, deleted) ==> deleted == Err::<
                (),
                ErrorView,
            >(error)
        }),
{
}

/// A query by field is answered only on a declared field, and there is an index on that field.
pub proof fn field_queries_are_indexed(
    before: StoreView,
    after: StoreView,
    db: Database,
    collection: Seq<char>,
    field: Seq<char>,
    value: JsonView,
    records: Seq<RecordView>,
)
    requires
        before.rests_on(db),
        is_query(before, after, collection, (QueryView::ByField { field, value }), Ok(records)),
    ensures
        before.specs.contains_key(collection),
        before.specs[collection].contains(field),
        has_index(db, collection, field),
{
    let fields = before.specs[collection];
    assert(fields.contains(field));
    let i = choose|i: int| 0 <= i < fields.len() && fields[i] == field;
    assert(has_index(db, collection, before.specs[collection][i]));
}

/// Ids, documents and query values never become part of an SQL text: whatever they are, the
/// text handed to SQLite is the same.
pub proof fn values_are_bound_never_interpolated(
    before1: StoreView,
    after1: StoreView,
    before2: StoreView,
    after2: StoreView,
    collection: Seq<char>,
    record1: RecordView,
    record2: RecordView,
    done1: Result<(), ErrorView>,
    done2: Result<(), ErrorView>,
    got1: Result<RecordView, ErrorView>,
    got2: Result<RecordView, ErrorView>,
)
    requires
        after1.history.len() > before1.history.len(),
        after2.history.len() > before2.history.len(),
        (is_put(before1, after1, collection, record1, done1) && is_put(
            before2,
            after2,
            collection,
            record2,
            done2,
        )) || (is_delete(before1, after1, collection, record1.id, done1) && is_delete(
            before2,
            after2,
            collection,
            record2.id,
            done2,
        )) || (is_get(before1, after1, collection, record1.id, got1) && is_get(
            before2,
            after2,
            collection,
            record2.id,
            got2,
        )),
    ensures
        after1.history.last().sql == after2.history.last().sql,
{
}

/// The value that a query looks for never becomes part of an SQL text: the text is the one of
/// the statement on the collection and the field, for null and for any other value.
pub proof fn query_values_are_bound_never_interpolated(
    before: StoreView,
    after: StoreView,
    collection: Seq<char>,
    field: Seq<char>,
    value: JsonView,
    result: Result<Seq<RecordView>, ErrorView>,
)
    requires
        is_query(before, after, collection, (QueryView::ByField { field, value }), result),
        after.history.len() > before.history.len(),
    ensures
        after.history.last().sql == (if value is Null {
            (Statement::SelectFieldNull { name: collection, field }).text()
        } else {
            (Statement::SelectFieldEqual { name: collection, field }).text()
        }),
{
}

/// To declare a collection touches no record, in this collection or in another.
pub proof fn ensure_touches_no_record(
    before: StoreView,
    after: StoreView,
    db: Database,
    next: Database,
    spec: SpecView,
    result: Result<(), ErrorView>,
    collection: Seq<char>,
    id: Seq<char>,
)
    requires
        before.rests_on(db),
        is_ensure(before, after, spec, result),
        obeyed(db, after.since(before), next),
        collection != catalog_table(),
    ensures
        next.row(collection, id) == db.row(collection, id),
{
    let done = ensure_effect(before, after, db, next, spec, result);
    lemma_steps_touch_no_record(db, spec, done, collection, id);
}

proof fn lemma_steps_touch_no_record(
    db: Database,
    spec: SpecView,
    n: nat,
    collection: Seq<char>,
    id: Seq<char>,
)
    requires
        collection != catalog_table(),
    ensures
        after_steps(db, spec, n).row(collection, id) == db.row(collection, id),
    decreases n,
{
    if n > 0 {
        lemma_steps_touch_no_record(db, spec, (n - 1) as nat, collection, id);
    }
}

/// Only a declaration that succeeded declares the collection, and it changes no other.
pub proof fn ensure_declares_that_collection_alone(
    before: StoreView,
    after: StoreView,
    spec: SpecView,
    result: Result<(), ErrorView>,
    other: Seq<char>,
)
    requires
        is_ensure(before, after, spec, result),
        other != spec.name,
    ensures
        result is Ok ==> after.specs.contains_key(spec.name) && after.specs[spec.name]
            == spec.indexed_fields,
        result is Err ==> after.specs == before.specs,
        after.specs.contains_key(other) == before.specs.contains_key(other),
        before.specs.contains_key(other) ==> after.specs[other] == before.specs[other],
{
}

/// To declare the same collection again changes nothing.
pub proof fn ensure_is_idempotent(
    before: StoreView,
    declared: StoreView,
    after: StoreView,
    db: Database,
    mid: Database,
    next: Database,
    spec: SpecView,
)
    requires
        before.rests_on(db),
        is_ensure(before, declared, spec, Ok(())),
        obeyed(db, declared.since(before), mid),
        is_ensure(declared, after, spec, Ok(())),
        obeyed(mid, after.since(declared), next),
    ensures
        after.specs == declared.specs,
        next == mid,
{
    let done1 = ensure_effect(before, declared, db, mid, spec, Ok(()));
    let done2 = ensure_effect(declared, after, mid, next, spec, Ok(()));
    assert(done1 == step_count(spec) && done2 == step_count(spec));
    assert(after.specs =~= declared.specs);
    lemma_steps_again(mid, declared.specs, spec, (step_count(spec) - 1) as nat);
    assert(next.tables[catalog_table()] =~= mid.tables[catalog_table()]);
    assert(next.tables =~= mid.tables);
    assert(next =~= mid);
}

/// The statements that declare a collection do nothing where it is declared already.
proof fn lemma_steps_again(db: Database, specs: Specs, spec: SpecView, n: nat)
    requires
        database_serves(db, specs),
        specs.contains_key(spec.name),
        specs[spec.name] == spec.indexed_fields,
        n < step_count(spec),
    ensures
        after_steps(db, spec, n) == db,
    decreases n,
{
    if n > 0 {
        lemma_steps_again(db, specs, spec, (n - 1) as nat);
        if n > 1 {
            assert(has_index(db, spec.name, specs[spec.name][n - 2]));
        }
    }
}

/// A damaged document fails loud: a row that cannot be read, or whose document is no JSON, is
/// an error, never a record left out.
pub proof fn damaged_documents_fail(rows: Seq<Row>, i: int)
    requires
        0 <= i < rows.len(),
        rows[i] is None || json_parse(value_of(rows[i])) is None,
    ensures
        records_of(rows) matches Err(error) && error is Storage,
    decreases rows.len(),
{
    let rest = rows.drop_last();
    lemma_row_errors(rest);
    if i < rest.len() {
        assert(rest[i] == rows[i]);
        damaged_documents_fail(rest, i);
    }
}

/// Every statement that a store has handed to SQLite is one of the store's own, over
/// identifiers.
pub proof fn statements_are_over_identifiers(store: StoreView, i: int)
    requires
        store.consistent(),
        0 <= i < store.history.len(),
    ensures
        exists|s: Statement| s.well_formed() && #[trigger] s.text() == store.history[i].sql,
{
    assert(known_text(store.history[i].sql));
}

/// Records with equal documents do not displace each other: after two `put`s that succeeded,
/// under different ids, each is read back, where SQLite answers.
pub proof fn equal_documents_stand_side_by_side(
    before: StoreView,
    first: StoreView,
    second: StoreView,
    after: StoreView,
    db: Database,
    db1: Database,
    db2: Database,
    next: Database,
    collection: Seq<char>,
    id1: Seq<char>,
    id2: Seq<char>,
    doc: JsonView,
    result: Result<RecordView, ErrorView>,
)
    requires
        before.rests_on(db),
        id1 != id2,
        json_parse(json_text(doc)->0) == Some(doc),
        is_put(before, first, collection, (RecordView { id: id1, doc }), Ok(())),
        obeyed(db, first.since(before), db1),
        is_put(first, second, collection, (RecordView { id: id2, doc }), Ok(())),
        obeyed(db1, second.since(first), db2),
        is_get(second, after, collection, id1, result) || is_get(
            second,
            after,
            collection,
            id2,
            result,
        ),
        obeyed(db2, after.since(second), next),
        !(after.last_answer() is Failed),
    ensures
        result matches Ok(record) && record.doc == doc && (record.id == id1 || record.id == id2),
{
    put_effect(before, first, db, db1, collection, RecordView { id: id1, doc }, Ok(()));
    put_effect(first, second, db1, db2, collection, RecordView { id: id2, doc }, Ok(()));
    if is_get(second, after, collection, id1, result) {
        get_effect(second, after, db2, next, collection, id1, result);
    } else {
        get_effect(second, after, db2, next, collection, id2, result);
    }
}

} // verus!
