//! Which records a query by field finds, told value by value.
//!
//! What SQLite's own comparison says of a stored text is named by `field_equals` and
//! `field_is_null`. Where the document is known, and no floating-point number is involved, the
//! laws say it of the document.

use vstd::prelude::*;

use crate::answers::{ends_at_nul, holds_json, obeyed, selected};
use crate::consistency::put_effect;
use crate::database::{listed, Database};
use crate::json::{field_of, json_text, JsonView, SqlView};
use crate::laws::{has_id, lemma_listed_records, lemma_query_rows};
use crate::model::{is_put, is_query, StoreView};
use crate::persistence::{QueryView, RecordView};
use crate::plan::plan_of;
use crate::sqlite::{field_equals, field_is_null};

verus! {

/// The records that a query for a scalar at a field returns are exactly those whose stored text
/// SQLite finds equal, at that field, to the scalar itself: the same text for a string, 1 or 0
/// for a boolean, the same integer for a signed 64-bit integer, and for any other number, whatever
/// its sign and its text, the REAL with exactly the bits that it reads as.
pub proof fn query_by_field_compares_the_same_scalar(
    before: StoreView,
    after: StoreView,
    db: Database,
    next: Database,
    collection: Seq<char>,
    field: Seq<char>,
    value: JsonView,
    records: Seq<RecordView>,
    id: Seq<char>,
)
    requires
        before.rests_on(db),
        is_query(before, after, collection, (QueryView::ByField { field, value }), Ok(records)),
        obeyed(db, after.since(before), next),
    ensures
        value matches JsonView::String(text) ==> (has_id(records, id) <==> db.row(collection, id)
            is Some && field_equals(db.row(collection, id)->0, field, SqlView::Text(text))),
        value == JsonView::Bool(true) ==> (has_id(records, id) <==> db.row(collection, id) is Some
            && field_equals(db.row(collection, id)->0, field, SqlView::Integer(1))),
        value == JsonView::Bool(false) ==> (has_id(records, id) <==> db.row(collection, id) is Some
            && field_equals(db.row(collection, id)->0, field, SqlView::Integer(0))),
        value matches JsonView::Number(n) ==> {
            &&& n.integer matches Some(i) ==> (has_id(records, id) <==> db.row(collection, id)
                is Some && field_equals(db.row(collection, id)->0, field, SqlView::Integer(i)))
            &&& n.integer is None ==> (n.floating matches Some(bits) ==> (has_id(records, id)
                <==> db.row(collection, id) is Some && field_equals(
                db.row(collection, id)->0,
                field,
                SqlView::Real(bits),
            )))
        },
        value is Null ==> (has_id(records, id) <==> db.row(collection, id) is Some && field_is_null(
            db.row(collection, id)->0,
            field,
        )),
        !(value is Array) && !(value is Object),
{
    let query = QueryView::ByField { field, value };
    let rows = lemma_query_rows(before, after, db, next, collection, query, records);
    let plan = plan_of(collection, before.specs[collection], query)->Ok_0;
    lemma_listed_records(db, collection, rows, selected(db, plan.statement, plan.values));
    assert(has_id(records, id) <==> selected(db, plan.statement, plan.values).contains_key(id));
}

/// A number that was written at a field is looked for as itself: after a `put` that succeeded, a
/// query for the number that the field holds, fractional, negative or too large for 64 bits,
/// returns the record exactly where SQLite finds the field of the written text equal to the REAL
/// with the bits of that number.
pub proof fn query_looks_for_the_number_that_put_wrote(
    before: StoreView,
    written: StoreView,
    after: StoreView,
    db: Database,
    mid: Database,
    next: Database,
    collection: Seq<char>,
    record: RecordView,
    field: Seq<char>,
    bits: u64,
    records: Seq<RecordView>,
)
    requires
        before.rests_on(db),
        is_put(before, written, collection, record, Ok(())),
        obeyed(db, written.since(before), mid),
        field_of(record.doc, field) matches Some(JsonView::Number(n)) && n.integer is None
            && n.floating == Some(bits),
        is_query(
            written,
            after,
            collection,
            (QueryView::ByField { field, value: field_of(record.doc, field)->0 }),
            Ok(records),
        ),
        obeyed(mid, after.since(written), next),
    ensures
        has_id(records, record.id) <==> field_equals(
            json_text(record.doc)->0,
            field,
            SqlView::Real(bits),
        ),
{
    put_effect(before, written, db, mid, collection, record, Ok(()));
    let value = field_of(record.doc, field)->0;
    query_by_field_compares_the_same_scalar(
        written,
        after,
        mid,
        next,
        collection,
        field,
        value,
        records,
        record.id,
    );
    assert(mid.row(collection, record.id) == Some(json_text(record.doc)->0));
}

/// Two numbers that read as the same floating-point number, and are no 64-bit integers, are the
/// same question: they find the same records, however they are spelled.
pub proof fn equal_numbers_find_the_same_records(
    before: StoreView,
    first: StoreView,
    second: StoreView,
    db: Database,
    next1: Database,
    next2: Database,
    collection: Seq<char>,
    field: Seq<char>,
    value1: JsonView,
    value2: JsonView,
    records1: Seq<RecordView>,
    records2: Seq<RecordView>,
    id: Seq<char>,
)
    requires
        before.rests_on(db),
        is_query(
            before,
            first,
            collection,
            (QueryView::ByField { field, value: value1 }),
            Ok(records1),
        ),
        obeyed(db, first.since(before), next1),
        is_query(
            before,
            second,
            collection,
            (QueryView::ByField { field, value: value2 }),
            Ok(records2),
        ),
        obeyed(db, second.since(before), next2),
        value1 matches JsonView::Number(n) && n.integer is None && n.floating is Some,
        value2 matches JsonView::Number(n) && n.integer is None && n.floating is Some,
        value1->Number_0.floating == value2->Number_0.floating,
    ensures
        has_id(records1, id) <==> has_id(records2, id),
{
    query_by_field_compares_the_same_scalar(
        before,
        first,
        db,
        next1,
        collection,
        field,
        value1,
        records1,
        id,
    );
    query_by_field_compares_the_same_scalar(
        before,
        second,
        db,
        next2,
        collection,
        field,
        value2,
        records2,
        id,
    );
}

/// Whether no top-level key of a document is the field, a NUL and more.
pub open spec fn plainly_keyed(doc: JsonView, field: Seq<char>) -> bool {
    doc matches JsonView::Object(entries) ==> forall|i: int|
        0 <= i < entries.len() ==> !ends_at_nul((#[trigger] entries[i]).0, field)
}

/// A query for a string finds a document exactly where its field is that string, or is an array
/// or an object with that JSON text.
pub proof fn query_for_a_string_finds_that_string(
    before: StoreView,
    after: StoreView,
    db: Database,
    next: Database,
    collection: Seq<char>,
    field: Seq<char>,
    text: Seq<char>,
    records: Seq<RecordView>,
    id: Seq<char>,
    doc: JsonView,
)
    requires
        before.rests_on(db),
        is_query(
            before,
            after,
            collection,
            (QueryView::ByField { field, value: JsonView::String(text) }),
            Ok(records),
        ),
        obeyed(db, after.since(before), next),
        holds_json(db, collection, id, doc),
        plainly_keyed(doc, field),
    ensures
        has_id(records, id) <==> (field_of(doc, field) matches Some(held) && (held
            == JsonView::String(text) || ((held is Array || held is Object) && json_text(held)
            == Some(text)))),
{
    let query = QueryView::ByField { field, value: JsonView::String(text) };
    let rows = lemma_query_rows(before, after, db, next, collection, query, records);
    let plan = plan_of(collection, before.specs[collection], query)->Ok_0;
    lemma_listed_records(db, collection, rows, selected(db, plan.statement, plan.values));
    assert(json_text(doc) is Some);
    assert(has_id(records, id) <==> listed(rows, id));
}

/// A query for a signed 64-bit integer finds a document exactly where its field is that integer,
/// or is `true` for 1 or `false` for 0. A field that is a number but no such integer is left out.
pub proof fn query_for_an_integer_finds_that_integer(
    before: StoreView,
    after: StoreView,
    db: Database,
    next: Database,
    collection: Seq<char>,
    field: Seq<char>,
    value: JsonView,
    integer: i64,
    records: Seq<RecordView>,
    id: Seq<char>,
    doc: JsonView,
)
    requires
        before.rests_on(db),
        value matches JsonView::Number(n) && n.integer == Some(integer),
        is_query(before, after, collection, (QueryView::ByField { field, value }), Ok(records)),
        obeyed(db, after.since(before), next),
        holds_json(db, collection, id, doc),
        plainly_keyed(doc, field),
        field_of(doc, field) matches Some(JsonView::Number(n)) ==> n.integer is Some,
    ensures
        has_id(records, id) <==> {
            ||| field_of(doc, field) matches Some(JsonView::Number(n)) && n.integer == Some(integer)
            ||| field_of(doc, field) == Some(JsonView::Bool(true)) && integer == 1
            ||| field_of(doc, field) == Some(JsonView::Bool(false)) && integer == 0
        },
{
    let query = QueryView::ByField { field, value };
    let rows = lemma_query_rows(before, after, db, next, collection, query, records);
    let plan = plan_of(collection, before.specs[collection], query)->Ok_0;
    lemma_listed_records(db, collection, rows, selected(db, plan.statement, plan.values));
    assert(json_text(doc) is Some);
    assert(has_id(records, id) <==> listed(rows, id));
}

/// A query for a boolean finds a document exactly where its field is that boolean, or is the
/// integer 1 for `true` or 0 for `false`. A field that is a number but no signed 64-bit integer is
/// left out.
pub proof fn query_for_a_boolean_finds_that_boolean(
    before: StoreView,
    after: StoreView,
    db: Database,
    next: Database,
    collection: Seq<char>,
    field: Seq<char>,
    wanted: bool,
    records: Seq<RecordView>,
    id: Seq<char>,
    doc: JsonView,
)
    requires
        before.rests_on(db),
        is_query(
            before,
            after,
            collection,
            (QueryView::ByField { field, value: JsonView::Bool(wanted) }),
            Ok(records),
        ),
        obeyed(db, after.since(before), next),
        holds_json(db, collection, id, doc),
        plainly_keyed(doc, field),
        field_of(doc, field) matches Some(JsonView::Number(n)) ==> n.integer is Some,
    ensures
        has_id(records, id) <==> {
            ||| field_of(doc, field) == Some(JsonView::Bool(wanted))
            ||| field_of(doc, field) matches Some(JsonView::Number(n)) && n.integer == Some(
                if wanted {
                    1i64
                } else {
                    0i64
                },
            )
        },
{
    let query = QueryView::ByField { field, value: JsonView::Bool(wanted) };
    let rows = lemma_query_rows(before, after, db, next, collection, query, records);
    let plan = plan_of(collection, before.specs[collection], query)->Ok_0;
    lemma_listed_records(db, collection, rows, selected(db, plan.statement, plan.values));
    assert(json_text(doc) is Some);
    assert(has_id(records, id) <==> listed(rows, id));
}

/// A query for null finds a document exactly where its field is null or is not there.
pub proof fn query_for_null_finds_null_and_nothing(
    before: StoreView,
    after: StoreView,
    db: Database,
    next: Database,
    collection: Seq<char>,
    field: Seq<char>,
    records: Seq<RecordView>,
    id: Seq<char>,
    doc: JsonView,
)
    requires
        before.rests_on(db),
        is_query(
            before,
            after,
            collection,
            (QueryView::ByField { field, value: JsonView::Null }),
            Ok(records),
        ),
        obeyed(db, after.since(before), next),
        holds_json(db, collection, id, doc),
        plainly_keyed(doc, field),
    ensures
        has_id(records, id) <==> (field_of(doc, field) is None || field_of(doc, field) == Some(
            JsonView::Null,
        )),
{
    let query = QueryView::ByField { field, value: JsonView::Null };
    let rows = lemma_query_rows(before, after, db, next, collection, query, records);
    let plan = plan_of(collection, before.specs[collection], query)->Ok_0;
    lemma_listed_records(db, collection, rows, selected(db, plan.statement, plan.values));
    assert(json_text(doc) is Some);
    assert(has_id(records, id) <==> listed(rows, id));
}

} // verus!
