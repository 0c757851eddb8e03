//! What the models keep of what callers hand in and get back: everything.

use vstd::prelude::*;

use crate::answers::Answer;
use crate::json::{
    field_view, json_view, sql_of, sql_views, FieldValue, FieldView, JsonView, SqlValue, SqlView,
};
use crate::model::store_view;
use crate::persistence::{
    done_view, record_view, record_views, records_view, CollectionSpec, ErrorView, Query,
    QueryView, Record, StoreError,
};
use crate::sqlite::{bound_value, bound_values, row_views, rows_answer, text_answer};
use crate::store::SqliteStore;
use crate::text::texts;

verus! {

/// The model of an error is of the same kind and holds the same text.
pub proof fn errors_are_shown_as_they_are(error: StoreError, text: Seq<char>)
    ensures
        error@ == ErrorView::Storage(text) <==> (error matches StoreError::Storage(s) && s@
            == text),
        error@ == ErrorView::InvalidIdentifier(text) <==> (error matches
            StoreError::InvalidIdentifier(s) && s@ == text),
        error@ == ErrorView::CollectionNotFound(text) <==> (error matches
            StoreError::CollectionNotFound(s) && s@ == text),
        error@ == ErrorView::NotFound(text) <==> (error matches StoreError::NotFound(s) && s@
            == text),
        error@ == ErrorView::FieldNotIndexed(text) <==> (error matches StoreError::FieldNotIndexed(
            s,
        ) && s@ == text),
{
}

/// The model of a result is `Ok` exactly where the result is, and holds the model of what it
/// holds.
pub proof fn results_are_shown_as_they_are(
    done: Result<(), StoreError>,
    got: Result<Record, StoreError>,
    found: Result<Vec<Record>, StoreError>,
    opened: Result<SqliteStore, StoreError>,
)
    ensures
        done_view(done) is Ok <==> done is Ok,
        done matches Err(error) ==> done_view(done)->Err_0 == error@,
        record_view(got) is Ok <==> got is Ok,
        got matches Ok(record) ==> record_view(got)->Ok_0.id == record.id@
            && record_view(got)->Ok_0.doc == json_view(record.doc),
        got matches Err(error) ==> record_view(got)->Err_0 == error@,
        records_view(found) is Ok <==> found is Ok,
        found matches Ok(records) ==> {
            &&& records_view(found)->Ok_0.len() == records@.len()
            &&& forall|i: int|
                0 <= i < records@.len() ==> (#[trigger] records_view(found)->Ok_0[i]).id
                    == records@[i].id@ && records_view(found)->Ok_0[i].doc == json_view(
                    records@[i].doc,
                )
        },
        found matches Err(error) ==> records_view(found)->Err_0 == error@,
        store_view(opened) is Ok <==> opened is Ok,
        opened matches Ok(store) ==> store_view(opened)->Ok_0 == store@,
        opened matches Err(error) ==> store_view(opened)->Err_0 == error@,
{
}

/// The models of what callers hand in hold the same names, ids, documents and values.
pub proof fn requests_are_shown_as_they_are(spec: CollectionSpec, record: Record, query: Query)
    ensures
        spec@.name == spec.name@,
        spec@.indexed_fields.len() == spec.indexed_fields@.len(),
        forall|i: int|
            0 <= i < spec.indexed_fields@.len() ==> #[trigger] spec@.indexed_fields[i]
                == spec.indexed_fields@[i]@,
        record@.id == record.id@,
        record@.doc == json_view(record.doc),
        query@ is All <==> query is All,
        query matches Query::ById(id) ==> query@ == QueryView::ById(id@),
        query matches Query::ByField { field, value } ==> query@ == (QueryView::ByField {
            field: field@,
            value: json_view(value),
        }),
{
}

/// What SQLite answered is recorded as it came: every row in its place, with its two texts where
/// it was read.
pub proof fn answers_are_shown_as_they_are<E, F, G>(
    text: Result<Option<String>, E>,
    rows: Vec<Result<(String, String), E>>,
    failed: F,
    unprepared: G,
)
    ensures
        text matches Ok(Some(s)) ==> text_answer(text) == Answer::Document(Some(s@)),
        text == Ok::<Option<String>, E>(None) ==> text_answer(text) == Answer::Document(None),
        text is Err ==> text_answer(text) is Failed,
        rows_answer(Ok::<Result<Vec<Result<(String, String), E>>, F>, G>(Ok(rows))) == Answer::Rows(
            row_views(rows@),
        ),
        rows_answer(Ok::<Result<Vec<Result<(String, String), E>>, F>, G>(Err(failed))) is Failed,
        rows_answer(Err::<Result<Vec<Result<(String, String), E>>, F>, G>(unprepared))
            is Unprepared,
        row_views(rows@).len() == rows@.len(),
        forall|i: int|
            0 <= i < rows@.len() ==> match rows@[i] {
                Ok(row) => #[trigger] row_views(rows@)[i] == Some((row.0@, row.1@)),
                Err(_) => row_views(rows@)[i] is None,
            },
{
}

/// The models of lists hold as many items, each the model of the item in its place.
pub proof fn lists_are_shown_as_they_are(
    strings: Seq<String>,
    values: Seq<SqlValue>,
    bound: Seq<rusqlite::types::Value>,
    records: Seq<Record>,
)
    ensures
        texts(strings).len() == strings.len(),
        forall|i: int| 0 <= i < strings.len() ==> #[trigger] texts(strings)[i] == strings[i]@,
        sql_views(values).len() == values.len(),
        forall|i: int| 0 <= i < values.len() ==> #[trigger] sql_views(values)[i] == values[i]@,
        bound_values(bound).len() == bound.len(),
        forall|i: int|
            0 <= i < bound.len() ==> #[trigger] bound_values(bound)[i] == bound_value(bound[i]),
        record_views(records).len() == records.len(),
        forall|i: int|
            0 <= i < records.len() ==> #[trigger] record_views(records)[i] == records[i]@,
{
}

/// The model of a value to bind is of the same kind and holds the same integer or text, or the
/// bits of the same floating-point number.
pub proof fn bound_values_are_shown_as_they_are(value: SqlValue)
    ensures
        value@ is Null <==> value is Null,
        value matches SqlValue::Integer(i) ==> value@ == SqlView::Integer(i),
        value matches SqlValue::Text(s) ==> value@ == SqlView::Text(s@),
        value matches SqlValue::Real(r) ==> value@ == SqlView::Real(r@.floating->0),
{
}

/// The model of a value to look for is of the same kind and has the same readings.
pub proof fn wanted_values_are_shown_as_they_are(value: FieldValue)
    ensures
        value@ is Null <==> value is Null,
        value@ is Array <==> value is Array,
        value@ is Object <==> value is Object,
        value matches FieldValue::Bool(b) ==> value@ == FieldView::Bool(b),
        value matches FieldValue::Text(s) ==> value@ == FieldView::Text(s@),
        value matches FieldValue::Number(n) ==> value@ == (FieldView::Number {
            integer: n.integer,
            floating: match n.floating {
                Some(r) => Some(r@.floating->0),
                None => None,
            },
            text: n.text@,
        }),
{
}

/// A query value is bound as what `json_extract` yields for the same value: a string as the same
/// text, a boolean as 1 or 0, null as NULL, a number that is a signed 64-bit integer as that
/// integer, any other number that reads as a floating-point number as the REAL with exactly those
/// bits, whatever its sign and its text. Arrays and objects, and nothing else, are errors.
pub proof fn scalars_are_bound_as_they_are(value: JsonView)
    ensures
        value is Null ==> sql_of(field_view(value)) == Ok::<SqlView, ErrorView>(SqlView::Null),
        value == JsonView::Bool(true) ==> sql_of(field_view(value)) == Ok::<SqlView, ErrorView>(
            SqlView::Integer(1),
        ),
        value == JsonView::Bool(false) ==> sql_of(field_view(value)) == Ok::<SqlView, ErrorView>(
            SqlView::Integer(0),
        ),
        value matches JsonView::String(text) ==> sql_of(field_view(value)) == Ok::<
            SqlView,
            ErrorView,
        >(SqlView::Text(text)),
        value matches JsonView::Number(n) ==> (n.integer matches Some(i) ==> sql_of(
            field_view(value),
        ) == Ok::<SqlView, ErrorView>(SqlView::Integer(i))),
        value matches JsonView::Number(n) ==> n.integer is None ==> (n.floating matches Some(bits)
            ==> sql_of(field_view(value)) == Ok::<SqlView, ErrorView>(SqlView::Real(bits))),
        value is Array || value is Object <==> sql_of(field_view(value)) is Err,
        value is Array || value is Object ==> sql_of(field_view(value)) == Err::<
            SqlView,
            ErrorView,
        >(ErrorView::Storage("ByField value must be a scalar (string/number/bool/null)"@)),
{
}

} // verus!
