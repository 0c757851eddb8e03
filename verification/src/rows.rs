//! Reading the records that the database returned.

use vstd::prelude::*;

use crate::database::{key_of, value_of, Row};
use crate::json::{json_from_text, json_parse};
use crate::persistence::{
    record_view, record_views, records_view, storage_error, ErrorView, Record, RecordView,
    StoreError,
};
use crate::sqlite::{row_views, text_view};

verus! {

/// The error of a stored document that is no JSON.
pub open spec fn document_error() -> ErrorView {
    ErrorView::Storage("integrity error: malformed JSON document"@)
}

/// The record that a stored document stands for.
pub open spec fn record_of(id: Seq<char>, text: Seq<char>) -> Result<RecordView, ErrorView> {
    match json_parse(text) {
        None => Err(document_error()),
        Some(doc) => Ok(RecordView { id, doc }),
    }
}

/// Reads the record that a stored document stands for.
fn record_from_text(id: &str, text: &str) -> (result: Result<Record, StoreError>)
    ensures
        record_view(result) == record_of(id@, text@),
{
    match json_from_text(text) {
        Ok(doc) => Ok(Record { id: id.to_owned(), doc }),
        Err(_) => Err(storage_error("integrity error: malformed JSON document")),
    }
}

/// What a lookup by id gives for the stored document that was found, if one was.
pub open spec fn lookup_of(id: Seq<char>, found: Option<Seq<char>>) -> Result<
    RecordView,
    ErrorView,
> {
    match found {
        None => Err(ErrorView::NotFound(id)),
        Some(text) => record_of(id, text),
    }
}

/// Reads what a lookup by id found.
pub fn record_from_lookup(id: &str, found: Option<String>) -> (result: Result<Record, StoreError>)
    ensures
        record_view(result) == lookup_of(id@, text_view(found)),
{
    match found {
        Some(text) => record_from_text(id, text.as_str()),
        None => Err(StoreError::NotFound(id.to_owned())),
    }
}

/// The records that rows stand for, or the first error among them.
pub open spec fn records_of(rows: Seq<Row>) -> Result<Seq<RecordView>, ErrorView>
    decreases rows.len(),
{
    if rows.len() == 0 {
        Ok(Seq::empty())
    } else {
        match records_of(rows.drop_last()) {
            Err(error) => Err(error),
            Ok(records) => if rows.last() is None {
                Err(ErrorView::Storage("row read failed"@))
            } else {
                match record_of(key_of(rows.last()), value_of(rows.last())) {
                    Err(error) => Err(error),
                    Ok(record) => Ok(records.push(record)),
                }
            },
        }
    }
}

proof fn lemma_first_row_error(rows: Seq<Row>, n: int)
    requires
        0 <= n <= rows.len(),
        records_of(rows.take(n)) is Err,
    ensures
        records_of(rows) == records_of(rows.take(n)),
    decreases rows.len() - n,
{
    if n < rows.len() {
        assert(rows.take(n + 1).drop_last() =~= rows.take(n));
        lemma_first_row_error(rows, n + 1);
    } else {
        assert(rows.take(n) =~= rows);
    }
}

/// Reads the records that rows stand for.
pub fn records_from_rows<E>(rows: &Vec<Result<(String, String), E>>) -> (result: Result<
    Vec<Record>,
    StoreError,
>)
    ensures
        records_view(result) == records_of(row_views(rows@)),
{
    let ghost all = row_views(rows@);
    let mut records: Vec<Record> = Vec::new();
    assert(record_views(records@) =~= Seq::empty());
    for i in 0..rows.len()
        invariant
            all == row_views(rows@),
            records_of(all.take(i as int)) == Ok::<Seq<RecordView>, ErrorView>(
                record_views(records@),
            ),
    {
        assert(all.take(i + 1).drop_last() =~= all.take(i as int));
        assert(all.take(i + 1).last() == all[i as int]);
        match &rows[i] {
            Ok(row) => {
                match record_from_text(row.0.as_str(), row.1.as_str()) {
                    Ok(record) => {
                        let ghost before = records@;
                        let ghost pushed = record;
                        records.push(record);
                        assert(record_views(records@) =~= record_views(before).push(pushed@));
                    },
                    Err(error) => {
                        proof {
                            lemma_first_row_error(all, i + 1);
                        }
                        return Err(error);
                    },
                }
            },
            Err(_) => {
                proof {
                    lemma_first_row_error(all, i + 1);
                }
                return Err(storage_error("row read failed"));
            },
        }
    }
    assert(all.take(all.len() as int) =~= all);
    Ok(records)
}

} // verus!
