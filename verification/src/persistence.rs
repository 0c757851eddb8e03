//! What callers of a store hand in and get back.

use vstd::prelude::*;

use crate::json::{json_view, JsonView};
use crate::text::texts;

verus! {

/// A collection to declare: its name and the document fields to index.
#[derive(Debug, PartialEq, Eq)]
pub struct CollectionSpec {
    pub name: String,
    pub indexed_fields: Vec<String>,
}

/// The model of a `CollectionSpec`.
pub struct SpecView {
    pub name: Seq<char>,
    pub indexed_fields: Seq<Seq<char>>,
}

impl View for CollectionSpec {
    type V = SpecView;

    open spec fn view(&self) -> SpecView {
        SpecView { name: self.name@, indexed_fields: texts(self.indexed_fields@) }
    }
}

/// A document with its id.
#[derive(Debug, PartialEq)]
pub struct Record {
    pub id: String,
    pub doc: serde_json::Value,
}

/// The model of a `Record`.
pub struct RecordView {
    pub id: Seq<char>,
    pub doc: JsonView,
}

impl View for Record {
    type V = RecordView;

    open spec fn view(&self) -> RecordView {
        RecordView { id: self.id@, doc: json_view(self.doc) }
    }
}

/// Which records of a collection to return.
#[derive(Debug, PartialEq)]
pub enum Query {
    /// Every record.
    All,
    /// The record with this id.
    ById(String),
    /// The records whose document holds `value` at the top-level key `field`.
    ByField { field: String, value: serde_json::Value },
}

/// The model of a `Query`.
pub enum QueryView {
    All,
    ById(Seq<char>),
    ByField { field: Seq<char>, value: JsonView },
}

impl View for Query {
    type V = QueryView;

    open spec fn view(&self) -> QueryView {
        match self {
            Query::All => QueryView::All,
            Query::ById(id) => QueryView::ById(id@),
            Query::ByField { field, value } => QueryView::ByField {
                field: field@,
                value: json_view(*value),
            },
        }
    }
}

/// Why a store did not do what it was asked.
#[derive(Debug, PartialEq, Eq)]
pub enum StoreError {
    /// The database or a stored value failed; the text says how.
    Storage(String),
    /// The name is no identifier.
    InvalidIdentifier(String),
    /// No collection of that name was declared.
    CollectionNotFound(String),
    /// The collection has no record with that id.
    NotFound(String),
    /// The field was not declared as indexed.
    FieldNotIndexed(String),
}

/// The model of a `StoreError`.
pub enum ErrorView {
    Storage(Seq<char>),
    InvalidIdentifier(Seq<char>),
    CollectionNotFound(Seq<char>),
    NotFound(Seq<char>),
    FieldNotIndexed(Seq<char>),
}

impl View for StoreError {
    type V = ErrorView;

    open spec fn view(&self) -> ErrorView {
        match self {
            StoreError::Storage(text) => ErrorView::Storage(text@),
            StoreError::InvalidIdentifier(name) => ErrorView::InvalidIdentifier(name@),
            StoreError::CollectionNotFound(name) => ErrorView::CollectionNotFound(name@),
            StoreError::NotFound(id) => ErrorView::NotFound(id@),
            StoreError::FieldNotIndexed(field) => ErrorView::FieldNotIndexed(field@),
        }
    }
}

/// The model of a result without a value.
pub open spec fn done_view(result: Result<(), StoreError>) -> Result<(), ErrorView> {
    match result {
        Ok(_) => Ok(()),
        Err(error) => Err(error@),
    }
}

/// The model of a result that holds a record.
pub open spec fn record_view(result: Result<Record, StoreError>) -> Result<RecordView, ErrorView> {
    match result {
        Ok(record) => Ok(record@),
        Err(error) => Err(error@),
    }
}

/// The models of a list of records.
pub open spec fn record_views(records: Seq<Record>) -> Seq<RecordView> {
    Seq::new(records.len(), |i: int| records[i]@)
}

/// The model of a result that holds records.
pub open spec fn records_view(result: Result<Vec<Record>, StoreError>) -> Result<
    Seq<RecordView>,
    ErrorView,
> {
    match result {
        Ok(records) => Ok(record_views(records@)),
        Err(error) => Err(error@),
    }
}

/// The error of a failed database call or a damaged value.
pub fn storage_error(message: &str) -> (error: StoreError)
    ensures
        error@ == ErrorView::Storage(message@),
{
    StoreError::Storage(message.to_owned())
}

/// What a database call returned, its error replaced by a `Storage` error with
/// the given text.
pub fn or_storage_error<T, E>(result: Result<T, E>, message: &str) -> (mapped: Result<
    T,
    StoreError,
>)
    ensures
        mapped is Ok <==> result is Ok,
        match result {
            Ok(value) => mapped == Ok::<T, StoreError>(value),
            Err(_) => mapped matches Err(error) && error@ == ErrorView::Storage(message@),
        },
{
    match result {
        Ok(value) => Ok(value),
        Err(_) => Err(storage_error(message)),
    }
}

} // verus!
