//! The declared collections.

use vstd::hash_map::StringHashMap;
use vstd::prelude::*;

use crate::database::{key_of, value_of, Row, Table};
use crate::identifier::{is_valid_identifier, valid_identifier};
use crate::json::{list_from_text, list_parse};
use crate::persistence::{done_view, storage_error, ErrorView, StoreError};
use crate::sqlite::row_views;
use crate::text::{concat2, copy_strings, texts};

verus! {

/// The declared collections: for each name its indexed fields.
pub type Specs = Map<Seq<char>, Seq<Seq<char>>>;

/// Whether every one of the names is an identifier.
pub open spec fn all_valid(names: Seq<Seq<char>>) -> bool {
    forall|i: int| 0 <= i < names.len() ==> valid_identifier(#[trigger] names[i])
}

/// A text in quotes, as `{:?}` prints it.
pub uninterp spec fn debug_text(text: Seq<char>) -> Seq<char>;

/// Calls std's `format!` with `{:?}` on a text. The result is named by `debug_text`: it
/// depends on the text alone.
#[verifier::external_body]
fn quoted(text: &str) -> (quoted: String)
    ensures
        quoted@ == debug_text(text@),
{
    format!("{text:?}")
}

/// The error of a catalog row whose list of fields cannot be read.
pub open spec fn catalog_error(name: Seq<char>) -> ErrorView {
    ErrorView::Storage(
        "integrity error: malformed indexed_fields in catalog for collection "@ + debug_text(name),
    )
}

/// What a row of the catalog makes of the collections declared before it. A list of fields
/// that cannot be read is an error. A row whose names are not all identifiers is skipped.
pub open spec fn specs_with(specs: Specs, row: Row) -> Result<Specs, ErrorView> {
    if row is None {
        Err(ErrorView::Storage("load specs: row read failed"@))
    } else {
        match list_parse(value_of(row)) {
            None => Err(catalog_error(key_of(row))),
            Some(fields) => if valid_identifier(key_of(row)) && all_valid(fields) {
                Ok(specs.insert(key_of(row), fields))
            } else {
                Ok(specs)
            },
        }
    }
}

/// What comes of loading rows of the catalog: the declared collections, and whether a row was
/// an error.
#[verifier::ext_equal]
pub struct Load {
    pub specs: Specs,
    pub result: Result<(), ErrorView>,
}

/// What the rows of the catalog, in order, make of the collections that are declared. The
/// first error ends it; what the rows before it declared stays.
pub open spec fn load_of(specs: Specs, rows: Seq<Row>) -> Load
    decreases rows.len(),
{
    if rows.len() == 0 {
        Load { specs, result: Ok(()) }
    } else {
        let earlier = load_of(specs, rows.drop_last());
        if earlier.result is Err {
            earlier
        } else {
            match specs_with(earlier.specs, rows.last()) {
                Ok(specs) => Load { specs, result: Ok(()) },
                Err(error) => Load { specs: earlier.specs, result: Err(error) },
            }
        }
    }
}

/// Whether a row of the catalog declares a collection: the name and every field are
/// identifiers.
pub open spec fn declares(name: Seq<char>, text: Seq<char>) -> bool {
    list_parse(text) matches Some(fields) && valid_identifier(name) && all_valid(fields)
}

/// Whether every list of fields in a catalog can be parsed.
pub open spec fn lists_parse(catalog: Table) -> bool {
    forall|name: Seq<char>| #[trigger]
        catalog.contains_key(name) ==> list_parse(catalog[name]) is Some
}

/// The collections with those that a catalog declares beside them, or in their place.
pub open spec fn overridden(specs: Specs, catalog: Table) -> Specs {
    specs.union_prefer_right(
        Map::new(
            |name: Seq<char>| catalog.contains_key(name) && declares(name, catalog[name]),
            |name: Seq<char>| list_parse(catalog[name])->0,
        ),
    )
}

proof fn lemma_first_catalog_error(specs: Specs, rows: Seq<Row>, n: int)
    requires
        0 <= n <= rows.len(),
        load_of(specs, rows.take(n)).result is Err,
    ensures
        load_of(specs, rows) == load_of(specs, rows.take(n)),
    decreases rows.len() - n,
{
    if n < rows.len() {
        assert(rows.take(n + 1).drop_last() =~= rows.take(n));
        lemma_first_catalog_error(specs, rows, n + 1);
    } else {
        assert(rows.take(n) =~= rows);
    }
}

/// Whether every name in a list is an identifier.
fn are_valid_identifiers(names: &Vec<String>) -> (valid: bool)
    ensures
        valid == all_valid(texts(names@)),
{
    for i in 0..names.len()
        invariant
            forall|j: int| 0 <= j < i ==> valid_identifier(#[trigger] texts(names@)[j]),
    {
        if !is_valid_identifier(names[i].as_str()) {
            assert(!valid_identifier(texts(names@)[i as int]));
            return false;
        }
    }
    true
}

/// The declared collections of a store.
pub struct Collections {
    map: StringHashMap<Vec<String>>,
}

impl View for Collections {
    type V = Specs;

    closed spec fn view(&self) -> Specs {
        self.map@.map_values(|fields: Vec<String>| texts(fields@))
    }
}

impl Collections {
    /// No collection.
    pub fn new() -> (collections: Collections)
        ensures
            collections@ == Map::<Seq<char>, Seq<Seq<char>>>::empty(),
    {
        let collections = Collections { map: StringHashMap::new() };
        assert(collections@ =~= Map::empty());
        collections
    }

    /// The indexed fields of a collection, if it is declared.
    pub fn fields(&self, name: &str) -> (fields: Option<Vec<String>>)
        ensures
            match fields {
                Some(fields) => self@.contains_key(name@) && texts(fields@) == self@[name@],
                None => !self@.contains_key(name@),
            },
    {
        match self.map.get(name) {
            Some(fields) => Some(copy_strings(fields)),
            None => None,
        }
    }

    /// Declares a collection, in place of one with the same name.
    pub fn insert(&mut self, name: String, fields: Vec<String>)
        ensures
            final(self)@ == old(self)@.insert(name@, texts(fields@)),
    {
        let ghost name_view = name@;
        let ghost field_views = texts(fields@);
        self.map.insert(name, fields);
        assert(self@ =~= old(self)@.insert(name_view, field_views));
    }

    /// Declares the collections that the rows of the catalog name.
    pub fn load_rows<E>(&mut self, rows: &Vec<Result<(String, String), E>>) -> (result: Result<
        (),
        StoreError,
    >)
        ensures
            load_of(old(self)@, row_views(rows@)) == (Load {
                specs: final(self)@,
                result: done_view(result),
            }),
    {
        let ghost all = row_views(rows@);
        let ghost before = self@;
        assert(all.take(0) =~= Seq::empty());
        for i in 0..rows.len()
            invariant
                before == old(self)@,
                all == row_views(rows@),
                load_of(before, all.take(i as int)) == (Load { specs: self@, result: Ok(()) }),
        {
            assert(all.take(i + 1).drop_last() =~= all.take(i as int));
            assert(all.take(i + 1).last() == all[i as int]);
            match &rows[i] {
                Ok(row) => {
                    match list_from_text(row.1.as_str()) {
                        Ok(fields) => {
                            if is_valid_identifier(row.0.as_str()) && are_valid_identifiers(
                                &fields,
                            ) {
                                self.insert(row.0.clone(), fields);
                            }
                        },
                        Err(_) => {
                            proof {
                                lemma_first_catalog_error(before, all, i + 1);
                            }
                            let name = quoted(row.0.as_str());
                            let message = concat2(
                                "integrity error: malformed indexed_fields in catalog for collection ",
                                name.as_str(),
                            );
                            return Err(StoreError::Storage(message));
                        },
                    }
                },
                Err(_) => {
                    proof {
                        lemma_first_catalog_error(before, all, i + 1);
                    }
                    return Err(storage_error("load specs: row read failed"));
                },
            }
        }
        assert(all.take(all.len() as int) =~= all);
        Ok(())
    }
}

} // verus!
