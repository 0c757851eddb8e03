//! What a store is and what its operations do, as relations between the state before, the
//! state after and the result.
//!
//! What an operation returns is told by what SQLite answered, which the state records. What
//! the database holds is another matter: it is known where no other connection can reach it,
//! and for any database it follows where all that was handed to SQLite was `obeyed`.

use vstd::prelude::*;

use crate::answers::{handed, obeyed, Answer, Handed};
use crate::collections::{all_valid, lists_parse, load_of, overridden, Load, Specs};
use crate::database::Database;
use crate::identifier::{has_parent_component, valid_identifier};
use crate::json::{
    is_plain, json_parse, json_text, list_parse, list_text, SqlView, MAX_NESTING,
};
use crate::persistence::{ErrorView, QueryView, RecordView, SpecView, StoreError};
use crate::plan::plan_of;
use crate::rows::{lookup_of, records_of};
use crate::sql::{catalog_table, index_name, Statement};
use crate::sqlite::failed_to_open;
use crate::store::SqliteStore;

verus! {

/// The state of a store: the path that it was opened at, if it is not in memory, the declared
/// collections, what the database holds where no other connection can reach it, and the
/// statements handed to SQLite so far with their answers.
#[verifier::ext_equal]
pub struct StoreView {
    pub path: Option<Seq<char>>,
    pub specs: Specs,
    pub database: Option<Database>,
    pub history: Seq<Handed>,
}

/// Whether a text is that of a statement of the store over identifiers.
pub open spec fn known_text(sql: Seq<char>) -> bool {
    exists|s: Statement| s.well_formed() && #[trigger] s.text() == sql
}

/// Whether a database has what the declared collections need: their tables, the indexes on
/// their fields, and a catalog, undamaged, that declares them and no others. The catalog may
/// hold rows that declare nothing. Every index is on the table and the field that its name
/// says.
pub open spec fn database_serves(db: Database, specs: Specs) -> bool {
    &&& db.tables.contains_key(catalog_table())
    &&& forall|name: Seq<char>| #[trigger] specs.contains_key(name) ==> db.tables.contains_key(name)
    &&& lists_parse(db.tables[catalog_table()])
    &&& overridden(Map::empty(), db.tables[catalog_table()]) == specs
    &&& forall|index: Seq<char>| #[trigger]
        db.indexes.contains_key(index) ==> {
            &&& valid_identifier(db.indexes[index].0)
            &&& valid_identifier(db.indexes[index].1)
            &&& index == index_name(db.indexes[index].0, db.indexes[index].1)
        }
    &&& forall|name: Seq<char>, i: int|
        specs.contains_key(name) && 0 <= i < specs[name].len() ==> has_index(
            db,
            name,
            #[trigger] specs[name][i],
        )
}

/// Whether the index on a field of a collection is there.
pub open spec fn has_index(db: Database, name: Seq<char>, field: Seq<char>) -> bool {
    db.indexes.contains_key(index_name(name, field)) && db.indexes[index_name(name, field)] == (
        name,
        field,
    )
}

/// Whether the names of the collections and of their fields are identifiers.
pub open spec fn names_valid(specs: Specs) -> bool {
    forall|name: Seq<char>| #[trigger]
        specs.contains_key(name) ==> valid_identifier(name) && all_valid(specs[name])
}

impl StoreView {
    /// What holds of every store: declared names are identifiers, every statement handed
    /// to SQLite is one of the store's over identifiers, and a database that no other
    /// connection can reach serves the declared collections.
    pub open spec fn consistent(self) -> bool {
        &&& names_valid(self.specs)
        &&& forall|i: int|
            0 <= i < self.history.len() ==> known_text((#[trigger] self.history[i]).sql)
        &&& self.database matches Some(db) ==> database_serves(db, self.specs)
    }

    /// Whether the store works on a database that holds `db`.
    pub open spec fn rests_on(self, db: Database) -> bool {
        names_valid(self.specs) && database_serves(db, self.specs)
    }

    /// What was handed to SQLite since an earlier state.
    pub open spec fn since(self, earlier: StoreView) -> Seq<Handed> {
        self.history.skip(earlier.history.len() as int)
    }

    /// What SQLite answered last.
    pub open spec fn last_answer(self) -> Answer {
        self.history.last().answer
    }

    /// Why an operation on a collection is refused before anything is asked of SQLite: the
    /// name is no identifier, or no such collection was declared.
    pub open spec fn refusal(self, collection: Seq<char>) -> Option<ErrorView> {
        if !valid_identifier(collection) {
            Some(ErrorView::InvalidIdentifier(collection))
        } else if !self.specs.contains_key(collection) {
            Some(ErrorView::CollectionNotFound(collection))
        } else {
            None
        }
    }

    /// Whether this is the state after one more statement was handed to SQLite, with the
    /// declared collections as they were.
    pub open spec fn handed_one(
        self,
        earlier: StoreView,
        statement: Statement,
        values: Seq<SqlView>,
    ) -> bool {
        &&& self.path == earlier.path
        &&& self.specs == earlier.specs
        &&& self.history == earlier.history.push(handed(statement, values, self.last_answer()))
    }
}

/// A database that no other connection can reach stays so, and obeys what is handed to SQLite.
pub open spec fn database_follows(before: StoreView, after: StoreView) -> bool {
    match before.database {
        None => after.database is None,
        Some(db) => after.database is Some && obeyed(db, after.since(before), after.database->0),
    }
}

/// What becomes of a statement that is run: nothing to return where it ran, the error with
/// that text where it failed.
pub open spec fn done_or(
    answer: Answer,
    message: Seq<char>,
    result: Result<(), ErrorView>,
) -> bool {
    match answer {
        Answer::Done => result == Ok::<(), ErrorView>(()),
        Answer::Failed => result == Err::<(), ErrorView>(ErrorView::Storage(message)),
        _ => false,
    }
}

/// `put` writes the text of the document under the id, in place of what was there. A
/// document without floating-point numbers, and not too deeply nested, can be read back
/// from that text.
pub open spec fn is_put(
    before: StoreView,
    after: StoreView,
    collection: Seq<char>,
    record: RecordView,
    result: Result<(), ErrorView>,
) -> bool {
    match before.refusal(collection) {
        Some(error) => result == Err::<(), ErrorView>(error) && after == before,
        None => match json_text(record.doc) {
            None => result == Err::<(), ErrorView>(ErrorView::Storage("serialize doc failed"@))
                && after == before,
            Some(text) => {
                &&& after.handed_one(
                    before,
                    Statement::Insert { name: collection },
                    seq![SqlView::Text(record.id), SqlView::Text(text)],
                )
                &&& done_or(after.last_answer(), "insert failed"@, result)
                &&& is_plain(record.doc, MAX_NESTING as nat) ==> json_parse(text) == Some(
                    record.doc,
                )
            },
        },
    }
}

/// `delete` removes what stands under the id; where nothing does, nothing changes.
pub open spec fn is_delete(
    before: StoreView,
    after: StoreView,
    collection: Seq<char>,
    id: Seq<char>,
    result: Result<(), ErrorView>,
) -> bool {
    match before.refusal(collection) {
        Some(error) => result == Err::<(), ErrorView>(error) && after == before,
        None => {
            &&& after.handed_one(
                before,
                Statement::Delete { name: collection },
                seq![SqlView::Text(id)],
            )
            &&& done_or(after.last_answer(), "delete failed"@, result)
        },
    }
}

/// What `get` returns for what SQLite answered.
pub open spec fn got(
    id: Seq<char>,
    answer: Answer,
    result: Result<RecordView, ErrorView>,
) -> bool {
    match answer {
        Answer::Document(found) => result == lookup_of(id, found),
        Answer::Failed => result == Err::<RecordView, ErrorView>(
            ErrorView::Storage("query failed"@),
        ),
        _ => false,
    }
}

/// `get` returns the record that stands under the id.
pub open spec fn is_get(
    before: StoreView,
    after: StoreView,
    collection: Seq<char>,
    id: Seq<char>,
    result: Result<RecordView, ErrorView>,
) -> bool {
    match before.refusal(collection) {
        Some(error) => result == Err::<RecordView, ErrorView>(error) && after == before,
        None => {
            &&& after.handed_one(
                before,
                Statement::SelectDocument { name: collection },
                seq![SqlView::Text(id)],
            )
            &&& got(id, after.last_answer(), result)
        },
    }
}

/// What `query` returns for what SQLite answered.
pub open spec fn found(answer: Answer, result: Result<Seq<RecordView>, ErrorView>) -> bool {
    match answer {
        Answer::Rows(rows) => result == records_of(rows),
        Answer::Unprepared => result == Err::<Seq<RecordView>, ErrorView>(
            ErrorView::Storage("prepare failed"@),
        ),
        Answer::Failed => result == Err::<Seq<RecordView>, ErrorView>(
            ErrorView::Storage("query failed"@),
        ),
        _ => false,
    }
}

/// `query` returns the records that its statement selects.
pub open spec fn is_query(
    before: StoreView,
    after: StoreView,
    collection: Seq<char>,
    query: QueryView,
    result: Result<Seq<RecordView>, ErrorView>,
) -> bool {
    match before.refusal(collection) {
        Some(error) => result == Err::<Seq<RecordView>, ErrorView>(error) && after == before,
        None => match plan_of(collection, before.specs[collection], query) {
            Err(error) => result == Err::<Seq<RecordView>, ErrorView>(error) && after == before,
            Ok(plan) => {
                &&& after.handed_one(before, plan.statement, plan.values)
                &&& found(after.last_answer(), result)
            },
        },
    }
}

/// The first of the names that is no identifier.
pub open spec fn first_invalid(names: Seq<Seq<char>>) -> Option<Seq<char>>
    decreases names.len(),
{
    if names.len() == 0 {
        None
    } else if !valid_identifier(names[0]) {
        Some(names[0])
    } else {
        first_invalid(names.drop_first())
    }
}

/// Why a declaration is refused before anything is asked of SQLite: its name, or one of its
/// fields, is no identifier.
pub open spec fn spec_refusal(spec: SpecView) -> Option<ErrorView> {
    if !valid_identifier(spec.name) {
        Some(ErrorView::InvalidIdentifier(spec.name))
    } else {
        match first_invalid(spec.indexed_fields) {
            Some(field) => Some(ErrorView::InvalidIdentifier(field)),
            None => None,
        }
    }
}

/// The number of statements that declare a collection: its table, one index for each
/// field, and the entry in the catalog.
pub open spec fn step_count(spec: SpecView) -> nat {
    spec.indexed_fields.len() + 2
}

/// The `i`-th statement that declares a collection.
pub open spec fn step(spec: SpecView, i: int) -> Statement {
    if i == 0 {
        Statement::CreateTable { name: spec.name }
    } else if i <= spec.indexed_fields.len() {
        Statement::CreateIndex { name: spec.name, field: spec.indexed_fields[i - 1] }
    } else {
        Statement::SaveSpec
    }
}

/// The values bound in the `i`-th statement that declares a collection.
pub open spec fn step_values(spec: SpecView, i: int) -> Seq<SqlView> {
    if i <= spec.indexed_fields.len() {
        seq![]
    } else {
        seq![SqlView::Text(spec.name), SqlView::Text(list_text(spec.indexed_fields)->0)]
    }
}

/// The error where the `i`-th statement that declares a collection fails.
pub open spec fn step_error(spec: SpecView, i: int) -> ErrorView {
    if i == 0 {
        ErrorView::Storage("create table failed"@)
    } else if i <= spec.indexed_fields.len() {
        ErrorView::Storage("create index failed"@)
    } else {
        ErrorView::Storage("persist spec failed"@)
    }
}

/// The first `n` statements that declare a collection, all of which ran.
pub open spec fn steps(spec: SpecView, n: nat) -> Seq<Handed> {
    Seq::new(n, |i: int| handed(step(spec, i), step_values(spec, i), Answer::Done))
}

/// A database after the first `n` statements that declare a collection.
pub open spec fn after_steps(db: Database, spec: SpecView, n: nat) -> Database
    decreases n,
{
    if n == 0 {
        db
    } else {
        after_steps(db, spec, (n - 1) as nat).after(step(spec, n - 1), step_values(spec, n - 1))
    }
}

/// A declaration of which the first `done` statements ran. Where all did, the collection is
/// declared, and the saved text reads back as its fields. Else the next one was handed to
/// SQLite and did not run, or the list of fields has no text to save.
pub open spec fn declared_in_steps(
    before: StoreView,
    after: StoreView,
    spec: SpecView,
    result: Result<(), ErrorView>,
    done: nat,
) -> bool {
    let all = step_count(spec);
    let text = list_text(spec.indexed_fields);
    &&& after.path == before.path
    &&& if done == all {
        &&& text is Some && list_parse(text->0) == Some(spec.indexed_fields)
        &&& result == Ok::<(), ErrorView>(())
        &&& after.specs == before.specs.insert(spec.name, spec.indexed_fields)
        &&& after.history == before.history + steps(spec, done)
    } else if done == all - 1 && text is None {
        &&& result == Err::<(), ErrorView>(ErrorView::Storage("serialize spec failed"@))
        &&& after.specs == before.specs
        &&& after.history == before.history + steps(spec, done)
    } else {
        &&& done < all
        &&& after.last_answer() is Failed
        &&& result == Err::<(), ErrorView>(step_error(spec, done as int))
        &&& after.specs == before.specs
        &&& after.history == before.history + steps(spec, done).push(
            handed(
                step(spec, done as int),
                step_values(spec, done as int),
                after.last_answer(),
            ),
        )
    }
}

/// `ensure_collection` creates the collection's table and indexes where they are missing,
/// saves the declaration in the catalog, and only then counts the collection as declared.
pub open spec fn is_ensure(
    before: StoreView,
    after: StoreView,
    spec: SpecView,
    result: Result<(), ErrorView>,
) -> bool {
    match spec_refusal(spec) {
        Some(error) => result == Err::<(), ErrorView>(error) && after == before,
        None => exists|done: nat| declared_in_steps(before, after, spec, result, done),
    }
}

/// What loading the catalog makes of the declared collections, for what SQLite answered.
pub open spec fn loaded(specs: Specs, answer: Answer, load: Load) -> bool {
    match answer {
        Answer::Rows(rows) => load == load_of(specs, rows),
        Answer::Unprepared => load == (Load {
            specs,
            result: Err(ErrorView::Storage("load specs: prepare failed"@)),
        }),
        Answer::Failed => load == (Load {
            specs,
            result: Err(ErrorView::Storage("load specs: query failed"@)),
        }),
        _ => false,
    }
}

/// `load_specs` declares the collections that the catalog names, beside those that are
/// declared.
pub open spec fn is_load(
    before: StoreView,
    after: StoreView,
    result: Result<(), ErrorView>,
) -> bool {
    &&& after.path == before.path
    &&& after.history == before.history.push(
        handed(Statement::SelectCatalog, seq![], after.last_answer()),
    )
    &&& loaded(before.specs, after.last_answer(), (Load { specs: after.specs, result }))
}

/// `start` configures the connection, creates the catalog where it is missing, and loads it.
/// It goes on only where SQLite did what it was asked.
pub open spec fn is_start(
    before: StoreView,
    after: StoreView,
    result: Result<(), ErrorView>,
) -> bool {
    let configured = handed(Statement::Configure, seq![], Answer::Done);
    let created = handed(Statement::CreateCatalog, seq![], Answer::Done);
    &&& after.path == before.path
    &&& if after.since(before).len() <= 1 {
        &&& after.handed_one(before, Statement::Configure, seq![])
        &&& after.last_answer() is Failed
        &&& result == Err::<(), ErrorView>(ErrorView::Storage("configure pragmas failed"@))
    } else if after.since(before).len() == 2 {
        &&& after.specs == before.specs
        &&& after.history == before.history + seq![
            configured,
            handed(Statement::CreateCatalog, seq![], after.last_answer()),
        ]
        &&& after.last_answer() is Failed
        &&& result == Err::<(), ErrorView>(ErrorView::Storage("init schema failed"@))
    } else {
        &&& after.history == before.history + seq![
            configured,
            created,
            handed(Statement::SelectCatalog, seq![], after.last_answer()),
        ]
        &&& loaded(before.specs, after.last_answer(), (Load { specs: after.specs, result }))
    }
}

/// The path that stands for a new database in memory.
pub open spec fn memory_path() -> Seq<char> {
    ":memory:"@
}

/// A store over a connection that was just opened at a path. A database in memory is new and
/// empty, and no other connection can reach it.
pub open spec fn fresh(path: Seq<char>) -> StoreView {
    if path == memory_path() {
        StoreView {
            path: None,
            specs: Map::empty(),
            database: Some(Database::empty()),
            history: seq![],
        }
    } else {
        StoreView { path: Some(path), specs: Map::empty(), database: None, history: seq![] }
    }
}

/// The model of a result that holds a store.
pub open spec fn store_view(result: Result<SqliteStore, StoreError>) -> Result<
    StoreView,
    ErrorView,
> {
    match result {
        Ok(store) => Ok(store@),
        Err(error) => Err(error@),
    }
}

/// Whether this is a store whose start, from a state, ended with an error.
pub open spec fn start_failed(before: StoreView, store: SqliteStore, error: ErrorView) -> bool {
    is_start(before, store@, Err(error))
}

/// The error where the database at a path cannot be opened.
pub open spec fn opening_error(path: Seq<char>) -> ErrorView {
    if path == memory_path() {
        ErrorView::Storage("open in-memory failed"@)
    } else {
        ErrorView::Storage("open database failed"@)
    }
}

/// `open` refuses a path with a `..` component, and else opens the database at the path and
/// starts on it. A store that is returned is at the path, has been configured, has a catalog,
/// and has the collections that the rows of its catalog declare. Else opening at the path
/// failed, or the error is that of the start. A database in memory has an empty catalog, and no
/// other connection can reach it.
pub open spec fn is_open(path: Seq<char>, result: Result<StoreView, ErrorView>) -> bool {
    let in_memory = path == memory_path();
    if !in_memory && has_parent_component(path) {
        result == Err::<StoreView, ErrorView>(
            ErrorView::Storage("invalid path: "@ + "path traversal (..) is not allowed"@),
        )
    } else {
        match result {
            Ok(store) => {
                &&& is_start(fresh(path), store, Ok(()))
                &&& store.consistent()
                &&& in_memory ==> store.specs == Map::<Seq<char>, Seq<Seq<char>>>::empty()
                    && store.database == Some(Database::empty().with_table(catalog_table()))
                &&& !in_memory ==> store.database is None
            },
            Err(error) => {
                ||| error == opening_error(path) && exists|e: rusqlite::Error| #[trigger]
                    failed_to_open(path, e)
                ||| exists|store: SqliteStore| #[trigger] start_failed(fresh(path), store, error)
            },
        }
    }
}

} // verus!
