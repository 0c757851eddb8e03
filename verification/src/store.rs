//! The store.

use vstd::prelude::*;

use crate::answers::{asks, done_answer};
use crate::collections::{all_valid, Collections};
use crate::consistency::{
    delete_keeps_consistency, ensure_keeps_consistency, get_keeps_consistency, in_progress,
    lemma_first_invalid, lemma_follows, lemma_follows_on, lemma_follows_read, lemma_none_invalid,
    lemma_opened, lemma_step, lemma_untouched, put_keeps_consistency, query_keeps_consistency,
};
use crate::identifier::{is_valid_identifier, valid_identifier, validate_db_path};
use crate::json::{json_to_text, list_to_text, sql_views, SqlValue, SqlView};
use crate::model::{
    database_follows, declared_in_steps, fresh, is_delete, is_ensure, is_get,
    is_load, is_open, is_put, is_query, is_start, memory_path, spec_refusal, start_failed,
    step_values, steps, store_view, StoreView,
};
use crate::persistence::{
    done_view, or_storage_error, record_view, records_view, CollectionSpec, ErrorView, Query,
    Record, StoreError,
};
use crate::plan::{plan_of, plan_query};
use crate::rows::{record_from_lookup, records_from_rows};
use crate::sql::{
    catalog_table, configure_sql, create_catalog_sql, create_index_sql, create_table_sql,
    delete_sql, insert_sql, save_spec_sql, select_catalog_sql, select_document_sql, Statement,
};
use crate::sqlite::{
    bind_all, database, execute, execute_batch, history, open_in_memory, open_path, opened_at,
    failed_to_open, query_rows, query_text,
};
use crate::text::{concat2, copy_strings, texts};

verus! {

/// A document store in a SQLite database.
pub struct SqliteStore {
    conn: rusqlite::Connection,
    specs: Collections,
}

impl View for SqliteStore {
    type V = StoreView;

    closed spec fn view(&self) -> StoreView {
        StoreView {
            path: opened_at(self.conn),
            specs: self.specs@,
            database: database(self.conn),
            history: history(self.conn),
        }
    }
}

/// The state of a store without collections over a connection.
pub open spec fn over(conn: rusqlite::Connection) -> StoreView {
    StoreView {
        path: opened_at(conn),
        specs: Map::empty(),
        database: database(conn),
        history: history(conn),
    }
}

impl SqliteStore {
    /// Opens, or creates, a store at a path, which must not hold a `..` component. The path
    /// `:memory:` stands for a new store in memory.
    pub fn open(path: &str) -> (result: Result<SqliteStore, StoreError>)
        ensures
            is_open(path@, store_view(result)),
    {
        let memory = ":memory:".to_owned();
        if path.to_owned() == memory {
            let opened = open_in_memory();
            assert(opened matches Ok(conn) ==> over(conn) =~= fresh(path@));
            assert(opened matches Err(error) ==> failed_to_open(path@, error));
            let result = Self::started(opened, "open in-memory failed");
            proof {
                if result is Ok {
                    lemma_opened(path@, result->Ok_0@);
                }
            }
            result
        } else {
            match validate_db_path(path) {
                Ok(_) => {},
                Err(reason) => {
                    let message = concat2("invalid path: ", reason.as_str());
                    return Err(StoreError::Storage(message));
                },
            }
            let opened = open_path(path);
            assert(opened matches Ok(conn) ==> over(conn) =~= fresh(path@));
            assert(opened matches Err(error) ==> failed_to_open(path@, error));
            let result = Self::started(opened, "open database failed");
            proof {
                if result is Ok {
                    lemma_opened(path@, result->Ok_0@);
                }
            }
            result
        }
    }

    /// The store over a connection that was opened, once it has started; the error with the
    /// given text where no connection could be opened.
    fn started(opened: Result<rusqlite::Connection, rusqlite::Error>, message: &str) -> (result:
        Result<SqliteStore, StoreError>)
        ensures
            match opened {
                Err(_) => result matches Err(error) && error@ == ErrorView::Storage(message@),
                Ok(conn) => match result {
                    Ok(store) => is_start(over(conn), store@, Ok(())) && database_follows(
                        over(conn),
                        store@,
                    ),
                    Err(error) => exists|store: SqliteStore| #[trigger]
                        start_failed(over(conn), store, error@),
                },
            },
    {
        let conn = match or_storage_error(opened, message) {
            Ok(conn) => conn,
            Err(error) => return Err(error),
        };
        let ghost before = over(conn);
        let mut store = SqliteStore { conn, specs: Collections::new() };
        match store.start() {
            Ok(_) => Ok(store),
            Err(error) => {
                assert(start_failed(before, store, error@));
                Err(error)
            },
        }
    }

    /// Opens a new store in memory.
    pub fn in_memory() -> (result: Result<SqliteStore, StoreError>)
        ensures
            is_open(memory_path(), store_view(result)),
    {
        Self::open(":memory:")
    }

    /// Configures the connection, creates the catalog where it is missing, and loads it.
    fn start(&mut self) -> (result: Result<(), StoreError>)
        ensures
            is_start(old(self)@, final(self)@, done_view(result)),
            database_follows(old(self)@, final(self)@),
    {
        let ghost before = self@;
        // Write-ahead logging and a busy timeout make access by two processes safe.
        let sql = configure_sql();
        let ran = execute_batch(&mut self.conn, sql.as_str());
        let ghost configured = self@;
        proof {
            lemma_follows(before, configured, Statement::Configure, seq![]);
            assert(configured.since(before).len() == 1);
        }
        match or_storage_error(ran, "configure pragmas failed") {
            Ok(_) => {},
            Err(error) => return Err(error),
        }
        let created = self.init_schema();
        proof {
            lemma_follows_on(before, configured, self@, Statement::CreateCatalog, seq![]);
            assert(self@.history =~= before.history + seq![
                configured.history.last(),
                self@.history.last(),
            ]);
            assert(self@.since(before).len() == 2);
        }
        match created {
            Ok(_) => {},
            Err(error) => return Err(error),
        }
        let ghost now = self@;
        let loaded = self.load_specs();
        proof {
            lemma_follows_on(before, now, self@, Statement::SelectCatalog, seq![]);
            assert(self@.history =~= before.history + seq![
                configured.history.last(),
                now.history.last(),
                self@.history.last(),
            ]);
            assert(self@.since(before).len() == 3);
        }
        loaded
    }

    /// Creates the catalog where it is missing.
    fn init_schema(&mut self) -> (result: Result<(), StoreError>)
        ensures
            final(self)@.handed_one(old(self)@, Statement::CreateCatalog, seq![]),
            final(self)@.last_answer() == done_answer(result is Ok),
            result matches Err(error) ==> error@ == ErrorView::Storage("init schema failed"@),
            database_follows(old(self)@, final(self)@),
            result is Ok ==> (final(self)@.database matches Some(db) ==> db.tables.contains_key(
                catalog_table(),
            )),
    {
        let ghost before = self@;
        let sql = create_catalog_sql();
        let ran = execute_batch(&mut self.conn, sql.as_str());
        proof {
            lemma_follows(before, self@, Statement::CreateCatalog, seq![]);
            assert(before.database matches Some(db) ==> asks(
                db,
                Statement::CreateCatalog,
                self@.history.last().sql,
                self@.history.last().values,
            ));
        }
        or_storage_error(ran, "init schema failed")
    }

    /// Declares the collections that the catalog names, beside those that are declared.
    fn load_specs(&mut self) -> (result: Result<(), StoreError>)
        ensures
            is_load(old(self)@, final(self)@, done_view(result)),
            (old(self)@.database matches Some(db) ==> db.tables.contains_key(catalog_table()))
                ==> database_follows(old(self)@, final(self)@),
    {
        let ghost before = self@;
        let sql = select_catalog_sql();
        let values: Vec<SqlValue> = Vec::new();
        assert(sql_views(values@) =~= seq![]);
        let returned = query_rows(&mut self.conn, sql.as_str(), &bind_all(&values));
        proof {
            if before.database matches Some(db) ==> db.tables.contains_key(catalog_table()) {
                lemma_follows_read(before, self@, Statement::SelectCatalog, seq![]);
            }
        }
        let started = match or_storage_error(returned, "load specs: prepare failed") {
            Ok(started) => started,
            Err(error) => return Err(error),
        };
        let rows = match or_storage_error(started, "load specs: query failed") {
            Ok(rows) => rows,
            Err(error) => return Err(error),
        };
        self.specs.load_rows(&rows)
    }

    /// Validates the names in a declaration as SQL identifiers: that of the collection, then
    /// those of its fields in order.
    pub fn checked_spec(spec: &CollectionSpec) -> (result: Result<(), StoreError>)
        ensures
            match spec_refusal(spec@) {
                None => result is Ok,
                Some(expected) => result matches Err(error) && error@ == expected,
            },
    {
        match Self::checked_collection(spec.name.as_str()) {
            Ok(_) => {},
            Err(error) => return Err(error),
        }
        let ghost fields = spec@.indexed_fields;
        for i in 0..spec.indexed_fields.len()
            invariant
                fields == texts(spec.indexed_fields@),
                fields == spec@.indexed_fields,
                forall|j: int| 0 <= j < i ==> valid_identifier(#[trigger] fields[j]),
                valid_identifier(spec@.name),
        {
            if !is_valid_identifier(spec.indexed_fields[i].as_str()) {
                proof {
                    lemma_first_invalid(fields, i as int);
                }
                return Err(StoreError::InvalidIdentifier(spec.indexed_fields[i].clone()));
            }
        }
        proof {
            lemma_none_invalid(fields);
        }
        Ok(())
    }

    /// Validates a collection name as an SQL identifier.
    pub fn checked_collection(name: &str) -> (result: Result<&str, StoreError>)
        ensures
            match result {
                Ok(checked) => valid_identifier(name@) && checked@ == name@,
                Err(error) => !valid_identifier(name@) && error@ == ErrorView::InvalidIdentifier(
                    name@,
                ),
            },
    {
        if is_valid_identifier(name) {
            Ok(name)
        } else {
            Err(StoreError::InvalidIdentifier(name.to_owned()))
        }
    }

    /// The declared indexed fields of a known collection.
    fn declared_fields(&self, collection: &str) -> (result: Result<Vec<String>, StoreError>)
        ensures
            match result {
                Ok(fields) => self@.specs.contains_key(collection@) && texts(fields@)
                    == self@.specs[collection@],
                Err(error) => !self@.specs.contains_key(collection@) && error@
                    == ErrorView::CollectionNotFound(collection@),
            },
    {
        match self.specs.fields(collection) {
            Some(fields) => Ok(fields),
            None => Err(StoreError::CollectionNotFound(collection.to_owned())),
        }
    }

    /// Declares a collection: creates its table and the indexes on its fields where they are
    /// missing, and records it in the catalog. Every name is validated before any SQL runs.
    pub fn ensure_collection(&mut self, spec: &CollectionSpec) -> (result: Result<(), StoreError>)
        ensures
            is_ensure(old(self)@, final(self)@, spec@, done_view(result)),
            old(self)@.consistent() ==> database_follows(old(self)@, final(self)@)
                && final(self)@.consistent(),
    {
        let ghost before = self@;
        proof {
            lemma_untouched(before);
        }
        match Self::checked_spec(spec) {
            Ok(_) => {},
            Err(error) => return Err(error),
        }
        let result = self.declare(spec);
        proof {
            if before.consistent() {
                ensure_keeps_consistency(before, self@, spec@, done_view(result));
            }
        }
        result
    }

    /// Declares a collection whose names are identifiers.
    fn declare(&mut self, spec: &CollectionSpec) -> (result: Result<(), StoreError>)
        requires
            spec_refusal(spec@) is None,
        ensures
            exists|done: nat|
                declared_in_steps(old(self)@, final(self)@, spec@, done_view(result), done),
            old(self)@.consistent() ==> database_follows(old(self)@, final(self)@),
    {
        let ghost before = self@;
        let ghost fields = spec@.indexed_fields;
        let name = spec.name.as_str();
        proof {
            lemma_none_invalid(fields);
            lemma_untouched(before);
            assert(steps(spec@, 0) =~= Seq::empty());
            assert(before.history =~= before.history + steps(spec@, 0));
        }
        let sql = create_table_sql(name);
        let ran = execute_batch(&mut self.conn, sql.as_str());
        proof {
            lemma_step(before, before, self@, spec@, 0);
        }
        match or_storage_error(ran, "create table failed") {
            Ok(_) => {},
            Err(error) => {
                assert(declared_in_steps(before, self@, spec@, Err(error@), 0));
                return Err(error);
            },
        }
        for i in 0..spec.indexed_fields.len()
            invariant
                fields == texts(spec.indexed_fields@),
                spec@.indexed_fields == fields,
                all_valid(fields),
                name@ == spec@.name,
                valid_identifier(name@),
                before == old(self)@,
                in_progress(before, self@, spec@, (i + 1) as nat),
        {
            let ghost now = self@;
            let sql = create_index_sql(name, spec.indexed_fields[i].as_str());
            let ran = execute_batch(&mut self.conn, sql.as_str());
            proof {
                lemma_step(before, now, self@, spec@, (i + 1) as nat);
            }
            match or_storage_error(ran, "create index failed") {
                Ok(_) => {},
                Err(error) => {
                    assert(declared_in_steps(before, self@, spec@, Err(error@), (i + 1) as nat));
                    return Err(error);
                },
            }
        }
        let ghost done = (fields.len() + 1) as nat;
        let written = list_to_text(&spec.indexed_fields);
        let text = match or_storage_error(written, "serialize spec failed") {
            Ok(text) => text,
            Err(error) => {
                assert(declared_in_steps(before, self@, spec@, Err(error@), done));
                return Err(error);
            },
        };
        let mut values: Vec<SqlValue> = Vec::new();
        values.push(SqlValue::Text(name.to_owned()));
        values.push(SqlValue::Text(text));
        assert(sql_views(values@) =~= step_values(spec@, done as int));
        let ghost now = self@;
        let sql = save_spec_sql();
        let ran = execute(&mut self.conn, sql.as_str(), &bind_all(&values));
        proof {
            lemma_step(before, now, self@, spec@, done);
        }
        match or_storage_error(ran, "persist spec failed") {
            Ok(_) => {},
            Err(error) => {
                assert(declared_in_steps(before, self@, spec@, Err(error@), done));
                return Err(error);
            },
        }
        self.specs.insert(name.to_owned(), copy_strings(&spec.indexed_fields));
        assert(declared_in_steps(before, self@, spec@, Ok(()), done + 1));
        Ok(())
    }

    /// Writes a record, in place of the one with the same id.
    pub fn put(&mut self, collection: &str, record: Record) -> (result: Result<(), StoreError>)
        ensures
            is_put(old(self)@, final(self)@, collection@, record@, done_view(result)),
            old(self)@.consistent() ==> database_follows(old(self)@, final(self)@)
                && final(self)@.consistent(),
    {
        let ghost before = self@;
        proof {
            lemma_untouched(before);
        }
        let name = match Self::checked_collection(collection) {
            Ok(name) => name,
            Err(error) => return Err(error),
        };
        match self.declared_fields(name) {
            Ok(_) => {},
            Err(error) => return Err(error),
        }
        let doc = match or_storage_error(json_to_text(&record.doc), "serialize doc failed") {
            Ok(doc) => doc,
            Err(error) => return Err(error),
        };
        let sql = insert_sql(name);
        let ghost views = seq![SqlView::Text(record@.id), SqlView::Text(doc@)];
        let mut values: Vec<SqlValue> = Vec::new();
        values.push(SqlValue::Text(record.id.clone()));
        values.push(SqlValue::Text(doc));
        assert(sql_views(values@) =~= views);
        let ran = execute(&mut self.conn, sql.as_str(), &bind_all(&values));
        let result = match or_storage_error(ran, "insert failed") {
            Ok(_) => Ok(()),
            Err(error) => Err(error),
        };
        proof {
            if before.consistent() {
                lemma_follows(before, self@, Statement::Insert { name: collection@ }, views);
                put_keeps_consistency(before, self@, collection@, record@, done_view(result));
            }
        }
        result
    }

    /// The record with an id.
    pub fn get(&mut self, collection: &str, id: &str) -> (result: Result<Record, StoreError>)
        ensures
            is_get(old(self)@, final(self)@, collection@, id@, record_view(result)),
            old(self)@.consistent() ==> database_follows(old(self)@, final(self)@)
                && final(self)@.consistent(),
    {
        let ghost before = self@;
        proof {
            lemma_untouched(before);
        }
        let name = match Self::checked_collection(collection) {
            Ok(name) => name,
            Err(error) => return Err(error),
        };
        match self.declared_fields(name) {
            Ok(_) => {},
            Err(error) => return Err(error),
        }
        let sql = select_document_sql(name);
        let ghost views = seq![SqlView::Text(id@)];
        let mut values: Vec<SqlValue> = Vec::new();
        values.push(SqlValue::Text(id.to_owned()));
        assert(sql_views(values@) =~= views);
        let found = query_text(&mut self.conn, sql.as_str(), &bind_all(&values));
        let result = match or_storage_error(found, "query failed") {
            Ok(doc) => record_from_lookup(id, doc),
            Err(error) => Err(error),
        };
        proof {
            if before.consistent() {
                let statement = Statement::SelectDocument { name: collection@ };
                lemma_follows_read(before, self@, statement, views);
                get_keeps_consistency(before, self@, collection@, id@, record_view(result));
            }
        }
        result
    }

    /// The records that a query selects.
    pub fn query(&mut self, collection: &str, query: &Query) -> (result: Result<
        Vec<Record>,
        StoreError,
    >)
        ensures
            is_query(old(self)@, final(self)@, collection@, query@, records_view(result)),
            old(self)@.consistent() ==> database_follows(old(self)@, final(self)@)
                && final(self)@.consistent(),
    {
        let ghost before = self@;
        proof {
            lemma_untouched(before);
        }
        let name = match Self::checked_collection(collection) {
            Ok(name) => name,
            Err(error) => return Err(error),
        };
        let declared = match self.declared_fields(name) {
            Ok(declared) => declared,
            Err(error) => return Err(error),
        };
        let plan = match plan_query(name, &declared, query) {
            Ok(plan) => plan,
            Err(error) => return Err(error),
        };
        let returned = query_rows(&mut self.conn, plan.sql.as_str(), &bind_all(&plan.values));
        let result = match or_storage_error(returned, "prepare failed") {
            Ok(started) => match or_storage_error(started, "query failed") {
                Ok(rows) => records_from_rows(&rows),
                Err(error) => Err(error),
            },
            Err(error) => Err(error),
        };
        proof {
            if before.consistent() {
                let expected = plan_of(collection@, before.specs[collection@], query@)->Ok_0;
                lemma_follows_read(before, self@, expected.statement, expected.values);
                query_keeps_consistency(before, self@, collection@, query@, records_view(result));
            }
        }
        result
    }

    /// Removes the record with an id; where there is none, nothing changes.
    pub fn delete(&mut self, collection: &str, id: &str) -> (result: Result<(), StoreError>)
        ensures
            is_delete(old(self)@, final(self)@, collection@, id@, done_view(result)),
            old(self)@.consistent() ==> database_follows(old(self)@, final(self)@)
                && final(self)@.consistent(),
    {
        let ghost before = self@;
        proof {
            lemma_untouched(before);
        }
        let name = match Self::checked_collection(collection) {
            Ok(name) => name,
            Err(error) => return Err(error),
        };
        match self.declared_fields(name) {
            Ok(_) => {},
            Err(error) => return Err(error),
        }
        let sql = delete_sql(name);
        let ghost views = seq![SqlView::Text(id@)];
        let mut values: Vec<SqlValue> = Vec::new();
        values.push(SqlValue::Text(id.to_owned()));
        assert(sql_views(values@) =~= views);
        let ran = execute(&mut self.conn, sql.as_str(), &bind_all(&values));
        let result = match or_storage_error(ran, "delete failed") {
            Ok(_) => Ok(()),
            Err(error) => Err(error),
        };
        proof {
            if before.consistent() {
                lemma_follows(before, self@, Statement::Delete { name: collection@ }, views);
                delete_keeps_consistency(before, self@, collection@, id@, done_view(result));
            }
        }
        result
    }
}

} // verus!
