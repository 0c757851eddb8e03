//! What holds of opening a store, and of the catalog that it restores.

use vstd::prelude::*;

use crate::answers::{obeyed, Answer};
use crate::collections::{
    catalog_error, declares, lists_parse, load_of, overridden, Load, Specs,
};
use crate::consistency::{lemma_load_of, start_effect, start_reads_catalog};
use crate::database::{all_read, key_of, listed, lists, value_of, Database, Row, Table};
use crate::json::list_parse;
use crate::model::{
    database_serves, fresh, is_open, is_start, memory_path, names_valid, StoreView,
};
use crate::persistence::ErrorView;
use crate::sql::{catalog_table, Statement};

verus! {

/// Loading a catalog succeeds exactly where every list of fields in it can be parsed. Then the
/// declared collections are those that were declared, overridden by exactly the rows whose
/// names are all identifiers. Else the error names a collection whose list cannot be parsed.
pub proof fn loading_overrides_what_was_declared(specs: Specs, catalog: Table, rows: Seq<Row>)
    requires
        lists(rows, catalog),
    ensures
        load_of(specs, rows).result is Ok <==> lists_parse(catalog),
        load_of(specs, rows).result is Ok ==> load_of(specs, rows).specs == overridden(
            specs,
            catalog,
        ),
        load_of(specs, rows).result matches Err(error) ==> exists|name: Seq<char>| #[trigger]
            catalog.contains_key(name) && list_parse(catalog[name]) is None && error
                == catalog_error(name),
{
    let load = load_of(specs, rows);
    assert(rows.take(rows.len() as int) =~= rows);
    if lists_parse(catalog) {
        lemma_loaded(specs, catalog, rows, rows.len() as int);
        assert forall|name: Seq<char>| #[trigger]
            overridden(specs, catalog).contains_key(name) implies load.specs.contains_key(
            name,
        ) by {
            if catalog.contains_key(name) && declares(name, catalog[name]) {
                assert(listed(rows, name));
                let i = choose|i: int|
                    0 <= i < rows.len() && (#[trigger] rows[i]) is Some && key_of(rows[i]) == name;
                assert(among(rows, rows.len() as int, name));
            }
        }
        assert forall|name: Seq<char>| #[trigger] load.specs.contains_key(name) implies {
            &&& overridden(specs, catalog).contains_key(name)
            &&& overridden(specs, catalog)[name] == load.specs[name]
        } by {
            if catalog.contains_key(name) && declares(name, catalog[name]) {
                assert(listed(rows, name));
                let i = choose|i: int|
                    0 <= i < rows.len() && (#[trigger] rows[i]) is Some && key_of(rows[i]) == name;
                assert(among(rows, rows.len() as int, name));
            }
        }
        assert(load.specs =~= overridden(specs, catalog));
    } else {
        let name = choose|name: Seq<char>| #[trigger]
            catalog.contains_key(name) && list_parse(catalog[name]) is None;
        assert(listed(rows, name));
        let i = choose|i: int|
            0 <= i < rows.len() && (#[trigger] rows[i]) is Some && key_of(rows[i]) == name;
        let j = damaged_catalog_fails(specs, rows, i);
        assert(catalog.contains_key(key_of(rows[j])));
    }
}

/// Whether one of the first `n` rows has this key.
spec fn among(rows: Seq<Row>, n: int, name: Seq<char>) -> bool {
    exists|i: int| 0 <= i < n && key_of(#[trigger] rows[i]) == name
}

proof fn lemma_loaded(specs: Specs, catalog: Table, rows: Seq<Row>, n: int)
    requires
        lists(rows, catalog),
        lists_parse(catalog),
        0 <= n <= rows.len(),
    ensures
        load_of(specs, rows.take(n)).result is Ok,
        forall|name: Seq<char>| #[trigger]
            load_of(specs, rows.take(n)).specs.contains_key(name) <==> (specs.contains_key(name)
                || (among(rows, n, name) && declares(name, catalog[name]))),
        forall|name: Seq<char>| #[trigger]
            load_of(specs, rows.take(n)).specs.contains_key(name) ==> load_of(
                specs,
                rows.take(n),
            ).specs[name] == (if among(rows, n, name) && declares(name, catalog[name]) {
                list_parse(catalog[name])->0
            } else {
                specs[name]
            }),
    decreases n,
{
    if n > 0 {
        lemma_loaded(specs, catalog, rows, n - 1);
        let prefix = rows.take(n);
        assert(prefix.drop_last() =~= rows.take(n - 1));
        assert(prefix.last() == rows[n - 1]);
        let row = rows[n - 1];
        assert(catalog.contains_key(key_of(row)));
        assert(catalog[key_of(row)] == value_of(row));
        assert forall|name: Seq<char>| #[trigger] among(rows, n, name) <==> among(
            rows,
            n - 1,
            name,
        ) || name == key_of(row) by {
            if among(rows, n, name) {
                let i = choose|i: int| 0 <= i < n && key_of(#[trigger] rows[i]) == name;
                if i < n - 1 {
                    assert(among(rows, n - 1, name));
                }
            }
            if among(rows, n - 1, name) {
                let i = choose|i: int| 0 <= i < n - 1 && key_of(#[trigger] rows[i]) == name;
                assert(key_of(rows[i]) == name);
            }
            if name == key_of(row) {
                assert(key_of(rows[n - 1]) == name);
            }
        }
    } else {
        assert(rows.take(0) =~= Seq::empty());
    }
}

/// A damaged catalog fails loud: where a row cannot be read, or its list of fields cannot be
/// parsed, the first such row is the error, never a collection without fields.
pub proof fn damaged_catalog_fails(specs: Specs, rows: Seq<Row>, i: int) -> (first: int)
    requires
        0 <= i < rows.len(),
        rows[i] is None || list_parse(value_of(rows[i])) is None,
    ensures
        0 <= first <= i,
        rows[first] is None || list_parse(value_of(rows[first])) is None,
        forall|j: int|
            0 <= j < first ==> (#[trigger] rows[j]) is Some && list_parse(value_of(rows[j]))
                is Some,
        load_of(specs, rows).result == Err::<(), ErrorView>(
            if rows[first] is None {
                ErrorView::Storage("load specs: row read failed"@)
            } else {
                catalog_error(key_of(rows[first]))
            },
        ),
    decreases rows.len(),
{
    let rest = rows.drop_last();
    if exists|k: int|
        0 <= k < rest.len() && (#[trigger] rest[k] is None || list_parse(value_of(rest[k]))
            is None) {
        let k = choose|k: int|
            0 <= k < rest.len() && (#[trigger] rest[k] is None || list_parse(value_of(rest[k]))
                is None);
        let first = damaged_catalog_fails(specs, rest, k);
        assert forall|j: int| 0 <= j < first implies (#[trigger] rows[j]) is Some && list_parse(
            value_of(rows[j]),
        ) is Some by {
            assert(rest[j] is Some);
        }
        if i < first {
            assert(rest[i] == rows[i]);
        }
        first
    } else {
        assert(i == rows.len() - 1) by {
            if i < rest.len() {
                assert(rest[i] == rows[i]);
            }
        }
        lemma_undamaged(specs, rest);
        assert forall|j: int| 0 <= j < i implies (#[trigger] rows[j]) is Some && list_parse(
            value_of(rows[j]),
        ) is Some by {
            assert(rest[j] == rows[j]);
        }
        i
    }
}

proof fn lemma_undamaged(specs: Specs, rows: Seq<Row>)
    requires
        forall|k: int|
            0 <= k < rows.len() ==> (#[trigger] rows[k]) is Some && list_parse(value_of(rows[k]))
                is Some,
    ensures
        load_of(specs, rows).result is Ok,
    decreases rows.len(),
{
    if rows.len() > 0 {
        let rest = rows.drop_last();
        assert forall|k: int| 0 <= k < rest.len() implies (#[trigger] rest[k]) is Some
            && list_parse(value_of(rest[k])) is Some by {
            assert(rest[k] == rows[k]);
        }
        lemma_undamaged(specs, rest);
    }
}

/// The catalog is not trusted: a row whose name is no identifier, or one of whose fields is
/// none, declares nothing.
pub proof fn restored_names_are_identifiers(specs: Specs, rows: Seq<Row>)
    requires
        names_valid(specs),
    ensures
        names_valid(load_of(specs, rows).specs),
{
    lemma_load_of(specs, rows);
}

/// A store that was opened is configured first: its first statement sets the write-ahead log
/// and the busy timeout, and ran.
pub proof fn opened_stores_are_configured(path: Seq<char>, store: StoreView)
    requires
        is_open(path, Ok(store)),
    ensures
        store.history.len() == 3,
        store.history[0].sql == Statement::Configure.text(),
        store.history[0].answer is Done,
        store.history[1].sql == Statement::CreateCatalog.text(),
        store.history[1].answer is Done,
{
    assert(store.since(fresh(path)) =~= store.history);
}

/// Where the pragmas fail, the error says so and nothing more is asked of SQLite.
pub proof fn failed_pragmas_fail_the_start(
    before: StoreView,
    after: StoreView,
    result: Result<(), ErrorView>,
)
    requires
        is_start(before, after, result),
        after.since(before)[0].answer is Failed,
    ensures
        result == Err::<(), ErrorView>(ErrorView::Storage("configure pragmas failed"@)),
        after.since(before).len() == 1,
{
    if after.since(before).len() >= 2 {
        assert(after.since(before)[0].answer is Done);
    }
}

/// Opening restores what the catalog declares: the collections of an opened store are exactly
/// those that the rows SQLite returned declare.
pub proof fn opening_restores_the_catalog(path: Seq<char>, store: StoreView)
    requires
        is_open(path, Ok(store)),
    ensures
        store.last_answer() matches Answer::Rows(rows) && load_of(Map::empty(), rows) == (Load {
            specs: store.specs,
            result: Ok(()),
        }),
{
    opened_stores_are_configured(path, store);
    assert(store.since(fresh(path)) =~= store.history);
    assert(store.last_answer() is Rows);
}

/// A catalog with a list of fields that cannot be parsed fails the opening with the integrity
/// error of the first such row, where SQLite could read every row.
pub proof fn damaged_catalog_fails_the_start(
    before: StoreView,
    after: StoreView,
    result: Result<(), ErrorView>,
    rows: Seq<Row>,
    i: int,
) -> (first: int)
    requires
        is_start(before, after, result),
        after.last_answer() == Answer::Rows(rows),
        all_read(rows),
        0 <= i < rows.len(),
        list_parse(value_of(rows[i])) is None,
    ensures
        0 <= first <= i,
        result == Err::<(), ErrorView>(catalog_error(key_of(rows[first]))),
{
    let first = damaged_catalog_fails(before.specs, rows, i);
    assert(rows[first] is Some);
    first
}

/// An opened store has a catalog in which every list of fields can be parsed, and exactly the
/// collections that the catalog declares: a row with a name that is no identifier is skipped,
/// and no store is opened over a damaged catalog.
pub proof fn opened_stores_have_their_catalog(
    path: Seq<char>,
    store: StoreView,
    db: Database,
    next: Database,
)
    requires
        is_open(path, Ok(store)),
        obeyed(db, store.history, next),
    ensures
        next == db.with_table(catalog_table()),
        lists_parse(next.tables[catalog_table()]),
        store.specs == overridden(Map::empty(), next.tables[catalog_table()]),
        names_valid(store.specs),
{
    let before = fresh(path);
    assert(store.since(before) =~= store.history);
    start_effect(before, store, db, next);
    loading_overrides_what_was_declared(
        before.specs,
        next.tables[catalog_table()],
        store.last_answer()->Rows_0,
    );
}

/// A store that is opened on a database that serves collections has exactly them, and rests on
/// the database, which stays as it was.
pub proof fn opening_finds_what_is_served(
    path: Seq<char>,
    store: StoreView,
    specs: Specs,
    db: Database,
    next: Database,
)
    requires
        database_serves(db, specs),
        is_open(path, Ok(store)),
        obeyed(db, store.history, next),
    ensures
        store.specs == specs,
        next == db,
        store.rests_on(next),
{
    opened_stores_have_their_catalog(path, store, db, next);
}

/// A store that is opened on a new database, at a path or in memory, has no collections and
/// rests on the database, which has an empty catalog.
pub proof fn opening_a_new_database(path: Seq<char>, store: StoreView, next: Database)
    requires
        is_open(path, Ok(store)),
        obeyed(Database::empty(), store.history, next),
    ensures
        store.path == fresh(path).path,
        store.specs == Map::<Seq<char>, Seq<Seq<char>>>::empty(),
        next == Database::empty().with_table(catalog_table()),
        store.rests_on(next),
{
    opened_stores_have_their_catalog(path, store, Database::empty(), next);
    assert(store.specs =~= Map::empty());
}

/// Declared collections survive a reopening: a store that is opened at the path of an earlier
/// one, on the database that the earlier one rested on, has the same collections and rests on
/// the same database.
pub proof fn collections_survive_reopening(
    earlier: StoreView,
    path: Seq<char>,
    store: StoreView,
    db: Database,
    next: Database,
)
    requires
        path != memory_path(),
        earlier.path == Some(path),
        earlier.rests_on(db),
        is_open(path, Ok(store)),
        obeyed(db, store.history, next),
    ensures
        store.path == earlier.path,
        store.specs == earlier.specs,
        next == db,
        store.rests_on(next),
{
    opening_finds_what_is_served(path, store, earlier.specs, db, next);
}

/// A start at the path of an earlier store, on the database that the earlier one rested on,
/// fails only where SQLite does: it succeeds where every statement ran and every row was read.
pub proof fn reopening_fails_only_with_sqlite(
    earlier: StoreView,
    path: Seq<char>,
    after: StoreView,
    db: Database,
    next: Database,
    result: Result<(), ErrorView>,
)
    requires
        path != memory_path(),
        earlier.path == Some(path),
        earlier.rests_on(db),
        is_start(fresh(path), after, result),
        obeyed(db, after.since(fresh(path)), next),
        after.last_answer() matches Answer::Rows(rows) && all_read(rows),
    ensures
        result == Ok::<(), ErrorView>(()),
        after.path == earlier.path,
        after.specs == earlier.specs,
{
    start_reads_catalog(fresh(path), after, db, next, result);
    loading_overrides_what_was_declared(
        fresh(path).specs,
        db.tables[catalog_table()],
        after.last_answer()->Rows_0,
    );
}

} // verus!
