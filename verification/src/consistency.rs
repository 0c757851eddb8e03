//! What the operations do to a database that obeys them, and why the store stays consistent.

use vstd::prelude::*;

use crate::answers::{
    answered, asks, handed, lemma_obeyed_one, lemma_obeyed_pop, lemma_obeyed_push, obeyed, reads,
    Answer, Handed,
};
use crate::collections::{all_valid, declares, load_of, overridden, Load, Specs};
use crate::database::{all_read, key_of, lists, Database, Row};
use crate::identifier::{has_parent_component, valid_identifier};
use crate::json::{json_text, list_parse, list_text, SqlView};
use crate::model::{
    after_steps, database_follows, database_serves, declared_in_steps, first_invalid, fresh,
    has_index, is_delete, is_ensure, is_get, is_open, is_put, is_query, is_start, known_text,
    memory_path, names_valid, spec_refusal, step, step_count, step_values, steps, StoreView,
};
use crate::persistence::{ErrorView, QueryView, RecordView, SpecView};
use crate::plan::plan_of;
use crate::sql::{
    catalog_table, index_name, index_names_do_not_collide, statement_texts_are_unambiguous,
    Statement,
};
use crate::sqlite::{only_read, ran};

verus! {

/// The name of the catalog is no identifier, so no collection is the catalog.
pub proof fn catalog_is_no_collection()
    ensures
        !valid_identifier(catalog_table()),
{
    reveal_strlit("__wyrtloom_collections");
    assert(catalog_table()[0] == '_');
}

/// A change to the rows of one collection leaves a database that serves.
proof fn lemma_serves_after_rows(db: Database, after: Database, specs: Specs, name: Seq<char>)
    requires
        database_serves(db, specs),
        valid_identifier(name),
        after.indexes == db.indexes,
        after.tables.contains_key(name),
        forall|table: Seq<char>|
            table != name ==> (#[trigger] after.tables.contains_key(table)
                <==> db.tables.contains_key(table)) && after.tables[table] == db.tables[table],
    ensures
        database_serves(after, specs),
{
    catalog_is_no_collection();
    assert(after.tables.contains_key(catalog_table()));
    assert forall|table: Seq<char>| #[trigger]
        specs.contains_key(table) implies after.tables.contains_key(table) by {
        assert(db.tables.contains_key(table));
    }
    assert forall|table: Seq<char>, i: int|
        specs.contains_key(table) && 0 <= i < specs[table].len() implies has_index(
        after,
        table,
        #[trigger] specs[table][i],
    ) by {
        assert(has_index(db, table, specs[table][i]));
    }
}

/// What a database answers to the one statement that an operation hands over.
proof fn lemma_answered(
    before: StoreView,
    after: StoreView,
    statement: Statement,
    values: Seq<SqlView>,
    db: Database,
    next: Database,
)
    requires
        after.handed_one(before, statement, values),
        statement.well_formed(),
        db.ready(statement, values),
        obeyed(db, after.since(before), next),
    ensures
        answered(db, statement, values, after.last_answer(), next),
{
    let one = handed(statement, values, after.last_answer());
    assert(after.since(before) =~= seq![one]);
    lemma_obeyed_one(db, one, next);
    assert(asks(db, statement, one.sql, one.values));
}

/// Where nothing was handed over, nothing changed.
pub(crate) proof fn lemma_untouched(store: StoreView)
    ensures
        store.since(store) == Seq::<Handed>::empty(),
        forall|db: Database, next: Database| #[trigger]
            obeyed(db, store.since(store), next) <==> next == db,
        database_follows(store, store),
{
    assert(store.since(store) =~= Seq::empty());
}

/// What `put` does to a database that obeys: the record's text stands under its id, or
/// nothing changed.
pub proof fn put_effect(
    before: StoreView,
    after: StoreView,
    db: Database,
    next: Database,
    collection: Seq<char>,
    record: RecordView,
    result: Result<(), ErrorView>,
)
    requires
        before.rests_on(db),
        is_put(before, after, collection, record, result),
        obeyed(db, after.since(before), next),
    ensures
        next == (if result is Ok {
            db.with_row(collection, record.id, json_text(record.doc)->0)
        } else {
            db
        }),
        after.specs == before.specs,
        after.rests_on(next),
{
    lemma_untouched(before);
    if before.refusal(collection) is None && json_text(record.doc) is Some {
        let values = seq![SqlView::Text(record.id), SqlView::Text(json_text(record.doc)->0)];
        let statement = Statement::Insert { name: collection };
        lemma_answered(before, after, statement, values, db, next);
        lemma_serves_after_rows(db, next, before.specs, collection);
    }
}

/// What `delete` does to a database that obeys: nothing stands under the id, or nothing
/// changed.
pub proof fn delete_effect(
    before: StoreView,
    after: StoreView,
    db: Database,
    next: Database,
    collection: Seq<char>,
    id: Seq<char>,
    result: Result<(), ErrorView>,
)
    requires
        before.rests_on(db),
        is_delete(before, after, collection, id, result),
        obeyed(db, after.since(before), next),
    ensures
        next == (if result is Ok {
            db.without_row(collection, id)
        } else {
            db
        }),
        after.specs == before.specs,
        after.rests_on(next),
{
    lemma_untouched(before);
    if before.refusal(collection) is None {
        let values = seq![SqlView::Text(id)];
        let statement = Statement::Delete { name: collection };
        lemma_answered(before, after, statement, values, db, next);
        lemma_serves_after_rows(db, next, before.specs, collection);
    }
}

/// `get` changes nothing in a database that obeys, and reads what stands under the id.
pub proof fn get_effect(
    before: StoreView,
    after: StoreView,
    db: Database,
    next: Database,
    collection: Seq<char>,
    id: Seq<char>,
    result: Result<RecordView, ErrorView>,
)
    requires
        before.rests_on(db),
        is_get(before, after, collection, id, result),
        obeyed(db, after.since(before), next),
    ensures
        next == db,
        after.specs == before.specs,
        after.rests_on(next),
        before.refusal(collection) is None ==> (after.last_answer() matches Answer::Document(found)
            ==> found == db.row(collection, id)),
{
    lemma_untouched(before);
    if before.refusal(collection) is None {
        let values = seq![SqlView::Text(id)];
        let statement = Statement::SelectDocument { name: collection };
        lemma_answered(before, after, statement, values, db, next);
    }
}

/// `query` changes nothing in a database that obeys, and reads what its statement selects.
pub proof fn query_effect(
    before: StoreView,
    after: StoreView,
    db: Database,
    next: Database,
    collection: Seq<char>,
    query: QueryView,
    result: Result<Seq<RecordView>, ErrorView>,
)
    requires
        before.rests_on(db),
        is_query(before, after, collection, query, result),
        obeyed(db, after.since(before), next),
    ensures
        next == db,
        after.specs == before.specs,
        after.rests_on(next),
        before.refusal(collection) is None ==> (plan_of(
            collection,
            before.specs[collection],
            query,
        ) matches Ok(plan) ==> answered(
            db,
            plan.statement,
            plan.values,
            after.last_answer(),
            next,
        )),
{
    lemma_untouched(before);
    if before.refusal(collection) is None {
        match plan_of(collection, before.specs[collection], query) {
            Ok(plan) => {
                lemma_answered(before, after, plan.statement, plan.values, db, next);
            },
            Err(_) => {},
        }
    }
}

/// What the statements that declare a collection, all but the last, do to a database that
/// serves: it still serves, the table is there once the first has run, and so is the index
/// of every field whose statement has run.
proof fn lemma_after_steps(db: Database, specs: Specs, spec: SpecView, n: nat)
    requires
        database_serves(db, specs),
        valid_identifier(spec.name),
        all_valid(spec.indexed_fields),
        n <= spec.indexed_fields.len() + 1,
    ensures
        database_serves(after_steps(db, spec, n), specs),
        n > 0 ==> after_steps(db, spec, n).tables.contains_key(spec.name),
        after_steps(db, spec, n).tables[catalog_table()] == db.tables[catalog_table()],
        forall|i: int|
            0 <= i < n - 1 ==> has_index(
                after_steps(db, spec, n),
                spec.name,
                #[trigger] spec.indexed_fields[i],
            ),
    decreases n,
{
    catalog_is_no_collection();
    if n == 1 {
        assert(after_steps(db, spec, 0) == db);
        let after = after_steps(db, spec, 1);
        assert(after == db.with_table(spec.name));
        lemma_serves_after_rows(db, after, specs, spec.name);
    } else if n > 1 {
        let k = (n - 1) as nat;
        lemma_after_steps(db, specs, spec, k);
        let before = after_steps(db, spec, k);
        let after = after_steps(db, spec, n);
        let field = spec.indexed_fields[n - 2];
        assert(after == before.with_index(spec.name, field));
        let index = index_name(spec.name, field);
        if before.indexes.contains_key(index) {
            index_names_do_not_collide(
                spec.name,
                field,
                before.indexes[index].0,
                before.indexes[index].1,
            );
        }
        assert(has_index(after, spec.name, field));
        assert forall|i: int| 0 <= i < n - 1 implies has_index(
            after,
            spec.name,
            #[trigger] spec.indexed_fields[i],
        ) by {
            if i < n - 2 {
                assert(has_index(before, spec.name, spec.indexed_fields[i]));
            }
        }
        assert forall|table: Seq<char>, i: int|
            specs.contains_key(table) && 0 <= i < specs[table].len() implies has_index(
            after,
            table,
            #[trigger] specs[table][i],
        ) by {
            assert(has_index(before, table, specs[table][i]));
        }
    }
}

/// Once the last statement that declares a collection has run too, the database serves the
/// collections with that one among them.
proof fn lemma_after_all_steps(db: Database, specs: Specs, spec: SpecView, text: Seq<char>)
    requires
        database_serves(db, specs),
        valid_identifier(spec.name),
        all_valid(spec.indexed_fields),
        list_text(spec.indexed_fields) == Some(text),
        list_parse(text) == Some(spec.indexed_fields),
    ensures
        database_serves(
            after_steps(db, spec, step_count(spec)),
            specs.insert(spec.name, spec.indexed_fields),
        ),
{
    catalog_is_no_collection();
    let k = (step_count(spec) - 1) as nat;
    lemma_after_steps(db, specs, spec, k);
    let before = after_steps(db, spec, k);
    let after = after_steps(db, spec, step_count(spec));
    let declared = specs.insert(spec.name, spec.indexed_fields);
    assert(after == before.with_row(catalog_table(), spec.name, text));
    let catalog = after.tables[catalog_table()];
    assert(catalog == db.tables[catalog_table()].insert(spec.name, text));
    assert(declares(spec.name, text));
    assert(overridden(Map::empty(), catalog) =~= declared);
    assert forall|table: Seq<char>| #[trigger]
        declared.contains_key(table) implies after.tables.contains_key(table) by {
        if table != spec.name {
            assert(specs.contains_key(table));
        }
    }
    assert forall|table: Seq<char>, i: int|
        declared.contains_key(table) && 0 <= i < declared[table].len() implies has_index(
        after,
        table,
        #[trigger] declared[table][i],
    ) by {
        if table == spec.name {
            assert(has_index(before, table, spec.indexed_fields[i]));
        } else {
            assert(has_index(before, table, specs[table][i]));
        }
    }
}

/// The statement that declares a collection next can run.
proof fn lemma_step_ready(db: Database, specs: Specs, spec: SpecView, n: nat)
    requires
        database_serves(db, specs),
        valid_identifier(spec.name),
        all_valid(spec.indexed_fields),
        n < step_count(spec),
    ensures
        asks(
            after_steps(db, spec, n),
            step(spec, n as int),
            step(spec, n as int).text(),
            step_values(spec, n as int),
        ),
{
    lemma_after_steps(db, specs, spec, n);
}

proof fn lemma_steps_push(spec: SpecView, n: nat)
    ensures
        steps(spec, n + 1) == steps(spec, n).push(
            handed(step(spec, n as int), step_values(spec, n as int), Answer::Done),
        ),
{
    assert(steps(spec, n + 1) =~= steps(spec, n).push(
        handed(step(spec, n as int), step_values(spec, n as int), Answer::Done),
    ));
}

/// What statements that declare a collection and ran do to a database that obeys.
proof fn lemma_obeyed_steps(db: Database, specs: Specs, spec: SpecView, n: nat, next: Database)
    requires
        database_serves(db, specs),
        valid_identifier(spec.name),
        all_valid(spec.indexed_fields),
        n <= step_count(spec),
        obeyed(db, steps(spec, n), next),
    ensures
        next == after_steps(db, spec, n),
    decreases n,
{
    if n > 0 {
        let k = (n - 1) as nat;
        lemma_steps_push(spec, k);
        let last = handed(step(spec, k as int), step_values(spec, k as int), Answer::Done);
        let mid = lemma_obeyed_pop(db, steps(spec, k), last, next);
        lemma_obeyed_steps(db, specs, spec, k, mid);
        lemma_step_ready(db, specs, spec, k);
        assert(asks(mid, step(spec, k as int), last.sql, last.values));
    }
}

/// What `ensure_collection` does to a database that obeys: what the statements that ran do.
/// However far it came, the database serves the declared collections.
pub proof fn ensure_effect(
    before: StoreView,
    after: StoreView,
    db: Database,
    next: Database,
    spec: SpecView,
    result: Result<(), ErrorView>,
) -> (done: nat)
    requires
        before.rests_on(db),
        is_ensure(before, after, spec, result),
        obeyed(db, after.since(before), next),
    ensures
        spec_refusal(spec) is Some ==> next == db && after == before,
        spec_refusal(spec) is None ==> declared_in_steps(before, after, spec, result, done) && next
            == after_steps(db, spec, done),
        after.rests_on(next),
{
    lemma_untouched(before);
    let done = choose|done: nat| declared_in_steps(before, after, spec, result, done);
    if spec_refusal(spec) is None {
        lemma_none_invalid(spec.indexed_fields);
        assert(declared_in_steps(before, after, spec, result, done));
        lemma_declared_effect(before, after, db, next, spec, result, done);
    }
    done
}

proof fn lemma_declared_effect(
    before: StoreView,
    after: StoreView,
    db: Database,
    next: Database,
    spec: SpecView,
    result: Result<(), ErrorView>,
    done: nat,
)
    requires
        before.rests_on(db),
        valid_identifier(spec.name),
        all_valid(spec.indexed_fields),
        declared_in_steps(before, after, spec, result, done),
        obeyed(db, after.since(before), next),
    ensures
        next == after_steps(db, spec, done),
        after.rests_on(next),
{
    let all = step_count(spec);
    let text = list_text(spec.indexed_fields);
    if done == all || (done == all - 1 && text is None) {
        assert(after.since(before) =~= steps(spec, done));
        lemma_obeyed_steps(db, before.specs, spec, done, next);
    } else {
        let last = handed(
            step(spec, done as int),
            step_values(spec, done as int),
            after.last_answer(),
        );
        assert(after.since(before) =~= steps(spec, done).push(last));
        let mid = lemma_obeyed_pop(db, steps(spec, done), last, next);
        lemma_obeyed_steps(db, before.specs, spec, done, mid);
        lemma_step_ready(db, before.specs, spec, done);
        assert(asks(mid, step(spec, done as int), last.sql, last.values));
    }
    if done == all {
        lemma_after_all_steps(db, before.specs, spec, text->0);
    } else {
        lemma_after_steps(db, before.specs, spec, done);
    }
}

/// Where all names are identifiers there is no first that is none.
pub(crate) proof fn lemma_none_invalid(names: Seq<Seq<char>>)
    ensures
        all_valid(names) <==> first_invalid(names) is None,
    decreases names.len(),
{
    if names.len() > 0 {
        let rest = names.drop_first();
        lemma_none_invalid(rest);
        if valid_identifier(names[0]) && all_valid(rest) {
            assert forall|i: int| 0 <= i < names.len() implies valid_identifier(
                #[trigger] names[i],
            ) by {
                if i > 0 {
                    assert(names[i] == rest[i - 1]);
                }
            }
        }
        if all_valid(names) {
            assert forall|i: int| 0 <= i < rest.len() implies valid_identifier(
                #[trigger] rest[i],
            ) by {
                assert(rest[i] == names[i + 1]);
            }
        }
    }
}

/// A name that is no identifier behind names that are is the first.
pub(crate) proof fn lemma_first_invalid(names: Seq<Seq<char>>, n: int)
    requires
        0 <= n < names.len(),
        forall|i: int| 0 <= i < n ==> valid_identifier(#[trigger] names[i]),
        !valid_identifier(names[n]),
    ensures
        first_invalid(names) == Some(names[n]),
    decreases n,
{
    if n > 0 {
        let rest = names.drop_first();
        assert forall|i: int| 0 <= i < n - 1 implies valid_identifier(#[trigger] rest[i]) by {
            assert(rest[i] == names[i + 1]);
        }
        lemma_first_invalid(rest, n - 1);
    }
}

/// A statement that is run is obeyed by a database that no other connection can reach.
pub(crate) proof fn lemma_follows(
    before: StoreView,
    after: StoreView,
    statement: Statement,
    values: Seq<SqlView>,
)
    requires
        after.history == before.history.push(handed(statement, values, after.last_answer())),
        statement.well_formed(),
        before.database matches Some(db) ==> db.ready(statement, values),
        ran(before.database, after.database, after.history.last()),
    ensures
        database_follows(before, after),
{
    let one = handed(statement, values, after.last_answer());
    assert(after.since(before) =~= seq![one]);
    if before.database is Some {
        let db = before.database->0;
        assert(asks(db, statement, one.sql, one.values));
        lemma_obeyed_one(db, one, after.database->0);
    }
}

/// A statement that reads is obeyed by a database that no other connection can reach.
pub(crate) proof fn lemma_follows_read(
    before: StoreView,
    after: StoreView,
    statement: Statement,
    values: Seq<SqlView>,
)
    requires
        after.history == before.history.push(handed(statement, values, after.last_answer())),
        statement.well_formed(),
        reads(statement),
        before.database matches Some(db) ==> db.ready(statement, values),
        only_read(before.database, after.database, after.history.last()),
    ensures
        database_follows(before, after),
{
    let one = handed(statement, values, after.last_answer());
    if before.database is Some {
        let db = before.database->0;
        assert(asks(db, statement, one.sql, one.values));
        assert forall|s: Statement| #[trigger]
            asks(db, s, one.sql, one.values) implies reads(s) by {
            statement_texts_are_unambiguous(s, statement);
        }
    }
    lemma_follows(before, after, statement, values);
}

/// What follows one stretch of statements follows the stretches together.
pub(crate) proof fn lemma_follows_on(
    before: StoreView,
    now: StoreView,
    after: StoreView,
    statement: Statement,
    values: Seq<SqlView>,
)
    requires
        before.history.is_prefix_of(now.history),
        after.history == now.history.push(handed(statement, values, after.last_answer())),
        database_follows(before, now),
        database_follows(now, after),
    ensures
        database_follows(before, after),
{
    if before.database is Some {
        let one = handed(statement, values, after.last_answer());
        assert(after.since(now) =~= seq![one]);
        assert(after.since(before) =~= now.since(before).push(one));
        lemma_obeyed_one(now.database->0, one, after.database->0);
        lemma_obeyed_push(
            before.database->0,
            now.since(before),
            now.database->0,
            one,
            after.database->0,
        );
    }
}

/// A store in the course of declaring a collection: the first `done` statements were handed
/// to SQLite and ran, and nothing else happened.
pub(crate) open spec fn in_progress(
    before: StoreView,
    now: StoreView,
    spec: SpecView,
    done: nat,
) -> bool {
    &&& now.path == before.path
    &&& now.specs == before.specs
    &&& now.history == before.history + steps(spec, done)
    &&& before.consistent() ==> database_follows(before, now)
}

/// The next statement that declares a collection takes the store one step on where it runs.
pub(crate) proof fn lemma_step(
    before: StoreView,
    now: StoreView,
    after: StoreView,
    spec: SpecView,
    done: nat,
)
    requires
        in_progress(before, now, spec, done),
        valid_identifier(spec.name),
        all_valid(spec.indexed_fields),
        done < step_count(spec),
        after.handed_one(now, step(spec, done as int), step_values(spec, done as int)),
        ran(now.database, after.database, after.history.last()),
    ensures
        after.last_answer() is Done ==> in_progress(before, after, spec, done + 1),
        after.history == before.history + steps(spec, done).push(
            handed(
                step(spec, done as int),
                step_values(spec, done as int),
                after.last_answer(),
            ),
        ),
        before.consistent() ==> database_follows(before, after),
{
    let statement = step(spec, done as int);
    let values = step_values(spec, done as int);
    lemma_steps_push(spec, done);
    assert(after.history =~= before.history + steps(spec, done).push(
        handed(statement, values, after.last_answer()),
    ));
    if before.consistent() {
        if before.database is Some {
            let db = before.database->0;
            assert(now.since(before) =~= steps(spec, done));
            lemma_obeyed_steps(db, before.specs, spec, done, now.database->0);
            lemma_step_ready(db, before.specs, spec, done);
        }
        lemma_follows(now, after, statement, values);
        lemma_follows_on(before, now, after, statement, values);
    }
}

/// Whether all that was handed over is over identifiers.
pub open spec fn all_known(handed: Seq<Handed>) -> bool {
    forall|i: int| 0 <= i < handed.len() ==> known_text((#[trigger] handed[i]).sql)
}

proof fn lemma_consistent(before: StoreView, after: StoreView)
    requires
        before.consistent(),
        after.history == before.history + after.since(before),
        all_known(after.since(before)),
        names_valid(after.specs),
        after.database matches Some(db) ==> database_serves(db, after.specs),
    ensures
        after.consistent(),
{
    assert forall|i: int| 0 <= i < after.history.len() implies known_text(
        (#[trigger] after.history[i]).sql,
    ) by {
        if i < before.history.len() {
            assert(after.history[i] == before.history[i]);
        } else {
            assert(after.history[i] == after.since(before)[i - before.history.len()]);
        }
    }
}

proof fn lemma_known_one(
    before: StoreView,
    after: StoreView,
    statement: Statement,
    values: Seq<SqlView>,
)
    requires
        after.handed_one(before, statement, values),
        statement.well_formed(),
    ensures
        after.history == before.history + after.since(before),
        all_known(after.since(before)),
{
    assert(after.since(before) =~= seq![handed(statement, values, after.last_answer())]);
    assert(after.history =~= before.history + after.since(before));
    assert(known_text(statement.text()));
}

/// `put` keeps the store consistent.
pub proof fn put_keeps_consistency(
    before: StoreView,
    after: StoreView,
    collection: Seq<char>,
    record: RecordView,
    result: Result<(), ErrorView>,
)
    requires
        before.consistent(),
        is_put(before, after, collection, record, result),
        database_follows(before, after),
    ensures
        after.consistent(),
{
    if before.refusal(collection) is None && json_text(record.doc) is Some {
        if before.database is Some {
            put_effect(
                before,
                after,
                before.database->0,
                after.database->0,
                collection,
                record,
                result,
            );
        }
        let values = seq![SqlView::Text(record.id), SqlView::Text(json_text(record.doc)->0)];
        lemma_known_one(before, after, Statement::Insert { name: collection }, values);
        lemma_consistent(before, after);
    }
}

/// `delete` keeps the store consistent.
pub proof fn delete_keeps_consistency(
    before: StoreView,
    after: StoreView,
    collection: Seq<char>,
    id: Seq<char>,
    result: Result<(), ErrorView>,
)
    requires
        before.consistent(),
        is_delete(before, after, collection, id, result),
        database_follows(before, after),
    ensures
        after.consistent(),
{
    if before.refusal(collection) is None {
        if before.database is Some {
            delete_effect(
                before,
                after,
                before.database->0,
                after.database->0,
                collection,
                id,
                result,
            );
        }
        let values = seq![SqlView::Text(id)];
        lemma_known_one(before, after, Statement::Delete { name: collection }, values);
        lemma_consistent(before, after);
    }
}

/// `get` keeps the store consistent.
pub proof fn get_keeps_consistency(
    before: StoreView,
    after: StoreView,
    collection: Seq<char>,
    id: Seq<char>,
    result: Result<RecordView, ErrorView>,
)
    requires
        before.consistent(),
        is_get(before, after, collection, id, result),
        database_follows(before, after),
    ensures
        after.consistent(),
{
    if before.refusal(collection) is None {
        if before.database is Some {
            get_effect(
                before,
                after,
                before.database->0,
                after.database->0,
                collection,
                id,
                result,
            );
        }
        let values = seq![SqlView::Text(id)];
        lemma_known_one(before, after, Statement::SelectDocument { name: collection }, values);
        lemma_consistent(before, after);
    }
}

/// `query` keeps the store consistent.
pub proof fn query_keeps_consistency(
    before: StoreView,
    after: StoreView,
    collection: Seq<char>,
    query: QueryView,
    result: Result<Seq<RecordView>, ErrorView>,
)
    requires
        before.consistent(),
        is_query(before, after, collection, query, result),
        database_follows(before, after),
    ensures
        after.consistent(),
{
    if before.refusal(collection) is None {
        match plan_of(collection, before.specs[collection], query) {
            Ok(plan) => {
                if before.database is Some {
                    query_effect(
                        before,
                        after,
                        before.database->0,
                        after.database->0,
                        collection,
                        query,
                        result,
                    );
                }
                lemma_known_one(before, after, plan.statement, plan.values);
                lemma_consistent(before, after);
            },
            Err(_) => {},
        }
    }
}

/// `ensure_collection` keeps the store consistent, also where it fails halfway.
pub proof fn ensure_keeps_consistency(
    before: StoreView,
    after: StoreView,
    spec: SpecView,
    result: Result<(), ErrorView>,
)
    requires
        before.consistent(),
        is_ensure(before, after, spec, result),
        database_follows(before, after),
    ensures
        after.consistent(),
{
    if spec_refusal(spec) is None {
        lemma_none_invalid(spec.indexed_fields);
        if before.database is Some {
            ensure_effect(before, after, before.database->0, after.database->0, spec, result);
        }
        let done = choose|done: nat| declared_in_steps(before, after, spec, result, done);
        assert(declared_in_steps(before, after, spec, result, done));
        assert(after.history =~= before.history + after.since(before));
        assert forall|i: int| 0 <= i < after.since(before).len() implies known_text(
            (#[trigger] after.since(before)[i]).sql,
        ) by {
            let statement = step(spec, i);
            assert(after.since(before)[i].sql == statement.text());
            assert(statement.well_formed());
        }
        lemma_consistent(before, after);
    }
}

/// A catalog of which a row could not be read is an error, and the names that a catalog
/// declares are identifiers.
pub(crate) proof fn lemma_load_of(specs: Specs, rows: Seq<Row>)
    requires
        names_valid(specs),
    ensures
        load_of(specs, rows).result is Ok ==> all_read(rows),
        names_valid(load_of(specs, rows).specs),
    decreases rows.len(),
{
    if rows.len() > 0 {
        let rest = rows.drop_last();
        lemma_load_of(specs, rest);
        if load_of(specs, rows).result is Ok {
            assert forall|i: int| 0 <= i < rows.len() implies (#[trigger] rows[i]) is Some by {
                if i < rest.len() {
                    assert(rest[i] is Some);
                }
            }
        }
    }
}

/// What a start that came to read the catalog does to a database that obeys: the catalog is
/// there, and where every row was read, its rows were returned.
pub proof fn start_reads_catalog(
    before: StoreView,
    after: StoreView,
    db: Database,
    next: Database,
    result: Result<(), ErrorView>,
)
    requires
        is_start(before, after, result),
        after.last_answer() is Rows,
        obeyed(db, after.since(before), next),
    ensures
        next == db.with_table(catalog_table()),
        all_read(after.last_answer()->Rows_0) ==> lists(
            after.last_answer()->Rows_0,
            next.tables[catalog_table()],
        ),
        load_of(before.specs, after.last_answer()->Rows_0) == (Load { specs: after.specs, result }),
{
    let configured = handed(Statement::Configure, seq![], Answer::Done);
    let created = handed(Statement::CreateCatalog, seq![], Answer::Done);
    let selected = handed(Statement::SelectCatalog, seq![], after.last_answer());
    assert(after.since(before) =~= seq![configured].push(created).push(selected));
    let mid2 = lemma_obeyed_pop(db, seq![configured].push(created), selected, next);
    let mid1 = lemma_obeyed_pop(db, seq![configured], created, mid2);
    lemma_obeyed_one(db, configured, mid1);
    assert(asks(db, Statement::Configure, configured.sql, configured.values));
    assert(asks(mid1, Statement::CreateCatalog, created.sql, created.values));
    assert(asks(mid2, Statement::SelectCatalog, selected.sql, selected.values));
}

/// What a start that succeeded does to a database that obeys: the catalog is there, and its
/// rows were returned and declare the collections.
pub proof fn start_effect(before: StoreView, after: StoreView, db: Database, next: Database)
    requires
        is_start(before, after, Ok(())),
        names_valid(before.specs),
        obeyed(db, after.since(before), next),
    ensures
        next == db.with_table(catalog_table()),
        names_valid(after.specs),
        after.last_answer() matches Answer::Rows(rows) && lists(rows, next.tables[catalog_table()])
            && load_of(before.specs, rows) == (Load { specs: after.specs, result: Ok(()) }),
{
    assert(after.last_answer() is Rows);
    start_reads_catalog(before, after, db, next, Ok(()));
    lemma_load_of(before.specs, after.last_answer()->Rows_0);
}

/// A start that succeeded over a connection that was just opened opens the store.
pub(crate) proof fn lemma_opened(path: Seq<char>, store: StoreView)
    requires
        path == memory_path() || !has_parent_component(path),
        is_start(fresh(path), store, Ok(())),
        database_follows(fresh(path), store),
    ensures
        is_open(path, Ok(store)),
{
    let in_memory = path == memory_path();
    let before = fresh(path);
    let configured = handed(Statement::Configure, seq![], Answer::Done);
    let created = handed(Statement::CreateCatalog, seq![], Answer::Done);
    let selected = handed(Statement::SelectCatalog, seq![], store.last_answer());
    assert(store.since(before) =~= store.history);
    assert(store.history =~= seq![configured, created, selected]);
    assert(known_text(Statement::Configure.text()));
    assert(known_text(Statement::CreateCatalog.text()));
    assert(known_text(Statement::SelectCatalog.text()));
    assert(store.last_answer() is Rows);
    let rows = store.last_answer()->Rows_0;
    lemma_load_of(before.specs, rows);
    if in_memory {
        let db = before.database->0;
        start_effect(before, store, db, store.database->0);
        let table = store.database->0.tables[catalog_table()];
        if rows.len() > 0 {
            assert(table.contains_key(key_of(rows[0])));
        }
        assert(store.specs =~= Map::empty());
        assert(overridden(Map::empty(), table) =~= Map::empty());
    }
}

} // verus!
