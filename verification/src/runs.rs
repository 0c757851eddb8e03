//! What holds after any sequence of calls.

use vstd::prelude::*;

use crate::answers::obeyed;
use crate::collections::Specs;
use crate::consistency::{
    catalog_is_no_collection, delete_effect, ensure_effect, get_effect, put_effect, query_effect,
};
use crate::database::Database;
use crate::json::json_text;
use crate::laws::ensure_touches_no_record;
use crate::model::{
    is_delete, is_ensure, is_get, is_open, is_put, is_query, memory_path, StoreView,
};
use crate::opening::collections_survive_reopening;
use crate::persistence::{ErrorView, QueryView, RecordView, SpecView};
use crate::rows::lookup_of;
use crate::sql::catalog_table;

verus! {

/// A call of one of the store's operations, with what it returned.
pub enum Call {
    Ensure { spec: SpecView, result: Result<(), ErrorView> },
    Put { collection: Seq<char>, record: RecordView, result: Result<(), ErrorView> },
    Get { collection: Seq<char>, id: Seq<char>, got: Result<RecordView, ErrorView> },
    Query {
        collection: Seq<char>,
        query: QueryView,
        found: Result<Seq<RecordView>, ErrorView>,
    },
    Delete { collection: Seq<char>, id: Seq<char>, result: Result<(), ErrorView> },
}

/// Whether a call takes the store from one state to the next.
pub open spec fn is_call(before: StoreView, after: StoreView, call: Call) -> bool {
    match call {
        Call::Ensure { spec, result } => is_ensure(before, after, spec, result),
        Call::Put { collection, record, result } => is_put(
            before,
            after,
            collection,
            record,
            result,
        ),
        Call::Get { collection, id, got } => is_get(before, after, collection, id, got),
        Call::Query { collection, query, found } => is_query(
            before,
            after,
            collection,
            query,
            found,
        ),
        Call::Delete { collection, id, result } => is_delete(
            before,
            after,
            collection,
            id,
            result,
        ),
    }
}

/// Whether calls take a store through these states, on a database that nobody else changes
/// and that holds `dbs` in turn.
pub open spec fn is_run(
    stores: Seq<StoreView>,
    dbs: Seq<Database>,
    calls: Seq<Call>,
) -> bool {
    &&& stores.len() == calls.len() + 1
    &&& dbs.len() == calls.len() + 1
    &&& stores[0].rests_on(dbs[0])
    &&& forall|i: int|
        0 <= i < calls.len() ==> {
            &&& is_call(stores[i], stores[i + 1], #[trigger] calls[i])
            &&& obeyed(dbs[i], stores[i + 1].since(stores[i]), dbs[i + 1])
        }
}

/// The collections that calls leave declared: each with the fields of the latest declaration
/// that succeeded.
pub open spec fn declared_by(specs: Specs, calls: Seq<Call>) -> Specs
    decreases calls.len(),
{
    if calls.len() == 0 {
        specs
    } else {
        let earlier = declared_by(specs, calls.drop_last());
        match calls.last() {
            Call::Ensure { spec, result: Ok(_) } => earlier.insert(spec.name, spec.indexed_fields),
            _ => earlier,
        }
    }
}

/// The text that calls leave under an id: that of the latest `put` that succeeded, unless a
/// `delete` that succeeded came later.
pub open spec fn left_by(
    text: Option<Seq<char>>,
    calls: Seq<Call>,
    collection: Seq<char>,
    id: Seq<char>,
) -> Option<Seq<char>>
    decreases calls.len(),
{
    if calls.len() == 0 {
        text
    } else {
        let earlier = left_by(text, calls.drop_last(), collection, id);
        match calls.last() {
            Call::Put { collection: c, record, result: Ok(_) } => if c == collection && record.id
                == id {
                json_text(record.doc)
            } else {
                earlier
            },
            Call::Delete { collection: c, id: deleted, result: Ok(_) } => if c == collection
                && deleted == id {
                None
            } else {
                earlier
            },
            _ => earlier,
        }
    }
}

/// One call keeps the store on the database, declares what it says, and leaves under an id
/// what it says.
proof fn lemma_call(
    before: StoreView,
    after: StoreView,
    db: Database,
    next: Database,
    call: Call,
    collection: Seq<char>,
    id: Seq<char>,
)
    requires
        before.rests_on(db),
        is_call(before, after, call),
        obeyed(db, after.since(before), next),
        collection != catalog_table(),
    ensures
        after.path == before.path,
        after.rests_on(next),
        after.specs == declared_by(before.specs, seq![call]),
        next.row(collection, id) == left_by(db.row(collection, id), seq![call], collection, id),
{
    reveal_with_fuel(declared_by, 2);
    reveal_with_fuel(left_by, 2);
    assert(seq![call].drop_last() =~= Seq::empty());
    assert(seq![call].last() == call);
    match call {
        Call::Ensure { spec, result } => {
            ensure_effect(before, after, db, next, spec, result);
            ensure_touches_no_record(before, after, db, next, spec, result, collection, id);
        },
        Call::Put { collection: c, record, result } => {
            put_effect(before, after, db, next, c, record, result);
        },
        Call::Get { collection: c, id: wanted, got } => {
            get_effect(before, after, db, next, c, wanted, got);
        },
        Call::Query { collection: c, query, found } => {
            query_effect(before, after, db, next, c, query, found);
        },
        Call::Delete { collection: c, id: deleted, result } => {
            delete_effect(before, after, db, next, c, deleted, result);
        },
    }
}

/// After any sequence of calls the store is at its path and rests on the database, a
/// collection has the fields of its latest declaration that succeeded, and under an id stands
/// what the latest `put` or `delete` that succeeded left there. Nothing else has any part in
/// it.
pub proof fn latest_calls_decide(
    stores: Seq<StoreView>,
    dbs: Seq<Database>,
    calls: Seq<Call>,
    collection: Seq<char>,
    id: Seq<char>,
)
    requires
        is_run(stores, dbs, calls),
        collection != catalog_table(),
    ensures
        stores.last().path == stores[0].path,
        stores.last().rests_on(dbs.last()),
        stores.last().specs == declared_by(stores[0].specs, calls),
        dbs.last().row(collection, id) == left_by(
            dbs[0].row(collection, id),
            calls,
            collection,
            id,
        ),
    decreases calls.len(),
{
    if calls.len() > 0 {
        let n = calls.len() - 1;
        let earlier = calls.drop_last();
        assert(is_run(stores.drop_last(), dbs.drop_last(), earlier)) by {
            assert forall|i: int| 0 <= i < earlier.len() implies {
                &&& is_call(
                    stores.drop_last()[i],
                    stores.drop_last()[i + 1],
                    #[trigger] earlier[i],
                )
                &&& obeyed(
                    dbs.drop_last()[i],
                    stores.drop_last()[i + 1].since(stores.drop_last()[i]),
                    dbs.drop_last()[i + 1],
                )
            } by {
                assert(earlier[i] == calls[i]);
            }
        }
        latest_calls_decide(stores.drop_last(), dbs.drop_last(), earlier, collection, id);
        let before = stores[n];
        assert(stores.drop_last().last() == before);
        assert(dbs.drop_last().last() == dbs[n]);
        assert(is_call(before, stores[n + 1], calls[n]));
        lemma_call(before, stores[n + 1], dbs[n], dbs[n + 1], calls[n], collection, id);
        let last = seq![calls[n]];
        assert(last.drop_last() =~= Seq::empty());
        reveal_with_fuel(declared_by, 2);
        reveal_with_fuel(left_by, 2);
    }
}

/// `get` after any sequence of calls returns the document of the latest `put`, where SQLite
/// answers.
pub proof fn get_returns_what_was_left(
    stores: Seq<StoreView>,
    dbs: Seq<Database>,
    calls: Seq<Call>,
    after: StoreView,
    next: Database,
    collection: Seq<char>,
    id: Seq<char>,
    result: Result<RecordView, ErrorView>,
)
    requires
        is_run(stores, dbs, calls),
        stores.last().refusal(collection) is None,
        is_get(stores.last(), after, collection, id, result),
        obeyed(dbs.last(), after.since(stores.last()), next),
        !(after.last_answer() is Failed),
    ensures
        result == lookup_of(
            id,
            left_by(dbs[0].row(collection, id), calls, collection, id),
        ),
{
    catalog_is_no_collection();
    latest_calls_decide(stores, dbs, calls, collection, id);
    get_effect(stores.last(), after, dbs.last(), next, collection, id, result);
}

/// A path that is opened again, on the database that any sequence of calls on a store at that
/// path left, gives a store with the collections that they left declared, without declaring
/// them anew, and `get` returns what it returned before, where SQLite answers.
pub proof fn reopening_loses_nothing(
    stores: Seq<StoreView>,
    dbs: Seq<Database>,
    calls: Seq<Call>,
    path: Seq<char>,
    reopened: StoreView,
    db: Database,
    after: StoreView,
    next: Database,
    collection: Seq<char>,
    id: Seq<char>,
    result: Result<RecordView, ErrorView>,
)
    requires
        path != memory_path(),
        stores[0].path == Some(path),
        is_run(stores, dbs, calls),
        is_open(path, Ok(reopened)),
        obeyed(dbs.last(), reopened.history, db),
        stores.last().refusal(collection) is None,
        is_get(reopened, after, collection, id, result),
        obeyed(db, after.since(reopened), next),
        !(after.last_answer() is Failed),
    ensures
        reopened.path == stores.last().path,
        reopened.specs == declared_by(stores[0].specs, calls),
        db == dbs.last(),
        result == lookup_of(
            id,
            left_by(dbs[0].row(collection, id), calls, collection, id),
        ),
{
    catalog_is_no_collection();
    latest_calls_decide(stores, dbs, calls, collection, id);
    collections_survive_reopening(stores.last(), path, reopened, dbs.last(), db);
    get_effect(reopened, after, db, next, collection, id, result);
}

/// Collections do not displace each other, though their lists of fields be equal: two that were
/// declared one after the other are both declared, with their fields, in a store that is opened
/// at the path again.
pub proof fn declared_collections_stand_side_by_side(
    before: StoreView,
    first: StoreView,
    second: StoreView,
    db: Database,
    db1: Database,
    db2: Database,
    spec1: SpecView,
    spec2: SpecView,
    path: Seq<char>,
    reopened: StoreView,
    next: Database,
)
    requires
        path != memory_path(),
        before.path == Some(path),
        before.rests_on(db),
        spec1.name != spec2.name,
        is_ensure(before, first, spec1, Ok(())),
        obeyed(db, first.since(before), db1),
        is_ensure(first, second, spec2, Ok(())),
        obeyed(db1, second.since(first), db2),
        is_open(path, Ok(reopened)),
        obeyed(db2, reopened.history, next),
    ensures
        reopened.specs.contains_key(spec1.name),
        reopened.specs[spec1.name] == spec1.indexed_fields,
        reopened.specs.contains_key(spec2.name),
        reopened.specs[spec2.name] == spec2.indexed_fields,
        forall|other: Seq<char>| #[trigger]
            before.specs.contains_key(other) && other != spec1.name && other != spec2.name
                ==> reopened.specs.contains_key(other) && reopened.specs[other]
                == before.specs[other],
{
    ensure_effect(before, first, db, db1, spec1, Ok(()));
    ensure_effect(first, second, db1, db2, spec2, Ok(()));
    collections_survive_reopening(second, path, reopened, db2, next);
}

} // verus!
