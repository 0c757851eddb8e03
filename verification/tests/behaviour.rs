use serde_json::Value;
use wyrtloom_store_sqlite::persistence::{CollectionSpec, Query, Record, StoreError};
use wyrtloom_store_sqlite::SqliteStore;

fn with_field(field: &str, value: Value) -> Value {
    let mut map = serde_json::Map::new();
    map.insert(field.to_string(), value);
    Value::Object(map)
}

fn spec(name: &str, fields: Vec<&str>) -> CollectionSpec {
    CollectionSpec {
        name: name.to_string(),
        indexed_fields: fields.into_iter().map(|f| f.to_string()).collect(),
    }
}

fn by_field(field: &str, value: Value) -> Query {
    Query::ByField { field: field.to_string(), value }
}

fn rec(id: &str, doc: Value) -> Record {
    Record { id: id.to_string(), doc }
}

fn store() -> SqliteStore {
    let mut store = SqliteStore::in_memory().unwrap();
    store.ensure_collection(&spec("things", vec!["v"])).unwrap();
    store.ensure_collection(&spec("plain", vec![])).unwrap();
    store
}

fn shared(name: &str) -> String {
    format!("file:{name}?mode=memory&cache=shared")
}

fn storage(message: &str) -> StoreError {
    StoreError::Storage(message.to_string())
}

fn ids(store: &mut SqliteStore, value: Value) -> Vec<String> {
    let records = store.query("things", &by_field("v", value)).unwrap();
    let mut ids: Vec<String> = records.iter().map(|r| r.id.clone()).collect();
    ids.sort();
    ids
}

fn nested(depth: usize) -> Value {
    let mut value = Value::Null;
    for _ in 0..depth {
        value = Value::Array(vec![value]);
    }
    value
}

#[test]
fn every_integer_is_read_back_and_found() {
    let mut s = store();
    for (id, n) in [("a", 0i64), ("b", -1), ("c", i64::MAX), ("d", i64::MIN)] {
        let doc = with_field("v", Value::from(n));
        s.put("things", rec(id, doc.clone())).unwrap();
        assert_eq!(s.get("things", id).unwrap().doc, doc);
        assert_eq!(ids(&mut s, Value::from(n)), vec![id]);
    }
}

#[test]
fn large_and_fractional_numbers_are_found() {
    let mut s = store();
    s.put("things", rec("u", with_field("v", Value::from(u64::MAX)))).unwrap();
    s.put("things", rec("f", with_field("v", Value::from(2.5)))).unwrap();
    assert_eq!(s.get("things", "u").unwrap().doc, with_field("v", Value::from(u64::MAX)));
    assert_eq!(ids(&mut s, Value::from(u64::MAX)), vec!["u"]);
    assert_eq!(ids(&mut s, Value::from(2.5)), vec!["f"]);
    assert_eq!(ids(&mut s, Value::from(3.5)), Vec::<String>::new());
}

#[test]
fn values_of_different_kinds_differ() {
    let mut s = store();
    s.put("things", rec("n", with_field("v", Value::from(1)))).unwrap();
    s.put("things", rec("t", with_field("v", Value::from("1")))).unwrap();
    s.put("things", rec("b", with_field("v", Value::from(true)))).unwrap();
    s.put("things", rec("z", with_field("v", Value::from(false)))).unwrap();
    s.put("things", rec("x", Value::from("no object"))).unwrap();
    assert_eq!(ids(&mut s, Value::from("1")), vec!["t"]);
    assert_eq!(ids(&mut s, Value::from(1)), vec!["b", "n"]);
    assert_eq!(ids(&mut s, Value::from(true)), vec!["b", "n"]);
    assert_eq!(ids(&mut s, Value::from(false)), vec!["z"]);
    assert_eq!(ids(&mut s, Value::Null), vec!["x"]);
}

#[test]
fn unusual_texts_are_kept() {
    let mut s = store();
    for odd in ["", "nul\0inside", "quote\"'", "back\\slash", "é😀", "line\n\ttab"] {
        let doc = with_field("v", Value::from(odd));
        s.put("things", rec(odd, doc.clone())).unwrap();
        let got = s.get("things", odd).unwrap();
        assert_eq!(got.id, odd);
        assert_eq!(got.doc, doc);
        assert_eq!(ids(&mut s, Value::from(odd)), vec![odd]);
        let found = s.query("things", &Query::ById(odd.to_string())).unwrap();
        assert_eq!(found, vec![got]);
    }
    s.delete("things", "nul").unwrap();
    assert!(s.get("things", "nul\0inside").is_ok());
}

#[test]
fn nesting_is_read_back_as_deep_as_the_parser_goes() {
    let mut s = store();
    s.put("plain", rec("deep", nested(127))).unwrap();
    assert_eq!(s.get("plain", "deep").unwrap().doc, nested(127));
    s.put("plain", rec("deeper", nested(128))).unwrap();
    assert_eq!(
        s.get("plain", "deeper"),
        Err(storage("integrity error: malformed JSON document"))
    );
}

#[test]
fn a_deleted_record_can_be_written_again() {
    let mut s = store();
    s.put("plain", rec("a", Value::from(1))).unwrap();
    s.delete("plain", "a").unwrap();
    assert_eq!(s.query("plain", &Query::ById("a".to_string())), Ok(vec![]));
    s.put("plain", rec("a", Value::from(2))).unwrap();
    assert_eq!(s.get("plain", "a"), Ok(rec("a", Value::from(2))));
}

#[test]
fn collections_are_apart() {
    let mut s = store();
    s.put("plain", rec("a", Value::from(1))).unwrap();
    s.put("things", rec("a", Value::from(2))).unwrap();
    s.put("plain", rec("b", Value::from(3))).unwrap();
    s.delete("plain", "a").unwrap();
    assert_eq!(s.get("things", "a"), Ok(rec("a", Value::from(2))));
    assert_eq!(s.get("plain", "b"), Ok(rec("b", Value::from(3))));
    assert_eq!(s.get("plain", "a"), Err(StoreError::NotFound("a".to_string())));
}

#[test]
fn a_new_declaration_keeps_records_and_replaces_fields() {
    let mut s = store();
    s.put("things", rec("a", with_field("w", Value::from("x")))).unwrap();
    s.ensure_collection(&spec("things", vec!["w"])).unwrap();
    assert_eq!(s.get("things", "a").unwrap().doc, with_field("w", Value::from("x")));
    let found = s.query("things", &by_field("w", Value::from("x"))).unwrap();
    assert_eq!(found.len(), 1);
    assert_eq!(
        s.query("things", &by_field("v", Value::from("x"))),
        Err(StoreError::FieldNotIndexed("v".to_string()))
    );
}

#[test]
fn refused_requests_name_the_culprit() {
    let mut s = store();
    let bad = "no such name".to_string();
    assert_eq!(s.put(&bad, rec("a", Value::Null)), Err(StoreError::InvalidIdentifier(bad.clone())));
    assert_eq!(s.get(&bad, "a"), Err(StoreError::InvalidIdentifier(bad.clone())));
    assert_eq!(s.query(&bad, &Query::All), Err(StoreError::InvalidIdentifier(bad.clone())));
    assert_eq!(s.delete(&bad, "a"), Err(StoreError::InvalidIdentifier(bad.clone())));
    let absent = "absent".to_string();
    let missing = StoreError::CollectionNotFound(absent.clone());
    assert_eq!(s.put(&absent, rec("a", Value::Null)), Err(missing));
    assert_eq!(s.delete(&absent, "a"), Err(StoreError::CollectionNotFound(absent)));
    assert_eq!(
        s.ensure_collection(&spec("fresh", vec!["ok", "Not", "Nor"])),
        Err(StoreError::InvalidIdentifier("Not".to_string()))
    );
    assert_eq!(s.get("fresh", "a"), Err(StoreError::CollectionNotFound("fresh".to_string())));
}

#[test]
fn the_catalog_is_no_collection() {
    let mut s = store();
    let name = "__wyrtloom_collections".to_string();
    assert_eq!(s.query(&name, &Query::All), Err(StoreError::InvalidIdentifier(name.clone())));
    assert_eq!(
        s.ensure_collection(&spec(&name, vec![])),
        Err(StoreError::InvalidIdentifier(name))
    );
}

#[test]
fn a_reserved_table_name_fails_and_declares_nothing() {
    let mut s = store();
    assert_eq!(
        s.ensure_collection(&spec("sqlite_mine", vec![])),
        Err(storage("create table failed"))
    );
    assert_eq!(
        s.get("sqlite_mine", "a"),
        Err(StoreError::CollectionNotFound("sqlite_mine".to_string()))
    );
}

#[test]
fn an_index_that_cannot_be_created_declares_nothing() {
    let path = shared("bad_index");
    let mut s = SqliteStore::open(&path).unwrap();
    let conn = rusqlite::Connection::open(&path).unwrap();
    conn.execute_batch("CREATE TABLE docs (id TEXT PRIMARY KEY, doc TEXT NOT NULL)").unwrap();
    conn.execute("INSERT INTO docs VALUES ('a', '{')", []).unwrap();
    assert_eq!(
        s.ensure_collection(&spec("docs", vec!["v"])),
        Err(storage("create index failed"))
    );
    assert_eq!(s.get("docs", "a"), Err(StoreError::CollectionNotFound("docs".to_string())));
}

#[test]
fn a_missing_catalog_fails_a_declaration() {
    let path = shared("no_catalog");
    let mut s = SqliteStore::open(&path).unwrap();
    let conn = rusqlite::Connection::open(&path).unwrap();
    conn.execute_batch("DROP TABLE __wyrtloom_collections").unwrap();
    assert_eq!(
        s.ensure_collection(&spec("docs", vec!["v"])),
        Err(storage("persist spec failed"))
    );
    assert_eq!(s.get("docs", "a"), Err(StoreError::CollectionNotFound("docs".to_string())));
}

#[test]
fn a_missing_table_fails_every_operation() {
    let path = shared("no_table");
    let mut s = SqliteStore::open(&path).unwrap();
    s.ensure_collection(&spec("docs", vec![])).unwrap();
    let conn = rusqlite::Connection::open(&path).unwrap();
    conn.execute_batch("DROP TABLE docs").unwrap();
    assert_eq!(s.put("docs", rec("a", Value::Null)), Err(storage("insert failed")));
    assert_eq!(s.get("docs", "a"), Err(storage("query failed")));
    assert_eq!(s.query("docs", &Query::All), Err(storage("prepare failed")));
    assert_eq!(s.delete("docs", "a"), Err(storage("delete failed")));
}

#[test]
fn a_document_that_is_no_text_cannot_be_read() {
    let path = shared("blob_document");
    let mut s = SqliteStore::open(&path).unwrap();
    s.ensure_collection(&spec("docs", vec![])).unwrap();
    let conn = rusqlite::Connection::open(&path).unwrap();
    conn.execute("INSERT INTO docs VALUES ('a', x'00ff')", []).unwrap();
    assert_eq!(s.get("docs", "a"), Err(storage("query failed")));
    assert_eq!(s.query("docs", &Query::All), Err(storage("row read failed")));
}

fn open_error(path: &str) -> StoreError {
    match SqliteStore::open(path) {
        Ok(_) => panic!("error expected"),
        Err(error) => error,
    }
}

#[test]
fn a_refused_path_says_why() {
    assert_eq!(
        open_error("a/../b.db"),
        storage("invalid path: path traversal (..) is not allowed")
    );
}

#[test]
fn a_path_that_cannot_be_opened_is_an_error() {
    assert_eq!(open_error("/no/such/directory/x.db"), storage("open database failed"));
}

#[test]
fn a_catalog_in_the_way_is_an_error() {
    let path = shared("index_in_the_way");
    let conn = rusqlite::Connection::open(&path).unwrap();
    conn.execute_batch("CREATE TABLE t (a); CREATE INDEX __wyrtloom_collections ON t (a);").unwrap();
    assert_eq!(open_error(&path), storage("init schema failed"));

    let path = shared("other_columns");
    let conn = rusqlite::Connection::open(&path).unwrap();
    conn.execute_batch("CREATE TABLE __wyrtloom_collections (other TEXT);").unwrap();
    assert_eq!(open_error(&path), storage("load specs: prepare failed"));

    let path = shared("blob_fields");
    let conn = rusqlite::Connection::open(&path).unwrap();
    conn.execute_batch(
        "CREATE TABLE __wyrtloom_collections (name TEXT PRIMARY KEY, indexed_fields TEXT NOT NULL);
         INSERT INTO __wyrtloom_collections VALUES ('docs', x'00ff');",
    )
    .unwrap();
    assert_eq!(open_error(&path), storage("load specs: row read failed"));
}

#[test]
fn a_reopened_catalog_is_validated_again() {
    let path = shared("validated_again");
    let conn = rusqlite::Connection::open(&path).unwrap();
    {
        let mut s = SqliteStore::open(&path).unwrap();
        s.ensure_collection(&spec("good", vec!["v"])).unwrap();
        s.ensure_collection(&spec("tampered", vec![])).unwrap();
    }
    conn.execute_batch(
        "INSERT INTO __wyrtloom_collections VALUES ('x\"; DROP TABLE good--', '[]');
         UPDATE __wyrtloom_collections SET indexed_fields = '[\"a'') --\"]' WHERE name = 'tampered';",
    )
    .unwrap();
    let mut s = SqliteStore::open(&path).unwrap();
    assert_eq!(s.query("good", &by_field("v", Value::Null)), Ok(vec![]));
    assert_eq!(
        s.get("tampered", "a"),
        Err(StoreError::CollectionNotFound("tampered".to_string()))
    );
}

#[test]
fn stores_in_memory_are_apart() {
    let mut a = store();
    let mut b = store();
    a.put("plain", rec("x", Value::from(1))).unwrap();
    assert_eq!(b.query("plain", &Query::All), Ok(vec![]));
    assert_eq!(a.query("plain", &Query::All).unwrap().len(), 1);
    let mut c = SqliteStore::open(":memory:").unwrap();
    assert_eq!(c.get("plain", "x"), Err(StoreError::CollectionNotFound("plain".to_string())));
}

#[test]
fn arrays_and_objects_equal_their_json_text() {
    let mut s = store();
    let list = Value::Array(vec![Value::from(1), Value::from("a\"\u{0}b"), Value::from(2.5)]);
    let inner = with_field("k", list.clone());
    s.put("things", rec("list", with_field("v", list.clone()))).unwrap();
    s.put("things", rec("object", with_field("v", inner.clone()))).unwrap();
    assert_eq!(ids(&mut s, Value::from(serde_json::to_string(&list).unwrap())), vec!["list"]);
    assert_eq!(ids(&mut s, Value::from(serde_json::to_string(&inner).unwrap())), vec!["object"]);
    assert_eq!(ids(&mut s, Value::from("[]")), Vec::<String>::new());
    assert_eq!(ids(&mut s, Value::Null), Vec::<String>::new());
}

#[test]
fn sqlite_ends_a_key_at_a_nul() {
    let mut s = store();
    s.put("things", rec("odd", with_field("v\u{0}x", Value::from(2)))).unwrap();
    s.put("things", rec("near", with_field("v\u{1}x", Value::from(2)))).unwrap();
    assert_eq!(ids(&mut s, Value::from(2)), vec!["odd"]);
    assert_eq!(ids(&mut s, Value::Null), vec!["near"]);
    assert_eq!(s.get("things", "odd").unwrap().doc, with_field("v\u{0}x", Value::from(2)));
}

#[test]
fn a_put_adds_one_record_or_none_and_a_delete_undoes_it() {
    let mut s = store();
    s.put("plain", rec("a", Value::from(1))).unwrap();
    let before = s.query("plain", &Query::All).unwrap();
    s.put("plain", rec("b", Value::from(2))).unwrap();
    assert_eq!(s.query("plain", &Query::All).unwrap().len(), 2);
    s.put("plain", rec("b", Value::from(3))).unwrap();
    assert_eq!(s.query("plain", &Query::All).unwrap().len(), 2);
    s.delete("plain", "b").unwrap();
    s.delete("plain", "b").unwrap();
    assert_eq!(s.query("plain", &Query::All).unwrap(), before);
}

#[test]
fn everything_is_what_get_returns() {
    let mut s = store();
    for (id, n) in [("a", 1), ("b", 2), ("c", 3)] {
        s.put("things", rec(id, with_field("v", Value::from(n)))).unwrap();
    }
    for record in s.query("things", &Query::All).unwrap() {
        let id = record.id.clone();
        assert_eq!(s.get("things", &id), Ok(record));
        let alone = s.query("things", &Query::ById(id.clone())).unwrap();
        assert_eq!(alone, vec![s.get("things", &id).unwrap()]);
    }
}

#[test]
fn a_reopened_store_has_the_latest_declarations_and_records() {
    let path = shared("latest_calls");
    let anchor = rusqlite::Connection::open(&path).unwrap();
    {
        let mut s = SqliteStore::open(&path).unwrap();
        s.ensure_collection(&spec("docs", vec!["old"])).unwrap();
        s.ensure_collection(&spec("docs", vec!["v", "w"])).unwrap();
        s.ensure_collection(&spec("none", vec![])).unwrap();
        s.put("docs", rec("a", with_field("v", Value::from(1)))).unwrap();
        s.put("docs", rec("a", with_field("v", Value::from(2)))).unwrap();
        s.put("docs", rec("b", Value::Null)).unwrap();
        s.delete("docs", "b").unwrap();
    }
    let mut s = SqliteStore::open(&path).unwrap();
    assert_eq!(s.get("docs", "a"), Ok(rec("a", with_field("v", Value::from(2)))));
    assert_eq!(s.get("docs", "b"), Err(StoreError::NotFound("b".to_string())));
    assert_eq!(s.query("docs", &by_field("w", Value::Null)).unwrap().len(), 1);
    assert_eq!(
        s.query("docs", &by_field("old", Value::Null)),
        Err(StoreError::FieldNotIndexed("old".to_string()))
    );
    assert_eq!(s.query("none", &Query::All), Ok(vec![]));
    drop(anchor);
}

#[test]
fn a_path_names_one_database() {
    let mut first = SqliteStore::open(&shared("one_path")).unwrap();
    first.ensure_collection(&spec("docs", vec!["v"])).unwrap();
    first.put("docs", rec("a", Value::from(1))).unwrap();
    let mut same = SqliteStore::open(&shared("one_path")).unwrap();
    assert_eq!(same.get("docs", "a"), Ok(rec("a", Value::from(1))));
    let mut other = SqliteStore::open(&shared("another_path")).unwrap();
    assert_eq!(other.get("docs", "a"), Err(StoreError::CollectionNotFound("docs".to_string())));
}

#[test]
fn a_new_database_has_no_collections_and_can_be_used() {
    let mut s = SqliteStore::open(&shared("new_database")).unwrap();
    assert_eq!(s.get("docs", "a"), Err(StoreError::CollectionNotFound("docs".to_string())));
    s.ensure_collection(&spec("docs", vec!["v"])).unwrap();
    s.put("docs", rec("a", with_field("v", Value::from("x")))).unwrap();
    assert_eq!(s.query("docs", &by_field("v", Value::from("x"))).unwrap().len(), 1);
}

#[test]
fn a_store_over_a_catalog_with_a_skipped_row_works() {
    let path = shared("skipped_row");
    let conn = rusqlite::Connection::open(&path).unwrap();
    drop(SqliteStore::open(&path).unwrap());
    conn.execute_batch("INSERT INTO __wyrtloom_collections VALUES ('Not A Name', '[]');").unwrap();
    let mut s = SqliteStore::open(&path).unwrap();
    s.ensure_collection(&spec("docs", vec!["v"])).unwrap();
    s.put("docs", rec("a", Value::from(1))).unwrap();
    assert_eq!(s.get("docs", "a"), Ok(rec("a", Value::from(1))));
    let mut again = SqliteStore::open(&path).unwrap();
    assert_eq!(again.get("docs", "a"), Ok(rec("a", Value::from(1))));
}
