use serde_json::Value;
use wyrtloom_store_sqlite::persistence::{CollectionSpec, Query, Record, StoreError};
use wyrtloom_store_sqlite::SqliteStore;

fn object(entries: Vec<(&str, Value)>) -> Value {
    let mut map = serde_json::Map::new();
    for (key, value) in entries {
        map.insert(key.to_string(), value);
    }
    Value::Object(map)
}

fn text(s: &str) -> Value {
    Value::String(s.to_string())
}

fn spec(name: &str, fields: Vec<&str>) -> CollectionSpec {
    CollectionSpec {
        name: name.to_string(),
        indexed_fields: fields.into_iter().map(|f| f.to_string()).collect(),
    }
}

fn by_field(field: &str, value: Value) -> Query {
    Query::ByField { field: field.to_string(), value }
}

fn store_with_users() -> SqliteStore {
    let mut store = SqliteStore::in_memory().unwrap();
    store.ensure_collection(&spec("users", vec!["username", "role"])).unwrap();
    store
}

fn rec(id: &str, doc: Value) -> Record {
    Record { id: id.to_string(), doc }
}

fn sorted_ids(records: &Vec<Record>) -> Vec<String> {
    let mut ids: Vec<String> = records.iter().map(|r| r.id.clone()).collect();
    ids.sort();
    ids
}

/// A database in memory that connections of this process share by name.
fn shared(name: &str) -> String {
    format!("file:{name}?mode=memory&cache=shared")
}

#[test]
fn put_get_roundtrip() {
    let mut s = store_with_users();
    let doc = object(vec![
        ("username", text("alice")),
        ("role", text("admin")),
        ("age", Value::from(30)),
    ]);
    s.put("users", rec("u1", doc.clone())).unwrap();
    let got = s.get("users", "u1").unwrap();
    assert_eq!(got.id, "u1");
    assert_eq!(got.doc, doc);
}

#[test]
fn get_missing_is_not_found() {
    let mut s = store_with_users();
    let err = s.get("users", "nope").unwrap_err();
    assert!(matches!(err, StoreError::NotFound(_)));
    assert_eq!(err, StoreError::NotFound("nope".to_string()));
}

#[test]
fn put_replaces_existing() {
    let mut s = store_with_users();
    s.put("users", rec("u1", object(vec![("username", text("a"))]))).unwrap();
    s.put("users", rec("u1", object(vec![("username", text("b"))]))).unwrap();
    let got = s.get("users", "u1").unwrap();
    assert_eq!(got.doc, object(vec![("username", text("b"))]));
    assert_eq!(s.query("users", &Query::All).unwrap().len(), 1);
}

#[test]
fn delete_removes_record() {
    let mut s = store_with_users();
    s.put("users", rec("u1", object(vec![("username", text("alice"))]))).unwrap();
    s.delete("users", "u1").unwrap();
    assert!(matches!(s.get("users", "u1").unwrap_err(), StoreError::NotFound(_)));
}

#[test]
fn delete_absent_is_noop() {
    let mut s = store_with_users();
    s.delete("users", "ghost").unwrap();
}

#[test]
fn query_all_returns_everything() {
    let mut s = store_with_users();
    s.put("users", rec("u1", object(vec![("username", text("a"))]))).unwrap();
    s.put("users", rec("u2", object(vec![("username", text("b"))]))).unwrap();
    let all = s.query("users", &Query::All).unwrap();
    assert_eq!(all.len(), 2);
    assert_eq!(sorted_ids(&all), vec!["u1", "u2"]);
}

#[test]
fn query_by_id() {
    let mut s = store_with_users();
    s.put("users", rec("u1", object(vec![("username", text("a"))]))).unwrap();
    s.put("users", rec("u2", object(vec![("username", text("b"))]))).unwrap();
    let r = s.query("users", &Query::ById("u2".to_string())).unwrap();
    assert_eq!(r.len(), 1);
    assert_eq!(r[0].id, "u2");
}

#[test]
fn query_by_indexed_field() {
    let mut s = store_with_users();
    s.put("users", rec("u1", object(vec![("username", text("alice")), ("role", text("admin"))])))
        .unwrap();
    s.put("users", rec("u2", object(vec![("username", text("bob")), ("role", text("user"))])))
        .unwrap();
    s.put("users", rec("u3", object(vec![("username", text("carol")), ("role", text("admin"))])))
        .unwrap();
    let admins = s.query("users", &by_field("role", text("admin"))).unwrap();
    assert_eq!(sorted_ids(&admins), vec!["u1", "u3"]);
}

#[test]
fn query_by_field_numeric_value() {
    let mut s = SqliteStore::in_memory().unwrap();
    s.ensure_collection(&spec("items", vec!["qty"])).unwrap();
    s.put("items", rec("a", object(vec![("qty", Value::from(5))]))).unwrap();
    s.put("items", rec("b", object(vec![("qty", Value::from(7))]))).unwrap();
    let r = s.query("items", &by_field("qty", Value::from(7))).unwrap();
    assert_eq!(r.len(), 1);
    assert_eq!(r[0].id, "b");
}

#[test]
fn injection_collection_name_rejected_on_ensure() {
    let mut s = SqliteStore::in_memory().unwrap();
    let err = s.ensure_collection(&spec("u\"; DROP TABLE x--", vec![])).unwrap_err();
    assert!(matches!(err, StoreError::InvalidIdentifier(_)));
}

#[test]
fn injection_collection_name_rejected_on_query() {
    let mut s = store_with_users();
    let err = s.query("u\"; DROP TABLE users--", &Query::All).unwrap_err();
    assert!(matches!(err, StoreError::InvalidIdentifier(_)));
}

#[test]
fn injection_collection_name_rejected_on_put_get_delete() {
    let mut s = store_with_users();
    let bad = "users); DROP TABLE users--";
    assert!(matches!(
        s.put(bad, rec("x", object(vec![]))).unwrap_err(),
        StoreError::InvalidIdentifier(_)
    ));
    assert!(matches!(s.get(bad, "x").unwrap_err(), StoreError::InvalidIdentifier(_)));
    assert!(matches!(s.delete(bad, "x").unwrap_err(), StoreError::InvalidIdentifier(_)));
}

#[test]
fn query_by_non_indexed_field_rejected() {
    let mut s = store_with_users();
    s.put("users", rec("u1", object(vec![("username", text("a")), ("age", Value::from(30))])))
        .unwrap();
    let err = s.query("users", &by_field("age", Value::from(30))).unwrap_err();
    assert!(matches!(err, StoreError::FieldNotIndexed(_)));
}

#[test]
fn malicious_indexed_field_in_spec_rejected() {
    let mut s = SqliteStore::in_memory().unwrap();
    let err = s.ensure_collection(&spec("users", vec!["x'); DROP TABLE users--"])).unwrap_err();
    assert!(matches!(err, StoreError::InvalidIdentifier(_)));
    assert!(matches!(s.get("users", "any").unwrap_err(), StoreError::CollectionNotFound(_)));
}

#[test]
fn injection_in_byfield_field_rejected() {
    let mut s = store_with_users();
    let err =
        s.query("users", &by_field("username'); DROP TABLE users--", text("x"))).unwrap_err();
    assert!(matches!(err, StoreError::InvalidIdentifier(_)));
}

#[test]
fn malicious_value_is_stored_literally_not_executed() {
    let mut s = store_with_users();
    let payload = "'); DROP TABLE users;--";
    s.put("users", rec("u1", object(vec![("username", text(payload)), ("role", text("admin"))])))
        .unwrap();
    let got = s.get("users", "u1").unwrap();
    assert_eq!(got.doc["username"], text(payload));
    let r = s.query("users", &by_field("username", text(payload))).unwrap();
    assert_eq!(r.len(), 1);
    assert_eq!(r[0].id, "u1");
}

#[test]
fn malformed_json_row_is_integrity_error_not_panic() {
    let path = shared("malformed_row");
    let mut s = SqliteStore::open(&path).unwrap();
    s.ensure_collection(&spec("blobs", vec![])).unwrap();
    let conn = rusqlite::Connection::open(&path).unwrap();
    conn.execute("INSERT INTO \"blobs\" (id, doc) VALUES (?1, ?2)", ["bad", "{not valid json"])
        .unwrap();
    let get_err = s.get("blobs", "bad").unwrap_err();
    assert!(matches!(get_err, StoreError::Storage(_)));
    let integrity = StoreError::Storage("integrity error: malformed JSON document".to_string());
    assert_eq!(get_err, integrity);
    let query_err = s.query("blobs", &Query::All).unwrap_err();
    assert!(matches!(query_err, StoreError::Storage(_)));
    assert_eq!(query_err, integrity);
}

#[test]
fn operations_on_undeclared_collection_fail() {
    let mut s = SqliteStore::in_memory().unwrap();
    assert!(matches!(s.get("widgets", "x").unwrap_err(), StoreError::CollectionNotFound(_)));
    assert!(matches!(
        s.query("widgets", &Query::All).unwrap_err(),
        StoreError::CollectionNotFound(_)
    ));
}

#[test]
fn ensure_collection_is_idempotent() {
    let mut s = store_with_users();
    s.ensure_collection(&spec("users", vec!["username", "role"])).unwrap();
    s.put("users", rec("u1", object(vec![("username", text("a"))]))).unwrap();
    assert_eq!(s.query("users", &Query::All).unwrap().len(), 1);
}

#[test]
fn path_traversal_rejected() {
    assert!(SqliteStore::open("../etc/evil.db").is_err());
}

#[test]
fn collections_survive_reopen() {
    let path = shared("survive_reopen");
    let anchor = rusqlite::Connection::open(&path).unwrap();
    {
        let mut s = SqliteStore::open(&path).unwrap();
        s.ensure_collection(&spec("users", vec!["role"])).unwrap();
        s.put(
            "users",
            rec("u1", object(vec![("username", text("alice")), ("role", text("admin"))])),
        )
        .unwrap();
    }
    {
        let mut s = SqliteStore::open(&path).unwrap();
        let got = s.get("users", "u1").unwrap();
        assert_eq!(got.doc["username"], text("alice"));
        let admins = s.query("users", &by_field("role", text("admin"))).unwrap();
        assert_eq!(admins.len(), 1);
        assert!(matches!(
            s.query("users", &by_field("username", text("alice"))).unwrap_err(),
            StoreError::FieldNotIndexed(_)
        ));
    }
    drop(anchor);
}

#[test]
fn malformed_catalog_indexed_fields_surfaces_on_reopen() {
    let path = shared("malformed_catalog");
    let conn = rusqlite::Connection::open(&path).unwrap();
    {
        let mut s = SqliteStore::open(&path).unwrap();
        s.ensure_collection(&spec("users", vec!["role"])).unwrap();
        s.put(
            "users",
            rec("u1", object(vec![("username", text("alice")), ("role", text("admin"))])),
        )
        .unwrap();
        conn.execute(
            "UPDATE __wyrtloom_collections SET indexed_fields = ?1 WHERE name = ?2",
            ["{not valid json", "users"],
        )
        .unwrap();
    }
    match SqliteStore::open(&path) {
        Err(StoreError::Storage(m)) if m.contains("integrity error") => {
            assert_eq!(
                m,
                "integrity error: malformed indexed_fields in catalog for collection \"users\""
            );
        }
        Err(e) => panic!("expected integrity error, got {e:?}"),
        Ok(_) => panic!("expected integrity error, but reopen succeeded"),
    }
}

#[test]
fn index_names_do_not_collide_across_collections() {
    let path = shared("index_names");
    let mut s = SqliteStore::open(&path).unwrap();
    s.ensure_collection(&spec("a_b", vec!["c"])).unwrap();
    s.ensure_collection(&spec("a", vec!["b_c"])).unwrap();
    s.put("a_b", rec("r1", object(vec![("c", text("x"))]))).unwrap();
    s.put("a", rec("r2", object(vec![("b_c", text("y"))]))).unwrap();

    let q1 = s.query("a_b", &by_field("c", text("x"))).unwrap();
    assert_eq!(q1.len(), 1);
    let q2 = s.query("a", &by_field("b_c", text("y"))).unwrap();
    assert_eq!(q2.len(), 1);

    let conn = rusqlite::Connection::open(&path).unwrap();
    let idx_count: i64 = conn
        .query_row(
            "SELECT COUNT(*) FROM sqlite_master WHERE type='index' AND name LIKE 'idx_%'",
            [],
            |row| row.get(0),
        )
        .unwrap();
    assert_eq!(idx_count, 2);
}

#[test]
fn query_by_field_null_matches_null_and_missing() {
    let mut s = SqliteStore::in_memory().unwrap();
    s.ensure_collection(&spec("users", vec!["status"])).unwrap();
    s.put("users", rec("u1", object(vec![("status", Value::Null)]))).unwrap();
    s.put("users", rec("u2", object(vec![("status", text("active"))]))).unwrap();
    s.put("users", rec("u3", object(vec![("username", text("no_status"))]))).unwrap();

    let nulls = s.query("users", &by_field("status", Value::Null)).unwrap();
    assert_eq!(sorted_ids(&nulls), vec!["u1", "u3"]);
}
