use serde_json::Value;
use wyrtloom_store_sqlite::collections::Collections;
use wyrtloom_store_sqlite::identifier::{is_valid_identifier, validate_db_path};
use wyrtloom_store_sqlite::json::{
    field_value_to_sql, json_value_to_sql, FieldNumber, FieldValue, Real, SqlValue,
};
use wyrtloom_store_sqlite::persistence::{or_storage_error, storage_error, Query, StoreError};
use wyrtloom_store_sqlite::plan::{plan_field_query, plan_query};
use wyrtloom_store_sqlite::rows::{record_from_lookup, records_from_rows};
use wyrtloom_store_sqlite::sql::{
    configure_sql, create_catalog_sql, create_index_sql, create_table_sql, delete_sql,
    index_name_text, insert_sql, save_spec_sql, select_all_sql, select_by_id_sql,
    select_catalog_sql, select_document_sql, select_field_equal_sql, select_field_null_sql,
};
use wyrtloom_store_sqlite::text::{chars_of, contains_string, copy_strings, decimal_text};

fn strings(items: Vec<&str>) -> Vec<String> {
    items.into_iter().map(|s| s.to_string()).collect()
}

fn row(key: &str, value: &str) -> Result<(String, String), ()> {
    Ok((key.to_string(), value.to_string()))
}

fn storage(message: &str) -> StoreError {
    StoreError::Storage(message.to_string())
}

#[test]
fn identifiers_are_lower_case_words() {
    assert!(is_valid_identifier("a"));
    assert!(is_valid_identifier("users"));
    assert!(is_valid_identifier("a_b9"));
    assert!(is_valid_identifier(&"x".repeat(64)));
    assert!(!is_valid_identifier(&"x".repeat(65)));
    for bad in ["", "_a", "9a", "A", "aB", "a b", "a-b", "a.b", "a\"", "a'", "a;", "a$", "é", "aé", "a\0"] {
        assert!(!is_valid_identifier(bad), "{bad:?}");
    }
}

#[test]
fn paths_with_parent_components_are_refused() {
    for bad in ["..", "../x", "a/..", "a/../b", "/..", "/a/../../b"] {
        assert_eq!(
            validate_db_path(bad),
            Err("path traversal (..) is not allowed".to_string()),
            "{bad}"
        );
    }
    for good in ["", "a", "/abs/a.db", "a..b", "..a", "a..", "a/...", "./a", "a/.b", "."] {
        assert_eq!(validate_db_path(good), Ok(()), "{good}");
    }
}

#[test]
fn decimal_notation() {
    for n in [0usize, 7, 9, 10, 42, 64, 100, 1234567890] {
        assert_eq!(decimal_text(n), format!("{n}"));
    }
}

#[test]
fn text_helpers() {
    assert_eq!(chars_of("aé\0"), vec!['a', 'é', '\0']);
    assert_eq!(copy_strings(&strings(vec!["a", "b"])), strings(vec!["a", "b"]));
    assert!(contains_string(&strings(vec!["a", "b"]), &"b".to_string()));
    assert!(!contains_string(&strings(vec!["a", "b"]), &"c".to_string()));
}

#[test]
fn statement_texts() {
    assert_eq!(configure_sql(), "PRAGMA journal_mode=WAL; PRAGMA busy_timeout=5000;");
    assert!(create_catalog_sql().starts_with("CREATE TABLE IF NOT EXISTS __wyrtloom_collections ("));
    assert_eq!(select_catalog_sql(), "SELECT name, indexed_fields FROM __wyrtloom_collections");
    assert_eq!(
        save_spec_sql(),
        "INSERT OR REPLACE INTO __wyrtloom_collections (name, indexed_fields) VALUES (?1, ?2)"
    );
    assert!(create_table_sql("users").starts_with("CREATE TABLE IF NOT EXISTS \"users\" ("));
    assert_eq!(
        create_index_sql("users", "role"),
        "CREATE INDEX IF NOT EXISTS \"idx_5_users_role\" ON \"users\" (json_extract(doc, '$.role'));"
    );
    assert_eq!(insert_sql("users"), "INSERT OR REPLACE INTO \"users\" (id, doc) VALUES (?1, ?2)");
    assert_eq!(delete_sql("users"), "DELETE FROM \"users\" WHERE id = ?1");
    assert_eq!(select_document_sql("users"), "SELECT doc FROM \"users\" WHERE id = ?1");
    assert_eq!(select_all_sql("users"), "SELECT id, doc FROM \"users\"");
    assert_eq!(select_by_id_sql("users"), "SELECT id, doc FROM \"users\" WHERE id = ?1");
    assert_eq!(
        select_field_null_sql("users", "role"),
        "SELECT id, doc FROM \"users\" WHERE json_extract(doc, '$.role') IS NULL"
    );
    assert_eq!(
        select_field_equal_sql("users", "role"),
        "SELECT id, doc FROM \"users\" WHERE json_extract(doc, '$.role') = ?1"
    );
}

#[test]
fn index_names_hold_the_length_of_the_collection_name() {
    assert_eq!(index_name_text("a_b", "c"), "idx_3_a_b_c");
    assert_eq!(index_name_text("a", "b_c"), "idx_1_a_b_c");
    let long = "n".repeat(64);
    assert_eq!(index_name_text(&long, "f"), format!("idx_64_{long}_f"));
}

#[test]
fn scalars_map_to_sqlite_values() {
    assert!(matches!(json_value_to_sql(&Value::Null), Ok(SqlValue::Null)));
    assert!(matches!(json_value_to_sql(&Value::Bool(true)), Ok(SqlValue::Integer(1))));
    assert!(matches!(json_value_to_sql(&Value::Bool(false)), Ok(SqlValue::Integer(0))));
    assert!(matches!(json_value_to_sql(&Value::from(-7)), Ok(SqlValue::Integer(-7))));
    assert!(matches!(json_value_to_sql(&Value::from(i64::MIN)), Ok(SqlValue::Integer(i64::MIN))));
    assert!(matches!(json_value_to_sql(&Value::from(u64::MAX)), Ok(SqlValue::Real(_))));
    assert!(matches!(json_value_to_sql(&Value::from(1.5)), Ok(SqlValue::Real(_))));
    match json_value_to_sql(&Value::from("x")) {
        Ok(SqlValue::Text(text)) => assert_eq!(text, "x"),
        _ => panic!("text expected"),
    }
}

#[test]
fn arrays_and_objects_are_no_scalars() {
    let expected = storage("ByField value must be a scalar (string/number/bool/null)");
    match json_value_to_sql(&Value::Array(vec![])) {
        Err(error) => assert_eq!(error, expected),
        Ok(_) => panic!("error expected"),
    }
    match json_value_to_sql(&Value::Object(serde_json::Map::new())) {
        Err(error) => assert_eq!(error, expected),
        Ok(_) => panic!("error expected"),
    }
}

#[test]
fn a_number_without_other_readings_is_its_text() {
    let number = FieldNumber { integer: None, floating: None, text: "1e999".to_string() };
    match field_value_to_sql(&FieldValue::Number(number)) {
        Ok(SqlValue::Text(text)) => assert_eq!(text, "1e999"),
        _ => panic!("text expected"),
    }
}

#[test]
fn numbers_are_read_in_three_ways() {
    match FieldValue::from_json(&Value::from(12)) {
        FieldValue::Number(n) => {
            assert_eq!(n.integer, Some(12));
            assert!(n.floating.is_some());
            assert_eq!(n.text, "12");
        }
        _ => panic!("number expected"),
    }
    match FieldValue::from_json(&Value::from(2.5)) {
        FieldValue::Number(n) => {
            assert_eq!(n.integer, None);
            assert!(n.floating.is_some());
            assert_eq!(n.text, "2.5");
        }
        _ => panic!("number expected"),
    }
    assert!(Real::new(&serde_json::Number::from(3)).is_some());
}

#[test]
fn plans_for_all_and_by_id() {
    let declared = strings(vec!["role"]);
    let all = plan_query("users", &declared, &Query::All).ok().unwrap();
    assert_eq!(all.sql, "SELECT id, doc FROM \"users\"");
    assert_eq!(all.values.len(), 0);
    let one = plan_query("users", &declared, &Query::ById("u'1".to_string())).ok().unwrap();
    assert_eq!(one.sql, "SELECT id, doc FROM \"users\" WHERE id = ?1");
    assert_eq!(one.values.len(), 1);
    assert!(matches!(&one.values[0], SqlValue::Text(id) if id == "u'1"));
}

#[test]
fn plans_by_field() {
    let declared = strings(vec!["role"]);
    let by_field = |field: &str, value: Value| {
        plan_query("users", &declared, &Query::ByField { field: field.to_string(), value })
    };
    let null = by_field("role", Value::Null).ok().unwrap();
    assert_eq!(null.sql, "SELECT id, doc FROM \"users\" WHERE json_extract(doc, '$.role') IS NULL");
    assert_eq!(null.values.len(), 0);
    let equal = by_field("role", Value::from("x' OR 1")).ok().unwrap();
    assert_eq!(equal.sql, "SELECT id, doc FROM \"users\" WHERE json_extract(doc, '$.role') = ?1");
    assert!(matches!(&equal.values[0], SqlValue::Text(text) if text == "x' OR 1"));
    assert_eq!(
        by_field("Role", Value::Null).err(),
        Some(StoreError::InvalidIdentifier("Role".to_string()))
    );
    assert_eq!(
        by_field("name", Value::Array(vec![])).err(),
        Some(StoreError::FieldNotIndexed("name".to_string()))
    );
    assert_eq!(
        by_field("role", Value::Array(vec![])).err(),
        Some(storage("ByField value must be a scalar (string/number/bool/null)"))
    );
    let integer =
        plan_field_query("users", &declared, &"role".to_string(), &FieldValue::Bool(true));
    assert!(matches!(integer.ok().unwrap().values[0], SqlValue::Integer(1)));
}

#[test]
fn errors_keep_their_message() {
    assert_eq!(storage_error("x failed"), storage("x failed"));
    let good: Result<u8, ()> = Ok(3);
    assert_eq!(or_storage_error(good, "x failed"), Ok(3));
    let bad: Result<u8, ()> = Err(());
    assert_eq!(or_storage_error(bad, "x failed"), Err(storage("x failed")));
}

#[test]
fn lookups() {
    let found = record_from_lookup("u1", Some("{\"a\": 1}".to_string())).unwrap();
    assert_eq!(found.id, "u1");
    assert_eq!(found.doc["a"], Value::from(1));
    assert_eq!(record_from_lookup("u1", None), Err(StoreError::NotFound("u1".to_string())));
    assert_eq!(
        record_from_lookup("u1", Some("{".to_string())),
        Err(storage("integrity error: malformed JSON document"))
    );
}

#[test]
fn rows_become_records_in_order() {
    let records = records_from_rows(&vec![row("b", "1"), row("a", "null")]).unwrap();
    assert_eq!(records.len(), 2);
    assert_eq!((records[0].id.as_str(), &records[0].doc), ("b", &Value::from(1)));
    assert_eq!((records[1].id.as_str(), &records[1].doc), ("a", &Value::Null));
    let none: Vec<Result<(String, String), ()>> = vec![];
    assert_eq!(records_from_rows(&none), Ok(vec![]));
}

#[test]
fn the_first_damaged_row_decides_the_error() {
    assert_eq!(
        records_from_rows(&vec![row("a", "1"), Err(()), row("b", "{")]),
        Err(storage("row read failed"))
    );
    assert_eq!(
        records_from_rows(&vec![row("a", "1"), row("b", "{"), Err(())]),
        Err(storage("integrity error: malformed JSON document"))
    );
}

#[test]
fn collections_are_declared_and_replaced() {
    let mut collections = Collections::new();
    assert_eq!(collections.fields("users"), None);
    collections.insert("users".to_string(), strings(vec!["role"]));
    assert_eq!(collections.fields("users"), Some(strings(vec!["role"])));
    collections.insert("users".to_string(), strings(vec!["name"]));
    assert_eq!(collections.fields("users"), Some(strings(vec!["name"])));
}

#[test]
fn the_catalog_is_loaded_beside_what_is_declared() {
    let mut collections = Collections::new();
    collections.insert("kept".to_string(), strings(vec!["a"]));
    collections.insert("users".to_string(), strings(vec!["old"]));
    let loaded = collections.load_rows(&vec![
        row("users", "[\"role\",\"name\"]"),
        row("empty", "[]"),
        row("Bad", "[]"),
        row("bad_field", "[\"ok\",\"not ok\"]"),
    ]);
    assert_eq!(loaded, Ok(()));
    assert_eq!(collections.fields("kept"), Some(strings(vec!["a"])));
    assert_eq!(collections.fields("users"), Some(strings(vec!["role", "name"])));
    assert_eq!(collections.fields("empty"), Some(strings(vec![])));
    assert_eq!(collections.fields("Bad"), None);
    assert_eq!(collections.fields("bad_field"), None);
}

#[test]
fn a_damaged_catalog_is_an_error() {
    let mut collections = Collections::new();
    assert_eq!(
        collections.load_rows(&vec![row("users", "[]"), Err(()), row("later", "[]")]),
        Err(storage("load specs: row read failed"))
    );
    assert_eq!(collections.fields("users"), Some(strings(vec![])));
    assert_eq!(collections.fields("later"), None);
    assert_eq!(
        collections.load_rows(&vec![row("a\"b", "{\"x\": 1}")]),
        Err(storage(
            "integrity error: malformed indexed_fields in catalog for collection \"a\\\"b\""
        ))
    );
}
