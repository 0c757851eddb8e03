//! The SQL statements of the store and their texts.
//!
//! Identifiers are the only part of a text that varies. Ids, documents and query values
//! are never part of a text: they are bound.

use vstd::prelude::*;

use crate::identifier::{is_identifier_char, valid_identifier};
use crate::text::{
    concat2, concat3, concat5, decimal, decimal_text, lemma_decimal_digits,
    lemma_decimal_injective,
};

verus! {

/// The table that records the declared collections.
pub open spec fn catalog_table() -> Seq<char> {
    "__wyrtloom_collections"@
}

/// A statement of the store.
pub enum Statement {
    /// Write-ahead logging and a busy timeout, for access by two processes.
    Configure,
    /// Creates the catalog where it is missing.
    CreateCatalog,
    /// Reads the catalog.
    SelectCatalog,
    /// Writes a collection's fields, as JSON text, to the catalog.
    SaveSpec,
    /// Creates a collection's table where it is missing.
    CreateTable { name: Seq<char> },
    /// Creates the index on a field of a collection where it is missing.
    CreateIndex { name: Seq<char>, field: Seq<char> },
    /// Writes a document under an id.
    Insert { name: Seq<char> },
    /// Removes the document under an id.
    Delete { name: Seq<char> },
    /// Reads the document under an id.
    SelectDocument { name: Seq<char> },
    /// Reads every record.
    SelectAll { name: Seq<char> },
    /// Reads the record with an id.
    SelectById { name: Seq<char> },
    /// Reads the records whose field is null or absent.
    SelectFieldNull { name: Seq<char>, field: Seq<char> },
    /// Reads the records whose field equals a value.
    SelectFieldEqual { name: Seq<char>, field: Seq<char> },
}

/// The name of the index on a field of a collection. The length of the collection's
/// name tells where that name ends.
pub open spec fn index_name(name: Seq<char>, field: Seq<char>) -> Seq<char> {
    "idx_"@ + decimal(name.len()) + "_"@ + (name + "_"@ + field)
}

impl Statement {
    /// Whether every name in the statement is an identifier.
    pub open spec fn well_formed(self) -> bool {
        match self {
            Statement::Configure => true,
            Statement::CreateCatalog => true,
            Statement::SelectCatalog => true,
            Statement::SaveSpec => true,
            Statement::CreateTable { name } => valid_identifier(name),
            Statement::CreateIndex { name, field } => valid_identifier(name) && valid_identifier(
                field,
            ),
            Statement::Insert { name } => valid_identifier(name),
            Statement::Delete { name } => valid_identifier(name),
            Statement::SelectDocument { name } => valid_identifier(name),
            Statement::SelectAll { name } => valid_identifier(name),
            Statement::SelectById { name } => valid_identifier(name),
            Statement::SelectFieldNull { name, field } => valid_identifier(name)
                && valid_identifier(field),
            Statement::SelectFieldEqual { name, field } => valid_identifier(name)
                && valid_identifier(field),
        }
    }

    /// The SQL text of the statement.
    pub open spec fn text(self) -> Seq<char> {
        match self {
            Statement::Configure => "PRAGMA journal_mode=WAL; PRAGMA busy_timeout=5000;"@,
            Statement::CreateCatalog =>
                "CREATE TABLE IF NOT EXISTS __wyrtloom_collections (\n                name           TEXT PRIMARY KEY,\n                indexed_fields TEXT NOT NULL\n            );"@,
            Statement::SelectCatalog => "SELECT name, indexed_fields FROM __wyrtloom_collections"@,
            Statement::SaveSpec =>
                "INSERT OR REPLACE INTO __wyrtloom_collections (name, indexed_fields) VALUES (?1, ?2)"@,
            Statement::CreateTable { name } => "CREATE TABLE IF NOT EXISTS \""@ + name
                + "\" (\n                id  TEXT PRIMARY KEY,\n                doc TEXT NOT NULL\n            );"@,
            Statement::CreateIndex { name, field } => "CREATE INDEX IF NOT EXISTS \""@ + index_name(
                name,
                field,
            ) + ("\" ON \""@ + name + "\" (json_extract(doc, '$."@ + field + "'));"@),
            Statement::Insert { name } => "INSERT OR REPLACE INTO \""@ + name
                + "\" (id, doc) VALUES (?1, ?2)"@,
            Statement::Delete { name } => "DELETE FROM \""@ + name + "\" WHERE id = ?1"@,
            Statement::SelectDocument { name } => "SELECT doc FROM \""@ + name
                + "\" WHERE id = ?1"@,
            Statement::SelectAll { name } => "SELECT id, doc FROM \""@ + name + "\""@,
            Statement::SelectById { name } => "SELECT id, doc FROM \""@ + name
                + "\" WHERE id = ?1"@,
            Statement::SelectFieldNull { name, field } => "SELECT id, doc FROM \""@ + name
                + ("\" WHERE json_extract(doc, '$."@ + field + "') IS NULL"@),
            Statement::SelectFieldEqual { name, field } => "SELECT id, doc FROM \""@ + name
                + ("\" WHERE json_extract(doc, '$."@ + field + "') = ?1"@),
        }
    }
}

/// The text that configures a connection.
pub fn configure_sql() -> (sql: String)
    ensures
        sql@ == Statement::Configure.text(),
{
    "PRAGMA journal_mode=WAL; PRAGMA busy_timeout=5000;".to_owned()
}

/// The text that creates the catalog.
pub fn create_catalog_sql() -> (sql: String)
    ensures
        sql@ == Statement::CreateCatalog.text(),
{
    "CREATE TABLE IF NOT EXISTS __wyrtloom_collections (\n                name           TEXT PRIMARY KEY,\n                indexed_fields TEXT NOT NULL\n            );".to_owned()
}

/// The text that reads the catalog.
pub fn select_catalog_sql() -> (sql: String)
    ensures
        sql@ == Statement::SelectCatalog.text(),
{
    "SELECT name, indexed_fields FROM __wyrtloom_collections".to_owned()
}

/// The text that writes to the catalog.
pub fn save_spec_sql() -> (sql: String)
    ensures
        sql@ == Statement::SaveSpec.text(),
{
    "INSERT OR REPLACE INTO __wyrtloom_collections (name, indexed_fields) VALUES (?1, ?2)".to_owned()
}

/// The text that creates a collection's table.
pub fn create_table_sql(name: &str) -> (sql: String)
    ensures
        sql@ == (Statement::CreateTable { name: name@ }).text(),
{
    concat3(
        "CREATE TABLE IF NOT EXISTS \"",
        name,
        "\" (\n                id  TEXT PRIMARY KEY,\n                doc TEXT NOT NULL\n            );",
    )
}

/// The name of the index on a field of a collection.
pub fn index_name_text(name: &str, field: &str) -> (text: String)
    requires
        valid_identifier(name@),
    ensures
        text@ == index_name(name@, field@),
{
    let length = decimal_text(name.unicode_len());
    let head = concat3("idx_", length.as_str(), "_");
    let tail = concat3(name, "_", field);
    concat2(head.as_str(), tail.as_str())
}

/// The text that creates the index on a field of a collection.
pub fn create_index_sql(name: &str, field: &str) -> (sql: String)
    requires
        valid_identifier(name@),
    ensures
        sql@ == (Statement::CreateIndex { name: name@, field: field@ }).text(),
{
    let index = index_name_text(name, field);
    let head = concat2("CREATE INDEX IF NOT EXISTS \"", index.as_str());
    let tail = concat5("\" ON \"", name, "\" (json_extract(doc, '$.", field, "'));");
    concat2(head.as_str(), tail.as_str())
}

/// The text that writes a document.
pub fn insert_sql(name: &str) -> (sql: String)
    ensures
        sql@ == (Statement::Insert { name: name@ }).text(),
{
    concat3("INSERT OR REPLACE INTO \"", name, "\" (id, doc) VALUES (?1, ?2)")
}

/// The text that removes a document.
pub fn delete_sql(name: &str) -> (sql: String)
    ensures
        sql@ == (Statement::Delete { name: name@ }).text(),
{
    concat3("DELETE FROM \"", name, "\" WHERE id = ?1")
}

/// The text that reads a document.
pub fn select_document_sql(name: &str) -> (sql: String)
    ensures
        sql@ == (Statement::SelectDocument { name: name@ }).text(),
{
    concat3("SELECT doc FROM \"", name, "\" WHERE id = ?1")
}

/// The text that reads every record.
pub fn select_all_sql(name: &str) -> (sql: String)
    ensures
        sql@ == (Statement::SelectAll { name: name@ }).text(),
{
    concat3("SELECT id, doc FROM \"", name, "\"")
}

/// The text that reads the record with an id.
pub fn select_by_id_sql(name: &str) -> (sql: String)
    ensures
        sql@ == (Statement::SelectById { name: name@ }).text(),
{
    concat3("SELECT id, doc FROM \"", name, "\" WHERE id = ?1")
}

/// The text that reads the records whose field is null or absent.
pub fn select_field_null_sql(name: &str, field: &str) -> (sql: String)
    ensures
        sql@ == (Statement::SelectFieldNull { name: name@, field: field@ }).text(),
{
    let tail = concat3("\" WHERE json_extract(doc, '$.", field, "') IS NULL");
    concat3("SELECT id, doc FROM \"", name, tail.as_str())
}

/// The text that reads the records whose field equals a value.
pub fn select_field_equal_sql(name: &str, field: &str) -> (sql: String)
    ensures
        sql@ == (Statement::SelectFieldEqual { name: name@, field: field@ }).text(),
{
    let tail = concat3("\" WHERE json_extract(doc, '$.", field, "') = ?1");
    concat3("SELECT id, doc FROM \"", name, tail.as_str())
}

/// Where two texts agree up to a character that neither middle holds, the middles agree,
/// and so do the rests that start with that character.
proof fn lemma_split(head: Seq<char>, a: Seq<char>, a_rest: Seq<char>, b: Seq<char>, b_rest: Seq<
    char,
>, stop: char)
    requires
        head + a + a_rest == head + b + b_rest,
        a_rest.len() > 0 && a_rest[0] == stop,
        b_rest.len() > 0 && b_rest[0] == stop,
        !a.contains(stop),
        !b.contains(stop),
    ensures
        a == b,
        a_rest == b_rest,
{
    let left = head + a + a_rest;
    let right = head + b + b_rest;
    let h = head.len() as int;
    assert(left[h + a.len()] == stop);
    assert(right[h + b.len()] == stop);
    if a.len() < b.len() {
        assert(right[h + a.len()] == b[a.len() as int]);
        assert(b.contains(stop));
    } else if b.len() < a.len() {
        assert(left[h + b.len()] == a[b.len() as int]);
        assert(a.contains(stop));
    }
    assert forall|i: int| 0 <= i < a.len() implies a[i] == b[i] by {
        assert(left[h + i] == a[i]);
        assert(right[h + i] == b[i]);
    }
    assert(a =~= b);
    assert(left.len() == right.len());
    assert forall|i: int| 0 <= i < a_rest.len() implies a_rest[i] == b_rest[i] by {
        assert(left[h + a.len() + i] == a_rest[i]);
        assert(right[h + b.len() + i] == b_rest[i]);
    }
    assert(a_rest =~= b_rest);
}

/// An identifier holds lower-case letters, digits and underscores alone: no quote, no
/// semicolon, no dot, no white space and no `$`, nothing that ends a quoted name or a
/// JSON path in SQL text.
pub proof fn identifier_cannot_leave_its_quotes(name: Seq<char>)
    requires
        valid_identifier(name),
    ensures
        !name.contains('"'),
        !name.contains('\''),
        !name.contains(';'),
        !name.contains('.'),
        !name.contains('$'),
        !name.contains(' '),
        !name.contains('\n'),
        !name.contains('\t'),
        !name.contains('['),
        !name.contains('('),
        !name.contains(')'),
        !name.contains('-'),
        !name.contains('\\'),
        !name.contains('\0'),
{
    assert forall|i: int| 0 <= i < name.len() implies is_identifier_char(name[i]) by {}
}

/// Index names do not collide: two pairs of a collection and a field with the same index
/// name are the same pair.
pub proof fn index_names_do_not_collide(
    name1: Seq<char>,
    field1: Seq<char>,
    name2: Seq<char>,
    field2: Seq<char>,
)
    requires
        valid_identifier(name1),
        valid_identifier(field1),
        valid_identifier(name2),
        valid_identifier(field2),
        index_name(name1, field1) == index_name(name2, field2),
    ensures
        name1 == name2,
        field1 == field2,
{
    reveal_strlit("_");
    let d1 = decimal(name1.len());
    let d2 = decimal(name2.len());
    lemma_decimal_digits(name1.len());
    lemma_decimal_digits(name2.len());
    let rest1 = "_"@ + (name1 + "_"@ + field1);
    let rest2 = "_"@ + (name2 + "_"@ + field2);
    assert(index_name(name1, field1) =~= "idx_"@ + d1 + rest1);
    assert(index_name(name2, field2) =~= "idx_"@ + d2 + rest2);
    lemma_split("idx_"@, d1, rest1, d2, rest2, '_');
    lemma_decimal_injective(name1.len(), name2.len());
    assert forall|i: int| 0 <= i < name1.len() implies name1[i] == name2[i] by {
        assert(rest1[1 + i] == name1[i]);
        assert(rest2[1 + i] == name2[i]);
    }
    assert(name1 =~= name2);
    assert forall|i: int| 0 <= i < field1.len() implies field1[i] == field2[i] by {
        assert(rest1[2 + name1.len() + i] == field1[i]);
        assert(rest2[2 + name2.len() + i] == field2[i]);
    }
    assert(field1 =~= field2);
}

/// The characters that tell the statements apart, whatever names they hold.
proof fn lemma_telling_characters(statement: Statement)
    requires
        statement.well_formed(),
    ensures
        statement.text().len() > 22,
        match statement {
            Statement::Configure => statement.text()[0] == 'P',
            Statement::CreateCatalog => {
                &&& statement.text().len() > 27
                &&& statement.text()[0] == 'C'
                &&& statement.text()[7] == 'T'
                &&& statement.text()[27] == '_'
            },
            Statement::CreateTable { .. } => {
                &&& statement.text().len() > 27
                &&& statement.text()[0] == 'C'
                &&& statement.text()[7] == 'T'
                &&& statement.text()[27] == '"'
            },
            Statement::CreateIndex { .. } => {
                &&& statement.text()[0] == 'C'
                &&& statement.text()[7] == 'I'
            },
            Statement::SaveSpec => {
                &&& statement.text().len() > 23
                &&& statement.text()[0] == 'I'
                &&& statement.text()[23] == '_'
            },
            Statement::Insert { .. } => {
                &&& statement.text().len() > 23
                &&& statement.text()[0] == 'I'
                &&& statement.text()[23] == '"'
            },
            Statement::Delete { .. } => statement.text()[0] == 'D',
            Statement::SelectCatalog => statement.text()[0] == 'S' && statement.text()[7] == 'n',
            Statement::SelectDocument { .. } => statement.text()[0] == 'S' && statement.text()[7]
                == 'd',
            _ => statement.text()[0] == 'S' && statement.text()[7] == 'i',
        },
{
    reveal_strlit("PRAGMA journal_mode=WAL; PRAGMA busy_timeout=5000;");
    reveal_strlit(
        "CREATE TABLE IF NOT EXISTS __wyrtloom_collections (\n                name           TEXT PRIMARY KEY,\n                indexed_fields TEXT NOT NULL\n            );",
    );
    reveal_strlit("SELECT name, indexed_fields FROM __wyrtloom_collections");
    reveal_strlit(
        "INSERT OR REPLACE INTO __wyrtloom_collections (name, indexed_fields) VALUES (?1, ?2)",
    );
    reveal_strlit("CREATE TABLE IF NOT EXISTS \"");
    reveal_strlit("CREATE INDEX IF NOT EXISTS \"");
    reveal_strlit("INSERT OR REPLACE INTO \"");
    reveal_strlit("DELETE FROM \"");
    reveal_strlit("SELECT doc FROM \"");
    reveal_strlit("SELECT id, doc FROM \"");
    reveal_strlit("\" WHERE id = ?1");
    reveal_strlit("\"");
}

/// The text of a statement over identifiers says which statement it is, and over which
/// names: no choice of names makes one statement read as another.
pub proof fn statement_texts_are_unambiguous(s: Statement, t: Statement)
    requires
        s.well_formed(),
        t.well_formed(),
        s.text() == t.text(),
    ensures
        s == t,
{
    lemma_telling_characters(s);
    lemma_telling_characters(t);
    match (s, t) {
        (Statement::CreateTable { name: a }, Statement::CreateTable { name: b }) => {
            let rest =
                "\" (\n                id  TEXT PRIMARY KEY,\n                doc TEXT NOT NULL\n            );"@;
            reveal_strlit(
                "\" (\n                id  TEXT PRIMARY KEY,\n                doc TEXT NOT NULL\n            );",
            );
            lemma_same_names("CREATE TABLE IF NOT EXISTS \""@, a, rest, b, rest);
        },
        (
            Statement::CreateIndex { name: a, field: f },
            Statement::CreateIndex { name: b, field: g },
        ) => {
            reveal_strlit("\" ON \"");
            let rest_s = "\" ON \""@ + a + "\" (json_extract(doc, '$."@ + f + "'));"@;
            let rest_t = "\" ON \""@ + b + "\" (json_extract(doc, '$."@ + g + "'));"@;
            lemma_index_name_unquoted(a, f);
            lemma_index_name_unquoted(b, g);
            lemma_split(
                "CREATE INDEX IF NOT EXISTS \""@,
                index_name(a, f),
                rest_s,
                index_name(b, g),
                rest_t,
                '"',
            );
            index_names_do_not_collide(a, f, b, g);
        },
        (Statement::Insert { name: a }, Statement::Insert { name: b }) => {
            let rest = "\" (id, doc) VALUES (?1, ?2)"@;
            reveal_strlit("\" (id, doc) VALUES (?1, ?2)");
            lemma_same_names("INSERT OR REPLACE INTO \""@, a, rest, b, rest);
        },
        (Statement::Delete { name: a }, Statement::Delete { name: b }) => {
            let rest = "\" WHERE id = ?1"@;
            reveal_strlit("\" WHERE id = ?1");
            lemma_same_names("DELETE FROM \""@, a, rest, b, rest);
        },
        (Statement::SelectDocument { name: a }, Statement::SelectDocument { name: b }) => {
            let rest = "\" WHERE id = ?1"@;
            reveal_strlit("\" WHERE id = ?1");
            lemma_same_names("SELECT doc FROM \""@, a, rest, b, rest);
        },
        _ => {
            if s.record_rest() is Some && t.record_rest() is Some {
                lemma_record_selections(s, t);
            }
        },
    }
}

impl Statement {
    /// The name of a statement that reads records.
    spec fn record_name(self) -> Seq<char> {
        match self {
            Statement::SelectAll { name } => name,
            Statement::SelectById { name } => name,
            Statement::SelectFieldNull { name, .. } => name,
            Statement::SelectFieldEqual { name, .. } => name,
            _ => Seq::empty(),
        }
    }

    /// What follows the name in the text of a statement that reads records.
    spec fn record_rest(self) -> Option<Seq<char>> {
        match self {
            Statement::SelectAll { .. } => Some("\""@),
            Statement::SelectById { .. } => Some("\" WHERE id = ?1"@),
            Statement::SelectFieldNull { field, .. } => Some(
                "\" WHERE json_extract(doc, '$."@ + field + "') IS NULL"@,
            ),
            Statement::SelectFieldEqual { field, .. } => Some(
                "\" WHERE json_extract(doc, '$."@ + field + "') = ?1"@,
            ),
            _ => None,
        }
    }
}

proof fn lemma_same_names(head: Seq<char>, a: Seq<char>, a_rest: Seq<char>, b: Seq<char>, b_rest: Seq<
    char,
>)
    requires
        valid_identifier(a),
        valid_identifier(b),
        a_rest.len() > 0 && a_rest[0] == '"',
        b_rest.len() > 0 && b_rest[0] == '"',
        head + a + a_rest == head + b + b_rest,
    ensures
        a == b,
        a_rest == b_rest,
{
    identifier_cannot_leave_its_quotes(a);
    identifier_cannot_leave_its_quotes(b);
    lemma_split(head, a, a_rest, b, b_rest, '"');
}

proof fn lemma_index_name_unquoted(name: Seq<char>, field: Seq<char>)
    requires
        valid_identifier(name),
        valid_identifier(field),
    ensures
        !index_name(name, field).contains('"'),
{
    reveal_strlit("idx_");
    reveal_strlit("_");
    identifier_cannot_leave_its_quotes(name);
    identifier_cannot_leave_its_quotes(field);
    lemma_decimal_digits(name.len());
    let d = decimal(name.len());
    let text = index_name(name, field);
    assert forall|i: int| 0 <= i < text.len() implies text[i] != '"' by {
        if i < 4 {
            assert(text[i] == "idx_"@[i]);
        } else if i < 4 + d.len() {
            assert(text[i] == d[i - 4]);
        } else if i == 4 + d.len() {
        } else if i < 5 + d.len() + name.len() {
            assert(text[i] == name[i - 5 - d.len()]);
            assert(name.contains(text[i]));
        } else if i == 5 + d.len() + name.len() {
        } else {
            assert(text[i] == field[i - 6 - d.len() - name.len()]);
            assert(field.contains(text[i]));
        }
    }
}

proof fn lemma_record_selections(s: Statement, t: Statement)
    requires
        s.well_formed(),
        t.well_formed(),
        s.record_rest() is Some,
        t.record_rest() is Some,
        s.text() == t.text(),
    ensures
        s == t,
{
    reveal_strlit("\"");
    reveal_strlit("\" WHERE id = ?1");
    reveal_strlit("\" WHERE json_extract(doc, '$.");
    reveal_strlit("') IS NULL");
    reveal_strlit("') = ?1");
    let rest_s = s.record_rest()->0;
    let rest_t = t.record_rest()->0;
    lemma_same_names("SELECT id, doc FROM \""@, s.record_name(), rest_s, t.record_name(), rest_t);
    if rest_s.len() > 8 {
        assert(rest_s[8] == rest_t[8]);
    }
    match (s, t) {
        (Statement::SelectFieldNull { field: f, .. }, Statement::SelectFieldNull { field: g, .. }) => {
            lemma_same_fields(f, "') IS NULL"@, g, "') IS NULL"@);
        },
        (Statement::SelectFieldNull { field: f, .. }, Statement::SelectFieldEqual { field: g, .. }) => {
            lemma_same_fields(f, "') IS NULL"@, g, "') = ?1"@);
            assert("') IS NULL"@[3] == "') = ?1"@[3]);
        },
        (Statement::SelectFieldEqual { field: f, .. }, Statement::SelectFieldNull { field: g, .. }) => {
            lemma_same_fields(f, "') = ?1"@, g, "') IS NULL"@);
            assert("') = ?1"@[3] == "') IS NULL"@[3]);
        },
        (
            Statement::SelectFieldEqual { field: f, .. },
            Statement::SelectFieldEqual { field: g, .. },
        ) => {
            lemma_same_fields(f, "') = ?1"@, g, "') = ?1"@);
        },
        _ => {},
    }
}

proof fn lemma_same_fields(f: Seq<char>, f_rest: Seq<char>, g: Seq<char>, g_rest: Seq<char>)
    requires
        valid_identifier(f),
        valid_identifier(g),
        f_rest.len() > 0 && f_rest[0] == '\'',
        g_rest.len() > 0 && g_rest[0] == '\'',
        "\" WHERE json_extract(doc, '$."@ + f + f_rest == "\" WHERE json_extract(doc, '$."@ + g
            + g_rest,
    ensures
        f == g,
        f_rest == g_rest,
{
    identifier_cannot_leave_its_quotes(f);
    identifier_cannot_leave_its_quotes(g);
    lemma_split("\" WHERE json_extract(doc, '$."@, f, f_rest, g, g_rest, '\'');
}

} // verus!
