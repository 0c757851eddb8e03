//! What a SQLite database holds, as far as the store uses it, and what the store's
//! statements do to it.

use vstd::prelude::*;

use crate::json::{json_text, JsonView, SqlView};
use crate::sql::{catalog_table, index_name, Statement};

verus! {

/// A table of two text columns, the first of them the primary key.
pub type Table = Map<Seq<char>, Seq<char>>;

/// A row of such a table, or nothing where it could not be read.
pub type Row = Option<(Seq<char>, Seq<char>)>;

/// The tables of a database and the indexes on them. An index is kept under its name,
/// with the table and the document field that it is on.
#[verifier::ext_equal]
pub struct Database {
    pub tables: Map<Seq<char>, Table>,
    pub indexes: Map<Seq<char>, (Seq<char>, Seq<char>)>,
}

/// The text in a bound value.
pub open spec fn bound_text(value: SqlView) -> Seq<char> {
    match value {
        SqlView::Text(text) => text,
        _ => Seq::empty(),
    }
}

/// Whether the bound values are `n` texts.
pub open spec fn are_texts(values: Seq<SqlView>, n: nat) -> bool {
    values.len() == n && forall|i: int| 0 <= i < n ==> (#[trigger] values[i]) is Text
}

impl Database {
    /// A database without tables.
    pub open spec fn empty() -> Database {
        Database { tables: Map::empty(), indexes: Map::empty() }
    }

    /// The value under a key of a table.
    pub open spec fn row(self, table: Seq<char>, key: Seq<char>) -> Option<Seq<char>> {
        if self.tables.contains_key(table) && self.tables[table].contains_key(key) {
            Some(self.tables[table][key])
        } else {
            None
        }
    }

    /// The database with a table of that name, which is new and empty where it was missing.
    pub open spec fn with_table(self, table: Seq<char>) -> Database {
        if self.tables.contains_key(table) {
            self
        } else {
            Database { tables: self.tables.insert(table, Map::empty()), ..self }
        }
    }

    /// The database with the index on a field of a table. Where an index of the same name
    /// is there, it stays as it is.
    pub open spec fn with_index(self, table: Seq<char>, field: Seq<char>) -> Database {
        let index = index_name(table, field);
        if self.indexes.contains_key(index) {
            self
        } else {
            Database { indexes: self.indexes.insert(index, (table, field)), ..self }
        }
    }

    /// The database with `value` under a key of a table, in place of what was there.
    pub open spec fn with_row(
        self,
        table: Seq<char>,
        key: Seq<char>,
        value: Seq<char>,
    ) -> Database {
        Database {
            tables: self.tables.insert(table, self.tables[table].insert(key, value)),
            ..self
        }
    }

    /// The database without the row under a key of a table.
    pub open spec fn without_row(self, table: Seq<char>, key: Seq<char>) -> Database {
        Database { tables: self.tables.insert(table, self.tables[table].remove(key)), ..self }
    }

    /// Whether the table that a statement is about is there and the bound values are
    /// those that the statement takes.
    pub open spec fn ready(self, statement: Statement, values: Seq<SqlView>) -> bool {
        match statement {
            Statement::Configure => are_texts(values, 0),
            Statement::CreateCatalog => are_texts(values, 0),
            Statement::CreateTable { .. } => are_texts(values, 0),
            Statement::CreateIndex { name, .. } => self.tables.contains_key(name) && are_texts(
                values,
                0,
            ),
            Statement::SaveSpec => self.tables.contains_key(catalog_table()) && are_texts(
                values,
                2,
            ),
            Statement::SelectCatalog => self.tables.contains_key(catalog_table()) && are_texts(
                values,
                0,
            ),
            Statement::Insert { name } => self.tables.contains_key(name) && are_texts(values, 2),
            Statement::Delete { name } => self.tables.contains_key(name) && are_texts(values, 1),
            Statement::SelectDocument { name } => self.tables.contains_key(name) && are_texts(
                values,
                1,
            ),
            Statement::SelectAll { name } => self.tables.contains_key(name) && are_texts(values, 0),
            Statement::SelectById { name } => self.tables.contains_key(name) && are_texts(
                values,
                1,
            ),
            Statement::SelectFieldNull { name, .. } => self.tables.contains_key(name) && are_texts(
                values,
                0,
            ),
            Statement::SelectFieldEqual { name, .. } => self.tables.contains_key(name)
                && values.len() == 1,
        }
    }

    /// The database after a statement has run. Reading leaves it as it is.
    pub open spec fn after(self, statement: Statement, values: Seq<SqlView>) -> Database {
        match statement {
            Statement::CreateCatalog => self.with_table(catalog_table()),
            Statement::CreateTable { name } => self.with_table(name),
            Statement::CreateIndex { name, field } => self.with_index(name, field),
            Statement::SaveSpec => self.with_row(
                catalog_table(),
                bound_text(values[0]),
                bound_text(values[1]),
            ),
            Statement::Insert { name } => self.with_row(
                name,
                bound_text(values[0]),
                bound_text(values[1]),
            ),
            Statement::Delete { name } => self.without_row(name, bound_text(values[0])),
            _ => self,
        }
    }
}

/// The rows of a table whose keys satisfy `keep`.
pub open spec fn rows_where(table: Table, keep: spec_fn(Seq<char>) -> bool) -> Table {
    table.restrict(Set::new(|key: Seq<char>| table.contains_key(key) && keep(key)))
}

/// Whether every row was read.
pub open spec fn all_read(rows: Seq<Row>) -> bool {
    forall|i: int| 0 <= i < rows.len() ==> (#[trigger] rows[i]) is Some
}

/// The key of a row that was read.
pub open spec fn key_of(row: Row) -> Seq<char> {
    (row->0).0
}

/// The value of a row that was read.
pub open spec fn value_of(row: Row) -> Seq<char> {
    (row->0).1
}

/// Whether a row with this key is among `rows`.
pub open spec fn listed(rows: Seq<Row>, key: Seq<char>) -> bool {
    exists|i: int| 0 <= i < rows.len() && (#[trigger] rows[i]) is Some && key_of(rows[i]) == key
}

/// Whether `rows` are the rows of `table`, each of them once, in some order.
pub open spec fn lists(rows: Seq<Row>, table: Table) -> bool {
    &&& all_read(rows)
    &&& forall|i: int|
        0 <= i < rows.len() ==> table.contains_key(key_of(#[trigger] rows[i]))
            && table[key_of(rows[i])] == value_of(rows[i])
    &&& forall|i: int, j: int|
        0 <= i < j < rows.len() ==> key_of(#[trigger] rows[i]) != key_of(#[trigger] rows[j])
    &&& forall|key: Seq<char>| #[trigger] table.contains_key(key) ==> listed(rows, key)
}

/// Whether a document's field is null, or is not there.
pub open spec fn is_null_or_absent(found: Option<JsonView>) -> bool {
    found is None || found == Some(JsonView::Null)
}

/// Whether it is said below when a field equals a bound value: a text is compared with any
/// field, an integer with any field but a number that is no 64-bit signed integer.
pub open spec fn comparable(found: Option<JsonView>, wanted: SqlView) -> bool {
    match wanted {
        SqlView::Text(_) => true,
        SqlView::Integer(_) => found matches Some(JsonView::Number(number))
            ==> number.integer is Some,
        _ => false,
    }
}

/// Whether a field equals a bound value: text equals the same text, an integer the same
/// number, `true` and `false` are 1 and 0, and an array or an object is its JSON text.
pub open spec fn field_is(found: Option<JsonView>, wanted: SqlView) -> bool {
    match (found, wanted) {
        (Some(JsonView::String(text)), SqlView::Text(other)) => text == other,
        (Some(JsonView::Number(number)), SqlView::Integer(i)) => number.integer == Some(i),
        (Some(JsonView::Bool(true)), SqlView::Integer(i)) => i == 1,
        (Some(JsonView::Bool(false)), SqlView::Integer(i)) => i == 0,
        (Some(JsonView::Array(items)), SqlView::Text(text)) => json_text(JsonView::Array(items))
            == Some(text),
        (Some(JsonView::Object(entries)), SqlView::Text(text)) => json_text(
            JsonView::Object(entries),
        ) == Some(text),
        _ => false,
    }
}

} // verus!
