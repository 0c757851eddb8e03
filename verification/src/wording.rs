//! The SQL texts, word for word, and the numbers and names in them.

use vstd::prelude::*;

use crate::outcomes::{catalog_text, index_text, table_text};
use crate::sql::{index_name, Statement};
use crate::text::{decimal, digit, lemma_decimal_digits};

verus! {

/// The number that decimal digits denote.
pub open spec fn denoted(digits: Seq<char>) -> int
    decreases digits.len(),
{
    if digits.len() == 0 {
        0
    } else {
        10 * denoted(digits.drop_last()) + (digits.last() as int - '0' as int)
    }
}

proof fn lemma_digit_denotes(d: nat)
    requires
        d < 10,
    ensures
        digit(d).len() == 1,
        digit(d)[0] as int == '0' as int + d,
{
    reveal_strlit("0");
    reveal_strlit("1");
    reveal_strlit("2");
    reveal_strlit("3");
    reveal_strlit("4");
    reveal_strlit("5");
    reveal_strlit("6");
    reveal_strlit("7");
    reveal_strlit("8");
    reveal_strlit("9");
}

/// The decimal notation of a number denotes that number, in digits alone and without a leading
/// zero.
pub proof fn decimal_notation_denotes_the_number(n: nat)
    ensures
        denoted(decimal(n)) == n,
        decimal(n).len() > 0,
        forall|i: int| 0 <= i < decimal(n).len() ==> '0' <= #[trigger] decimal(n)[i] <= '9',
        n > 0 ==> decimal(n)[0] != '0',
        n == 0 ==> decimal(n).len() == 1,
    decreases n,
{
    lemma_decimal_digits(n);
    reveal_with_fuel(denoted, 2);
    if n < 10 {
        lemma_digit_denotes(n);
        assert(decimal(n).drop_last() =~= Seq::empty());
    } else {
        decimal_notation_denotes_the_number(n / 10);
        lemma_digit_denotes(n % 10);
        assert(decimal(n).drop_last() =~= decimal(n / 10));
        assert(decimal(n).last() == digit(n % 10)[0]);
        assert(decimal(n)[0] == decimal(n / 10)[0]);
    }
}

/// The name of the index on a field of a collection, word for word.
pub proof fn index_names_are_these(name: Seq<char>, field: Seq<char>)
    ensures
        index_name(name, field) == "idx_"@ + decimal(name.len()) + "_"@ + name + "_"@ + field,
{
    assert(index_name(name, field) =~= "idx_"@ + decimal(name.len()) + "_"@ + name + "_"@ + field);
}

/// The texts of all statements, word for word: each table has two columns, of which the first is
/// the only key, and nothing but a name or a field varies.
pub proof fn statement_texts_are_these(name: Seq<char>, field: Seq<char>)
    ensures
        Statement::Configure.text() == "PRAGMA journal_mode=WAL; PRAGMA busy_timeout=5000;"@,
        Statement::CreateCatalog.text() == catalog_text(),
        Statement::CreateCatalog.text()
            == "CREATE TABLE IF NOT EXISTS __wyrtloom_collections (\n                name           TEXT PRIMARY KEY,\n                indexed_fields TEXT NOT NULL\n            );"@,
        Statement::SelectCatalog.text()
            == "SELECT name, indexed_fields FROM __wyrtloom_collections"@,
        Statement::SaveSpec.text()
            == "INSERT OR REPLACE INTO __wyrtloom_collections (name, indexed_fields) VALUES (?1, ?2)"@,
        (Statement::CreateTable { name }).text() == table_text(name),
        (Statement::CreateTable { name }).text() == "CREATE TABLE IF NOT EXISTS \""@ + name
            + "\" (\n                id  TEXT PRIMARY KEY,\n                doc TEXT NOT NULL\n            );"@,
        (Statement::CreateIndex { name, field }).text() == index_text(name, field),
        (Statement::CreateIndex { name, field }).text() == "CREATE INDEX IF NOT EXISTS \""@
            + "idx_"@ + decimal(name.len()) + "_"@ + name + "_"@ + field + "\" ON \""@ + name
            + "\" (json_extract(doc, '$."@ + field + "'));"@,
        (Statement::Insert { name }).text() == "INSERT OR REPLACE INTO \""@ + name
            + "\" (id, doc) VALUES (?1, ?2)"@,
        (Statement::Delete { name }).text() == "DELETE FROM \""@ + name + "\" WHERE id = ?1"@,
        (Statement::SelectDocument { name }).text() == "SELECT doc FROM \""@ + name
            + "\" WHERE id = ?1"@,
        (Statement::SelectAll { name }).text() == "SELECT id, doc FROM \""@ + name + "\""@,
        (Statement::SelectById { name }).text() == "SELECT id, doc FROM \""@ + name
            + "\" WHERE id = ?1"@,
        (Statement::SelectFieldNull { name, field }).text() == "SELECT id, doc FROM \""@ + name
            + "\" WHERE json_extract(doc, '$."@ + field + "') IS NULL"@,
        (Statement::SelectFieldEqual { name, field }).text() == "SELECT id, doc FROM \""@ + name
            + "\" WHERE json_extract(doc, '$."@ + field + "') = ?1"@,
{
    assert((Statement::CreateIndex { name, field }).text() =~= index_text(name, field));
    assert((Statement::SelectFieldNull { name, field }).text() =~= "SELECT id, doc FROM \""@ + name
        + "\" WHERE json_extract(doc, '$."@ + field + "') IS NULL"@);
    assert((Statement::SelectFieldEqual { name, field }).text() =~= "SELECT id, doc FROM \""@ + name
        + "\" WHERE json_extract(doc, '$."@ + field + "') = ?1"@);
}

} // verus!
