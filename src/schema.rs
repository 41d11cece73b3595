//! The SQL text of the store: the entry table, the trigram index over it, and
//! the statements that fill and search them.
use vstd::prelude::*;

verus! {

/// The file that holds the store.
pub fn get_database_name() -> (r: &'static str)
    ensures
        r@ == "db.db"@,
{
    "db.db"
}

/// The entry table; `Id` is assigned densely from 1 at insert.
pub fn get_schema_begreber() -> (r: &'static str)
    ensures
        r@ == "CREATE TABLE \"Begreber\" (\n\t\"EngelskUdgave\"\tTEXT NOT NULL,\n\t\"DanskUdgave\"\tTEXT NOT NULL,\n\t\"Kilde\"         TEXT,\n\t\"Id\"\tINTEGER,\n\tPRIMARY KEY(\"Id\" AUTOINCREMENT)\n);"@,
{
    "CREATE TABLE \"Begreber\" (\n\t\"EngelskUdgave\"\tTEXT NOT NULL,\n\t\"DanskUdgave\"\tTEXT NOT NULL,\n\t\"Kilde\"         TEXT,\n\t\"Id\"\tINTEGER,\n\tPRIMARY KEY(\"Id\" AUTOINCREMENT)\n);"
}

/// The trigram full-text index over the entry table, whose row identifier is
/// the entry's `Id`.
pub fn get_schema_index() -> (r: &'static str)
    ensures
        r@ == "CREATE VIRTUAL TABLE fts USING fts5(\n    EngelskUdgave,\n    DanskUdgave,\n    Kilde UNINDEXED,\n    Id UNINDEXED,\n    content=Begreber,\n    content_rowid=Id,\n    tokenize='trigram'\n);"@,
{
    "CREATE VIRTUAL TABLE fts USING fts5(\n    EngelskUdgave,\n    DanskUdgave,\n    Kilde UNINDEXED,\n    Id UNINDEXED,\n    content=Begreber,\n    content_rowid=Id,\n    tokenize='trigram'\n);"
}

/// Fills the index from the entry table in one statement.
pub fn get_data_query() -> (r: &'static str)
    ensures
        r@ == "INSERT INTO fts SELECT EngelskUdgave, DanskUdgave, Kilde, Id FROM Begreber;"@,
{
    "INSERT INTO fts SELECT EngelskUdgave, DanskUdgave, Kilde, Id FROM Begreber;"
}

/// Merges the index segments.
pub fn get_optimize_query() -> (r: &'static str)
    ensures
        r@ == "INSERT INTO fts(fts) VALUES('optimize');"@,
{
    "INSERT INTO fts(fts) VALUES('optimize');"
}

/// Inserts one entry; the parameters are English, Danish and the source label.
pub fn get_insert_query() -> (r: &'static str)
    ensures
        r@ == "INSERT INTO Begreber (EngelskUdgave, DanskUdgave, Kilde) VALUES (?, ?, ?)"@,
{
    "INSERT INTO Begreber (EngelskUdgave, DanskUdgave, Kilde) VALUES (?, ?, ?)"
}

/// The ranked match: best first, ties by `Id`, at most twenty rows of English,
/// Danish and source label. The parameter is the match expression.
pub fn get_search_query() -> (r: &'static str)
    ensures
        r@ == "SELECT EngelskUdgave, DanskUdgave, Kilde FROM fts WHERE fts MATCH ? ORDER BY rank, rowid LIMIT 20;"@,
{
    "SELECT EngelskUdgave, DanskUdgave, Kilde FROM fts WHERE fts MATCH ? ORDER BY rank, rowid LIMIT 20;"
}

} // verus!
