//! The read-only queries through which the statistics are extracted, and the
//! compaction command. Table, column and index names are quoted as the
//! engine's catalog gives them.

use vstd::prelude::*;

verus! {

/// Page bytes of every table, grouped by table name, joining the engine's
/// page accounting with its schema catalog.
pub const TABLE_SIZES_SQL: &'static str = "SELECT sqlite_schema.name AS table_name, SUM(dbstat.pgsize) AS bytes FROM dbstat JOIN sqlite_schema ON dbstat.name = sqlite_schema.name WHERE sqlite_schema.type = 'table' GROUP BY sqlite_schema.name";

/// The command that rewrites the database file into minimal space.
pub const VACUUM_SQL: &'static str = "VACUUM";

pub open spec fn row_count_text(table: Seq<char>) -> Seq<char> {
    "SELECT COUNT(rowid) AS rows FROM `"@ + table + "`"@
}

pub open spec fn table_info_text(table: Seq<char>) -> Seq<char> {
    "SELECT name, type FROM pragma_table_info('"@ + table + "')"@
}

pub open spec fn column_length_text(table: Seq<char>, column: Seq<char>) -> Seq<char> {
    "SELECT IFNULL(SUM(LENGTH(`"@ + column + "`)), 0) AS size FROM `"@ + table + "` WHERE `"@ + column
        + "` IS NOT NULL"@
}

pub open spec fn index_list_text(table: Seq<char>) -> Seq<char> {
    "SELECT name FROM pragma_index_list('"@ + table + "')"@
}

pub open spec fn index_size_text(index: Seq<char>) -> Seq<char> {
    "SELECT SUM(dbstat.pgsize) AS size FROM dbstat JOIN sqlite_schema ON dbstat.name = sqlite_schema.name WHERE sqlite_schema.type = 'index' AND sqlite_schema.name = '"@
        + index + "' GROUP BY sqlite_schema.name"@
}

/// Counts the rows of a table by its row identifiers.
pub fn row_count_sql(table: &str) -> (r: String)
    ensures
        r@ == row_count_text(table@),
{
    let mut s = String::new();
    s.append("SELECT COUNT(rowid) AS rows FROM `");
    s.append(table);
    s.append("`");
    s
}

/// Lists the name and declared type of each column of a table.
pub fn table_info_sql(table: &str) -> (r: String)
    ensures
        r@ == table_info_text(table@),
{
    let mut s = String::new();
    s.append("SELECT name, type FROM pragma_table_info('");
    s.append(table);
    s.append("')");
    s
}

/// Sums the serialized byte lengths of the non-null values of a column.
pub fn column_length_sql(table: &str, column: &str) -> (r: String)
    ensures
        r@ == column_length_text(table@, column@),
{
    let mut s = String::new();
    s.append("SELECT IFNULL(SUM(LENGTH(`");
    s.append(column);
    s.append("`)), 0) AS size FROM `");
    s.append(table);
    s.append("` WHERE `");
    s.append(column);
    s.append("` IS NOT NULL");
    s
}

/// Lists the names of the indexes of a table.
pub fn index_list_sql(table: &str) -> (r: String)
    ensures
        r@ == index_list_text(table@),
{
    let mut s = String::new();
    s.append("SELECT name FROM pragma_index_list('");
    s.append(table);
    s.append("')");
    s
}

/// Page bytes of one index.
pub fn index_size_sql(index: &str) -> (r: String)
    ensures
        r@ == index_size_text(index@),
{
    let mut s = String::new();
    s.append(
        "SELECT SUM(dbstat.pgsize) AS size FROM dbstat JOIN sqlite_schema ON dbstat.name = sqlite_schema.name WHERE sqlite_schema.type = 'index' AND sqlite_schema.name = '",
    );
    s.append(index);
    s.append("' GROUP BY sqlite_schema.name");
    s
}

} // verus!
