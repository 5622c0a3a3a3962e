//! The drill-down of one table: a row per column and a row per index, each
//! with its human size and its share of the group, and the widths of the
//! fields so that no value or header is clipped.

use vstd::prelude::*;
use crate::format::format_label;
use crate::stats::{Column, Index, Table, column_total, index_total, columns_size, indexes_size};
use crate::text::{bytes_text, format_bytes, format_percent, percent_text};

verus! {

/// One line of the columns sub-table.
#[derive(Debug)]
pub struct ColumnRow {
    pub name: String,
    pub format: &'static str,
    pub size: String,
    pub fraction: String,
    /// The column's stored bytes.
    pub length: u64,
    /// The stored bytes of all the table's columns.
    pub total: u128,
}

/// One line of the indexes sub-table.
#[derive(Debug)]
pub struct IndexRow {
    pub name: String,
    pub size: String,
    pub fraction: String,
    /// The index's page bytes.
    pub bytes: u64,
    /// The page bytes of all the table's indexes.
    pub total: u128,
}

/// Field widths of the columns sub-table.
#[derive(Debug, Clone, Copy, PartialEq, Eq)]
pub struct ColumnWidths {
    pub name: usize,
    pub format: usize,
    pub size: usize,
    pub fraction: usize,
}

/// Field widths of the indexes sub-table.
#[derive(Debug, Clone, Copy, PartialEq, Eq)]
pub struct IndexWidths {
    pub name: usize,
    pub size: usize,
    pub fraction: usize,
}

/// The row shown for a column of a table whose columns store `total` bytes.
pub open spec fn column_row_matches(r: ColumnRow, c: Column, total: nat) -> bool {
    &&& r.name@ == c.name@
    &&& r.format@ == format_label(c.format)
    &&& r.size@ == bytes_text(c.length as nat)
    &&& r.fraction@ == percent_text(c.length as nat, total)
    &&& r.length == c.length
    &&& r.total == total
}

/// The row shown for an index of a table whose indexes take `total` bytes.
pub open spec fn index_row_matches(r: IndexRow, x: Index, total: nat) -> bool {
    &&& r.name@ == x.name@
    &&& r.size@ == bytes_text(x.size as nat)
    &&& r.fraction@ == percent_text(x.size as nat, total)
    &&& r.bytes == x.size
    &&& r.total == total
}

/// The largest of `least` and the lengths in `lens`.
pub open spec fn widest(lens: Seq<nat>, least: nat) -> nat
    decreases lens.len(),
{
    if lens.len() == 0 {
        least
    } else {
        let w = widest(lens.drop_last(), least);
        if lens.last() > w {
            lens.last()
        } else {
            w
        }
    }
}

/// The rows of the columns sub-table, in column order.
pub fn column_rows(t: &Table) -> (r: Vec<ColumnRow>)
    ensures
        r@.len() == t.columns@.len(),
        forall|i: int| 0 <= i < r@.len() ==> column_row_matches(#[trigger] r@[i], t.columns@[i], column_total(t.columns@)),
{
    let total = columns_size(t);
    let mut rows: Vec<ColumnRow> = Vec::new();
    let mut i: usize = 0;
    while i < t.columns.len()
        invariant
            total == column_total(t.columns@),
            i <= t.columns@.len(),
            rows@.len() == i,
            forall|j: int| 0 <= j < i ==> column_row_matches(#[trigger] rows@[j], t.columns@[j], total as nat),
        decreases t.columns@.len() - i,
    {
        let c = &t.columns[i];
        proof {
            crate::stats::lemma_column_in_total(t.columns@, i as int);
        }
        rows.push(ColumnRow {
            name: c.name.clone(),
            format: c.format.label(),
            size: format_bytes(c.length),
            fraction: format_percent(c.length, total),
            length: c.length,
            total,
        });
        i = i + 1;
    }
    rows
}

/// The rows of the indexes sub-table, in index order.
pub fn index_rows(t: &Table) -> (r: Vec<IndexRow>)
    ensures
        r@.len() == t.indexes@.len(),
        forall|i: int| 0 <= i < r@.len() ==> index_row_matches(#[trigger] r@[i], t.indexes@[i], index_total(t.indexes@)),
{
    let total = indexes_size(t);
    let mut rows: Vec<IndexRow> = Vec::new();
    let mut i: usize = 0;
    while i < t.indexes.len()
        invariant
            total == index_total(t.indexes@),
            i <= t.indexes@.len(),
            rows@.len() == i,
            forall|j: int| 0 <= j < i ==> index_row_matches(#[trigger] rows@[j], t.indexes@[j], total as nat),
        decreases t.indexes@.len() - i,
    {
        let x = &t.indexes[i];
        proof {
            crate::stats::lemma_index_in_total(t.indexes@, i as int);
        }
        rows.push(IndexRow {
            name: x.name.clone(),
            size: format_bytes(x.size),
            fraction: format_percent(x.size, total),
            bytes: x.size,
            total,
        });
        i = i + 1;
    }
    rows
}

fn wider(w: usize, s: &str) -> (r: usize)
    ensures
        r == if s@.len() > w { s@.len() } else { w as nat },
{
    let n = s.unicode_len();
    if n > w {
        n
    } else {
        w
    }
}

pub open spec fn name_lens(rows: Seq<ColumnRow>) -> Seq<nat> {
    rows.map_values(|r: ColumnRow| r.name@.len())
}

pub open spec fn format_lens(rows: Seq<ColumnRow>) -> Seq<nat> {
    rows.map_values(|r: ColumnRow| r.format@.len())
}

pub open spec fn size_lens(rows: Seq<ColumnRow>) -> Seq<nat> {
    rows.map_values(|r: ColumnRow| r.size@.len())
}

pub open spec fn fraction_lens(rows: Seq<ColumnRow>) -> Seq<nat> {
    rows.map_values(|r: ColumnRow| r.fraction@.len())
}

pub open spec fn index_name_lens(rows: Seq<IndexRow>) -> Seq<nat> {
    rows.map_values(|r: IndexRow| r.name@.len())
}

pub open spec fn index_size_lens(rows: Seq<IndexRow>) -> Seq<nat> {
    rows.map_values(|r: IndexRow| r.size@.len())
}

pub open spec fn index_fraction_lens(rows: Seq<IndexRow>) -> Seq<nat> {
    rows.map_values(|r: IndexRow| r.fraction@.len())
}

/// Widths of the columns sub-table: the longest value of each field, and at
/// least 4, 4, 9 and 8 cells so that the headers fit.
pub fn column_widths(rows: &Vec<ColumnRow>) -> (r: ColumnWidths)
    ensures
        r.name == widest(name_lens(rows@), 4),
        r.format == widest(format_lens(rows@), 4),
        r.size == widest(size_lens(rows@), 9),
        r.fraction == widest(fraction_lens(rows@), 8),
{
    let mut w = ColumnWidths { name: 4, format: 4, size: 9, fraction: 8 };
    let mut i: usize = 0;
    while i < rows.len()
        invariant
            i <= rows@.len(),
            w.name == widest(name_lens(rows@.subrange(0, i as int)), 4),
            w.format == widest(format_lens(rows@.subrange(0, i as int)), 4),
            w.size == widest(size_lens(rows@.subrange(0, i as int)), 9),
            w.fraction == widest(fraction_lens(rows@.subrange(0, i as int)), 8),
        decreases rows@.len() - i,
    {
        let row = &rows[i];
        let ghost pre = rows@.subrange(0, i as int);
        let ghost next = rows@.subrange(0, i + 1 as int);
        assert(name_lens(next).drop_last() =~= name_lens(pre));
        assert(format_lens(next).drop_last() =~= format_lens(pre));
        assert(size_lens(next).drop_last() =~= size_lens(pre));
        assert(fraction_lens(next).drop_last() =~= fraction_lens(pre));
        w = ColumnWidths {
            name: wider(w.name, row.name.as_str()),
            format: wider(w.format, row.format),
            size: wider(w.size, row.size.as_str()),
            fraction: wider(w.fraction, row.fraction.as_str()),
        };
        i = i + 1;
    }
    assert(rows@.subrange(0, i as int) =~= rows@);
    w
}

/// Widths of the indexes sub-table: the longest value of each field, and at
/// least 4, 9 and 8 cells so that the headers fit.
pub fn index_widths(rows: &Vec<IndexRow>) -> (r: IndexWidths)
    ensures
        r.name == widest(index_name_lens(rows@), 4),
        r.size == widest(index_size_lens(rows@), 9),
        r.fraction == widest(index_fraction_lens(rows@), 8),
{
    let mut w = IndexWidths { name: 4, size: 9, fraction: 8 };
    let mut i: usize = 0;
    while i < rows.len()
        invariant
            i <= rows@.len(),
            w.name == widest(index_name_lens(rows@.subrange(0, i as int)), 4),
            w.size == widest(index_size_lens(rows@.subrange(0, i as int)), 9),
            w.fraction == widest(index_fraction_lens(rows@.subrange(0, i as int)), 8),
        decreases rows@.len() - i,
    {
        let row = &rows[i];
        let ghost pre = rows@.subrange(0, i as int);
        let ghost next = rows@.subrange(0, i + 1 as int);
        assert(index_name_lens(next).drop_last() =~= index_name_lens(pre));
        assert(index_size_lens(next).drop_last() =~= index_size_lens(pre));
        assert(index_fraction_lens(next).drop_last() =~= index_fraction_lens(pre));
        w = IndexWidths {
            name: wider(w.name, row.name.as_str()),
            size: wider(w.size, row.size.as_str()),
            fraction: wider(w.fraction, row.fraction.as_str()),
        };
        i = i + 1;
    }
    assert(rows@.subrange(0, i as int) =~= rows@);
    w
}

} // verus!
