//! The space-usage model of a database: tables with their columns and
//! indexes, the queries that gather it, and its ordering by size.

use vstd::prelude::*;
use crate::format::{Format, UnsupportedColumnType, resolve, resolve_format};

verus! {

broadcast use vstd::seq_lib::group_to_multiset_ensures;

/// A table: its own page bytes, row count, columns and indexes.
#[derive(Debug, Clone, PartialEq, Eq, Hash)]
pub struct Table {
    pub name: String,
    pub rows: u64,
    pub size: u64,
    pub columns: Vec<Column>,
    pub indexes: Vec<Index>,
}

/// A column: its semantic type and the total byte length of its non-null
/// values.
#[derive(Debug, Clone, PartialEq, Eq, Hash)]
pub struct Column {
    pub name: String,
    pub format: Format,
    pub length: u64,
}

/// An index and the page bytes attributed to it.
#[derive(Debug, Clone, PartialEq, Eq, Hash)]
pub struct Index {
    pub name: String,
    pub size: u64,
}

/// Sum of the sizes of a sequence of indexes.
pub open spec fn index_total(ix: Seq<Index>) -> nat
    decreases ix.len(),
{
    if ix.len() == 0 {
        0
    } else {
        index_total(ix.drop_last()) + ix.last().size as nat
    }
}

/// Sum of the lengths of a sequence of columns.
pub open spec fn column_total(cs: Seq<Column>) -> nat
    decreases cs.len(),
{
    if cs.len() == 0 {
        0
    } else {
        column_total(cs.drop_last()) + cs.last().length as nat
    }
}

/// The combined footprint of a table: its own pages and those of its indexes.
pub open spec fn footprint(t: Table) -> nat {
    t.size as nat + index_total(t.indexes@)
}

/// Sum of the footprints of a sequence of tables.
pub open spec fn total_footprint(ts: Seq<Table>) -> nat
    decreases ts.len(),
{
    if ts.len() == 0 {
        0
    } else {
        total_footprint(ts.drop_last()) + footprint(ts.last())
    }
}

/// Footprints never increase along the sequence.
pub open spec fn sorted_by_footprint(ts: Seq<Table>) -> bool {
    forall|i: int, j: int| 0 <= i < j < ts.len() ==> footprint(#[trigger] ts[i]) >= footprint(#[trigger] ts[j])
}

/// Tables whose footprint is `v`.
pub open spec fn of_footprint(v: nat) -> spec_fn(Table) -> bool {
    |t: Table| footprint(t) == v
}

/// Inserting `x` after every table larger than it puts `x` first among the
/// tables of its footprint and leaves the others as they were.
proof fn lemma_insert_filter(s: Seq<Table>, p: int, x: Table, v: nat)
    requires
        0 <= p <= s.len(),
        forall|j: int| 0 <= j < p ==> footprint(#[trigger] s[j]) > footprint(x),
    ensures
        s.insert(p, x).filter(of_footprint(v)) == if footprint(x) == v {
            seq![x] + s.filter(of_footprint(v))
        } else {
            s.filter(of_footprint(v))
        },
{
    let pred = of_footprint(v);
    let a = s.subrange(0, p);
    let b = s.subrange(p, s.len() as int);
    assert(s =~= a + b);
    assert(s.insert(p, x) =~= a + (seq![x] + b));
    Seq::filter_distributes_over_add(a, seq![x] + b, pred);
    Seq::filter_distributes_over_add(a, b, pred);
    b.lemma_filter_prepend(x, pred);
    if footprint(x) == v {
        assert(a.all(|t: Table| !pred(t))) by {
            assert forall|j: int| 0 <= j < a.len() implies !pred(#[trigger] a[j]) by {
                assert(a[j] == s[j]);
            }
        }
        a.lemma_all_neg_filter_empty(pred);
        assert(a.filter(pred) =~= Seq::<Table>::empty());
        assert(seq![x].filter(pred) =~= seq![x]) by {
            Seq::<Table>::empty().lemma_filter_prepend(x, pred);
            assert(seq![x] =~= seq![x] + Seq::<Table>::empty());
            reveal(Seq::filter);
        }
    }
}

proof fn lemma_index_total_bound(ix: Seq<Index>)
    ensures
        index_total(ix) <= ix.len() * 0xffff_ffff_ffff_ffff,
    decreases ix.len(),
{
    if ix.len() > 0 {
        lemma_index_total_bound(ix.drop_last());
    }
}

proof fn lemma_column_total_bound(cs: Seq<Column>)
    ensures
        column_total(cs) <= cs.len() * 0xffff_ffff_ffff_ffff,
    decreases cs.len(),
{
    if cs.len() > 0 {
        lemma_column_total_bound(cs.drop_last());
    }
}

/// Total page bytes of the table's indexes.
pub fn indexes_size(t: &Table) -> (r: u128)
    ensures
        r == index_total(t.indexes@),
{
    let mut sum: u128 = 0;
    let mut i: usize = 0;
    while i < t.indexes.len()
        invariant
            i <= t.indexes@.len(),
            sum == index_total(t.indexes@.subrange(0, i as int)),
        decreases t.indexes@.len() - i,
    {
        proof {
            lemma_index_total_bound(t.indexes@.subrange(0, i as int));
            assert(t.indexes@.subrange(0, i + 1 as int).drop_last() =~= t.indexes@.subrange(0, i as int));
        }
        assert(sum <= i * 0xffff_ffff_ffff_ffff);
        assert(i * 0xffff_ffff_ffff_ffff + 0xffff_ffff_ffff_ffff <= 0xffff_ffff_ffff_ffff_ffff_ffff_ffff_ffff) by (nonlinear_arith)
            requires
                i < 0x1_0000_0000_0000_0000,
        ;
        sum = sum + t.indexes[i].size as u128;
        i = i + 1;
    }
    assert(t.indexes@.subrange(0, i as int) =~= t.indexes@);
    sum
}

/// Total stored bytes of the table's columns.
pub fn columns_size(t: &Table) -> (r: u128)
    ensures
        r == column_total(t.columns@),
{
    let mut sum: u128 = 0;
    let mut i: usize = 0;
    while i < t.columns.len()
        invariant
            i <= t.columns@.len(),
            sum == column_total(t.columns@.subrange(0, i as int)),
        decreases t.columns@.len() - i,
    {
        proof {
            lemma_column_total_bound(t.columns@.subrange(0, i as int));
            assert(t.columns@.subrange(0, i + 1 as int).drop_last() =~= t.columns@.subrange(0, i as int));
        }
        assert(sum <= i * 0xffff_ffff_ffff_ffff);
        assert(i * 0xffff_ffff_ffff_ffff + 0xffff_ffff_ffff_ffff <= 0xffff_ffff_ffff_ffff_ffff_ffff_ffff_ffff) by (nonlinear_arith)
            requires
                i < 0x1_0000_0000_0000_0000,
        ;
        sum = sum + t.columns[i].length as u128;
        i = i + 1;
    }
    assert(t.columns@.subrange(0, i as int) =~= t.columns@);
    sum
}

/// The combined footprint of a table: its own pages and its indexes' pages.
pub fn table_size(t: &Table) -> (r: u128)
    ensures
        r == footprint(*t),
{
    let ix = indexes_size(t);
    let n = t.indexes.len();
    proof {
        lemma_index_total_bound(t.indexes@);
        assert(t.indexes@.len() * 0xffff_ffff_ffff_ffff + 0xffff_ffff_ffff_ffff <= 0xffff_ffff_ffff_ffff_ffff_ffff_ffff_ffff) by (nonlinear_arith)
            requires
                t.indexes@.len() < 0x1_0000_0000_0000_0000,
        ;
    }
    t.size as u128 + ix
}

pub(crate) proof fn lemma_total_footprint_prefix(ts: Seq<Table>, i: int)
    requires
        0 <= i <= ts.len(),
    ensures
        total_footprint(ts.subrange(0, i)) <= total_footprint(ts),
    decreases ts.len() - i,
{
    if i < ts.len() {
        lemma_total_footprint_prefix(ts, i + 1);
        assert(ts.subrange(0, i + 1).drop_last() =~= ts.subrange(0, i));
    } else {
        assert(ts.subrange(0, i) =~= ts);
    }
}

/// A table's footprint is part of the total of any prefix that holds it.
pub(crate) proof fn lemma_footprint_in_prefix(ts: Seq<Table>, i: int, n: int)
    requires
        0 <= i < n <= ts.len(),
    ensures
        footprint(ts[i]) <= total_footprint(ts.subrange(0, n)),
        total_footprint(ts.subrange(0, n)) <= total_footprint(ts),
{
    lemma_total_footprint_prefix(ts, n);
    let pre = ts.subrange(0, n);
    lemma_total_footprint_prefix(pre, i + 1);
    assert(pre.subrange(0, i + 1).drop_last() =~= pre.subrange(0, i));
}

/// A column's length is part of its table's column total.
pub(crate) proof fn lemma_column_in_total(cs: Seq<Column>, i: int)
    requires
        0 <= i < cs.len(),
    ensures
        cs[i].length <= column_total(cs),
    decreases cs.len(),
{
    if i < cs.len() - 1 {
        lemma_column_in_total(cs.drop_last(), i);
    }
}

/// An index's size is part of its table's index total.
pub(crate) proof fn lemma_index_in_total(ix: Seq<Index>, i: int)
    requires
        0 <= i < ix.len(),
    ensures
        ix[i].size <= index_total(ix),
    decreases ix.len(),
{
    if i < ix.len() - 1 {
        lemma_index_in_total(ix.drop_last(), i);
    }
}

/// The summed footprint of all tables, where it fits in 64 bits.
pub fn total_size(tables: &Vec<Table>) -> (r: Option<u64>)
    ensures
        match r {
            Some(s) => s == total_footprint(tables@),
            None => total_footprint(tables@) > u64::MAX,
        },
{
    let mut sum: u64 = 0;
    let mut i: usize = 0;
    while i < tables.len()
        invariant
            i <= tables@.len(),
            sum == total_footprint(tables@.subrange(0, i as int)),
        decreases tables@.len() - i,
    {
        assert(tables@.subrange(0, i + 1 as int).drop_last() =~= tables@.subrange(0, i as int));
        let f = table_size(&tables[i]);
        if f > (u64::MAX - sum) as u128 {
            proof {
                lemma_total_footprint_prefix(tables@, i + 1);
            }
            return None;
        }
        sum = sum + f as u64;
        i = i + 1;
    }
    assert(tables@.subrange(0, i as int) =~= tables@);
    Some(sum)
}

/// Orders tables by footprint, largest first; tables of equal footprint keep
/// their relative order.
pub fn sort_by_size(tables: &mut Vec<Table>)
    ensures
        final(tables)@.to_multiset() == old(tables)@.to_multiset(),
        final(tables)@.len() == old(tables)@.len(),
        sorted_by_footprint(final(tables)@),
        forall|v: nat| #[trigger] final(tables)@.filter(of_footprint(v)) == old(tables)@.filter(of_footprint(v)),
{
    let ghost orig = tables@;
    let mut sorted: Vec<Table> = Vec::new();
    while tables.len() > 0
        invariant
            sorted@.to_multiset().add(tables@.to_multiset()) == orig.to_multiset(),
            sorted@.len() + tables@.len() == orig.len(),
            sorted_by_footprint(sorted@),
            tables@ == orig.subrange(0, tables@.len() as int),
            forall|v: nat| #[trigger] sorted@.filter(of_footprint(v)) == orig.subrange(tables@.len() as int, orig.len() as int).filter(of_footprint(v)),
        decreases tables@.len(),
    {
        let ghost before = tables@;
        let t = tables.pop().unwrap();
        assert(before == tables@.push(t));
        assert(tables@ =~= orig.subrange(0, tables@.len() as int));
        assert(orig.subrange(tables@.len() as int, orig.len() as int) =~= seq![t] + orig.subrange(before.len() as int, orig.len() as int));
        let f = table_size(&t);
        let mut p: usize = 0;
        while p < sorted.len() && table_size(&sorted[p]) > f
            invariant
                p <= sorted@.len(),
                f == footprint(t),
                forall|j: int| 0 <= j < p ==> footprint(#[trigger] sorted@[j]) > footprint(t),
            decreases sorted@.len() - p,
        {
            p = p + 1;
        }
        let ghost old_sorted = sorted@;
        sorted.insert(p, t);
        assert forall|v: nat| #[trigger] sorted@.filter(of_footprint(v)) == orig.subrange(tables@.len() as int, orig.len() as int).filter(of_footprint(v)) by {
            lemma_insert_filter(old_sorted, p as int, t, v);
            orig.subrange(before.len() as int, orig.len() as int).lemma_filter_prepend(t, of_footprint(v));
        }
        assert(sorted@.to_multiset() == old_sorted.to_multiset().insert(t));
        assert forall|i: int, j: int| 0 <= i < j < sorted@.len() implies footprint(#[trigger] sorted@[i]) >= footprint(#[trigger] sorted@[j]) by {
            if p < old_sorted.len() {
                assert(footprint(old_sorted[p as int]) <= footprint(t));
            }
            if j > p && i < p {
                assert(footprint(old_sorted[i]) > footprint(t));
            }
            if i == p && j > p {
                assert(footprint(old_sorted[p as int]) >= footprint(old_sorted[j - 1]));
            }
        }
        assert(sorted@.to_multiset().add(tables@.to_multiset()) =~= orig.to_multiset());
    }
    assert(orig.subrange(0, orig.len() as int) =~= orig);
    *tables = sorted;
    assert(tables@.len() == orig.len());
}

/// Resolves the declared type of each `(name, declared type)` pair, in
/// order; the first type that resolves to no format is the error.
pub fn resolve_columns(decls: &Vec<(String, String)>) -> (r: Result<Vec<(String, Format)>, UnsupportedColumnType>)
    ensures
        match r {
            Ok(v) => {
                &&& v@.len() == decls@.len()
                &&& forall|i: int| 0 <= i < v@.len() ==> {
                    &&& (#[trigger] v@[i]).0@ == decls@[i].0@
                    &&& resolve(decls@[i].1@) == Some(v@[i].1)
                }
            },
            Err(e) => exists|k: int| {
                &&& 0 <= k < decls@.len()
                &&& resolve(#[trigger] decls@[k].1@) is None
                &&& e.declared@ == decls@[k].1@
                &&& forall|j: int| 0 <= j < k ==> resolve(#[trigger] decls@[j].1@) is Some
            },
        },
{
    let mut v: Vec<(String, Format)> = Vec::new();
    let mut i: usize = 0;
    while i < decls.len()
        invariant
            i <= decls@.len(),
            v@.len() == i,
            forall|j: int| 0 <= j < i ==> {
                &&& (#[trigger] v@[j]).0@ == decls@[j].0@
                &&& resolve(decls@[j].1@) == Some(v@[j].1)
            },
        decreases decls@.len() - i,
    {
        let (name, declared) = &decls[i];
        match resolve_format(declared.as_str()) {
            Ok(f) => {
                v.push((name.clone(), f));
            },
            Err(e) => {
                assert forall|j: int| 0 <= j < i implies resolve(#[trigger] decls@[j].1@) is Some by {
                    assert(resolve(decls@[j].1@) == Some(v@[j].1));
                }
                assert(resolve(decls@[i as int].1@) is None);
                return Err(e);
            },
        }
        i = i + 1;
    }
    Ok(v)
}

} // verus!
