//! The proportional bar chart of tables and the summary of the selected one.

use vstd::prelude::*;
use vstd::view::View as _;
use crate::stats::{Table, footprint, index_total, indexes_size, table_size, total_footprint};
use crate::text::{bytes_text, decimal, decimal_string, format_bytes, format_percent, percent_text, round_half_up};
use crate::view::View;

verus! {

/// Width in cells of one bar together with the gap after it.
pub const BAR_SLOT_WIDTH: u16 = 6;

/// The least height in cells of a bar, so that its segments stay visible.
pub const MIN_BAR_HEIGHT: u16 = 4;

/// A bar's vertical extent `(top, height)` raised to the least height: a
/// shorter bar grows upwards from its bottom edge, stopping at row zero.
pub open spec fn raised_extent(top: nat, height: nat) -> (nat, nat) {
    if height >= MIN_BAR_HEIGHT {
        (top, height)
    } else if top + height >= MIN_BAR_HEIGHT {
        ((top + height - MIN_BAR_HEIGHT) as nat, MIN_BAR_HEIGHT as nat)
    } else {
        (0, MIN_BAR_HEIGHT as nat)
    }
}

/// Raises a bar given by its top row and height to the least height.
pub fn raise_bar(top: u16, height: u16) -> (r: (u16, u16))
    ensures
        (r.0 as nat, r.1 as nat) == raised_extent(top as nat, height as nat),
{
    if height >= MIN_BAR_HEIGHT {
        (top, height)
    } else {
        let grow = MIN_BAR_HEIGHT - height;
        if top >= grow {
            (top - grow, MIN_BAR_HEIGHT)
        } else {
            (0, MIN_BAR_HEIGHT)
        }
    }
}

/// One bar of the chart.
#[derive(Debug, Clone, Copy, PartialEq, Eq)]
pub struct Bar {
    /// Position of the table in the snapshot.
    pub table: usize,
    /// The table's footprint.
    pub footprint: u64,
    /// The summed footprint of all displayed tables.
    pub total: u64,
    /// The footprint's share of the displayed total, in whole percent.
    pub percent: u64,
    /// The share of the bar taken by the table's own pages, out of `u32::MAX`.
    pub table_share: u32,
    /// Whether this is the selected table.
    pub selected: bool,
}

/// `part / whole` in whole percent, rounded half up; zero when `whole` is.
pub open spec fn percent_label(part: nat, whole: nat) -> nat {
    if whole == 0 {
        0
    } else {
        round_half_up(100 * part, whole)
    }
}

/// `part / whole` scaled to `u32::MAX` and rounded down; zero when `whole` is.
pub open spec fn share_ratio(part: nat, whole: nat) -> nat {
    if whole == 0 {
        0
    } else {
        part * 0xffff_ffff / whole
    }
}

/// How many bars fit in `width` cells, given `len` tables.
pub open spec fn bar_count(len: nat, width: nat) -> nat {
    let fit = width / BAR_SLOT_WIDTH as nat;
    if len < fit {
        len
    } else {
        fit
    }
}

/// The summed footprint of the first `n` tables.
pub open spec fn displayed_total(ts: Seq<Table>, n: nat) -> nat {
    total_footprint(ts.subrange(0, n as int))
}

/// The bar drawn for table `i` when the first `n` tables are displayed.
pub open spec fn bar_of(ts: Seq<Table>, n: nat, i: int, selected: int) -> Bar {
    let f = footprint(ts[i]);
    let total = displayed_total(ts, n);
    Bar {
        table: i as usize,
        footprint: f as u64,
        total: total as u64,
        percent: percent_label(f, total) as u64,
        table_share: share_ratio(ts[i].size as nat, f) as u32,
        selected: i == selected,
    }
}

/// The first line of the summary: the table's own size and its footprint's
/// share of all tables.
pub open spec fn size_line(t: Table, total: nat) -> Seq<char> {
    "Table size  : "@ + bytes_text(t.size as nat) + " ("@ + percent_text(footprint(t), total) + " of total)"@
}

pub open spec fn indexes_line(t: Table) -> Seq<char> {
    "Indexes size: "@ + bytes_text(index_total(t.indexes@))
}

pub open spec fn rows_line(t: Table) -> Seq<char> {
    "Rows        : "@ + decimal(t.rows as nat)
}

pub open spec fn table_title(t: Table) -> Seq<char> {
    "Table `"@ + t.name@ + "`"@
}

fn ratio_exec(part: u128, whole: u128, scale: u128) -> (r: u128)
    requires
        part <= whole,
        scale <= 0xffff_ffff_ffff_ffff,
        whole <= 0xffff_ffff_ffff_ffff,
    ensures
        whole == 0 ==> r == 0,
        whole > 0 ==> r == part * scale / (whole as int),
        r <= scale,
{
    if whole == 0 {
        0
    } else {
        assert(part * scale <= whole * scale) by (nonlinear_arith)
            requires
                part <= whole,
        ;
        assert(whole * scale <= 0xffff_ffff_ffff_ffff * 0xffff_ffff_ffff_ffff) by (nonlinear_arith)
            requires
                scale <= 0xffff_ffff_ffff_ffff,
                whole <= 0xffff_ffff_ffff_ffff,
        ;
        let r = part * scale / whole;
        assert(r <= scale) by (nonlinear_arith)
            requires
                r == part * scale / (whole as int),
                part <= whole,
                whole > 0,
        ;
        r
    }
}

impl View {
    /// The bars of the first page of the chart in `width` cells, each with its
    /// linear percentage of the displayed total and the split between the
    /// table's own pages and its indexes.
    pub fn chart_bars(&self, width: u16) -> (r: Vec<Bar>)
        requires
            self.wf(),
        ensures
            r@.len() == bar_count(self.tables@.len(), width as nat),
            forall|i: int|
                0 <= i < r@.len() ==> #[trigger] r@[i] == bar_of(
                    self.tables@,
                    r@.len() as nat,
                    i,
                    self.selected_table as int,
                ),
    {
        let fit = (width / BAR_SLOT_WIDTH) as usize;
        let n = if self.tables.len() < fit {
            self.tables.len()
        } else {
            fit
        };
        let ghost ts = self.tables@;
        let mut total: u64 = 0;
        let mut i: usize = 0;
        while i < n
            invariant
                n <= ts.len(),
                ts == self.tables@,
                self.wf(),
                i <= n,
                total == total_footprint(ts.subrange(0, i as int)),
            decreases n - i,
        {
            proof {
                crate::stats::lemma_footprint_in_prefix(ts, i as int, i + 1);
                assert(ts.subrange(0, i + 1 as int).drop_last() =~= ts.subrange(0, i as int));
            }
            total = total + table_size(&self.tables[i]) as u64;
            i = i + 1;
        }
        let mut bars: Vec<Bar> = Vec::new();
        let mut i: usize = 0;
        while i < n
            invariant
                n <= ts.len(),
                n == bar_count(ts.len(), width as nat),
                ts == self.tables@,
                self.wf(),
                i <= n,
                total == displayed_total(ts, n as nat),
                bars@.len() == i,
                forall|j: int| 0 <= j < i ==> #[trigger] bars@[j] == bar_of(ts, n as nat, j, self.selected_table as int),
            decreases n - i,
        {
            proof {
                crate::stats::lemma_footprint_in_prefix(ts, i as int, n as int);
            }
            let t = &self.tables[i];
            let f = table_size(t);
            let percent = if total == 0 {
                0
            } else {
                assert(200 * f + total <= 201 * 0xffff_ffff_ffff_ffff);
                (200 * f + total as u128) / (2 * total as u128)
            };
            assert(percent <= 100) by (nonlinear_arith)
                requires
                    total == 0 ==> percent == 0,
                    total > 0 ==> percent == (200 * f + total) / (2 * total),
                    f <= total,
            ;
            let share = ratio_exec(t.size as u128, f, 0xffff_ffff);
            bars.push(Bar {
                table: i,
                footprint: f as u64,
                total,
                percent: percent as u64,
                table_share: share as u32,
                selected: i == self.selected_table,
            });
            i = i + 1;
        }
        bars
    }

    /// The title of the selected table's panels.
    pub fn title(&self) -> (r: String)
        requires
            self.wf(),
        ensures
            r@ == table_title(self.selected()),
    {
        let t = self.table();
        let mut s = String::new();
        s.append("Table `");
        s.append(t.name.as_str());
        s.append("`");
        s
    }

    /// The summary of the selected table shown below the chart: its own size
    /// with its share of all tables, its indexes' size, and its row count.
    pub fn summary_lines(&self) -> (r: Vec<String>)
        requires
            self.wf(),
        ensures
            r@.len() == 3,
            r@[0]@ == size_line(self.selected(), total_footprint(self.tables@)),
            r@[1]@ == indexes_line(self.selected()),
            r@[2]@ == rows_line(self.selected()),
    {
        let t = self.table();
        let total = crate::stats::total_size(&self.tables).unwrap();
        let f = table_size(t);
        let ix = indexes_size(t);
        proof {
            crate::stats::lemma_footprint_in_prefix(self.tables@, self.selected_table as int, self.tables@.len() as int);
            assert(self.tables@.subrange(0, self.tables@.len() as int) =~= self.tables@);
        }
        let mut first = String::new();
        first.append("Table size  : ");
        first.append(format_bytes(t.size).as_str());
        first.append(" (");
        first.append(format_percent(f as u64, total as u128).as_str());
        first.append(" of total)");
        let mut second = String::new();
        second.append("Indexes size: ");
        second.append(format_bytes(ix as u64).as_str());
        let mut third = String::new();
        third.append("Rows        : ");
        third.append(decimal_string(t.rows).as_str());
        vec![first, second, third]
    }
}

} // verus!
