//! The dashboard's state: the page shown, the snapshot of tables and the
//! selected table, and how key presses and a finished compaction change it.

use vstd::prelude::*;
use vstd::view::View as _;
use crate::stats::{Table, footprint, of_footprint, sort_by_size, sorted_by_footprint, total_footprint, total_size};

verus! {

broadcast use vstd::seq_lib::group_to_multiset_ensures;

/// The pages of the dashboard.
#[derive(Debug, Clone, Copy, PartialEq, Eq, Structural)]
pub enum Page {
    TablesChart,
    TableDetails,
    VacuumQuestion,
    VacuumProgress,
}

/// A key press, as far as the dashboard distinguishes them.
#[derive(Debug, Clone, Copy, PartialEq, Eq, Structural)]
pub enum Key {
    Char(char),
    Left,
    Right,
    Up,
    Down,
    Enter,
    Other,
}

/// Whether the session goes on after a key press.
#[derive(Debug, Clone, Copy, PartialEq, Eq, Structural)]
pub enum Outcome {
    Continue,
    Quit,
}

/// A key binding offered in the footer.
#[derive(Debug, Clone, Copy, PartialEq, Eq, Structural)]
pub enum Hint {
    Quit,
    Vacuum,
    SelectTable,
    TableDetails,
    SwitchPage,
    Cancel,
    Confirm,
}

/// The key bindings offered on each page.
pub open spec fn page_hints(p: Page) -> Seq<Hint> {
    match p {
        Page::TablesChart => seq![Hint::Quit, Hint::Vacuum, Hint::SelectTable, Hint::TableDetails, Hint::SwitchPage],
        Page::TableDetails => seq![Hint::Quit, Hint::Vacuum, Hint::SelectTable, Hint::TableDetails, Hint::SwitchPage],
        Page::VacuumQuestion => seq![Hint::Cancel, Hint::Confirm],
        Page::VacuumProgress => seq![Hint::Quit],
    }
}

/// The key bindings to list in the footer of a page.
pub fn footer_hints(page: Page) -> (r: Vec<Hint>)
    ensures
        r@ == page_hints(page),
{
    match page {
        Page::TablesChart | Page::TableDetails => vec![Hint::Quit, Hint::Vacuum, Hint::SelectTable, Hint::TableDetails, Hint::SwitchPage],
        Page::VacuumQuestion => vec![Hint::Cancel, Hint::Confirm],
        Page::VacuumProgress => vec![Hint::Quit],
    }
}

/// The dashboard's mutable state.
#[derive(Debug)]
pub struct View {
    pub page: Page,
    pub tables: Vec<Table>,
    pub selected_table: usize,
}

/// The footprints of all tables of a snapshot together fit in 64 bits.
pub open spec fn counters_fit(ts: Seq<Table>) -> bool {
    total_footprint(ts) <= u64::MAX
}

/// A snapshot the dashboard can show: not empty, with counters that fit.
pub open spec fn showable(ts: Seq<Table>) -> bool {
    ts.len() > 0 && counters_fit(ts)
}

/// Whether a page lets the selection move and offers compaction.
pub open spec fn is_browsing(p: Page) -> bool {
    p == Page::TablesChart || p == Page::TableDetails
}

/// The page after a key press; `None` ends the session.
pub open spec fn next_page(p: Page, k: Key) -> Option<Page> {
    match k {
        Key::Char('q') => if p == Page::VacuumQuestion {
            Some(Page::TablesChart)
        } else {
            None
        },
        Key::Char('v') => if is_browsing(p) {
            Some(Page::VacuumQuestion)
        } else {
            Some(p)
        },
        Key::Enter => match p {
            Page::TablesChart => Some(Page::TableDetails),
            Page::TableDetails => Some(Page::TablesChart),
            Page::VacuumQuestion => Some(Page::VacuumProgress),
            Page::VacuumProgress => Some(p),
        },
        Key::Down => if p == Page::TablesChart {
            Some(Page::TableDetails)
        } else {
            Some(p)
        },
        Key::Up => if p == Page::TableDetails {
            Some(Page::TablesChart)
        } else {
            Some(p)
        },
        _ => Some(p),
    }
}

/// The selected index after a key press among `len` tables: left and right
/// move it by one on the browsing pages, saturating at both ends.
pub open spec fn next_selected(p: Page, sel: nat, len: nat, k: Key) -> nat {
    if !is_browsing(p) {
        sel
    } else {
        match k {
            Key::Left => if sel > 0 {
                (sel - 1) as nat
            } else {
                sel
            },
            Key::Right => if sel + 1 < len {
                sel + 1
            } else {
                sel
            },
            _ => sel,
        }
    }
}

/// `sel` kept within a snapshot of `len` tables.
pub open spec fn clamp_selection(sel: nat, len: nat) -> nat {
    if sel < len {
        sel
    } else {
        (len - 1) as nat
    }
}

impl View {
    pub open spec fn wf(&self) -> bool {
        &&& showable(self.tables@)
        &&& self.selected_table < self.tables@.len()
    }

    /// The selected table, in the model.
    pub open spec fn selected(&self) -> Table {
        self.tables@[self.selected_table as int]
    }

    /// A dashboard on the chart page, over the tables ordered largest first
    /// (tables of equal footprint in their given order), with the first one
    /// selected; `None` when there is nothing to show or
    /// the byte counters would not fit in 64 bits.
    pub fn new(tables: Vec<Table>) -> (r: Option<View>)
        ensures
            r is Some <==> showable(tables@),
            r matches Some(v) ==> {
                &&& v.wf()
                &&& v.page == Page::TablesChart
                &&& v.selected_table == 0
                &&& v.tables@.to_multiset() == tables@.to_multiset()
                &&& sorted_by_footprint(v.tables@)
                &&& forall|f: nat| #[trigger] v.tables@.filter(of_footprint(f)) == tables@.filter(of_footprint(f))
            },
    {
        let mut tables = tables;
        let ghost orig = tables@;
        sort_by_size(&mut tables);
        proof {
            lemma_permuted_showable(orig, tables@);
        }
        if tables.len() == 0 || !counters_fit_exec(&tables) {
            return None;
        }
        Some(View { page: Page::TablesChart, tables, selected_table: 0 })
    }

    /// The selected table.
    pub fn table(&self) -> (r: &Table)
        requires
            self.wf(),
        ensures
            *r == self.selected(),
    {
        &self.tables[self.selected_table]
    }

    /// Applies one key press. Tables are never changed by a key.
    pub fn handle_key(&mut self, key: Key) -> (r: Outcome)
        requires
            old(self).wf(),
        ensures
            final(self).wf(),
            final(self).tables@ == old(self).tables@,
            r == Outcome::Quit <==> next_page(old(self).page, key) is None,
            r == Outcome::Quit ==> *final(self) == *old(self),
            r == Outcome::Continue ==> {
                &&& Some(final(self).page) == next_page(old(self).page, key)
                &&& final(self).selected_table == next_selected(
                    old(self).page,
                    old(self).selected_table as nat,
                    old(self).tables@.len(),
                    key,
                )
            },
    {
        let browsing = self.page == Page::TablesChart || self.page == Page::TableDetails;
        match key {
            Key::Char(c) => {
                if c == 'q' {
                    if self.page == Page::VacuumQuestion {
                        self.page = Page::TablesChart;
                    } else {
                        return Outcome::Quit;
                    }
                } else if c == 'v' && browsing {
                    self.page = Page::VacuumQuestion;
                }
            },
            Key::Enter => {
                self.page = match self.page {
                    Page::TablesChart => Page::TableDetails,
                    Page::TableDetails => Page::TablesChart,
                    Page::VacuumQuestion => Page::VacuumProgress,
                    Page::VacuumProgress => Page::VacuumProgress,
                };
            },
            Key::Down => {
                if self.page == Page::TablesChart {
                    self.page = Page::TableDetails;
                }
            },
            Key::Up => {
                if self.page == Page::TableDetails {
                    self.page = Page::TablesChart;
                }
            },
            Key::Left => {
                if browsing && self.selected_table > 0 {
                    self.selected_table = self.selected_table - 1;
                }
            },
            Key::Right => {
                if browsing && self.selected_table < self.tables.len() - 1 {
                    self.selected_table = self.selected_table + 1;
                }
            },
            Key::Other => {},
        }
        Outcome::Continue
    }

    /// Whether the compaction confirmed by the user is yet to be run.
    pub fn vacuum_pending(&self) -> (r: bool)
        ensures
            r == (self.page == Page::VacuumProgress),
    {
        self.page == Page::VacuumProgress
    }

    /// Replaces the snapshot wholesale with one extracted after compaction,
    /// ordered as by `View::new`, and returns to the chart page, keeping the
    /// selection within the new snapshot. A snapshot that cannot be shown is
    /// refused and leaves the view unchanged.
    pub fn finish_vacuum(&mut self, tables: Vec<Table>) -> (r: bool)
        requires
            old(self).wf(),
        ensures
            final(self).wf(),
            r == showable(tables@),
            !r ==> *final(self) == *old(self),
            r ==> {
                &&& final(self).page == Page::TablesChart
                &&& final(self).tables@.to_multiset() == tables@.to_multiset()
                &&& sorted_by_footprint(final(self).tables@)
                &&& forall|f: nat| #[trigger] final(self).tables@.filter(of_footprint(f)) == tables@.filter(of_footprint(f))
                &&& final(self).selected_table == clamp_selection(
                    old(self).selected_table as nat,
                    tables@.len(),
                )
            },
    {
        let mut tables = tables;
        let ghost orig = tables@;
        sort_by_size(&mut tables);
        proof {
            lemma_permuted_showable(orig, tables@);
        }
        if tables.len() == 0 || !counters_fit_exec(&tables) {
            return false;
        }
        if self.selected_table >= tables.len() {
            self.selected_table = tables.len() - 1;
        }
        self.tables = tables;
        self.page = Page::TablesChart;
        true
    }
}

proof fn lemma_total_footprint_remove(ts: Seq<Table>, i: int)
    requires
        0 <= i < ts.len(),
    ensures
        total_footprint(ts) == total_footprint(ts.remove(i)) + footprint(ts[i]),
    decreases ts.len(),
{
    if i < ts.len() - 1 {
        lemma_total_footprint_remove(ts.drop_last(), i);
        assert(ts.remove(i).drop_last() =~= ts.drop_last().remove(i));
    } else {
        assert(ts.remove(i) =~= ts.drop_last());
    }
}

/// Reordering a snapshot keeps its total footprint.
proof fn lemma_total_footprint_permutation(a: Seq<Table>, b: Seq<Table>)
    requires
        a.to_multiset() == b.to_multiset(),
    ensures
        total_footprint(a) == total_footprint(b),
    decreases a.len(),
{
    a.to_multiset_ensures();
    b.to_multiset_ensures();
    if a.len() > 0 {
        let x = a.last();
        assert(a.to_multiset().count(x) > 0);
        assert(b.contains(x));
        let j = choose|j: int| 0 <= j < b.len() && b[j] == x;
        assert(a.drop_last().to_multiset() == a.to_multiset().remove(x)) by {
            assert(a =~= a.drop_last().push(x));
        }
        assert(b.remove(j).to_multiset() == b.to_multiset().remove(x));
        lemma_total_footprint_permutation(a.drop_last(), b.remove(j));
        lemma_total_footprint_remove(b, j);
    } else {
        assert(b.len() == 0);
    }
}

proof fn lemma_permuted_showable(a: Seq<Table>, b: Seq<Table>)
    requires
        a.to_multiset() == b.to_multiset(),
    ensures
        showable(a) == showable(b),
        a.len() == b.len(),
{
    a.to_multiset_ensures();
    b.to_multiset_ensures();
    lemma_total_footprint_permutation(a, b);
}

fn counters_fit_exec(tables: &Vec<Table>) -> (r: bool)
    ensures
        r == counters_fit(tables@),
{
    total_size(tables).is_some()
}

} // verus!
