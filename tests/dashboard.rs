use vinolite::chart::{raise_bar, Bar};
use vinolite::details::{column_rows, column_widths, index_rows, index_widths};
use vinolite::format::Format;
use vinolite::stats::{sort_by_size, table_size, total_size, Column, Index, Table};
use vinolite::view::{footer_hints, Hint, Key, Outcome, Page, View};

fn table(name: &str, rows: u64, size: u64, columns: Vec<Column>, indexes: Vec<Index>) -> Table {
    Table { name: name.to_string(), rows, size, columns, indexes }
}

fn column(name: &str, format: Format, length: u64) -> Column {
    Column { name: name.to_string(), format, length }
}

fn index(name: &str, size: u64) -> Index {
    Index { name: name.to_string(), size }
}

fn three_tables() -> Vec<Table> {
    vec![
        table("A", 10, 4096, vec![column("id", Format::Integer, 80)], vec![]),
        table("B", 0, 0, vec![column("x", Format::Text, 0)], vec![]),
        table("C", 1_000_000, 50 * 1024 * 1024, vec![column("id", Format::Integer, 8_000_000)], vec![]),
    ]
}

fn names(view: &View) -> Vec<String> {
    view.tables.iter().map(|t| t.name.clone()).collect()
}

fn view_of(tables: Vec<Table>) -> View {
    View::new(tables).expect("the snapshot can be shown")
}

#[test]
fn end_to_end_three_tables() {
    let mut view = view_of(three_tables());
    assert_eq!(view.tables.len(), 3);
    assert_eq!(names(&view), vec!["C", "A", "B"]);
    assert_eq!(view.tables.iter().map(|t| t.rows).collect::<Vec<_>>(), vec![1_000_000, 10, 0]);
    assert!(table_size(&view.tables[0]) > table_size(&view.tables[1]));
    assert!(table_size(&view.tables[1]) > table_size(&view.tables[2]));

    assert_eq!(view.handle_key(Key::Right), Outcome::Continue);
    assert_eq!(view.handle_key(Key::Right), Outcome::Continue);
    assert_eq!(view.table().name, "B");
    assert_eq!(view.handle_key(Key::Down), Outcome::Continue);
    assert_eq!(view.page, Page::TableDetails);

    let columns = column_rows(view.table());
    assert_eq!(columns.len(), 1);
    assert_eq!(columns[0].name, "x");
    assert_eq!(columns[0].format, "text");
    assert_eq!(columns[0].size, "0.00 B");
    assert_eq!(columns[0].fraction, "0.00%");
    assert_eq!(columns[0].total, 0);
    let indexes = index_rows(view.table());
    assert!(indexes.is_empty());
    assert_eq!(view.title(), "Table `B`");
}

#[test]
fn empty_snapshot_is_refused() {
    assert!(View::new(vec![]).is_none());
}

#[test]
fn oversized_snapshot_is_refused() {
    let tables = vec![table("a", 0, u64::MAX, vec![], vec![]), table("b", 0, 1, vec![], vec![])];
    assert_eq!(total_size(&tables), None);
    assert!(View::new(tables).is_none());
}

#[test]
fn selection_saturates_at_both_ends() {
    let mut view = view_of(three_tables());
    for _ in 0..5 {
        view.handle_key(Key::Left);
        assert_eq!(view.selected_table, 0);
    }
    for _ in 0..2 {
        view.handle_key(Key::Right);
    }
    assert_eq!(view.selected_table, 2);
    for _ in 0..5 {
        view.handle_key(Key::Right);
        assert_eq!(view.selected_table, 2);
    }
}

#[test]
fn selection_with_one_table() {
    let mut view = view_of(vec![table("only", 1, 1, vec![], vec![])]);
    view.handle_key(Key::Right);
    assert_eq!(view.selected_table, 0);
    view.handle_key(Key::Left);
    assert_eq!(view.selected_table, 0);
}

#[test]
fn details_and_back() {
    let mut view = view_of(three_tables());
    view.handle_key(Key::Enter);
    assert_eq!(view.page, Page::TableDetails);
    view.handle_key(Key::Up);
    assert_eq!(view.page, Page::TablesChart);
    view.handle_key(Key::Down);
    assert_eq!(view.page, Page::TableDetails);
    view.handle_key(Key::Enter);
    assert_eq!(view.page, Page::TablesChart);
    view.handle_key(Key::Up);
    assert_eq!(view.page, Page::TablesChart);
}

#[test]
fn vacuum_question_cancel_keeps_tables() {
    let mut view = view_of(three_tables());
    let before = view.tables.clone();
    assert_eq!(view.handle_key(Key::Char('v')), Outcome::Continue);
    assert_eq!(view.page, Page::VacuumQuestion);
    assert_eq!(view.handle_key(Key::Char('q')), Outcome::Continue);
    assert_eq!(view.page, Page::TablesChart);
    assert_eq!(view.tables, before);
}

#[test]
fn vacuum_confirm_then_fresh_snapshot() {
    let mut view = view_of(three_tables());
    view.handle_key(Key::Right);
    view.handle_key(Key::Right);
    view.handle_key(Key::Down);
    view.handle_key(Key::Char('v'));
    assert!(!view.vacuum_pending());
    view.handle_key(Key::Enter);
    assert_eq!(view.page, Page::VacuumProgress);
    assert!(view.vacuum_pending());

    let fresh = vec![
        table("A", 10, 2048, vec![], vec![]),
        table("C", 1_000_000, 40 * 1024 * 1024, vec![], vec![index("c_idx", 1024)]),
    ];
    assert!(view.finish_vacuum(fresh));
    assert_eq!(view.page, Page::TablesChart);
    assert_eq!(names(&view), vec!["C", "A"]);
    assert_eq!(view.tables[0].size, 40 * 1024 * 1024);
    assert_eq!(view.selected_table, 1);
    assert!(!view.vacuum_pending());
}

#[test]
fn vacuum_with_empty_snapshot_is_refused() {
    let mut view = view_of(three_tables());
    view.handle_key(Key::Char('v'));
    view.handle_key(Key::Enter);
    assert!(!view.finish_vacuum(vec![]));
    assert_eq!(view.page, Page::VacuumProgress);
    assert_eq!(view.tables.len(), 3);
}

#[test]
fn quit_from_browsing_pages() {
    let mut view = view_of(three_tables());
    assert_eq!(view.handle_key(Key::Char('q')), Outcome::Quit);
    view.handle_key(Key::Enter);
    assert_eq!(view.handle_key(Key::Char('q')), Outcome::Quit);
    assert_eq!(view.page, Page::TableDetails);
}

#[test]
fn other_keys_change_nothing() {
    let mut view = view_of(three_tables());
    view.handle_key(Key::Char('x'));
    view.handle_key(Key::Other);
    assert_eq!(view.page, Page::TablesChart);
    assert_eq!(view.selected_table, 0);
}

#[test]
fn selection_is_frozen_on_vacuum_pages() {
    let mut view = view_of(three_tables());
    view.handle_key(Key::Char('v'));
    view.handle_key(Key::Right);
    assert_eq!(view.selected_table, 0);
    assert_eq!(view.page, Page::VacuumQuestion);
}

#[test]
fn chart_percentages_sum_to_one_hundred() {
    let view = view_of(three_tables());
    let bars = view.chart_bars(80);
    assert_eq!(bars.len(), 3);
    let percents: Vec<u64> = bars.iter().map(|b| b.percent).collect();
    assert_eq!(percents, vec![100, 0, 0]);
    assert_eq!(percents.iter().sum::<u64>(), 100);
    assert!(bars[0].selected && !bars[1].selected && !bars[2].selected);
    assert_eq!(bars[0].total, 50 * 1024 * 1024 + 4096);
}

#[test]
fn chart_percentages_with_even_tables() {
    let tables = vec![
        table("a", 1, 100, vec![], vec![]),
        table("b", 1, 100, vec![], vec![]),
        table("c", 1, 100, vec![], vec![]),
    ];
    let view = view_of(tables);
    let bars = view.chart_bars(18);
    let sum: u64 = bars.iter().map(|b| b.percent).sum();
    assert_eq!(bars.iter().map(|b| b.percent).collect::<Vec<_>>(), vec![33, 33, 33]);
    assert!(sum.abs_diff(100) <= bars.len() as u64 / 2 + 1);
}

#[test]
fn chart_shows_as_many_bars_as_fit() {
    let view = view_of(three_tables());
    assert_eq!(view.chart_bars(12).len(), 2);
    assert_eq!(view.chart_bars(5).len(), 0);
    let bars = view.chart_bars(12);
    // The displayed total covers the displayed tables only.
    assert_eq!(bars[0].total, 50 * 1024 * 1024 + 4096);
}

#[test]
fn bar_split_between_table_and_indexes() {
    let view = view_of(vec![
        table("t", 1, 300, vec![], vec![index("i", 100)]),
        table("z", 0, 0, vec![], vec![]),
    ]);
    let bars = view.chart_bars(12);
    assert_eq!(
        bars[0],
        Bar { table: 0, footprint: 400, total: 400, percent: 100, table_share: (300u64 * 0xffff_ffff / 400) as u32, selected: true }
    );
    assert_eq!(bars[1].table_share, 0);
    assert_eq!(bars[1].percent, 0);
}

#[test]
fn summary_of_selected_table() {
    let view = view_of(three_tables());
    let lines = view.summary_lines();
    assert_eq!(lines[0], "Table size  : 50.00 MB (99.99% of total)");
    assert_eq!(lines[1], "Indexes size: 0.00 B");
    assert_eq!(lines[2], "Rows        : 1000000");
    assert_eq!(view.title(), "Table `C`");
}

#[test]
fn detail_rows_and_widths() {
    let t = table(
        "t",
        3,
        8192,
        vec![column("identifier", Format::Integer, 24), column("v", Format::Blob, 72)],
        vec![index("idx", 1024), index("a_much_longer_index_name", 3072)],
    );
    let columns = column_rows(&t);
    assert_eq!(columns[0].fraction, "25.00%");
    assert_eq!(columns[1].fraction, "75.00%");
    assert_eq!(columns[1].size, "72.00 B");
    assert_eq!(columns[1].format, "blob");
    let widths = column_widths(&columns);
    assert_eq!((widths.name, widths.format, widths.size, widths.fraction), (10, 7, 9, 8));

    let indexes = index_rows(&t);
    assert_eq!(indexes[0].size, "1.00 KB");
    assert_eq!(indexes[1].fraction, "75.00%");
    let widths = index_widths(&indexes);
    assert_eq!((widths.name, widths.size, widths.fraction), (24, 9, 8));
}

#[test]
fn widths_of_nothing_are_the_header_minimums() {
    let widths = column_widths(&vec![]);
    assert_eq!((widths.name, widths.format, widths.size, widths.fraction), (4, 4, 9, 8));
    let widths = index_widths(&vec![]);
    assert_eq!((widths.name, widths.size, widths.fraction), (4, 9, 8));
}

#[test]
fn sort_orders_largest_first() {
    let mut tables = vec![
        table("x", 0, 5, vec![], vec![]),
        table("y", 0, 9, vec![], vec![]),
        table("z", 0, 3, vec![], vec![index("zi", 2)]),
    ];
    sort_by_size(&mut tables);
    let order: Vec<&str> = tables.iter().map(|t| t.name.as_str()).collect();
    assert_eq!(order, vec!["y", "x", "z"]);
}

#[test]
fn footer_always_offers_a_q_key() {
    assert_eq!(
        footer_hints(Page::TablesChart),
        vec![Hint::Quit, Hint::Vacuum, Hint::SelectTable, Hint::TableDetails, Hint::SwitchPage]
    );
    assert_eq!(footer_hints(Page::VacuumQuestion), vec![Hint::Cancel, Hint::Confirm]);
    assert_eq!(footer_hints(Page::VacuumProgress), vec![Hint::Quit]);
}

#[test]
fn short_bars_grow_upwards() {
    assert_eq!(raise_bar(10, 6), (10, 6));
    assert_eq!(raise_bar(10, 1), (7, 4));
    assert_eq!(raise_bar(2, 0), (0, 4));
}

#[test]
fn column_totals_beyond_64_bits_are_shown() {
    let t = table(
        "wide",
        1,
        1,
        vec![column("a", Format::Blob, u64::MAX), column("b", Format::Blob, u64::MAX)],
        vec![],
    );
    let view = view_of(vec![t]);
    let columns = column_rows(view.table());
    assert_eq!(columns[0].fraction, "50.00%");
    assert_eq!(columns[0].total, 2 * u64::MAX as u128);
}
