//! Properties of the library that relate several of its functions or hold
//! for all inputs, each proved from the specifications the functions meet.

use vstd::prelude::*;
use crate::format::{Format, alias_matches, ascii_lower, format_aliases, has_alias, resolve};
use crate::view::{Key, Page, clamp_selection, is_browsing, next_page, next_selected};
use crate::chart::percent_label;
use crate::stats::{Table, footprint, total_footprint};
use vstd::arithmetic::div_mod::{lemma_fundamental_div_mod, lemma_mod_pos_bound};

verus! {

proof fn lemma_prefixes_differ(a: Seq<char>, b: Seq<char>)
    requires
        a.len() >= 3,
        b.len() >= 3,
        a[0] != b[0] || a[1] != b[1] || a[2] != b[2],
    ensures
        !alias_matches(a, b),
{
    if b.len() <= a.len() && a.subrange(0, b.len() as int) == b {
        assert(a.subrange(0, b.len() as int)[0] == a[0]);
        assert(a.subrange(0, b.len() as int)[1] == a[1]);
        assert(a.subrange(0, b.len() as int)[2] == a[2]);
    }
    if a.len() <= b.len() && b.subrange(0, a.len() as int) == a {
        assert(b.subrange(0, a.len() as int)[0] == b[0]);
        assert(b.subrange(0, a.len() as int)[1] == b[1]);
        assert(b.subrange(0, a.len() as int)[2] == b[2]);
    }
}

/// Position of a format in the order in which aliases are tried.
spec fn rank(f: Format) -> nat {
    match f {
        Format::Integer => 0,
        Format::Numeric => 1,
        Format::Real => 2,
        Format::Boolean => 3,
        Format::Text => 4,
        Format::Blob => 5,
    }
}

/// What the proofs need of the alias texts: each has at least four
/// characters, is already lower case, and differs within its first three
/// characters from every alias of a format tried earlier.
proof fn lemma_reveal_aliases()
    ensures
        forall|f: Format, i: int| 0 <= i < format_aliases(f).len() ==> {
            &&& (#[trigger] format_aliases(f)[i]).len() >= 4
            &&& ascii_lower(format_aliases(f)[i]) == format_aliases(f)[i]
        },
        forall|f: Format, i: int, g: Format, j: int|
            0 <= i < format_aliases(f).len() && 0 <= j < format_aliases(g).len() && rank(g) < rank(f) ==> {
                let a = #[trigger] format_aliases(f)[i];
                let b = #[trigger] format_aliases(g)[j];
                a[0] != b[0] || a[1] != b[1] || a[2] != b[2]
            },
{
    reveal_strlit("integer");
    reveal_strlit("tinyint");
    reveal_strlit("smallint");
    reveal_strlit("mediumint");
    reveal_strlit("bigint");
    reveal_strlit("unsigned big int");
    reveal_strlit("int2");
    reveal_strlit("int8");
    reveal_strlit("numeric");
    reveal_strlit("date");
    reveal_strlit("real");
    reveal_strlit("float");
    reveal_strlit("double");
    reveal_strlit("decimal");
    reveal_strlit("boolean");
    reveal_strlit("text");
    reveal_strlit("char");
    reveal_strlit("varchar");
    reveal_strlit("varying character");
    reveal_strlit("nchar");
    reveal_strlit("native character");
    reveal_strlit("nvarchar");
    reveal_strlit("clob");
    reveal_strlit("timestamp");
    reveal_strlit("blob");
    assert forall|f: Format, i: int| 0 <= i < format_aliases(f).len() implies {
        &&& (#[trigger] format_aliases(f)[i]).len() >= 4
        &&& ascii_lower(format_aliases(f)[i]) == format_aliases(f)[i]
    } by {
        let a = format_aliases(f)[i];
        assert(ascii_lower(a) =~= a);
    }
    assert forall|f: Format, i: int, g: Format, j: int|
        0 <= i < format_aliases(f).len() && 0 <= j < format_aliases(g).len() && rank(g) < rank(f) implies {
            let a = #[trigger] format_aliases(f)[i];
            let b = #[trigger] format_aliases(g)[j];
            a[0] != b[0] || a[1] != b[1] || a[2] != b[2]
        } by {
    }
}

/// No alias of a format tried earlier than `f` matches an alias of `f`.
proof fn lemma_no_earlier_match(f: Format, i: int, g: Format, j: int)
    requires
        0 <= i < format_aliases(f).len(),
        0 <= j < format_aliases(g).len(),
        rank(g) < rank(f),
    ensures
        !alias_matches(format_aliases(f)[i], format_aliases(g)[j]),
{
    lemma_reveal_aliases();
    lemma_prefixes_differ(format_aliases(f)[i], format_aliases(g)[j]);
}

/// Every alias of a format resolves to that format.
pub proof fn lemma_alias_resolves(f: Format, i: int)
    requires
        0 <= i < format_aliases(f).len(),
    ensures
        resolve(format_aliases(f)[i]) == Some(f),
{
    lemma_reveal_aliases();
    let a = format_aliases(f)[i];
    assert(ascii_lower(a) == a);
    assert(a.subrange(0, a.len() as int) =~= a);
    assert(alias_matches(a, format_aliases(f)[i]));
    assert(has_alias(a, f));
    assert forall|g: Format| rank(g) < rank(f) implies !has_alias(a, g) by {
        assert forall|j: int| 0 <= j < format_aliases(g).len() implies !alias_matches(a, #[trigger] format_aliases(g)[j]) by {
            lemma_no_earlier_match(f, i, g, j);
        }
    }
    assert(rank(Format::Integer) < rank(f) ==> !has_alias(a, Format::Integer));
    assert(rank(Format::Numeric) < rank(f) ==> !has_alias(a, Format::Numeric));
    assert(rank(Format::Real) < rank(f) ==> !has_alias(a, Format::Real));
    assert(rank(Format::Boolean) < rank(f) ==> !has_alias(a, Format::Boolean));
    assert(rank(Format::Text) < rank(f) ==> !has_alias(a, Format::Text));
}

/// Resolution ignores ASCII case: declared types that agree once lower-cased
/// resolve alike, whether to a format or to none.
pub proof fn lemma_resolve_ignores_case(a: Seq<char>, b: Seq<char>)
    requires
        ascii_lower(a) == ascii_lower(b),
    ensures
        resolve(a) == resolve(b),
{
}

/// The selection after pressing `k` on page `p` `n` times in a row.
pub open spec fn repeated_selection(p: Page, sel: nat, len: nat, k: Key, n: nat) -> nat
    decreases n,
{
    if n == 0 {
        sel
    } else {
        next_selected(p, repeated_selection(p, sel, len, k, (n - 1) as nat), len, k)
    }
}

/// Navigation never leaves the snapshot: from any selection within `len`
/// tables, any number of presses of one key keeps it within; "previous"
/// pressed any number of times at the first table stays there, and "next"
/// at the last table stays there.
pub proof fn lemma_selection_in_range(p: Page, sel: nat, len: nat, k: Key, n: nat)
    requires
        sel < len,
    ensures
        repeated_selection(p, sel, len, k, n) < len,
        repeated_selection(p, 0, len, Key::Left, n) == 0,
        repeated_selection(p, (len - 1) as nat, len, Key::Right, n) == len - 1,
    decreases n,
{
    if n > 0 {
        lemma_selection_in_range(p, sel, len, k, (n - 1) as nat);
    }
}

/// Page transitions: "up" on the details page returns to the chart; "q" on
/// the compaction question cancels to the chart; confirming the question
/// starts the compaction; "down" or confirm on the chart opens the details;
/// "v" on either browsing page asks for compaction; "q" elsewhere quits.
/// Key presses never change the snapshot (see `View::handle_key`), and a
/// finished compaction always returns to the chart with a selection within
/// the fresh snapshot (see `View::finish_vacuum`).
pub proof fn lemma_page_transitions(p: Page, sel: nat, len: nat)
    requires
        sel < len,
    ensures
        next_page(Page::TableDetails, Key::Up) == Some(Page::TablesChart),
        next_page(Page::VacuumQuestion, Key::Char('q')) == Some(Page::TablesChart),
        next_page(Page::VacuumQuestion, Key::Enter) == Some(Page::VacuumProgress),
        next_page(Page::TablesChart, Key::Down) == Some(Page::TableDetails),
        next_page(Page::TablesChart, Key::Enter) == Some(Page::TableDetails),
        next_page(Page::TableDetails, Key::Enter) == Some(Page::TablesChart),
        is_browsing(p) ==> next_page(p, Key::Char('v')) == Some(Page::VacuumQuestion),
        p != Page::VacuumQuestion ==> next_page(p, Key::Char('q')) is None,
        clamp_selection(sel, len) < len,
        forall|m: nat| m > 0 ==> #[trigger] clamp_selection(sel, m) < m,
{
}

/// The whole-percent labels of tables that share a displayed total.
pub open spec fn label_sum(ts: Seq<Table>, total: nat) -> nat
    decreases ts.len(),
{
    if ts.len() == 0 {
        0
    } else {
        label_sum(ts.drop_last(), total) + percent_label(footprint(ts.last()), total)
    }
}

proof fn lemma_label_bounds(f: nat, total: nat)
    requires
        total > 0,
    ensures
        2 * total * percent_label(f, total) <= 200 * f + total,
        2 * total * percent_label(f, total) + 2 * total > 200 * f + total,
{
    let x = (200 * f + total) as int;
    let d = (2 * total) as int;
    lemma_fundamental_div_mod(x, d);
    lemma_mod_pos_bound(x, d);
}

proof fn lemma_label_sum_bounds(ts: Seq<Table>, total: nat)
    requires
        total > 0,
    ensures
        2 * total * label_sum(ts, total) <= 200 * total_footprint(ts) + ts.len() * total,
        2 * total * label_sum(ts, total) + ts.len() * total >= 200 * total_footprint(ts),
        ts.len() > 0 ==> 2 * total * label_sum(ts, total) + ts.len() * total > 200 * total_footprint(ts),
    decreases ts.len(),
{
    if ts.len() > 0 {
        lemma_label_sum_bounds(ts.drop_last(), total);
        lemma_label_bounds(footprint(ts.last()), total);
        let l = label_sum(ts.drop_last(), total);
        let q = percent_label(footprint(ts.last()), total);
        let n = ts.len();
        let ff = total_footprint(ts.drop_last());
        let f = footprint(ts.last());
        assert(total_footprint(ts) == ff + f);
        assert(label_sum(ts, total) == l + q);
        assert(2 * total * (l + q) <= 200 * (ff + f) + n * total && 2 * total * (l + q) + n * total > 200 * (ff + f))
            by (nonlinear_arith)
            requires
                2 * total * l <= 200 * ff + (n - 1) * total,
                2 * total * l + (n - 1) * total >= 200 * ff,
                2 * total * q <= 200 * f + total,
                2 * total * q + 2 * total > 200 * f + total,
                n >= 1,
        ;
        let ls = label_sum(ts, total);
        let tf = total_footprint(ts);
        assert(2 * total * ls <= 200 * tf + n * total && 2 * total * ls + n * total > 200 * tf) by (nonlinear_arith)
            requires
                ls == l + q,
                tf == ff + f,
                2 * total * (l + q) <= 200 * (ff + f) + n * total,
                2 * total * (l + q) + n * total > 200 * (ff + f),
        ;
    } else {
        assert(ts.len() * total == 0 && 2 * total * label_sum(ts, total) == 0) by (nonlinear_arith)
            requires
                ts.len() == 0,
                label_sum(ts, total) == 0,
        ;
    }
}

/// The whole-percent labels of the displayed bars add up to 100 within
/// rounding: with `n` bars, twice their sum lies in `(200 - n, 200 + n]`.
pub proof fn lemma_percent_labels_sum(ts: Seq<Table>)
    requires
        ts.len() > 0,
        total_footprint(ts) > 0,
    ensures
        2 * label_sum(ts, total_footprint(ts)) <= 200 + ts.len(),
        2 * label_sum(ts, total_footprint(ts)) + ts.len() > 200,
{
    let t = total_footprint(ts);
    lemma_label_sum_bounds(ts, t);
    let s = label_sum(ts, t);
    let n = ts.len();
    assert(2 * s <= 200 + n) by (nonlinear_arith)
        requires
            2 * t * s <= 200 * t + n * t,
            t > 0,
    ;
    assert(2 * s + n > 200) by (nonlinear_arith)
        requires
            2 * t * s + n * t > 200 * t,
            t > 0,
    ;
}

/// A larger footprint never gets a smaller percentage label.
pub proof fn lemma_percent_label_monotonic(a: nat, b: nat, total: nat)
    requires
        a <= b,
    ensures
        percent_label(a, total) <= percent_label(b, total),
{
    if total > 0 {
        vstd::arithmetic::div_mod::lemma_div_is_ordered((200 * a + total) as int, (200 * b + total) as int, (2 * total) as int);
    }
}

} // verus!
