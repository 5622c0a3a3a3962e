//! Human-readable rendering of byte counts and percentages.

use vstd::prelude::*;

verus! {

/// The character of a decimal digit.
pub open spec fn digit_char(d: nat) -> char {
    if d == 0 {
        '0'
    } else if d == 1 {
        '1'
    } else if d == 2 {
        '2'
    } else if d == 3 {
        '3'
    } else if d == 4 {
        '4'
    } else if d == 5 {
        '5'
    } else if d == 6 {
        '6'
    } else if d == 7 {
        '7'
    } else if d == 8 {
        '8'
    } else {
        '9'
    }
}

/// The decimal notation of `n`, without leading zeros.
pub open spec fn decimal(n: nat) -> Seq<char>
    decreases n,
{
    if n < 10 {
        seq![digit_char(n)]
    } else {
        decimal(n / 10).push(digit_char(n % 10))
    }
}

/// `n / d` rounded to the nearest integer, ties to the even one.
pub open spec fn round_half_even(n: nat, d: nat) -> nat
    recommends
        d > 0,
{
    let q = n / d;
    let r = n % d;
    if 2 * r > d {
        q + 1
    } else if 2 * r < d {
        q
    } else if q % 2 == 0 {
        q
    } else {
        q + 1
    }
}

/// `n / d` rounded to the nearest integer, ties away from zero.
pub open spec fn round_half_up(n: nat, d: nat) -> nat
    recommends
        d > 0,
{
    (2 * n + d) / (2 * d)
}

/// A count of hundredths written with two decimal places.
pub open spec fn fixed2(h: nat) -> Seq<char> {
    decimal(h / 100) + "."@ + seq![digit_char((h / 10) % 10), digit_char(h % 10)]
}

pub open spec fn pow1024(k: nat) -> nat
    decreases k,
{
    if k == 0 {
        1
    } else {
        1024 * pow1024((k - 1) as nat)
    }
}

/// Index of the unit a byte count is shown in: the first of B, KB, MB, GB
/// in which the value is below 1000, and TB beyond.
pub open spec fn byte_unit(b: nat) -> nat {
    if b < 1000 * pow1024(0) {
        0
    } else if b < 1000 * pow1024(1) {
        1
    } else if b < 1000 * pow1024(2) {
        2
    } else if b < 1000 * pow1024(3) {
        3
    } else {
        4
    }
}

pub open spec fn unit_suffix(k: nat) -> Seq<char> {
    if k == 0 {
        "B"@
    } else if k == 1 {
        "KB"@
    } else if k == 2 {
        "MB"@
    } else if k == 3 {
        "GB"@
    } else {
        "TB"@
    }
}

/// A byte count in its unit with two decimal places, e.g. `0.98 KB`.
pub open spec fn bytes_text(b: nat) -> Seq<char> {
    let k = byte_unit(b);
    fixed2(round_half_even(100 * b, pow1024(k))) + " "@ + unit_suffix(k)
}

/// The share `part / whole` in percent with two decimal places and a `%`
/// sign; `0.00%` when `whole` is zero.
pub open spec fn percent_text(part: nat, whole: nat) -> Seq<char> {
    if whole == 0 {
        fixed2(0) + "%"@
    } else {
        fixed2(round_half_even(10000 * part, whole)) + "%"@
    }
}

fn digit_str(d: u64) -> (r: &'static str)
    requires
        d < 10,
    ensures
        r@ == seq![digit_char(d as nat)],
{
    if d == 0 {
        proof { reveal_strlit("0"); }
        "0"
    } else if d == 1 {
        proof { reveal_strlit("1"); }
        "1"
    } else if d == 2 {
        proof { reveal_strlit("2"); }
        "2"
    } else if d == 3 {
        proof { reveal_strlit("3"); }
        "3"
    } else if d == 4 {
        proof { reveal_strlit("4"); }
        "4"
    } else if d == 5 {
        proof { reveal_strlit("5"); }
        "5"
    } else if d == 6 {
        proof { reveal_strlit("6"); }
        "6"
    } else if d == 7 {
        proof { reveal_strlit("7"); }
        "7"
    } else if d == 8 {
        proof { reveal_strlit("8"); }
        "8"
    } else {
        proof { reveal_strlit("9"); }
        "9"
    }
}

/// The decimal notation of `n`.
pub fn decimal_string(n: u64) -> (r: String)
    ensures
        r@ == decimal(n as nat),
    decreases n,
{
    if n < 10 {
        let mut s = String::new();
        s.append(digit_str(n));
        assert(s@ =~= decimal(n as nat));
        s
    } else {
        let mut s = decimal_string(n / 10);
        s.append(digit_str(n % 10));
        assert(s@ =~= decimal(n as nat));
        s
    }
}

fn round_half_even_exec(n: u128, d: u128) -> (r: u128)
    requires
        d > 0,
        n < u128::MAX,
    ensures
        r == round_half_even(n as nat, d as nat),
{
    let q = n / d;
    assert(q <= n) by (nonlinear_arith)
        requires
            q == n / d,
            d > 0,
    ;
    let r = n % d;
    if r > d - r {
        q + 1
    } else if r < d - r {
        q
    } else if q % 2 == 0 {
        q
    } else {
        q + 1
    }
}

/// `h` hundredths written with two decimal places.
pub fn fixed2_string(h: u64) -> (r: String)
    ensures
        r@ == fixed2(h as nat),
{
    let mut s = decimal_string(h / 100);
    s.append(".");
    s.append(digit_str((h / 10) % 10));
    s.append(digit_str(h % 10));
    s
}

/// A byte count in human units: divided by 1024 until it is below 1000
/// (at most up to TB), with two decimal places.
pub fn format_bytes(bytes: u64) -> (r: String)
    ensures
        r@ == bytes_text(bytes as nat),
{
    let b = bytes as u128;
    let (k, divisor, suffix): (u64, u128, &str) = if b < 1000 {
        (0, 1, "B")
    } else if b < 1000 * 1024 {
        (1, 1024, "KB")
    } else if b < 1000 * 1024 * 1024 {
        (2, 1024 * 1024, "MB")
    } else if b < 1000 * 1024 * 1024 * 1024 {
        (3, 1024 * 1024 * 1024, "GB")
    } else {
        (4, 1024 * 1024 * 1024 * 1024, "TB")
    };
    proof {
        reveal_with_fuel(pow1024, 5);
    }
    assert(k == byte_unit(bytes as nat) && divisor == pow1024(k as nat) && suffix@ == unit_suffix(k as nat));
    let h = round_half_even_exec(100 * b, divisor);
    assert(b < 1000 * divisor || (divisor == 0x100_0000_0000 && b <= 0xffff_ffff_ffff_ffff));
    assert(b < 1000 * 0x100_0000 * divisor) by (nonlinear_arith)
        requires
            b < 1000 * divisor || (divisor == 0x100_0000_0000 && b <= 0xffff_ffff_ffff_ffff),
    ;
    assert((100 * b) / (divisor as int) < 100000 * 0x100_0000) by (nonlinear_arith)
        requires
            b < 1000 * 0x100_0000 * divisor,
            divisor > 0,
    ;
    assert(h < 0x1_0000_0000_0000_0000);
    let mut s = fixed2_string(h as u64);
    s.append(" ");
    s.append(suffix);
    s
}

/// The share `part / whole` in percent with two decimal places and a `%`
/// sign; `0.00%` when `whole` is zero.
pub fn format_percent(part: u64, whole: u128) -> (r: String)
    requires
        part <= whole,
    ensures
        r@ == percent_text(part as nat, whole as nat),
{
    let h: u128 = if whole == 0 {
        0
    } else {
        round_half_even_exec(10000 * (part as u128), whole)
    };
    assert(h <= 10000) by (nonlinear_arith)
        requires
            whole == 0 ==> h == 0,
            whole > 0 ==> h == round_half_even(10000 * part as nat, whole as nat),
            part <= whole,
    ;
    let mut s = fixed2_string(h as u64);
    s.append("%");
    s
}

} // verus!
