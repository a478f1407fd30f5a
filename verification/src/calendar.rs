//! Proleptic Gregorian calendar arithmetic shared by the date widgets.

use vstd::prelude::*;

use crate::text::{dec, dec_padded, push_char, push_padded};

verus! {

/// Whether `y` is a leap year.
pub open spec fn spec_is_leap(y: int) -> bool {
    (y % 4 == 0 && y % 100 != 0) || y % 400 == 0
}

/// The number of days in month `m` (1..=12) of year `y`.
pub open spec fn spec_days_in_month(y: int, m: int) -> int {
    if m == 2 {
        if spec_is_leap(y) { 29 } else { 28 }
    } else if m == 4 || m == 6 || m == 9 || m == 11 {
        30
    } else {
        31
    }
}

/// Days in the months before month `m` (1..=12) of year `y`.
pub open spec fn days_before_month(y: int, m: int) -> int
    decreases m,
{
    if m <= 1 {
        0
    } else {
        days_before_month(y, m - 1) + spec_days_in_month(y, m - 1)
    }
}

/// Days from 0001-01-01 to January 1st of year `y`.
pub open spec fn days_before_year(y: int) -> int {
    let a = y - 1;
    365 * a + a / 4 - a / 100 + a / 400
}

/// The day number of a date, counted from 0001-01-01 (day 0).
pub open spec fn day_number(y: int, m: int, d: int) -> int {
    days_before_year(y) + days_before_month(y, m) + d - 1
}

/// The weekday of a date, 0 = Sunday .. 6 = Saturday (0001-01-01 was a
/// Monday).
pub open spec fn weekday(y: int, m: int, d: int) -> int {
    (day_number(y, m, d) + 1) % 7
}

/// Whether `(y, m, d)` is a calendar date.
pub open spec fn is_date(y: int, m: int, d: int) -> bool {
    1 <= m <= 12 && 1 <= d <= spec_days_in_month(y, m)
}

/// Year `y` as at least four characters: zero-padded, a sign counting
/// towards the width (`0042`, `-007`).
pub open spec fn year4(y: int) -> Seq<char> {
    if y >= 0 {
        dec_padded(y as nat, 4)
    } else {
        seq!['-'] + dec_padded((-y) as nat, 3)
    }
}

/// `YYYY-MM`.
pub open spec fn fmt_month(y: int, m: int) -> Seq<char> {
    year4(y) + seq!['-'] + dec_padded(m as nat, 2)
}

/// `YYYY-MM-DD`.
pub open spec fn fmt_date(y: int, m: int, d: int) -> Seq<char> {
    year4(y) + seq!['-'] + dec_padded(m as nat, 2) + seq!['-'] + dec_padded(d as nat, 2)
}

/// A year in plain decimal (with a leading `-` when negative).
pub open spec fn year_text(y: int) -> Seq<char> {
    if y >= 0 {
        dec(y as nat)
    } else {
        seq!['-'] + dec((-y) as nat)
    }
}

/// Whether `y` is a leap year.
pub fn is_leap(y: i32) -> (r: bool)
    ensures
        r == spec_is_leap(y as int),
{
    // `y + 2_200_000_000` is a positive number with the same residues
    // modulo 4, 100 and 400 as `y`.
    let u: i64 = y as i64 + 2_200_000_000;
    proof {
        let k: int = 5_500_000;
        assert(u as int == y as int + 400 * k);
        vstd::arithmetic::div_mod::lemma_mod_multiples_vanish(100 * k, y as int, 4);
        vstd::arithmetic::div_mod::lemma_mod_multiples_vanish(4 * k, y as int, 100);
        vstd::arithmetic::div_mod::lemma_mod_multiples_vanish(k, y as int, 400);
        assert(y as int + 400 * k == 4 * (100 * k) + y as int);
        assert(y as int + 400 * k == 100 * (4 * k) + y as int);
        assert(y as int + 400 * k == 400 * k + y as int);
    }
    (u % 4 == 0 && u % 100 != 0) || u % 400 == 0
}

/// The number of days in month `m` (1..=12) of year `y`.
pub fn days_in_month(y: i32, m: u32) -> (r: u32)
    requires
        1 <= m <= 12,
    ensures
        r as int == spec_days_in_month(y as int, m as int),
        28 <= r <= 31,
{
    if m == 2 {
        if is_leap(y) { 29 } else { 28 }
    } else if m == 4 || m == 6 || m == 9 || m == 11 {
        30
    } else {
        31
    }
}

proof fn lemma_days_before_year_shift(y: int, k: int)
    requires
        k >= 0,
    ensures
        days_before_year(y + 400 * k) == days_before_year(y) + 146097 * k,
{
    let a = y - 1;
    vstd::arithmetic::div_mod::lemma_hoist_over_denominator(a, 100 * k, 4);
    vstd::arithmetic::div_mod::lemma_hoist_over_denominator(a, 4 * k, 100);
    vstd::arithmetic::div_mod::lemma_hoist_over_denominator(a, k, 400);
    assert(a + (100 * k) * 4 == a + 400 * k);
    assert(a + (4 * k) * 100 == a + 400 * k);
    assert(a + k * 400 == a + 400 * k);
}

/// A year holds 365 days, plus one in a leap year.
pub proof fn lemma_year_length(y: int)
    ensures
        days_before_year(y + 1) == days_before_year(y) + days_before_month(y, 12) + 31,
        days_before_month(y, 12) == (if spec_is_leap(y) { 335int } else { 334int }),
{
    reveal_with_fuel(days_before_month, 12);
    assert(y / 4 - (y - 1) / 4 == (if y % 4 == 0 { 1int } else { 0int }));
    assert(y / 100 - (y - 1) / 100 == (if y % 100 == 0 { 1int } else { 0int }));
    assert(y / 400 - (y - 1) / 400 == (if y % 400 == 0 { 1int } else { 0int }));
}

proof fn lemma_days_before_month_same(y1: int, y2: int, m: int)
    requires
        spec_is_leap(y1) == spec_is_leap(y2),
    ensures
        days_before_month(y1, m) == days_before_month(y2, m),
    decreases m,
{
    if m > 1 {
        lemma_days_before_month_same(y1, y2, m - 1);
    }
}

proof fn lemma_days_before_month_bound(y: int, m: int)
    requires
        1 <= m <= 12,
    ensures
        0 <= days_before_month(y, m) <= 31 * (m - 1),
    decreases m,
{
    if m > 1 {
        lemma_days_before_month_bound(y, m - 1);
    }
}

fn days_before_month_exec(leap: bool, m: u32) -> (r: i64)
    requires
        1 <= m <= 12,
    ensures
        forall|y: int| spec_is_leap(y) == leap ==> r as int == days_before_month(y, m as int),
{
    let mut total: i64 = 0;
    let mut k: u32 = 1;
    while k < m
        invariant
            1 <= k <= m <= 12,
            0 <= total <= 31 * (k - 1),
            forall|y: int| spec_is_leap(y) == leap ==> total as int == days_before_month(y, k as int),
        decreases m - k,
    {
        let dim: i64 = if k == 2 {
            if leap { 29 } else { 28 }
        } else if k == 4 || k == 6 || k == 9 || k == 11 {
            30
        } else {
            31
        };
        total = total + dim;
        k = k + 1;
    }
    total
}

/// The weekday (0 = Sunday) of the first day of month `m` of year `y`.
pub fn day_of_week_first(y: i32, m: u32) -> (r: u32)
    requires
        1 <= m <= 12,
    ensures
        r as int == weekday(y as int, m as int, 1),
        r < 7,
{
    // Shift the year by a multiple of 400 years (146097 days, a whole number
    // of weeks) so that everything is positive.
    let k: i64 = 5_500_000;
    let u: i64 = y as i64 + 2_200_000_000;
    let ghost ui = u as int;
    assert(ui == y as int + 400 * (k as int));
    let leap = is_leap(y);
    let a = u - 1;
    let dbm = days_before_month_exec(leap, m);
    proof {
        lemma_days_before_year_shift(y as int, k as int);
        lemma_days_before_month_bound(y as int, m as int);
        assert(spec_is_leap(y as int) == leap);
    }
    let days = 365 * a + a / 4 - a / 100 + a / 400 + dbm;
    assert(days as int == days_before_year(ui) + days_before_month(y as int, m as int));
    let r = ((days + 1) % 7) as u32;
    proof {
        let dn = day_number(y as int, m as int, 1);
        assert(days as int + 1 == dn + 1 + 146097 * (k as int));
        assert(146097 * (k as int) == 7 * (20871 * (k as int)));
        vstd::arithmetic::div_mod::lemma_mod_multiples_vanish(20871 * (k as int), dn + 1, 7);
        assert(7 * (20871 * (k as int)) + (dn + 1) == days as int + 1);
    }
    r
}

/// Appends `y` zero-padded to four characters (sign included).
pub fn push_year4(s: &mut String, y: i32)
    ensures
        final(s)@ == old(s)@ + year4(y as int),
{
    if y >= 0 {
        push_padded(s, y as usize, 4);
    } else {
        push_char(s, '-');
        let a: i64 = -(y as i64);
        push_padded(s, a as usize, 3);
        assert(final(s)@ =~= old(s)@ + year4(y as int));
    }
}

/// `YYYY-MM`.
pub fn format_month(y: i32, m: u32) -> (r: String)
    ensures
        r@ == fmt_month(y as int, m as int),
{
    let mut s = String::new();
    push_year4(&mut s, y);
    push_char(&mut s, '-');
    push_padded(&mut s, m as usize, 2);
    assert(s@ =~= fmt_month(y as int, m as int));
    s
}

/// `YYYY-MM-DD`.
pub fn format_date(y: i32, m: u32, d: u32) -> (r: String)
    ensures
        r@ == fmt_date(y as int, m as int, d as int),
{
    let mut s = String::new();
    push_year4(&mut s, y);
    push_char(&mut s, '-');
    push_padded(&mut s, m as usize, 2);
    push_char(&mut s, '-');
    push_padded(&mut s, d as usize, 2);
    assert(s@ =~= fmt_date(y as int, m as int, d as int));
    s
}

/// A year in plain decimal.
pub fn push_year(s: &mut String, y: i32)
    ensures
        final(s)@ == old(s)@ + year_text(y as int),
{
    if y >= 0 {
        crate::text::push_decimal(s, y as usize);
    } else {
        push_char(s, '-');
        let a: i64 = -(y as i64);
        crate::text::push_decimal(s, a as usize);
        assert(final(s)@ =~= old(s)@ + year_text(y as int));
    }
}

} // verus!
