//! Rendering a wall-clock time, given as whole seconds since the epoch, in
//! the standard date-time text form `YYYY-MM-DDTHH:MM:SSZ`.

use vstd::prelude::*;
use crate::json::{dec_rep, u64_to_string};

verus! {

/// A leap year of the proleptic Gregorian calendar.
pub open spec fn is_leap(y: nat) -> bool {
    (y % 4 == 0 && y % 100 != 0) || y % 400 == 0
}

/// Days in year `y`.
pub open spec fn year_len(y: nat) -> nat {
    if is_leap(y) {
        366
    } else {
        365
    }
}

/// Days in month `m` of year `y`, months counted from 1. Arguments outside
/// the twelve months never arise; any value at least one keeps the
/// definition total.
pub open spec fn month_len(y: nat, m: nat) -> nat {
    if m == 2 {
        if is_leap(y) {
            29
        } else {
            28
        }
    } else if m == 4 || m == 6 || m == 9 || m == 11 {
        30
    } else {
        31
    }
}

/// Starting at year `y` with `d` whole days left, the year the last day
/// falls in and the day's index within it.
pub open spec fn split_year(y: nat, d: nat) -> (nat, nat)
    decreases d,
{
    if d < year_len(y) {
        (y, d)
    } else {
        split_year(y + 1, (d - year_len(y)) as nat)
    }
}

/// Starting at month `m` of year `y` with `d` days left in the year, the
/// month the last day falls in and the day's index within it.
pub open spec fn split_month(y: nat, m: nat, d: nat) -> (nat, nat)
    decreases d,
{
    if d < month_len(y, m) {
        (m, d)
    } else {
        split_month(y, m + 1, (d - month_len(y, m)) as nat)
    }
}

/// `n` in decimal, zero-padded to at least two digits.
pub open spec fn pad2(n: nat) -> Seq<char> {
    if n < 10 {
        seq!['0'] + dec_rep(n)
    } else {
        dec_rep(n)
    }
}

/// `n` in decimal, zero-padded to at least four digits.
pub open spec fn pad4(n: nat) -> Seq<char> {
    if n < 10 {
        seq!['0', '0', '0'] + dec_rep(n)
    } else if n < 100 {
        seq!['0', '0'] + dec_rep(n)
    } else if n < 1000 {
        seq!['0'] + dec_rep(n)
    } else {
        dec_rep(n)
    }
}

/// The date-time text for a time in whole seconds since the epoch: date and
/// time of day in the Gregorian calendar, fields zero-padded, `T` between
/// date and time, `Z` for the fixed offset.
pub open spec fn iso_of_secs(secs: nat) -> Seq<char> {
    let days = secs / 86400;
    let rem = secs % 86400;
    let yd = split_year(1970, days);
    let md = split_month(yd.0, 1, yd.1);
    pad4(yd.0) + seq!['-'] + pad2(md.0) + seq!['-'] + pad2(md.1 + 1) + seq!['T'] + pad2(rem / 3600)
        + seq![':'] + pad2((rem % 3600) / 60) + seq![':'] + pad2(rem % 60) + seq!['Z']
}

fn is_leap_year(y: u64) -> (r: bool)
    ensures
        r == is_leap(y as nat),
{
    (y % 4 == 0 && y % 100 != 0) || y % 400 == 0
}

fn year_len_days(y: u64) -> (r: u64)
    ensures
        r == year_len(y as nat),
{
    if is_leap_year(y) {
        366
    } else {
        365
    }
}

fn month_len_days(y: u64, m: u64) -> (r: u64)
    ensures
        r == month_len(y as nat, m as nat),
        r <= 31,
{
    if m == 2 {
        if is_leap_year(y) {
            29
        } else {
            28
        }
    } else if m == 4 || m == 6 || m == 9 || m == 11 {
        30
    } else {
        31
    }
}

fn push_pad2(out: &mut String, n: u64)
    ensures
        final(out)@ == old(out)@ + pad2(n as nat),
{
    if n < 10 {
        out.push('0');
    }
    let digits = u64_to_string(n);
    out.append(digits.as_str());
    proof {
        assert(final(out)@ =~= old(out)@ + pad2(n as nat));
    }
}

fn push_pad4(out: &mut String, n: u64)
    ensures
        final(out)@ == old(out)@ + pad4(n as nat),
{
    if n < 10 {
        out.push('0');
        out.push('0');
        out.push('0');
    } else if n < 100 {
        out.push('0');
        out.push('0');
    } else if n < 1000 {
        out.push('0');
    }
    let digits = u64_to_string(n);
    out.append(digits.as_str());
    proof {
        assert(final(out)@ =~= old(out)@ + pad4(n as nat));
    }
}

/// Renders a time in whole seconds since the epoch as date-time text.
pub fn format_timestamp(secs: u64) -> (s: String)
    ensures
        s@ == iso_of_secs(secs as nat),
{
    let days = secs / 86400;
    let rem = secs % 86400;
    proof {
        assert(days <= u64::MAX / 86400) by (nonlinear_arith)
            requires
                days == secs as int / 86400,
                secs <= u64::MAX,
        ;
    }
    let mut y: u64 = 1970;
    let mut d: u64 = days;
    while d >= year_len_days(y)
        invariant
            1970 <= y,
            d <= days,
            days <= u64::MAX / 86400,
            y - 1970 <= days - d,
            split_year(1970, days as nat) == split_year(y as nat, d as nat),
        decreases d,
    {
        let step = year_len_days(y);
        d = d - step;
        y = y + 1;
    }
    let ghost yd = split_year(1970, days as nat);
    proof {
        assert(yd == (y as nat, d as nat));
    }
    let mut m: u64 = 1;
    while d >= month_len_days(y, m)
        invariant
            1 <= m,
            d <= days,
            days <= u64::MAX / 86400,
            m - 1 <= days - d,
            split_month(y as nat, 1, yd.1) == split_month(y as nat, m as nat, d as nat),
            yd.0 == y as nat,
        decreases d,
    {
        let step = month_len_days(y, m);
        d = d - step;
        m = m + 1;
    }
    let ghost md = split_month(y as nat, 1, yd.1);
    proof {
        assert(md == (m as nat, d as nat));
    }
    let day = d + 1;
    let hh = rem / 3600;
    let mi = (rem % 3600) / 60;
    let ss = rem % 60;
    let mut out = String::new();
    push_pad4(&mut out, y);
    out.push('-');
    push_pad2(&mut out, m);
    out.push('-');
    push_pad2(&mut out, day);
    out.push('T');
    push_pad2(&mut out, hh);
    out.push(':');
    push_pad2(&mut out, mi);
    out.push(':');
    push_pad2(&mut out, ss);
    out.push('Z');
    proof {
        assert(out@ =~= iso_of_secs(secs as nat));
    }
    out
}

} // verus!
