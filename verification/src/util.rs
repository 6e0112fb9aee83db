//! Calendar arithmetic and ISO-8601 timestamps.

use vstd::prelude::*;
use crate::text::{decimal, padded_decimal, push_padded_decimal, string_from_chars};

verus! {

/// Gregorian leap-year rule.
pub open spec fn spec_is_leap(year: nat) -> bool {
    (year % 4 == 0 && year % 100 != 0) || year % 400 == 0
}

/// Days in `year`.
pub open spec fn days_in_year(year: nat) -> nat {
    if spec_is_leap(year) { 366 } else { 365 }
}

/// Days from 1970-01-01 to the first day of `year` (`year >= 1970`).
pub open spec fn days_before_year(year: nat) -> nat
    decreases year,
{
    if year <= 1970 {
        0
    } else {
        days_before_year((year - 1) as nat) + days_in_year((year - 1) as nat)
    }
}

/// Length of month `month` (1..=12) of a year that is a leap year or not.
pub open spec fn month_len(leap: bool, month: nat) -> nat {
    if month == 2 {
        if leap { 29 } else { 28 }
    } else if month == 4 || month == 6 || month == 9 || month == 11 {
        30
    } else {
        31
    }
}

/// Days of the months before `month` (1..=13) in a year.
pub open spec fn days_before_month(leap: bool, month: nat) -> nat
    decreases month,
{
    if month <= 1 {
        0
    } else {
        days_before_month(leap, (month - 1) as nat) + month_len(leap, (month - 1) as nat)
    }
}

/// `(y, m, d, h, mi, s)` is the UTC calendar time of Unix second `secs`.
pub open spec fn is_datetime_of(secs: nat, dt: (u64, u64, u64, u64, u64, u64)) -> bool {
    let (y, m, d, h, mi, s) = dt;
    &&& y >= 1970
    &&& 1 <= m <= 12
    &&& 1 <= d <= month_len(spec_is_leap(y as nat), m as nat)
    &&& h < 24 && mi < 60 && s < 60
    &&& secs == (days_before_year(y as nat) + days_before_month(spec_is_leap(y as nat), m as nat)
        + (d - 1)) * 86400 + h * 3600 + mi * 60 + s
}

/// `YYYY-MM-DDTHH:MM:SSZ` for a calendar time.
pub open spec fn iso8601(dt: (u64, u64, u64, u64, u64, u64)) -> Seq<char> {
    let (y, m, d, h, mi, s) = dt;
    padded_decimal(y as nat, 4) + seq!['-'] + padded_decimal(m as nat, 2) + seq!['-']
        + padded_decimal(d as nat, 2) + seq!['T'] + padded_decimal(h as nat, 2) + seq![':']
        + padded_decimal(mi as nat, 2) + seq![':'] + padded_decimal(s as nat, 2) + seq!['Z']
}

/// Returns true if `year` is a leap year in the Gregorian calendar.
pub fn is_leap(year: u64) -> (r: bool)
    ensures
        r == spec_is_leap(year as nat),
{
    (year % 4 == 0 && year % 100 != 0) || year % 400 == 0
}

fn month_length(leap: bool, month: u64) -> (r: u64)
    ensures
        r == month_len(leap, month as nat),
{
    if month == 2 {
        if leap { 29 } else { 28 }
    } else if month == 4 || month == 6 || month == 9 || month == 11 {
        30
    } else {
        31
    }
}

proof fn lemma_year_is_twelve_months(leap: bool)
    ensures
        days_before_month(leap, 13) == if leap { 366nat } else { 365nat },
{
    reveal_with_fuel(days_before_month, 13);
}

proof fn lemma_days_before_year_monotone(a: nat, b: nat)
    requires
        1970 <= a <= b,
    ensures
        days_before_year(a) + (b - a) * 365 <= days_before_year(b),
    decreases b - a,
{
    if a < b {
        lemma_days_before_year_monotone(a, (b - 1) as nat);
    }
}

proof fn lemma_days_before_month_monotone(leap: bool, a: nat, b: nat)
    requires
        a <= b,
    ensures
        days_before_month(leap, a) <= days_before_month(leap, b),
    decreases b - a,
{
    if a < b {
        lemma_days_before_month_monotone(leap, a, (b - 1) as nat);
    }
}

/// The day of a calendar date, counted from 1970-01-01.
pub open spec fn day_number(y: u64, m: u64, d: u64) -> int {
    days_before_year(y as nat) + days_before_month(spec_is_leap(y as nat), m as nat) + (d - 1)
}

/// A valid date lies within its year: its day falls between the first day
/// of the year and the first day of the next.
proof fn lemma_date_within_year(y: u64, m: u64, d: u64)
    requires
        y >= 1970,
        1 <= m <= 12,
        1 <= d <= month_len(spec_is_leap(y as nat), m as nat),
    ensures
        days_before_year(y as nat) <= day_number(y, m, d) < days_before_year(y as nat + 1),
        days_before_month(spec_is_leap(y as nat), m as nat) + (d - 1)
            < days_before_month(spec_is_leap(y as nat), m as nat + 1),
{
    let leap = spec_is_leap(y as nat);
    lemma_year_is_twelve_months(leap);
    lemma_days_before_month_monotone(leap, m as nat + 1, 13);
}

/// Two valid dates with the same day number are the same date.
proof fn lemma_date_unique(a: (u64, u64, u64), b: (u64, u64, u64))
    requires
        a.0 >= 1970 && 1 <= a.1 <= 12 && 1 <= a.2 <= month_len(spec_is_leap(a.0 as nat), a.1 as nat),
        b.0 >= 1970 && 1 <= b.1 <= 12 && 1 <= b.2 <= month_len(spec_is_leap(b.0 as nat), b.1 as nat),
        day_number(a.0, a.1, a.2) == day_number(b.0, b.1, b.2),
    ensures
        a == b,
{
    lemma_date_within_year(a.0, a.1, a.2);
    lemma_date_within_year(b.0, b.1, b.2);
    if a.0 < b.0 {
        lemma_days_before_year_monotone(a.0 as nat + 1, b.0 as nat);
    } else if b.0 < a.0 {
        lemma_days_before_year_monotone(b.0 as nat + 1, a.0 as nat);
    }
    assert(a.0 == b.0);
    let leap = spec_is_leap(a.0 as nat);
    if a.1 < b.1 {
        lemma_days_before_month_monotone(leap, a.1 as nat + 1, b.1 as nat);
    } else if b.1 < a.1 {
        lemma_days_before_month_monotone(leap, b.1 as nat + 1, a.1 as nat);
    }
}

/// Every second has one calendar time: two calendar times of the same
/// Unix second are equal, so `unix_to_datetime` gives the only one.
pub proof fn law_calendar_time_is_unique(secs: nat, a: (u64, u64, u64, u64, u64, u64), b: (u64, u64, u64, u64, u64, u64))
    requires
        is_datetime_of(secs, a),
        is_datetime_of(secs, b),
    ensures
        a == b,
{
    let da = day_number(a.0, a.1, a.2);
    let db = day_number(b.0, b.1, b.2);
    let ta = a.3 * 3600 + a.4 * 60 + a.5;
    let tb = b.3 * 3600 + b.4 * 60 + b.5;
    assert(0 <= ta < 86400 && 0 <= tb < 86400) by (nonlinear_arith)
        requires a.3 < 24, a.4 < 60, a.5 < 60, b.3 < 24, b.4 < 60, b.5 < 60,
            ta == a.3 * 3600 + a.4 * 60 + a.5, tb == b.3 * 3600 + b.4 * 60 + b.5;
    assert(da >= 0 && db >= 0);
    vstd::arithmetic::div_mod::lemma_fundamental_div_mod_converse(secs as int, 86400, da, ta);
    vstd::arithmetic::div_mod::lemma_fundamental_div_mod_converse(secs as int, 86400, db, tb);
    assert(da == db && ta == tb);
    lemma_date_unique((a.0, a.1, a.2), (b.0, b.1, b.2));
    let ra = a.4 * 60 + a.5;
    let rb = b.4 * 60 + b.5;
    assert(0 <= ra < 3600 && 0 <= rb < 3600) by (nonlinear_arith)
        requires a.4 < 60, a.5 < 60, b.4 < 60, b.5 < 60, ra == a.4 * 60 + a.5, rb == b.4 * 60 + b.5;
    vstd::arithmetic::div_mod::lemma_fundamental_div_mod_converse(ta, 3600, a.3 as int, ra);
    vstd::arithmetic::div_mod::lemma_fundamental_div_mod_converse(tb, 3600, b.3 as int, rb);
    vstd::arithmetic::div_mod::lemma_fundamental_div_mod_converse(ra, 60, a.4 as int, a.5 as int);
    vstd::arithmetic::div_mod::lemma_fundamental_div_mod_converse(rb, 60, b.4 as int, b.5 as int);
}

/// The decimal notation of `n` has one digit below 10, at most two below
/// 100 and at most four below 10000.
pub proof fn lemma_decimal_len(n: nat)
    ensures
        decimal(n).len() >= 1,
        n < 10 ==> decimal(n).len() == 1,
        n < 100 ==> decimal(n).len() <= 2,
        n < 1000 ==> decimal(n).len() <= 3,
        n < 10000 ==> decimal(n).len() <= 4,
    decreases n,
{
    if n >= 10 {
        lemma_decimal_len(n / 10);
    }
}

/// A calendar time of a year with four digits is written in 20
/// characters, `YYYY-MM-DDTHH:MM:SSZ`: dashes at 4 and 7, `T` at 10, colons
/// at 13 and 16, `Z` at 19.
pub proof fn law_iso8601_form(secs: nat, dt: (u64, u64, u64, u64, u64, u64))
    requires
        is_datetime_of(secs, dt),
        dt.0 <= 9999,
    ensures
        iso8601(dt).len() == 20,
        iso8601(dt)[4] == '-' && iso8601(dt)[7] == '-' && iso8601(dt)[10] == 'T',
        iso8601(dt)[13] == ':' && iso8601(dt)[16] == ':' && iso8601(dt)[19] == 'Z',
{
    lemma_decimal_len(dt.0 as nat);
    lemma_decimal_len(dt.1 as nat);
    lemma_decimal_len(dt.2 as nat);
    lemma_decimal_len(dt.3 as nat);
    lemma_decimal_len(dt.4 as nat);
    lemma_decimal_len(dt.5 as nat);
    let y = padded_decimal(dt.0 as nat, 4);
    let m = padded_decimal(dt.1 as nat, 2);
    let d = padded_decimal(dt.2 as nat, 2);
    let h = padded_decimal(dt.3 as nat, 2);
    let mi = padded_decimal(dt.4 as nat, 2);
    let se = padded_decimal(dt.5 as nat, 2);
    assert(y.len() == 4 && m.len() == 2 && d.len() == 2 && h.len() == 2 && mi.len() == 2 && se.len() == 2);
    let t = iso8601(dt);
    assert(t == y + seq!['-'] + m + seq!['-'] + d + seq!['T'] + h + seq![':'] + mi + seq![':'] + se + seq!['Z']);
}

/// Converts a Unix timestamp (seconds since 1970-01-01T00:00:00Z) to
/// (year, month, day, hour, minute, second) in UTC.
pub fn unix_to_datetime(secs: u64) -> (r: (u64, u64, u64, u64, u64, u64))
    ensures
        is_datetime_of(secs as nat, r),
{
    let days = secs / 86400;
    let time_of_day = secs % 86400;
    let hour = time_of_day / 3600;
    let min = (time_of_day % 3600) / 60;
    let sec = time_of_day % 60;

    let mut y: u64 = 1970;
    let mut remaining: u64 = days;
    loop
        invariant
            1970 <= y,
            days_before_year(y as nat) + remaining == days,
            days <= u64::MAX / 86400,
        ensures
            1970 <= y,
            days_before_year(y as nat) + remaining == days,
            remaining < days_in_year(y as nat),
        decreases remaining,
    {
        proof {
            lemma_days_before_year_monotone(1970, y as nat);
            assert((y - 1970) * 365 <= days) by (nonlinear_arith)
                requires days_before_year(1970) + (y - 1970) * 365 <= days_before_year(y as nat),
                    days_before_year(1970) == 0,
                    days_before_year(y as nat) + remaining == days;
        }
        let days_in_year: u64 = if is_leap(y) { 366 } else { 365 };
        if remaining < days_in_year {
            break;
        }
        remaining = remaining - days_in_year;
        y = y + 1;
    }
    let leap = is_leap(y);
    let mut m: u64 = 1;
    proof {
        lemma_year_is_twelve_months(leap);
    }
    loop
        invariant
            1 <= m <= 12,
            days_before_month(leap, m as nat) + remaining + days_before_year(y as nat) == days,
            leap == spec_is_leap(y as nat),
            days_before_month(leap, 13) == days_in_year(y as nat),
            remaining + days_before_month(leap, m as nat) < days_in_year(y as nat),
        ensures
            1 <= m <= 12,
            days_before_month(leap, m as nat) + remaining + days_before_year(y as nat) == days,
            remaining < month_len(leap, m as nat),
        decreases 12 - m,
    {
        let d = month_length(leap, m);
        if remaining < d {
            break;
        }
        remaining = remaining - d;
        m = m + 1;
    }
    let d = remaining + 1;
    proof {
        assert(secs == days * 86400 + hour * 3600 + min * 60 + sec);
    }
    (y, m, d, hour, min, sec)
}

/// Formats Unix second `secs` as `YYYY-MM-DDTHH:MM:SSZ`.
pub fn format_iso8601(secs: u64) -> (r: String)
    ensures
        exists|dt| is_datetime_of(secs as nat, dt) && r@ == iso8601(dt),
{
    let dt = unix_to_datetime(secs);
    let (year, month, day, hour, min, sec) = dt;
    let mut out: Vec<char> = Vec::new();
    push_padded_decimal(&mut out, year as u128, 4);
    out.push('-');
    push_padded_decimal(&mut out, month as u128, 2);
    out.push('-');
    push_padded_decimal(&mut out, day as u128, 2);
    out.push('T');
    push_padded_decimal(&mut out, hour as u128, 2);
    out.push(':');
    push_padded_decimal(&mut out, min as u128, 2);
    out.push(':');
    push_padded_decimal(&mut out, sec as u128, 2);
    out.push('Z');
    proof {
        assert(out@ =~= iso8601(dt));
    }
    string_from_chars(&out)
}

/// Seconds since the Unix epoch on the system clock
/// (`SystemTime::now().duration_since(UNIX_EPOCH)`), or `None` when the
/// clock reads before the epoch (the call's error).  The clock decides the
/// value, so nothing is promised of it.
#[verifier::external_body]
fn unix_now_secs() -> (r: Option<u64>) {
    match std::time::SystemTime::now().duration_since(std::time::UNIX_EPOCH) {
        Ok(d) => Some(d.as_secs()),
        Err(_) => None,
    }
}

/// The current UTC time as an ISO-8601 string (YYYY-MM-DDTHH:MM:SSZ);
/// `None` when the system clock reads before 1970.
pub fn chrono_now() -> (r: Option<String>)
    ensures
        r matches Some(t) ==> exists|secs: nat, dt| is_datetime_of(secs, dt) && t@ == iso8601(dt),
{
    match unix_now_secs() {
        Some(secs) => Some(format_iso8601(secs)),
        None => None,
    }
}

} // verus!
