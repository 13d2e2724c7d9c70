use vstd::prelude::*;

use vstd::arithmetic::div_mod::lemma_fundamental_div_mod;

verus! {

/// Whether `y` is a leap year in the proleptic Gregorian calendar.
pub open spec fn is_leap_year(y: int) -> bool {
    y % 4 == 0 && (y % 100 != 0 || y % 400 == 0)
}

/// Number of days in year `y`.
pub open spec fn days_in_year(y: int) -> int {
    if is_leap_year(y) {
        366
    } else {
        365
    }
}

/// Number of days in month `m` (1-based) of year `y`.
pub open spec fn days_in_month(y: int, m: int) -> int
    recommends
        1 <= m <= 12,
{
    if m == 2 {
        if is_leap_year(y) {
            29
        } else {
            28
        }
    } else if m == 4 || m == 6 || m == 9 || m == 11 {
        30
    } else {
        31
    }
}

/// Days from 1970-01-01 to the first day of year `y` (for `y >= 1970`).
pub open spec fn days_before_year(y: int) -> int
    recommends
        y >= 1970,
    decreases y - 1970,
{
    if y <= 1970 {
        0
    } else {
        days_before_year(y - 1) + days_in_year(y - 1)
    }
}

/// Days from the first day of year `y` to the first day of month `m`.
pub open spec fn days_before_month(y: int, m: int) -> int
    recommends
        1 <= m <= 13,
    decreases m,
{
    if m <= 1 {
        0
    } else {
        days_before_month(y, m - 1) + days_in_month(y, m - 1)
    }
}

/// A calendar instant the pipeline can name: an hour of a day on or after
/// 1970-01-01.
pub open spec fn civil_valid(y: int, m: int, d: int, h: int) -> bool {
    &&& 1970 <= y
    &&& 1 <= m <= 12
    &&& 1 <= d <= days_in_month(y, m)
    &&& 0 <= h < 24
}

/// Seconds since the Unix epoch of hour `h` of the civil date `y-m-d`.
pub open spec fn timestamp_of(y: int, m: int, d: int, h: int) -> int {
    (days_before_year(y) + days_before_month(y, m) + (d - 1)) * 86400 + h * 3600
}

/// Whether `ts` lies exactly on an hour boundary.
pub open spec fn hour_aligned(ts: int) -> bool {
    ts % 3600 == 0
}

/// A year contributes at least 365 days to `days_before_year`.
proof fn lemma_days_before_year_lower(y: int)
    requires
        y >= 1970,
    ensures
        days_before_year(y) >= 365 * (y - 1970),
    decreases y - 1970,
{
    if y > 1970 {
        lemma_days_before_year_lower(y - 1);
    }
}

/// The twelve months of a year sum to the year's day count.
proof fn lemma_months_sum(y: int)
    ensures
        days_before_month(y, 13) == days_in_year(y),
{
    reveal_with_fuel(days_before_month, 14);
}

/// `days_before_month` grows with the month.
proof fn lemma_days_before_month_monotone(y: int, m1: int, m2: int)
    requires
        1 <= m1 <= m2 <= 13,
    ensures
        days_before_month(y, m1) <= days_before_month(y, m2),
    decreases m2 - m1,
{
    if m1 < m2 {
        lemma_days_before_month_monotone(y, m1, m2 - 1);
    }
}

/// A day of a month lies within the day count of its year.
proof fn lemma_day_offset_bounds(y: int, m: int, d: int)
    requires
        1 <= m <= 12,
        1 <= d <= days_in_month(y, m),
    ensures
        0 <= days_before_month(y, m) + (d - 1) < days_in_year(y),
{
    lemma_days_before_month_monotone(y, 1, m);
    lemma_days_before_month_monotone(y, m + 1, 13);
    lemma_months_sum(y);
}

/// `days_before_year` grows with the year.
proof fn lemma_days_before_year_monotone(y1: int, y2: int)
    requires
        1970 <= y1 <= y2,
    ensures
        days_before_year(y1) <= days_before_year(y2),
    decreases y2 - y1,
{
    if y1 < y2 {
        lemma_days_before_year_monotone(y1, y2 - 1);
    }
}

/// Law: no two distinct civil hours share a timestamp, so a timestamp names
/// its year, month, day and hour unambiguously.
pub proof fn lemma_timestamp_of_injective(
    y1: int,
    m1: int,
    d1: int,
    h1: int,
    y2: int,
    m2: int,
    d2: int,
    h2: int,
)
    requires
        civil_valid(y1, m1, d1, h1),
        civil_valid(y2, m2, d2, h2),
        timestamp_of(y1, m1, d1, h1) == timestamp_of(y2, m2, d2, h2),
    ensures
        y1 == y2,
        m1 == m2,
        d1 == d2,
        h1 == h2,
{
    let off1 = days_before_month(y1, m1) + (d1 - 1);
    let off2 = days_before_month(y2, m2) + (d2 - 1);
    let dn1 = days_before_year(y1) + off1;
    let dn2 = days_before_year(y2) + off2;
    lemma_day_offset_bounds(y1, m1, d1);
    lemma_day_offset_bounds(y2, m2, d2);
    assert(dn1 == dn2 && h1 == h2) by {
        assert((dn1 - dn2) * 86400 == (h2 - h1) * 3600);
    }
    assert(y1 == y2) by {
        if y1 < y2 {
            lemma_days_before_year_monotone(y1 + 1, y2);
            assert(false);
        }
        if y2 < y1 {
            lemma_days_before_year_monotone(y2 + 1, y1);
            assert(false);
        }
    }
    assert(m1 == m2) by {
        if m1 < m2 {
            lemma_days_before_month_monotone(y1, m1 + 1, m2);
            assert(false);
        }
        if m2 < m1 {
            lemma_days_before_month_monotone(y1, m2 + 1, m1);
            assert(false);
        }
    }
}

/// Checks whether `ts` lies exactly on an hour boundary.
pub fn is_hour_aligned(ts: i64) -> (r: bool)
    requires
        0 <= ts,
    ensures
        r == hour_aligned(ts as int),
{
    (ts as u64) % 3600 == 0
}

/// Number of days in year `y`, executable form.
fn days_in_year_x(y: u64) -> (r: u64)
    ensures
        r == days_in_year(y as int),
{
    if y % 4 == 0 && (y % 100 != 0 || y % 400 == 0) {
        366
    } else {
        365
    }
}

/// Number of days in month `m` of year `y`, executable form.
fn days_in_month_x(y: u64, m: u64) -> (r: u64)
    requires
        1 <= m <= 12,
    ensures
        r == days_in_month(y as int, m as int),
{
    if m == 2 {
        if y % 4 == 0 && (y % 100 != 0 || y % 400 == 0) {
            29
        } else {
            28
        }
    } else if m == 4 || m == 6 || m == 9 || m == 11 {
        30
    } else {
        31
    }
}

/// Recovers the unique civil date and hour of an hour-aligned timestamp.
pub fn civil_from_timestamp(ts: i64) -> (r: (u64, u8, u8, u8))
    requires
        0 <= ts,
        hour_aligned(ts as int),
    ensures
        civil_valid(r.0 as int, r.1 as int, r.2 as int, r.3 as int),
        timestamp_of(r.0 as int, r.1 as int, r.2 as int, r.3 as int) == ts,
{
    let t: u64 = ts as u64;
    let total_hours: u64 = t / 3600;
    let days: u64 = total_hours / 24;
    let hour: u64 = total_hours % 24;
    proof {
        lemma_fundamental_div_mod(t as int, 3600);
        lemma_fundamental_div_mod(total_hours as int, 24);
        assert(t == (days * 24 + hour) * 3600);
        assert(t == days * 86400 + hour * 3600) by (nonlinear_arith)
            requires
                t == (days * 24 + hour) * 3600,
        ;
    }
    assert(days <= 0xffff_ffff_ffff);

    let mut year: u64 = 1970;
    let mut left: u64 = days;
    loop
        invariant
            year >= 1970,
            days_before_year(year as int) + left == days,
            days <= 0xffff_ffff_ffff,
        ensures
            left < days_in_year(year as int),
            year >= 1970,
            days_before_year(year as int) + left == days,
        decreases left,
    {
        let diy = days_in_year_x(year);
        if left < diy {
            break ;
        }
        proof {
            lemma_days_before_year_lower(year as int);
        }
        left = left - diy;
        year = year + 1;
    }

    let ghost year_rem: int = left as int;
    let mut month: u64 = 1;
    loop
        invariant
            1 <= month <= 12,
            days_before_month(year as int, month as int) + left == year_rem,
            year_rem < days_in_year(year as int),
        ensures
            1 <= month <= 12,
            days_before_month(year as int, month as int) + left == year_rem,
            left < days_in_month(year as int, month as int),
        decreases 12 - month,
    {
        let dim = days_in_month_x(year, month);
        if left < dim {
            break ;
        }
        proof {
            lemma_months_sum(year as int);
            if month == 12 {
                assert(days_before_month(year as int, 13) == days_before_month(year as int, 12)
                    + days_in_month(year as int, 12));
            }
        }
        left = left - dim;
        month = month + 1;
    }

    let day: u64 = left + 1;
    proof {
        assert((days_before_year(year as int) + days_before_month(year as int, month as int) + (
        day - 1)) == days);
        assert(timestamp_of(year as int, month as int, day as int, hour as int) == ts)
            by (nonlinear_arith)
            requires
                days_before_year(year as int) + days_before_month(year as int, month as int) + (day
                    - 1) == days,
                t == days * 86400 + hour * 3600,
                t == ts,
                timestamp_of(year as int, month as int, day as int, hour as int) == (
                days_before_year(year as int) + days_before_month(year as int, month as int) + (day
                    - 1)) * 86400 + hour * 3600,
        ;
    }
    (year, month as u8, day as u8, hour as u8)
}

} // verus!
