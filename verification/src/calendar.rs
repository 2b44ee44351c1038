//! Dates and ages of commits, from seconds since 1970.

use vstd::prelude::*;

use crate::text::{decimal, digits, pad_start, padded};

verus! {

/// Whether a year has a 29th of February.
pub open spec fn is_leap(year: int) -> bool {
    year % 4 == 0 && (year % 100 != 0 || year % 400 == 0)
}

/// How many days a month has.
pub open spec fn days_in_month(year: int, month: int) -> int {
    if month == 2 {
        if is_leap(year) {
            29
        } else {
            28
        }
    } else if month == 4 || month == 6 || month == 9 || month == 11 {
        30
    } else {
        31
    }
}

/// How many days of a year lie before a month.
pub open spec fn days_before_month(year: int, month: int) -> int
    decreases month,
{
    if month <= 1 {
        0
    } else {
        days_before_month(year, month - 1) + days_in_month(year, month - 1)
    }
}

/// How many days lie between the first days of the years 0 and `year`: 365 for
/// each year, and one more for each leap year.
pub open spec fn days_before_year(year: int) -> int {
    365 * year + (year + 3) / 4 - (year + 99) / 100 + (year + 399) / 400
}

/// Whether there is such a day in the Gregorian calendar.
pub open spec fn is_date(year: int, month: int, day: int) -> bool {
    1 <= month <= 12 && 1 <= day <= days_in_month(year, month)
}

/// How many days a date lies after the first of January 1970.
pub open spec fn days_from_civil(year: int, month: int, day: int) -> int {
    days_before_year(year) + days_before_month(year, month) + day - 1 - 719528
}

/// A year is 366 days long if it is a leap year, and 365 days if not.
pub proof fn law_year_length(year: int)
    ensures
        days_before_year(year + 1) - days_before_year(year) == (if is_leap(year) {
            366int
        } else {
            365
        }),
        days_before_month(year, 12) + days_in_month(year, 12) == (if is_leap(year) {
            366int
        } else {
            365
        }),
{
    reveal_with_fuel(days_before_month, 13);
}

/// The year of a day in a cycle of 400 years that begins with a first of
/// March, by the day's number in it.
spec fn year_of_era(doe: int) -> int {
    (doe - doe / 1460 + doe / 36524 - doe / 146096) / 365
}

/// The days of such a cycle before one of its years.
spec fn era_days(yoe: int) -> int {
    365 * yoe + yoe / 4 - yoe / 100
}

proof fn lemma_year_of_era(doe: int)
    requires
        0 <= doe < 146097,
    ensures
        0 <= year_of_era(doe) < 400,
        era_days(year_of_era(doe)) <= doe,
        doe <= era_days(year_of_era(doe)) + 365,
        doe == era_days(year_of_era(doe)) + 365 ==> is_leap(year_of_era(doe) + 1),
{
    let d = doe as u32;
    assert({
        let y = ((d - d / 1460 + d / 36524 - d / 146096) / 365) as u32;
        &&& y < 400
        &&& 365 * y + y / 4 - y / 100 <= d
        &&& d <= 365 * y + y / 4 - y / 100 + 365
        &&& d == 365 * y + y / 4 - y / 100 + 365 ==> (y + 1) % 4 == 0 && ((y + 1) % 100 != 0 || (y
            + 1) % 400 == 0)
    }) by (bit_vector)
        requires
            d < 146097,
    ;
}

/// How many days lie before the first of March.
proof fn lemma_march(year: int)
    ensures
        days_before_year(year) + days_before_month(year, 3) == 365 * year + year / 4 - year / 100
            + year / 400 + 60,
{
    reveal_with_fuel(days_before_month, 4);
}

proof fn lemma_months(year: int, mp: int)
    requires
        0 <= mp <= 11,
    ensures
        mp <= 9 ==> days_before_month(year, mp + 3) == days_before_month(year, 3) + (153 * mp + 2)
            / 5,
        mp <= 9 ==> (153 * mp + 2) / 5 + days_in_month(year, mp + 3) == (153 * (mp + 1) + 2) / 5,
        days_before_month(year, 1) == 0,
        days_before_month(year, 2) == 31,
        days_before_month(year, 3) == 59 + (if is_leap(year) {
            1int
        } else {
            0
        }),
{
    reveal_with_fuel(days_before_month, 13);
}

/// The month of a day by its number in a year that begins with March.
proof fn lemma_month_of(doy: int, mp: int)
    requires
        0 <= doy <= 365,
        mp == (5 * doy + 2) / 153,
    ensures
        0 <= mp <= 11,
        (153 * mp + 2) / 5 <= doy,
        doy < (153 * (mp + 1) + 2) / 5,
{
}

proof fn lemma_era_year(era: int, yoe: int)
    requires
        0 <= yoe < 400,
    ensures
        ({
            let y = 400 * era + yoe;
            &&& 365 * y + y / 4 - y / 100 + y / 400 == 146097 * era + era_days(yoe)
            &&& is_leap(y + 1) == is_leap(yoe + 1)
        }),
{
    let y = 400 * era + yoe;
    assert(y / 4 == 100 * era + yoe / 4);
    assert(y / 100 == 4 * era + yoe / 100);
    assert(y / 400 == era);
    assert((y + 1) % 4 == (yoe + 1) % 4);
    assert((y + 1) % 100 == (yoe + 1) % 100);
    assert((y + 1) % 400 == (yoe + 1) % 400);
}

proof fn lemma_civil(era: int, yoe: int, doy: int, mp: int)
    requires
        0 <= yoe < 400,
        0 <= doy <= 365,
        doy == 365 ==> is_leap(yoe + 1),
        mp == (5 * doy + 2) / 153,
    ensures
        ({
            let y = 400 * era + yoe;
            let d = doy - (153 * mp + 2) / 5 + 1;
            let m = if mp < 10 {
                mp + 3
            } else {
                mp - 9
            };
            let year = if m <= 2 {
                y + 1
            } else {
                y
            };
            &&& is_date(year, m, d)
            &&& days_from_civil(year, m, d) == 146097 * era + era_days(yoe) + doy - 719468
        }),
{
    let y = 400 * era + yoe;
    lemma_month_of(doy, mp);
    lemma_era_year(era, yoe);
    lemma_march(y);
    lemma_months(y, mp);
    law_year_length(y);
    if mp >= 10 {
        lemma_months(y + 1, 0);
        assert((153 * 10 + 2) / 5 == 306);
        assert((153 * 11 + 2) / 5 == 337);
    }
}

/// `n / d` rounded down.
fn floor_div(n: i64, d: i64) -> (q: i64)
    requires
        d > 1,
    ensures
        q == n as int / d as int,
{
    if n >= 0 {
        n / d
    } else {
        let back: i64 = -(n + 1);
        let q: i64 = -(back / d) - 1;
        proof {
            let k = back as int / d as int;
            let r = back as int % d as int;
            vstd::arithmetic::div_mod::lemma_fundamental_div_mod(back as int, d as int);
            assert(n == d * q + (d - 1 - r)) by (nonlinear_arith)
                requires
                    n == -(back + 1),
                    back == d * k + r,
                    q == -k - 1,
            ;
            vstd::arithmetic::div_mod::lemma_fundamental_div_mod_converse(
                n as int,
                d as int,
                q as int,
                d - 1 - r,
            );
        }
        q
    }
}

/// The date that lies some days after the first of January 1970: year, month
/// and day.
pub fn civil_from_days(days: i64) -> (out: (i64, u32, u32))
    requires
        days <= i64::MAX - 719468,
    ensures
        is_date(out.0 as int, out.1 as int, out.2 as int),
        days_from_civil(out.0 as int, out.1 as int, out.2 as int) == days,
{
    let z: i64 = days + 719468;
    let era: i64 = floor_div(z, 146097);
    let doe: i64 = z - era * 146097;
    proof {
        lemma_year_of_era(doe as int);
    }
    let yoe: i64 = (doe - doe / 1460 + doe / 36524 - doe / 146096) / 365;
    let doy: i64 = doe - (365 * yoe + yoe / 4 - yoe / 100);
    let mp: i64 = (5 * doy + 2) / 153;
    proof {
        lemma_month_of(doy as int, mp as int);
        lemma_civil(era as int, yoe as int, doy as int, mp as int);
    }
    let d: i64 = doy - (153 * mp + 2) / 5 + 1;
    let m: i64 = if mp < 10 {
        mp + 3
    } else {
        mp - 9
    };
    let march_year: i64 = yoe + era * 400;
    let year: i64 = if m <= 2 {
        march_year + 1
    } else {
        march_year
    };
    (year, m as u32, d as u32)
}

proof fn lemma_year_order(a: int, b: int)
    requires
        a <= b,
    ensures
        days_before_year(a) <= days_before_year(b),
    decreases b - a,
{
    if a < b {
        law_year_length(b - 1);
        lemma_year_order(a, b - 1);
    }
}

proof fn lemma_month_order(year: int, a: int, b: int)
    requires
        1 <= a <= b,
    ensures
        0 <= days_before_month(year, a) <= days_before_month(year, b),
    decreases b - a,
{
    if a < b {
        lemma_month_order(year, a, b - 1);
        assert(days_in_month(year, b - 1) >= 0);
    } else {
        lemma_month_nonneg(year, a);
    }
}

proof fn lemma_month_nonneg(year: int, a: int)
    ensures
        0 <= days_before_month(year, a),
    decreases a,
{
    if a > 1 {
        lemma_month_nonneg(year, a - 1);
    }
}

/// Two dates are never the same number of days away: the number of days
/// determines the date.
pub proof fn law_dates_are_distinct(y1: int, m1: int, d1: int, y2: int, m2: int, d2: int)
    requires
        is_date(y1, m1, d1),
        is_date(y2, m2, d2),
        days_from_civil(y1, m1, d1) == days_from_civil(y2, m2, d2),
    ensures
        y1 == y2,
        m1 == m2,
        d1 == d2,
{
    lemma_date_in_year(y1, m1, d1);
    lemma_date_in_year(y2, m2, d2);
    if y1 < y2 {
        lemma_year_order(y1 + 1, y2);
    } else if y2 < y1 {
        lemma_year_order(y2 + 1, y1);
    } else if m1 < m2 {
        lemma_month_order(y1, m1 + 1, m2);
    } else if m2 < m1 {
        lemma_month_order(y1, m2 + 1, m1);
    }
}

/// A date lies in its year.
proof fn lemma_date_in_year(y: int, m: int, d: int)
    requires
        is_date(y, m, d),
    ensures
        days_before_year(y) <= days_from_civil(y, m, d) + 719528 < days_before_year(y + 1),
{
    law_year_length(y);
    lemma_month_order(y, 1, m);
    if m < 12 {
        lemma_month_order(y, m + 1, 12);
    }
}

/// The date that lies some days after the first of January 1970.
pub open spec fn date_of(days: int) -> (int, int, int) {
    choose|date: (int, int, int)|
        #![trigger is_date(date.0, date.1, date.2)]
        is_date(date.0, date.1, date.2) && days_from_civil(date.0, date.1, date.2) == days
}

proof fn lemma_date_of(days: int, y: int, m: int, d: int)
    requires
        is_date(y, m, d),
        days_from_civil(y, m, d) == days,
    ensures
        date_of(days) == (y, m, d),
{
    let date = date_of(days);
    let this = (y, m, d);
    assert(is_date(this.0, this.1, this.2));
    assert(is_date(date.0, date.1, date.2) && days_from_civil(date.0, date.1, date.2) == days);
    law_dates_are_distinct(y, m, d, date.0, date.1, date.2);
}

/// A number with zeros in front, in at least `width` characters.
pub open spec fn zero_padded(n: int, width: nat) -> Seq<char> {
    if n >= 0 {
        padded(digits(n as nat), '0', width)
    } else {
        seq!['-'] + padded(digits((-n) as nat), '0', (width - 1) as nat)
    }
}

/// A number with zeros in front, in at least `width` characters.
fn pad_number(n: i32, width: usize) -> (out: String)
    requires
        width > 0,
    ensures
        out@ == zero_padded(n as int, width as nat),
{
    if n >= 0 {
        pad_start(decimal(n as u64).as_str(), '0', width)
    } else {
        let back: i64 = -(n as i64);
        let rest = pad_start(decimal(back as u64).as_str(), '0', width - 1);
        let mut out: String = String::new();
        out.push('-');
        out.append(rest.as_str());
        proof {
            assert(out@ =~= zero_padded(n as int, width as nat));
        }
        out
    }
}

/// A date as `YYYY-MM-DD`. A year beyond 32 bits is cut off to them.
pub open spec fn date_text(days: int) -> Seq<char> {
    let date = date_of(days);
    zero_padded((date.0 as i32) as int, 4) + "-"@ + zero_padded(date.1, 2) + "-"@ + zero_padded(
        date.2,
        2,
    )
}

/// A date as `YYYY-MM-DD`.
fn format_date(days: i64) -> (out: String)
    requires
        days <= i64::MAX - 719468,
    ensures
        out@ == date_text(days as int),
{
    let (year, month, day) = civil_from_days(days);
    proof {
        lemma_date_of(days as int, year as int, month as int, day as int);
    }
    let mut out: String = pad_number(year as i32, 4);
    out.append("-");
    out.append(pad_number(month as i32, 2).as_str());
    out.append("-");
    out.append(pad_number(day as i32, 2).as_str());
    out
}

/// The day of a time, as `YYYY-MM-DD`. Blank for a time that is not known.
pub fn format_ts(unix: i64) -> (out: String)
    ensures
        out@ == (if unix <= 0 {
            "          "@
        } else {
            date_text(unix as int / 86400)
        }),
{
    if unix <= 0 {
        return "          ".to_string();
    }
    format_date(unix / 86400)
}

/// A time as `YYYY-MM-DD hh:mm UTC`.
pub fn format_commit_time(unix: i64) -> (out: String)
    ensures
        out@ == (if unix <= 0 {
            "unknown"@
        } else {
            let second = unix as int % 86400;
            date_text(unix as int / 86400) + " "@ + zero_padded(second / 3600, 2) + ":"@
                + zero_padded((second % 3600) / 60, 2) + " UTC"@
        }),
{
    if unix <= 0 {
        return "unknown".to_string();
    }
    let second: i64 = unix % 86400;
    let mut out: String = format_date(unix / 86400);
    out.append(" ");
    out.append(pad_number((second / 3600) as i32, 2).as_str());
    out.append(":");
    out.append(pad_number(((second % 3600) / 60) as i32, 2).as_str());
    out.append(" UTC");
    out
}

/// A number and the unit behind it.
fn count_of(n: i64, unit: &str) -> (out: String)
    requires
        n >= 0,
    ensures
        out@ == digits(n as nat) + unit@,
{
    let mut out: String = decimal(n as u64);
    out.append(unit);
    out
}

/// How long ago something was, in one unit.
pub open spec fn age_text(seconds: int) -> Seq<char> {
    if seconds < 60 {
        "just now"@
    } else if seconds < 3600 {
        digits((seconds / 60) as nat) + "m ago"@
    } else if seconds < 86400 {
        digits((seconds / 3600) as nat) + "h ago"@
    } else if seconds < 2592000 {
        digits((seconds / 86400) as nat) + "d ago"@
    } else if seconds < 31536000 {
        digits((seconds / 2592000) as nat) + "mo ago"@
    } else {
        digits((seconds / 31536000) as nat) + "y ago"@
    }
}

/// How long before `now` a time lies. A time to come is just now.
pub fn relative_time(ts: i64, now: i64) -> (out: String)
    requires
        i64::MIN <= now - ts <= i64::MAX,
    ensures
        out@ == age_text(
            if now >= ts {
                now - ts
            } else {
                0
            },
        ),
{
    let diff: i64 = if now >= ts {
        now - ts
    } else {
        0
    };
    if diff < 60 {
        "just now".to_string()
    } else if diff < 3600 {
        count_of(diff / 60, "m ago")
    } else if diff < 86400 {
        count_of(diff / 3600, "h ago")
    } else if diff < 2592000 {
        count_of(diff / 86400, "d ago")
    } else if diff < 31536000 {
        count_of(diff / 2592000, "mo ago")
    } else {
        count_of(diff / 31536000, "y ago")
    }
}

/// The count of days begins with the first of January 1970, and goes on by one
/// from each day to the next: within a month, from the last day of a month to
/// the first of the next, and from the last day of a year.
pub proof fn law_days_follow_each_other(y: int, m: int, d: int)
    requires
        is_date(y, m, d),
    ensures
        days_from_civil(1970, 1, 1) == 0,
        is_date(y, m, d + 1) ==> days_from_civil(y, m, d + 1) == days_from_civil(y, m, d) + 1,
        !is_date(y, m, d + 1) && m < 12 ==> is_date(y, m + 1, 1) && days_from_civil(y, m + 1, 1)
            == days_from_civil(y, m, d) + 1,
        !is_date(y, m, d + 1) && m == 12 ==> d == 31 && days_from_civil(y + 1, 1, 1)
            == days_from_civil(y, m, d) + 1,
{
    law_year_length(y);
    reveal_with_fuel(days_before_month, 13);
}

/// The months have the lengths that everybody knows, and February is a day
/// longer every fourth year, but for those of full centuries that four
/// hundred does not divide.
pub proof fn law_month_lengths(y: int, m: int)
    requires
        1 <= m <= 12,
    ensures
        days_in_month(y, m) == 30 <==> m == 4 || m == 6 || m == 9 || m == 11,
        days_in_month(y, m) == 28 || days_in_month(y, m) == 29 <==> m == 2,
        m == 2 ==> (days_in_month(y, m) == 29 <==> y % 400 == 0 || (y % 4 == 0 && y % 100 != 0)),
        28 <= days_in_month(y, m) <= 31,
{
}

/// A date is written as its year, its month and its day.
pub proof fn law_dates_are_written(y: int, m: int, d: int)
    requires
        is_date(y, m, d),
        0 <= y <= 9999,
    ensures
        date_text(days_from_civil(y, m, d)) == padded(digits(y as nat), '0', 4) + "-"@ + padded(
            digits(m as nat),
            '0',
            2,
        ) + "-"@ + padded(digits(d as nat), '0', 2),
{
    lemma_date_of(days_from_civil(y, m, d), y, m, d);
    assert((y as i32) as int == y);
}

/// An age is told in the largest unit that fits into it, and how often that
/// fits.
pub proof fn law_ages(seconds: int, n: nat)
    ensures
        seconds < 60 ==> age_text(seconds) == "just now"@,
        60 <= seconds < 3600 && n * 60 <= seconds < (n + 1) * 60 ==> age_text(seconds) == digits(n)
            + "m ago"@,
        3600 <= seconds < 86400 && n * 3600 <= seconds < (n + 1) * 3600 ==> age_text(seconds)
            == digits(n) + "h ago"@,
        86400 <= seconds < 30 * 86400 && n * 86400 <= seconds < (n + 1) * 86400 ==> age_text(seconds)
            == digits(n) + "d ago"@,
        30 * 86400 <= seconds < 365 * 86400 && n * 2592000 <= seconds < (n + 1) * 2592000
            ==> age_text(seconds) == digits(n) + "mo ago"@,
        365 * 86400 <= seconds && n * 31536000 <= seconds < (n + 1) * 31536000 ==> age_text(seconds)
            == digits(n) + "y ago"@,
{
}

} // verus!
