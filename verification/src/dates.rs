//! Calendar arithmetic: Unix time to civil dates and their textual forms.

use vstd::prelude::*;
use crate::text::{padded, push_padded, push_char};

verus! {

/// Leap years of the proleptic Gregorian calendar.
pub open spec fn is_leap(y: int) -> bool {
    (y % 4 == 0 && y % 100 != 0) || y % 400 == 0
}

/// Number of days in month `m` (1-based) of year `y`.
pub open spec fn days_in_month(y: int, m: int) -> int {
    if m == 2 {
        if is_leap(y) { 29 } else { 28 }
    } else if m == 4 || m == 6 || m == 9 || m == 11 {
        30
    } else {
        31
    }
}

/// A real calendar date.
pub open spec fn valid_date(y: int, m: int, d: int) -> bool {
    1 <= m <= 12 && 1 <= d <= days_in_month(y, m)
}

/// Number of leap years before year `y` (counted from year 1).
pub open spec fn leaps_before(y: int) -> int {
    (y - 1) / 4 - (y - 1) / 100 + (y - 1) / 400
}

/// Days from 1970-01-01 to January 1 of year `y`.
pub open spec fn days_before_year(y: int) -> int {
    365 * (y - 1970) + leaps_before(y) - leaps_before(1970)
}

/// Days from January 1 to the first day of month `m` of year `y`.
pub open spec fn days_before_month(y: int, m: int) -> int {
    let common: int = if m == 1 {
        0
    } else if m == 2 {
        31
    } else if m == 3 {
        59
    } else if m == 4 {
        90
    } else if m == 5 {
        120
    } else if m == 6 {
        151
    } else if m == 7 {
        181
    } else if m == 8 {
        212
    } else if m == 9 {
        243
    } else if m == 10 {
        273
    } else if m == 11 {
        304
    } else {
        334
    };
    common + if m > 2 && is_leap(y) { 1int } else { 0int }
}

/// Days from 1970-01-01 to the date `y-m-d`.
pub open spec fn days_from_civil(y: int, m: int, d: int) -> int {
    days_before_year(y) + days_before_month(y, m) + d - 1
}

/// Consecutive years are 365 days apart, 366 after a leap year.
#[verifier::spinoff_prover]
#[verifier::rlimit(30)]
pub proof fn lemma_year_length(y: int)
    ensures
        days_before_year(y + 1) - days_before_year(y) == if is_leap(y) { 366int } else { 365int },
{
}

/// A later year starts later.
pub proof fn lemma_years_increase(y1: int, y2: int)
    requires
        y1 < y2,
    ensures
        days_before_year(y1 + 1) <= days_before_year(y2),
    decreases y2 - y1,
{
    if y1 + 1 < y2 {
        lemma_years_increase(y1 + 1, y2);
        lemma_year_length(y1 + 1);
    }
}

/// A valid date falls inside its own year.
proof fn lemma_date_in_year(y: int, m: int, d: int)
    requires
        valid_date(y, m, d),
    ensures
        days_before_year(y) <= days_from_civil(y, m, d) < days_before_year(y + 1),
{
    lemma_year_length(y);
}

/// Distinct valid dates have distinct day numbers.
pub proof fn lemma_days_from_civil_injective(y1: int, m1: int, d1: int, y2: int, m2: int, d2: int)
    requires
        valid_date(y1, m1, d1),
        valid_date(y2, m2, d2),
        days_from_civil(y1, m1, d1) == days_from_civil(y2, m2, d2),
    ensures
        y1 == y2 && m1 == m2 && d1 == d2,
{
    lemma_date_in_year(y1, m1, d1);
    lemma_date_in_year(y2, m2, d2);
    if y1 < y2 {
        lemma_years_increase(y1, y2);
    } else if y2 < y1 {
        lemma_years_increase(y2, y1);
    }
}

/// The day-of-era decomposition used by `civil_from_days`.
proof fn lemma_year_of_era(doe: int)
    requires
        0 <= doe < 146097,
    ensures
        ({
            let yoe = (doe - doe / 1460 + doe / 36524 - doe / 146096) / 365;
            let doy = doe - (365 * yoe + yoe / 4 - yoe / 100);
            &&& 0 <= yoe <= 399
            &&& 0 <= doy <= 365
            &&& doy == 365 ==> (yoe + 1) % 4 == 0 && ((yoe + 1) % 100 != 0 || yoe + 1 == 400)
        }),
{
}

/// The March-based month decomposition used by `civil_from_days`.
proof fn lemma_month_of_year(doy: int)
    requires
        0 <= doy <= 365,
    ensures
        ({
            let mp = (5 * doy + 2) / 153;
            let start = (153 * mp + 2) / 5;
            let d = doy - start + 1;
            let m = if mp < 10 { mp + 3 } else { mp - 9 };
            &&& 0 <= mp <= 11
            &&& 1 <= d
            &&& mp < 10 ==> start == days_before_month(1, m) - 59 && d <= days_in_month(1, m)
            &&& mp >= 10 ==> start == days_before_month(1, m) + 306
            &&& mp == 10 ==> d <= 31
            &&& mp == 11 ==> d <= 29 && (d == 29 ==> doy == 365)
        }),
{
}

/// Hinnant's computation, step by step over the integers.
spec fn hinnant(days: int) -> (int, int, int) {
    let z = days + 719468;
    let era = z / 146097;
    let doe = z % 146097;
    let yoe = (doe - doe / 1460 + doe / 36524 - doe / 146096) / 365;
    let doy = doe - (365 * yoe + yoe / 4 - yoe / 100);
    let mp = (5 * doy + 2) / 153;
    let d = doy - (153 * mp + 2) / 5 + 1;
    let m = if mp < 10 { mp + 3 } else { mp - 9 };
    let y = yoe + era * 400 + if m <= 2 { 1int } else { 0int };
    (y, m, d)
}

/// January 1 of the year `yoe` years into era `era`, in days since 1970.
#[verifier::spinoff_prover]
proof fn lemma_jan1(era: int, yoe: int)
    requires
        0 <= yoe <= 399,
    ensures
        days_before_year(yoe + era * 400) == era * 146097 + 365 * yoe + yoe / 4 - yoe / 100 - 719527
            - if is_leap(yoe + era * 400) { 1int } else { 0int },
{
    let y = yoe + era * 400;
    assert((y - 1) / 4 == era * 100 + (yoe - 1) / 4) by {
        vstd::arithmetic::div_mod::lemma_fundamental_div_mod((yoe - 1) as int, 4);
        vstd::arithmetic::div_mod::lemma_fundamental_div_mod_converse(
            y - 1, 4, era * 100 + (yoe - 1) / 4, (yoe - 1) % 4);
    }
    assert((y - 1) / 100 == era * 4 + (yoe - 1) / 100) by {
        vstd::arithmetic::div_mod::lemma_fundamental_div_mod((yoe - 1) as int, 100);
        vstd::arithmetic::div_mod::lemma_fundamental_div_mod_converse(
            y - 1, 100, era * 4 + (yoe - 1) / 100, (yoe - 1) % 100);
    }
    assert((y - 1) / 400 == era + (yoe - 1) / 400) by {
        vstd::arithmetic::div_mod::lemma_fundamental_div_mod((yoe - 1) as int, 400);
        vstd::arithmetic::div_mod::lemma_fundamental_div_mod_converse(
            y - 1, 400, era + (yoe - 1) / 400, (yoe - 1) % 400);
    }
    assert(is_leap(y) == is_leap(yoe)) by {
        vstd::arithmetic::div_mod::lemma_mod_multiples_vanish(era * 100, yoe, 4);
        vstd::arithmetic::div_mod::lemma_mod_multiples_vanish(era * 4, yoe, 100);
        vstd::arithmetic::div_mod::lemma_mod_multiples_vanish(era, yoe, 400);
        assert(y == 4 * (era * 100) + yoe);
        assert(y == 100 * (era * 4) + yoe);
        assert(y == 400 * era + yoe);
    }
}

/// Whether the year after `yoe` years into an era is a leap year.
proof fn lemma_next_leap(era: int, yoe: int)
    requires
        0 <= yoe <= 399,
    ensures
        is_leap(yoe + era * 400 + 1) == ((yoe + 1) % 4 == 0 && ((yoe + 1) % 100 != 0 || yoe + 1 == 400)),
{
    let y = yoe + era * 400 + 1;
    assert(y == 4 * (era * 100) + (yoe + 1));
    vstd::arithmetic::div_mod::lemma_mod_multiples_vanish(era * 100, yoe + 1, 4);
    assert(y == 100 * (era * 4) + (yoe + 1));
    vstd::arithmetic::div_mod::lemma_mod_multiples_vanish(era * 4, yoe + 1, 100);
    assert(y == 400 * era + (yoe + 1));
    vstd::arithmetic::div_mod::lemma_mod_multiples_vanish(era, yoe + 1, 400);
}

/// Days after the start of a 400-year era, as a date.
proof fn lemma_era_date(era: int, doe: int)
    requires
        0 <= doe < 146097,
    ensures
        ({
            let (y, m, d) = hinnant(era * 146097 + doe - 719468);
            valid_date(y, m, d) && days_from_civil(y, m, d) == era * 146097 + doe - 719468
        }),
{
    let days = era * 146097 + doe - 719468;
    let z = days + 719468;
    assert(z / 146097 == era && z % 146097 == doe) by {
        vstd::arithmetic::div_mod::lemma_fundamental_div_mod_converse(z, 146097, era, doe);
    }
    lemma_year_of_era(doe);
    let yoe = (doe - doe / 1460 + doe / 36524 - doe / 146096) / 365;
    let doy = doe - (365 * yoe + yoe / 4 - yoe / 100);
    lemma_month_of_year(doy);
    let mp = (5 * doy + 2) / 153;
    let m = if mp < 10 { mp + 3 } else { mp - 9 };
    let big_y = yoe + era * 400;
    lemma_jan1(era, yoe);
    lemma_year_length(big_y);
    lemma_next_leap(era, yoe);
}

/// The year, month and day `days` after 1970-01-01 (Howard Hinnant's
/// `civil_from_days`).
pub fn civil_from_days(days: i64) -> (res: (i64, u32, u32))
    requires
        days <= i64::MAX - 719468,
    ensures
        valid_date(res.0 as int, res.1 as int, res.2 as int),
        days_from_civil(res.0 as int, res.1 as int, res.2 as int) == days,
{
    let z: i64 = days + 719468;
    let era: i64 = z.checked_div_euclid(146097).unwrap();
    let doe: i64 = z.checked_rem_euclid(146097).unwrap();
    proof {
        lemma_year_of_era(doe as int);
        lemma_era_date(era as int, doe as int);
        assert(z == era * 146097 + doe);
    }
    let yoe: i64 = (doe - doe / 1460 + doe / 36524 - doe / 146096) / 365;
    let y: i64 = yoe + era * 400;
    let doy: i64 = doe - (365 * yoe + yoe / 4 - yoe / 100);
    proof {
        lemma_month_of_year(doy as int);
    }
    let mp: i64 = (5 * doy + 2) / 153;
    let d: i64 = doy - (153 * mp + 2) / 5 + 1;
    let m: i64 = if mp < 10 { mp + 3 } else { mp - 9 };
    let y: i64 = if m <= 2 { y + 1 } else { y };
    assert(hinnant(days as int) == (y as int, m as int, d as int));
    (y, m as u32, d as u32)
}

/// The calendar date of a day number.
pub open spec fn civil_of(days: int) -> (int, int, int) {
    choose|ymd: (int, int, int)| valid_date(ymd.0, ymd.1, ymd.2) && days_from_civil(ymd.0, ymd.1, ymd.2) == days
}

/// `civil_from_days` computes `civil_of`.
pub proof fn lemma_civil_of(days: int, y: int, m: int, d: int)
    requires
        valid_date(y, m, d),
        days_from_civil(y, m, d) == days,
    ensures
        civil_of(days) == (y, m, d),
{
    let w = (y, m, d);
    assert(valid_date(w.0, w.1, w.2) && days_from_civil(w.0, w.1, w.2) == days);
    assert(exists|ymd: (int, int, int)| valid_date(ymd.0, ymd.1, ymd.2) && days_from_civil(ymd.0, ymd.1, ymd.2) == days);
    let c = civil_of(days);
    lemma_days_from_civil_injective(c.0, c.1, c.2, y, m, d);
}

/// A date on or after 1970-01-01 is in 1970 or later.
pub proof fn lemma_year_after_epoch(y: int, m: int, d: int)
    requires
        valid_date(y, m, d),
        days_from_civil(y, m, d) >= 0,
    ensures
        y >= 1970,
{
    lemma_date_in_year(y, m, d);
    if y < 1970 {
        lemma_years_increase(y, 1970);
    }
}

/// The calendar day after `y-m-d`.
pub open spec fn next_day(y: int, m: int, d: int) -> (int, int, int) {
    if d < days_in_month(y, m) {
        (y, m, d + 1)
    } else if m < 12 {
        (y, m + 1, 1)
    } else {
        (y + 1, 1, 1)
    }
}

/// Every day number names a valid date.
pub proof fn lemma_civil_of_valid(days: int)
    ensures
        valid_date(civil_of(days).0, civil_of(days).1, civil_of(days).2),
        days_from_civil(civil_of(days).0, civil_of(days).1, civil_of(days).2) == days,
{
    let z = days + 719468;
    let era = z / 146097;
    let doe = z % 146097;
    assert(z == era * 146097 + doe);
    lemma_era_date(era, doe);
    let (y, m, d) = hinnant(era * 146097 + doe - 719468);
    lemma_civil_of(days, y, m, d);
}

/// The day after a valid date is valid and one day later.
proof fn lemma_next_day(y: int, m: int, d: int)
    requires
        valid_date(y, m, d),
    ensures
        valid_date(next_day(y, m, d).0, next_day(y, m, d).1, next_day(y, m, d).2),
        days_from_civil(next_day(y, m, d).0, next_day(y, m, d).1, next_day(y, m, d).2) == days_from_civil(y, m, d)
            + 1,
{
    lemma_year_length(y);
}

/// Consecutive day numbers are consecutive calendar days: day `n + 1` is the
/// day after day `n`, which is always a valid date; day 0 is 1970-01-01.
pub proof fn law_days_are_consecutive(days: int)
    ensures
        valid_date(civil_of(days).0, civil_of(days).1, civil_of(days).2),
        civil_of(days + 1) == next_day(civil_of(days).0, civil_of(days).1, civil_of(days).2),
        civil_of(0) == (1970int, 1int, 1int),
{
    lemma_civil_of_valid(days);
    let c = civil_of(days);
    lemma_next_day(c.0, c.1, c.2);
    let n = next_day(c.0, c.1, c.2);
    lemma_civil_of(days + 1, n.0, n.1, n.2);
    lemma_civil_of(0, 1970, 1, 1);
}

/// Each month but the last ends where the next begins.
proof fn lemma_month_step(y: int, m: int)
    requires
        1 <= m < 12,
    ensures
        days_before_month(y, m + 1) == days_before_month(y, m) + days_in_month(y, m),
{
}

/// A day of an earlier month of a year comes before the next months.
proof fn lemma_month_order(y: int, m1: int, m2: int)
    requires
        1 <= m1 < m2 <= 12,
    ensures
        days_before_month(y, m1) + days_in_month(y, m1) <= days_before_month(y, m2),
    decreases m2 - m1,
{
    lemma_month_step(y, m1);
    if m1 + 1 < m2 {
        lemma_month_order(y, m1 + 1, m2);
    }
}

/// Dates in calendar order.
pub open spec fn date_lt(y1: int, m1: int, d1: int, y2: int, m2: int, d2: int) -> bool {
    y1 < y2 || (y1 == y2 && m1 < m2) || (y1 == y2 && m1 == m2 && d1 < d2)
}

/// An earlier valid date has a smaller day number.
pub proof fn lemma_date_order(y1: int, m1: int, d1: int, y2: int, m2: int, d2: int)
    requires
        valid_date(y1, m1, d1),
        valid_date(y2, m2, d2),
        date_lt(y1, m1, d1, y2, m2, d2),
    ensures
        days_from_civil(y1, m1, d1) < days_from_civil(y2, m2, d2),
{
    if y1 < y2 {
        lemma_date_in_year(y1, m1, d1);
        lemma_date_in_year(y2, m2, d2);
        lemma_years_increase(y1, y2);
    } else if m1 < m2 {
        lemma_month_order(y1, m1, m2);
    }
}

/// A date within years 1970 to 9999.
pub proof fn lemma_date_before_10000(y: int, m: int, d: int)
    requires
        valid_date(y, m, d),
        0 <= days_from_civil(y, m, d) < 2932897,
    ensures
        1970 <= y <= 9999,
        d <= 31,
{
    assert(days_before_year(10000) == 2932897);
    lemma_date_in_year(y, m, d);
    lemma_year_after_epoch(y, m, d);
    if y > 9999 {
        lemma_years_increase(9999, y);
        lemma_year_length(9999);
    }
}

/// `YYYY-MM-DDThh:mm:ss` for a date and a time of day.
pub open spec fn iso_seconds(y: int, mo: int, d: int, h: int, mi: int, s: int) -> Seq<char> {
    padded(y as nat, 4) + "-"@ + padded(mo as nat, 2) + "-"@ + padded(d as nat, 2) + "T"@ + padded(
        h as nat,
        2,
    ) + ":"@ + padded(mi as nat, 2) + ":"@ + padded(s as nat, 2)
}

/// RFC-3339 UTC text for milliseconds since the epoch, negatives clamped to
/// the epoch: `YYYY-MM-DDThh:mm:ss.mmmZ`.
pub open spec fn spec_rfc3339_from_millis(millis: int) -> Seq<char> {
    let ms = if millis < 0 { 0 } else { millis };
    let secs = ms / 1000;
    let day = civil_of(secs / 86400);
    let sod = secs % 86400;
    iso_seconds(day.0, day.1, day.2, sod / 3600, (sod % 3600) / 60, sod % 60) + "."@ + padded(
        (ms % 1000) as nat,
        3,
    ) + "Z"@
}

/// A number below `10^w` padded to `w` digits takes exactly `w` characters.
proof fn lemma_padded_len(n: nat, w: nat)
    requires
        1 <= w,
        n < crate::assemble::pow10(w),
    ensures
        padded(n, w).len() == w,
{
    crate::assemble::lemma_decimal_len(n, w);
}

/// The RFC-3339 text of an instant from the epoch to the end of year 9999 is
/// 24 characters of a valid date (year 1970 to 9999), hour, minute, second
/// and millisecond, and those fields add back up to the instant; a negative
/// instant reads as the epoch.
pub proof fn law_rfc3339_fields(millis: int)
    requires
        millis < 253_402_300_800_000,
    ensures
        exists|y: int, mo: int, d: int, h: int, mi: int, s: int, ms: int|
            #![trigger days_from_civil(y, mo, d), iso_seconds(y, mo, d, h, mi, s), padded(ms as nat, 3)]
            {
                &&& valid_date(y, mo, d)
                &&& 1970 <= y <= 9999
                &&& 0 <= h < 24 && 0 <= mi < 60 && 0 <= s < 60 && 0 <= ms < 1000
                &&& spec_rfc3339_from_millis(millis) == iso_seconds(y, mo, d, h, mi, s) + "."@ + padded(ms as nat, 3) + "Z"@
                &&& (days_from_civil(y, mo, d) * 86400 + h * 3600 + mi * 60 + s) * 1000 + ms == if millis < 0 {
                    0
                } else {
                    millis
                }
            },
        spec_rfc3339_from_millis(millis).len() == 24,
{
    let m = if millis < 0 { 0 } else { millis };
    let secs = m / 1000;
    let days = secs / 86400;
    let sod = secs % 86400;
    lemma_civil_of_valid(days);
    let c = civil_of(days);
    let (y, mo, d) = c;
    let h = sod / 3600;
    let mi = (sod % 3600) / 60;
    let s = sod % 60;
    let ms = m % 1000;
    assert(days < 2932897);
    assert(days_before_year(10000) == 2932897);
    lemma_date_in_year(y, mo, d);
    lemma_year_after_epoch(y, mo, d);
    if y > 9999 {
        lemma_years_increase(9999, y);
        lemma_year_length(9999);
    }
    assert(sod == h * 3600 + mi * 60 + s);
    assert(m == secs * 1000 + ms);
    assert(secs == days * 86400 + sod);
    assert(spec_rfc3339_from_millis(millis) == iso_seconds(y, mo, d, h, mi, s) + "."@ + padded(ms as nat, 3) + "Z"@);
    reveal_with_fuel(crate::assemble::pow10, 5);
    lemma_padded_len(y as nat, 4);
    lemma_padded_len(mo as nat, 2);
    lemma_padded_len(d as nat, 2);
    lemma_padded_len(h as nat, 2);
    lemma_padded_len(mi as nat, 2);
    lemma_padded_len(s as nat, 2);
    lemma_padded_len(ms as nat, 3);
    reveal_strlit("-");
    reveal_strlit("T");
    reveal_strlit(":");
    reveal_strlit(".");
    reveal_strlit("Z");
}

/// Format milliseconds since the Unix epoch as an RFC-3339 UTC timestamp.
/// Negative inputs clamp to the epoch.
pub fn rfc3339_from_millis(millis: i64) -> (res: String)
    ensures
        res@ == spec_rfc3339_from_millis(millis as int),
{
    let millis: i64 = if millis < 0 { 0 } else { millis };
    let total_secs: i64 = millis / 1000;
    let ms: i64 = millis % 1000;
    let days: i64 = total_secs / 86400;
    let secs_of_day: i64 = total_secs % 86400;
    let (year, month, day) = civil_from_days(days);
    proof {
        lemma_year_after_epoch(year as int, month as int, day as int);
        lemma_civil_of(days as int, year as int, month as int, day as int);
    }
    let hour: i64 = secs_of_day / 3600;
    let minute: i64 = (secs_of_day % 3600) / 60;
    let second: i64 = secs_of_day % 60;
    let mut out = String::new();
    push_padded(&mut out, year as u64, 4);
    push_char(&mut out, '-');
    push_padded(&mut out, month as u64, 2);
    push_char(&mut out, '-');
    push_padded(&mut out, day as u64, 2);
    push_char(&mut out, 'T');
    push_padded(&mut out, hour as u64, 2);
    push_char(&mut out, ':');
    push_padded(&mut out, minute as u64, 2);
    push_char(&mut out, ':');
    push_padded(&mut out, second as u64, 2);
    push_char(&mut out, '.');
    push_padded(&mut out, ms as u64, 3);
    push_char(&mut out, 'Z');
    proof {
        reveal_strlit("-");
        reveal_strlit("T");
        reveal_strlit(":");
        reveal_strlit(".");
        reveal_strlit("Z");
    }
    assert(out@ =~= spec_rfc3339_from_millis(millis as int));
    out
}

} // verus!
