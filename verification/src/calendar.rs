//! The Gregorian calendar: which date a day since the Unix epoch is.
use vstd::prelude::*;

use crate::text::{
    decimal, decimal_text, join3, law_numerals_read_back, lemma_leading_zeros, lemma_numeral_len,
    lemma_padded_in_order, numeral_value, pad_zeros, parts_at, sorts_before, zero_padded,
};

verus! {

/// Seconds in a day.
pub const SECONDS_PER_DAY: u64 = 86400;

/// Whether a year has a 29th of February.
pub open spec fn is_leap(y: int) -> bool {
    y % 4 == 0 && (y % 100 != 0 || y % 400 == 0)
}

/// The days of a year.
pub open spec fn year_len(y: int) -> int {
    if is_leap(y) {
        366
    } else {
        365
    }
}

/// The days of a month, counted from 1.
pub open spec fn month_len(y: int, m: int) -> int {
    if m == 2 {
        if is_leap(y) {
            29
        } else {
            28
        }
    } else if m == 4 || m == 6 || m == 9 || m == 11 {
        30
    } else {
        31
    }
}

/// A date of the Gregorian calendar.
#[derive(Debug, Clone, Copy, PartialEq, Eq, Structural)]
pub struct Date {
    pub year: u64,
    pub month: u64,
    pub day: u64,
}

/// Whether the calendar has such a date.
pub open spec fn valid_date(date: Date) -> bool {
    &&& 1 <= date.month <= 12
    &&& 1 <= date.day <= month_len(date.year as int, date.month as int)
}

/// The days from the first of January 1970 to that of a year from then on.
pub open spec fn days_before_year(y: int) -> int
    decreases y,
{
    if y <= 1970 {
        0
    } else {
        days_before_year(y - 1) + year_len(y - 1)
    }
}

/// The days from the first of January to the first of a month of that year.
pub open spec fn days_before_month(y: int, m: int) -> int
    decreases m,
{
    if m <= 1 {
        0
    } else {
        days_before_month(y, m - 1) + month_len(y, m - 1)
    }
}

/// The days from the Unix epoch to a date.
pub open spec fn day_number(date: Date) -> int {
    days_before_year(date.year as int) + days_before_month(date.year as int, date.month as int)
        + date.day - 1
}

/// How many of the years 1 to `y` are leap years.
spec fn leap_years(y: int) -> int {
    y / 4 - y / 100 + y / 400
}

/// The days before a year, without counting year by year.
proof fn lemma_days_before_year(y: int)
    requires
        y >= 1970,
    ensures
        days_before_year(y) == 365 * (y - 1970) + leap_years(y - 1) - 477,
    decreases y,
{
    if y > 1970 {
        lemma_days_before_year(y - 1);
        let p = y - 1;
        assert(leap_years(p) == leap_years(p - 1) + if is_leap(p) {
            1int
        } else {
            0
        });
    }
}

/// The days before each month.
proof fn lemma_days_before_month(y: int)
    ensures
        ({
            let l: int = if is_leap(y) {
                1
            } else {
                0
            };
            &&& days_before_month(y, 1) == 0
            &&& days_before_month(y, 2) == 31
            &&& days_before_month(y, 3) == 59 + l
            &&& days_before_month(y, 4) == 90 + l
            &&& days_before_month(y, 5) == 120 + l
            &&& days_before_month(y, 6) == 151 + l
            &&& days_before_month(y, 7) == 181 + l
            &&& days_before_month(y, 8) == 212 + l
            &&& days_before_month(y, 9) == 243 + l
            &&& days_before_month(y, 10) == 273 + l
            &&& days_before_month(y, 11) == 304 + l
            &&& days_before_month(y, 12) == 334 + l
            &&& days_before_month(y, 13) == year_len(y)
        }),
{
    reveal_with_fuel(days_before_month, 14);
}

/// Where a day stands in its cycle of 400 years, which starts in March: the
/// century, the group of four years, the year and what is left of the days.
proof fn lemma_year_of_cycle(doe: int, b: int, q: int, t: int, s: int)
    requires
        0 <= b < 4,
        0 <= q < 25,
        0 <= s < 1461,
        q == 24 ==> s < 1460,
        t == (if s >= 1095 {
            3int
        } else {
            s / 365
        }),
        doe == 36524 * b + 1461 * q + s,
    ensures
        (doe - doe / 1460 + doe / 36524 - doe / 146096) / 365 == 100 * b + 4 * q + t,
{
    assert(doe / 36524 == b);
    assert(doe / 146096 == 0);
    let over: int = if 24 * b + q + s >= 1460 {
        1
    } else {
        0
    };
    assert(doe / 1460 == 25 * b + q + over) by {
        assert(doe == 1460 * (25 * b + q) + (24 * b + q + s));
    }
    let rest = s - over;
    assert(doe - doe / 1460 + doe / 36524 - doe / 146096 == 365 * (100 * b + 4 * q) + rest);
    assert(365 * t <= rest < 365 * (t + 1));
}

/// The year that a day of a 400-year cycle falls in, counted from March on,
/// holds that day: from the days before it there are at most 365 to go, and
/// that many only where the year ends in a leap day.
proof fn lemma_day_of_year(doe: int)
    requires
        0 <= doe < 146_097,
    ensures
        ({
            let yoe = (doe - doe / 1460 + doe / 36524 - doe / 146_096) / 365;
            let before = 365 * yoe + yoe / 4 - yoe / 100;
            &&& 0 <= yoe <= 399
            &&& before <= doe <= before + 365
            &&& doe == before + 365 ==> yoe % 4 == 3 && (yoe % 100 != 99 || yoe == 399)
        }),
{
    let yoe = (doe - doe / 1460 + doe / 36524 - doe / 146_096) / 365;
    if doe == 146_096 {
        assert(yoe == 399);
    } else {
        let b = doe / 36524;
        let r = doe % 36524;
        let q = r / 1461;
        let s = r % 1461;
        let t: int = if s >= 1095 {
            3
        } else {
            s / 365
        };
        lemma_year_of_cycle(doe, b, q, t, s);
        assert(yoe == 100 * b + 4 * q + t);
        assert(yoe / 4 == 25 * b + q);
        assert(yoe / 100 == b);
    }
}

/// The days before the first of March of a year.
proof fn lemma_days_before_march(era: int, yoe: int)
    requires
        0 <= yoe <= 399,
        400 * era + yoe >= 1969,
    ensures
        ({
            let y = 400 * era + yoe;
            let before = 365 * yoe + yoe / 4 - yoe / 100;
            let l: int = if is_leap(y) {
                1
            } else {
                0
            };
            &&& y >= 1970 ==> days_before_year(y) + 59 + l == 146_097 * era + before - 719_468
            &&& days_before_year(y + 1) - 306 == 146_097 * era + before - 719_468
        }),
{
    let y = 400 * era + yoe;
    assert(y / 4 == 100 * era + yoe / 4);
    assert(y / 100 == 4 * era + yoe / 100);
    assert(y / 400 == era);
    if y >= 1970 {
        lemma_days_before_year(y);
    }
    lemma_days_before_year(y + 1);
    assert(leap_years(y) == leap_years(y - 1) + if is_leap(y) {
        1int
    } else {
        0
    });
}

/// The month and day of the `doy`th day from the first of March of `y` on.
proof fn lemma_month_and_day(y: int, doy: int)
    requires
        0 <= doy <= 365,
        doy == 365 ==> is_leap(y + 1),
    ensures
        ({
            let mp = (5 * doy + 2) / 153;
            let day = doy - (153 * mp + 2) / 5 + 1;
            let l: int = if is_leap(y) {
                1
            } else {
                0
            };
            &&& 0 <= mp <= 11
            &&& mp < 10 ==> 1 <= day <= month_len(y, mp + 3) && days_before_month(y, mp + 3) + day
                - 1 == 59 + l + doy
            &&& mp >= 10 ==> 1 <= day <= month_len(y + 1, mp - 9) && days_before_month(
                y + 1,
                mp - 9,
            ) + day - 1 == doy - 306
            &&& mp >= 10 <==> doy >= 306
        }),
{
    lemma_days_before_month(y);
    lemma_days_before_month(y + 1);
    let mp = (5 * doy + 2) / 153;
    assert(0 <= mp <= 11);
    if mp == 0 {
    } else if mp == 1 {
    } else if mp == 2 {
    } else if mp == 3 {
    } else if mp == 4 {
    } else if mp == 5 {
    } else if mp == 6 {
    } else if mp == 7 {
    } else if mp == 8 {
    } else if mp == 9 {
    } else if mp == 10 {
    } else {
        assert(mp == 11);
    }
}

/// The date of a day, counted from the Unix epoch on.
pub fn date_of_day(days: u64) -> (date: Date)
    requires
        days <= u64::MAX / SECONDS_PER_DAY,
    ensures
        valid_date(date),
        1970 <= date.year <= days + 1970,
        day_number(date) == days,
{
    // Years are counted from March on, so that a leap day is the last of its
    // year, in cycles of 400 years.
    let z: u64 = days + 719_468;
    let era: u64 = z / 146_097;
    let doe: u64 = z - era * 146_097;
    proof {
        lemma_day_of_year(doe as int);
    }
    let yoe: u64 = (doe - doe / 1460 + doe / 36524 - doe / 146_096) / 365;
    let doy: u64 = doe - (365 * yoe + yoe / 4 - yoe / 100);
    let ghost march_year = 400 * era + yoe;
    proof {
        assert(march_year >= 1969);
        assert(doy == 365 ==> is_leap(march_year + 1));
        lemma_days_before_march(era as int, yoe as int);
        lemma_month_and_day(march_year, doy as int);
    }
    let mp: u64 = (5 * doy + 2) / 153;
    let day: u64 = doy - (153 * mp + 2) / 5 + 1;
    let month: u64 = if mp < 10 {
        mp + 3
    } else {
        mp - 9
    };
    let year: u64 = if month <= 2 {
        yoe + era * 400 + 1
    } else {
        yoe + era * 400
    };
    Date { year: year, month: month, day: day }
}

/// A date as `yyyy-mm-dd`.
pub open spec fn date_text(date: Date) -> Seq<char> {
    zero_padded(decimal(date.year as nat), 4) + "-"@ + zero_padded(decimal(date.month as nat), 2)
        + "-"@ + zero_padded(decimal(date.day as nat), 2)
}

impl Date {
    /// The date as `yyyy-mm-dd`.
    pub fn text(&self) -> (s: String)
        ensures
            s@ == date_text(*self),
    {
        let year = pad_zeros(decimal_text(self.year).as_str(), 4);
        let month = pad_zeros(decimal_text(self.month).as_str(), 2);
        let day = pad_zeros(decimal_text(self.day).as_str(), 2);
        let front = join3(year.as_str(), "-", month.as_str());
        join3(front.as_str(), "-", day.as_str())
    }
}

/// A later year starts later.
proof fn lemma_years_in_order(a: int, b: int)
    requires
        1970 <= a < b,
    ensures
        days_before_year(a) + year_len(a) <= days_before_year(b),
    decreases b,
{
    if a < b - 1 {
        lemma_years_in_order(a, b - 1);
    }
}

/// A later month starts later, and none of them reaches past its year.
proof fn lemma_months_in_order(y: int, a: int, b: int)
    requires
        1 <= a < b,
    ensures
        days_before_month(y, a) + month_len(y, a) <= days_before_month(y, b),
        days_before_month(y, a) >= 0,
    decreases b,
{
    if a < b - 1 {
        lemma_months_in_order(y, a, b - 1);
    } else if a > 1 {
        lemma_months_in_order(y, 1, a);
    }
}

/// No two dates are the same day: the date of a day is the only one it has.
pub proof fn law_one_date_per_day(a: Date, b: Date)
    requires
        valid_date(a),
        valid_date(b),
        a.year >= 1970,
        b.year >= 1970,
        day_number(a) == day_number(b),
    ensures
        a == b,
{
    lemma_days_before_month(a.year as int);
    lemma_days_before_month(b.year as int);
    lemma_months_in_order(a.year as int, a.month as int, 13);
    lemma_months_in_order(b.year as int, b.month as int, 13);
    if a.year < b.year {
        lemma_years_in_order(a.year as int, b.year as int);
    } else if b.year < a.year {
        lemma_years_in_order(b.year as int, a.year as int);
    } else if a.month < b.month {
        lemma_months_in_order(a.year as int, a.month as int, b.month as int);
    } else if b.month < a.month {
        lemma_months_in_order(a.year as int, b.month as int, a.month as int);
    }
}

/// The text of a date of the years up to 9999 has ten characters, with dashes
/// behind the year and the month.
pub proof fn law_date_text_is_ten_characters(date: Date)
    requires
        valid_date(date),
        date.year <= 9999,
    ensures
        date_text(date).len() == 10,
        date_text(date)[4] == '-',
        date_text(date)[7] == '-',
{
    reveal_strlit("-");
    reveal_with_fuel(vstd::arithmetic::power::pow, 5);
    lemma_numeral_len(date.year as nat, 10, 4);
    lemma_numeral_len(date.month as nat, 10, 2);
    lemma_numeral_len(date.day as nat, 10, 2);
}

/// The date of a day, counted from the Unix epoch on.
pub open spec fn date_on(day: int) -> Date {
    choose|date: Date| valid_date(date) && date.year >= 1970 && #[trigger] day_number(date) == day
}

/// The text of the date of a moment, given in seconds since the Unix epoch.
pub open spec fn ymd(secs: nat) -> Seq<char> {
    date_text(date_on((secs / (SECONDS_PER_DAY as nat)) as int))
}

/// The date of a moment, given in seconds since the Unix epoch, as
/// `yyyy-mm-dd` in UTC.
pub fn ymd_from_unix(secs: u64) -> (text: String)
    ensures
        text@ == ymd(secs as nat),
{
    let date = date_of_day(secs / SECONDS_PER_DAY);
    proof {
        let day = (secs / SECONDS_PER_DAY) as int;
        assert(day_number(date) == day);
        law_one_date_per_day(date, date_on(day));
    }
    date.text()
}

/// The date behind a date.
pub open spec fn next_date(date: Date) -> Date {
    if date.day < month_len(date.year as int, date.month as int) {
        Date { day: (date.day + 1) as u64, ..date }
    } else if date.month < 12 {
        Date { year: date.year, month: (date.month + 1) as u64, day: 1 }
    } else {
        Date { year: (date.year + 1) as u64, month: 1, day: 1 }
    }
}

/// Every day has a date: the first one, or the one behind that of the day before.
proof fn lemma_day_has_date(day: int) -> (date: Date)
    requires
        0 <= day <= u64::MAX / SECONDS_PER_DAY,
    ensures
        valid_date(date),
        1970 <= date.year <= 1970 + day,
        day_number(date) == day,
    decreases day,
{
    if day == 0 {
        let first = Date { year: 1970, month: 1, day: 1 };
        assert(days_before_month(1970, 1) == 0);
        first
    } else {
        let d = lemma_day_has_date(day - 1);
        lemma_days_before_month(d.year as int);
        assert(days_before_month(d.year + 1, 1) == 0);
        next_date(d)
    }
}

/// Every moment has a date, which lies as many days behind the Unix epoch as
/// the moment does.
pub proof fn law_every_moment_has_a_date(secs: u64)
    ensures
        ({
            let date = date_on((secs / SECONDS_PER_DAY) as int);
            &&& valid_date(date)
            &&& date.year >= 1970
            &&& day_number(date) == secs / SECONDS_PER_DAY
        }),
{
    let date = lemma_day_has_date((secs / SECONDS_PER_DAY) as int);
    assert(day_number(date) == (secs / SECONDS_PER_DAY) as int);
}

/// All moments of a day have the same date, and a day later it is the next one
/// of the calendar.
pub proof fn law_a_day_later_is_the_next_date(secs: u64, same_day: u64)
    requires
        secs + SECONDS_PER_DAY <= u64::MAX,
        secs / SECONDS_PER_DAY == same_day / SECONDS_PER_DAY,
    ensures
        ymd(same_day as nat) == ymd(secs as nat),
        ({
            let date = date_on((secs / SECONDS_PER_DAY) as int);
            &&& ymd(secs as nat) == date_text(date)
            &&& ymd((secs + SECONDS_PER_DAY) as nat) == date_text(next_date(date))
            &&& valid_date(next_date(date))
        }),
{
    let day = (secs / SECONDS_PER_DAY) as int;
    let later = (secs + SECONDS_PER_DAY) as u64;
    assert(later / SECONDS_PER_DAY == day + 1);
    law_every_moment_has_a_date(secs);
    law_every_moment_has_a_date(later);
    let date = date_on(day);
    let known = lemma_day_has_date(day);
    law_one_date_per_day(date, known);
    lemma_days_before_month(date.year as int);
    assert(days_before_month(date.year + 1, 1) == 0);
    law_one_date_per_day(next_date(date), date_on(day + 1));
}

/// A later day has a later date: in a later year, in a later month of the same
/// year, or on a later day of the same month.
proof fn lemma_dates_in_order(a: Date, b: Date)
    requires
        valid_date(a),
        valid_date(b),
        a.year >= 1970,
        b.year >= 1970,
        day_number(a) < day_number(b),
    ensures
        a.year < b.year || a.year == b.year && (a.month < b.month || a.month == b.month && a.day
            < b.day),
{
    lemma_days_before_month(a.year as int);
    lemma_days_before_month(b.year as int);
    lemma_months_in_order(a.year as int, a.month as int, 13);
    lemma_months_in_order(b.year as int, b.month as int, 13);
    if b.year < a.year {
        lemma_years_in_order(b.year as int, a.year as int);
    } else if a.year == b.year && b.month < a.month {
        lemma_months_in_order(a.year as int, b.month as int, a.month as int);
    }
}

/// Days before the year 10000 have dates before it.
proof fn lemma_year_has_four_digits(date: Date)
    requires
        valid_date(date),
        date.year >= 1970,
        day_number(date) < 2_932_897,
    ensures
        date.year <= 9999,
{
    lemma_months_in_order(date.year as int, date.month as int, 13);
    lemma_days_before_year(10000);
    if date.year > 10000 {
        lemma_years_in_order(10000, date.year as int);
    }
}

/// Up to the year 9999 the texts of dates are sorted like the days: that of a
/// later day comes behind.
pub proof fn law_dates_are_sorted_as_text(secs: u64, later: u64)
    requires
        secs / SECONDS_PER_DAY < later / SECONDS_PER_DAY,
        later < 253_402_300_800,
    ensures
        sorts_before(ymd(secs as nat), ymd(later as nat)),
{
    law_every_moment_has_a_date(secs);
    law_every_moment_has_a_date(later);
    let a = date_on((secs / SECONDS_PER_DAY) as int);
    let b = date_on((later / SECONDS_PER_DAY) as int);
    lemma_dates_in_order(a, b);
    lemma_year_has_four_digits(a);
    lemma_year_has_four_digits(b);
    law_date_text_is_ten_characters(a);
    law_date_text_is_ten_characters(b);
    reveal_strlit("-");
    reveal_with_fuel(vstd::arithmetic::power::pow, 5);
    lemma_numeral_len(a.year as nat, 10, 4);
    lemma_numeral_len(a.month as nat, 10, 2);
    lemma_numeral_len(a.day as nat, 10, 2);
    lemma_numeral_len(b.year as nat, 10, 4);
    lemma_numeral_len(b.month as nat, 10, 2);
    lemma_numeral_len(b.day as nat, 10, 2);
    let i: int = if a.year < b.year {
        lemma_padded_in_order(a.year as nat, b.year as nat, 4)
    } else if a.month < b.month {
        5 + lemma_padded_in_order(a.month as nat, b.month as nat, 2)
    } else {
        8 + lemma_padded_in_order(a.day as nat, b.day as nat, 2)
    };
    assert(parts_at(date_text(a), date_text(b), i));
}

/// The date behind a date is a day later; a month has 31 days, or 30 in April,
/// June, September and November, or 28 in February, and 29 in years that can be
/// divided by 4, but for those that can be divided by 100 and not by 400.
pub proof fn law_next_date_goes_by_the_calendar(date: Date)
    requires
        valid_date(date),
        1970 <= date.year < 0xffff_ffff_ffff_ffff,
    ensures
        ({
            let y = date.year as int;
            let leap = y % 4 == 0 && (y % 100 != 0 || y % 400 == 0);
            let days: int = if date.month == 2 {
                if leap {
                    29
                } else {
                    28
                }
            } else if date.month == 4 || date.month == 6 || date.month == 9 || date.month == 11 {
                30
            } else {
                31
            };
            let next = next_date(date);
            &&& 1 <= date.day <= days
            &&& date.day < days ==> next.year == y && next.month == date.month && next.day
                == date.day + 1
            &&& date.day == days && date.month < 12 ==> next.year == y && next.month == date.month
                + 1 && next.day == 1
            &&& date.day == days && date.month == 12 ==> next.year == y + 1 && next.month == 1
                && next.day == 1
            &&& valid_date(next)
            &&& day_number(next) == day_number(date) + 1
        }),
        day_number((Date { year: 1970, month: 1, day: 1 })) == 0,
{
    lemma_days_before_month(date.year as int);
    assert(days_before_month(date.year + 1, 1) == 0);
    assert(days_before_month(1970, 1) == 0);
}

/// The text of a date of four digits in the year tells the year, the month and
/// the day, in this order and in decimal digits.
pub proof fn law_date_text_reads_back(date: &Date, text: String)
    requires
        valid_date(*date),
        date.year <= 9999,
        call_ensures(Date::text, (date,), text),
    ensures
        text@ == date_text(*date),
        text@.len() == 10,
        numeral_value(text@.subrange(0, 4), 10) == date.year,
        numeral_value(text@.subrange(5, 7), 10) == date.month,
        numeral_value(text@.subrange(8, 10), 10) == date.day,
        text@[4] == '-',
        text@[7] == '-',
{
    law_date_text_is_ten_characters(*date);
    reveal_strlit("-");
    reveal_with_fuel(vstd::arithmetic::power::pow, 5);
    lemma_numeral_len(date.year as nat, 10, 4);
    lemma_numeral_len(date.month as nat, 10, 2);
    lemma_numeral_len(date.day as nat, 10, 2);
    assert(text@.subrange(0, 4) =~= zero_padded(decimal(date.year as nat), 4));
    assert(text@.subrange(5, 7) =~= zero_padded(decimal(date.month as nat), 2));
    assert(text@.subrange(8, 10) =~= zero_padded(decimal(date.day as nat), 2));
    lemma_padded_value(date.year as nat, 4);
    lemma_padded_value(date.month as nat, 2);
    lemma_padded_value(date.day as nat, 2);
}

/// Zeros in front do not change what a numeral stands for.
proof fn lemma_padded_value(n: nat, width: nat)
    ensures
        numeral_value(zero_padded(decimal(n), width), 10) == n,
{
    law_numerals_read_back(n, 10);
    let s = decimal(n);
    if s.len() < width {
        lemma_leading_zeros((width - s.len()) as nat, s, 10);
    }
}

/// The date of a moment is the date as many days behind the Unix epoch as there
/// are whole days in the seconds since then.
pub proof fn law_moment_is_dated_by_its_day(secs: u64, text: String)
    requires
        call_ensures(ymd_from_unix, (secs,), text),
    ensures
        text@ == ymd(secs as nat),
        exists|date: Date|
            valid_date(date) && date.year >= 1970 && #[trigger] day_number(date) == secs / 86400
                && text@ == date_text(date),
{
    law_every_moment_has_a_date(secs);
    let date = date_on((secs / SECONDS_PER_DAY) as int);
    assert(day_number(date) == secs / 86400);
}

/// Day by day the dates are one behind the other, and the first of them is the
/// first of January 1970.
pub proof fn law_days_are_dated_one_behind_the_other(day: u64, date: Date, next: u64, later: Date)
    requires
        next == day + 1,
        call_ensures(date_of_day, (day,), date),
        call_ensures(date_of_day, (next,), later),
        date.year < 0xffff_ffff_ffff_ffff,
    ensures
        later == next_date(date),
        day == 0 ==> date == (Date { year: 1970, month: 1, day: 1 }),
{
    law_next_date_goes_by_the_calendar(date);
    law_one_date_per_day(later, next_date(date));
    if day == 0 {
        law_next_date_goes_by_the_calendar(date);
        law_one_date_per_day(date, Date { year: 1970, month: 1, day: 1 });
    }
}

} // verus!
