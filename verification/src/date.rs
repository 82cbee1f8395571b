//! Calendar dates, as the tokens of a pattern write them.

use vstd::prelude::*;
use crate::text::{append_chars, decimal_chars, decimal_text, string_of};

verus! {

/// The days in four hundred years, after which the calendar repeats.
pub const DAYS_PER_CYCLE: u64 = 146097;

/// A day of the Gregorian calendar.
#[derive(Debug, Clone, Copy, PartialEq, Eq, Structural)]
pub struct Date {
    pub year: u64,
    pub month: u8,
    pub day: u8,
}

/// Whether the year has a 29th of February.
pub open spec fn is_leap(year: int) -> bool {
    year % 4 == 0 && (year % 100 != 0 || year % 400 == 0)
}

/// The number of days of the year.
pub open spec fn days_in_year(year: int) -> int {
    if is_leap(year) {
        366
    } else {
        365
    }
}

/// The number of days of the month, counted from one, of the year.
pub open spec fn days_in_month(year: int, month: int) -> int {
    if month == 2 {
        if is_leap(year) {
            29
        } else {
            28
        }
    } else if month == 4 || month == 6 || month == 9 || month == 11 {
        30
    } else {
        31
    }
}

/// The days from the first of January 1970 to the first of January of the year.
pub open spec fn days_before_year(year: int) -> int
    decreases year,
{
    if year <= 1970 {
        0
    } else {
        days_before_year(year - 1) + days_in_year(year - 1)
    }
}

/// The days from the first of January to the first of the month.
pub open spec fn days_before_month(year: int, month: int) -> int
    decreases month,
{
    if month <= 1 {
        0
    } else {
        days_before_month(year, month - 1) + days_in_month(year, month - 1)
    }
}

impl Date {
    /// Whether there is such a day, in 1970 or later.
    pub open spec fn is_valid(self) -> bool {
        &&& self.year >= 1970
        &&& 1 <= self.month <= 12
        &&& 1 <= self.day <= days_in_month(self.year as int, self.month as int)
    }

    /// The days from the first of January 1970 to this day.
    pub open spec fn day_number(self) -> int {
        days_before_year(self.year as int) + days_before_month(
            self.year as int,
            self.month as int,
        ) + self.day - 1
    }

    /// The date in the form `YYYY-MM-DD`, the year with four digits at least.
    pub open spec fn iso_text(self) -> Seq<char> {
        padded(self.year as nat, 4) + seq!['-'] + padded(self.month as nat, 2) + seq!['-']
            + padded(self.day as nat, 2)
    }
}

/// The number written in base ten with zeros before it up to `width` digits.
pub open spec fn padded(n: nat, width: nat) -> Seq<char> {
    let digits = decimal_text(n);
    if digits.len() >= width {
        digits
    } else {
        Seq::new((width - digits.len()) as nat, |i: int| '0') + digits
    }
}

/// The days before a year, counted by the leap years before it.
pub proof fn lemma_days_before_year(year: int)
    requires
        year >= 1970,
    ensures
        days_before_year(year) == 365 * (year - 1970) + (year - 1) / 4 - (year - 1) / 100 + (year
            - 1) / 400 - 477,
    decreases year,
{
    if year > 1970 {
        lemma_days_before_year(year - 1);
    }
}

/// The years before a month of a year are over before the month begins, and a month is
/// over before the next begins.
proof fn lemma_days_before_month(year: int, month: int)
    requires
        1 <= month <= 13,
    ensures
        days_before_month(year, month) == (if month == 1 {
            0
        } else if month == 2 {
            31
        } else {
            (if is_leap(year) {
                1int
            } else {
                0int
            }) + (if month == 3 {
                59
            } else if month == 4 {
                90
            } else if month == 5 {
                120
            } else if month == 6 {
                151
            } else if month == 7 {
                181
            } else if month == 8 {
                212
            } else if month == 9 {
                243
            } else if month == 10 {
                273
            } else if month == 11 {
                304
            } else if month == 12 {
                334
            } else {
                365int
            })
        }),
    decreases month,
{
    if month > 1 {
        lemma_days_before_month(year, month - 1);
    }
}

/// Later years begin later.
proof fn lemma_years_in_order(a: int, b: int)
    requires
        1970 <= a < b,
    ensures
        days_before_year(a) + days_in_year(a) <= days_before_year(b),
    decreases b - a,
{
    if a + 1 < b {
        lemma_years_in_order(a, b - 1);
    }
}

/// Every day has one date: two dates with the same number of days since 1970 are the
/// same.
pub proof fn lemma_day_number_injective(a: Date, b: Date)
    requires
        a.is_valid(),
        b.is_valid(),
        a.day_number() == b.day_number(),
    ensures
        a == b,
{
    lemma_days_before_month(a.year as int, a.month as int);
    lemma_days_before_month(a.year as int, a.month as int + 1);
    lemma_days_before_month(b.year as int, b.month as int);
    lemma_days_before_month(b.year as int, b.month as int + 1);
    if a.year < b.year {
        lemma_years_in_order(a.year as int, b.year as int);
    } else if b.year < a.year {
        lemma_years_in_order(b.year as int, a.year as int);
    } else if a.month < b.month {
        lemma_months_in_order(a.year as int, a.month as int + 1, b.month as int);
    } else if b.month < a.month {
        lemma_months_in_order(a.year as int, b.month as int + 1, a.month as int);
    }
}

/// Later months begin later.
proof fn lemma_months_in_order(year: int, a: int, b: int)
    requires
        1 <= a <= b <= 13,
    ensures
        days_before_month(year, a) <= days_before_month(year, b),
    decreases b - a,
{
    if a < b {
        lemma_months_in_order(year, a, b - 1);
    }
}

fn leap(year: u64) -> (r: bool)
    ensures
        r == is_leap(year as int),
{
    year % 4 == 0 && (year % 100 != 0 || year % 400 == 0)
}

fn year_length(year: u64) -> (r: u64)
    ensures
        r == days_in_year(year as int),
{
    if leap(year) {
        366
    } else {
        365
    }
}

fn month_length(year: u64, month: u8) -> (r: u64)
    ensures
        r == days_in_month(year as int, month as int),
{
    if month == 2 {
        if leap(year) {
            29
        } else {
            28
        }
    } else if month == 4 || month == 6 || month == 9 || month == 11 {
        30
    } else {
        31
    }
}

/// The date of the day that lies `days` days after the first of January 1970.
pub fn date_of_day(days: u64) -> (date: Date)
    ensures
        date.is_valid(),
        date.day_number() == days,
{
    let cycles = days / DAYS_PER_CYCLE;
    let mut rest: u64 = days % DAYS_PER_CYCLE;
    let mut year: u64 = 1970 + 400 * cycles;
    proof {
        lemma_days_before_year(year as int);
    }
    while rest >= year_length(year)
        invariant
            1970 <= year,
            year + rest <= 1970 + 400 * cycles + days % 146097,
            cycles == days / 146097,
            rest <= days % 146097,
            days_before_year(year as int) + rest == days,
        decreases rest,
    {
        rest -= year_length(year);
        year += 1;
    }
    let mut month: u8 = 1;
    proof {
        lemma_days_before_month(year as int, 13);
    }
    while rest >= month_length(year, month)
        invariant
            1 <= month <= 12,
            year >= 1970,
            days_before_year(year as int) + days_before_month(year as int, month as int) + rest
                == days,
            days_before_month(year as int, month as int) + rest < days_before_month(
                year as int,
                13,
            ),
        decreases 12 - month,
    {
        proof {
            lemma_days_before_month(year as int, month as int);
            lemma_days_before_month(year as int, month as int + 1);
        }
        rest -= month_length(year, month);
        month += 1;
    }
    Date { year, month, day: (rest + 1) as u8 }
}

/// The date of the day in which the moment `timestamp`, in seconds since the epoch,
/// lies in universal time.
pub fn date_of_timestamp(timestamp: u64) -> (date: Date)
    ensures
        date.is_valid(),
        date.day_number() == timestamp / 86400,
{
    date_of_day(timestamp / 86400)
}

fn push_padded(v: &mut Vec<char>, n: u64, width: usize)
    ensures
        final(v)@ == old(v)@ + padded(n as nat, width as nat),
{
    let digits = decimal_chars(n);
    let ghost start = v@;
    let mut k: usize = digits.len();
    while k < width
        invariant
            digits@ == decimal_text(n as nat),
            digits@.len() <= k,
            k <= width || k == digits@.len(),
            v@ == start + Seq::new((k - digits@.len()) as nat, |i: int| '0'),
        decreases width - k,
    {
        v.push('0');
        k += 1;
    }
    let ghost zeros = v@;
    append_chars(v, &digits);
    proof {
        if digits@.len() >= width {
            assert(k == digits@.len());
            assert(zeros == start);
        } else {
            assert(k == width);
            assert(v@ == start + (Seq::new((width - digits@.len()) as nat, |i: int| '0')
                + digits@));
        }
    }
}

/// Writes the date in the form `YYYY-MM-DD`.
pub fn iso_date(date: &Date) -> (r: String)
    ensures
        r@ == date.iso_text(),
{
    let mut v: Vec<char> = Vec::new();
    push_padded(&mut v, date.year, 4);
    v.push('-');
    push_padded(&mut v, date.month as u64, 2);
    v.push('-');
    push_padded(&mut v, date.day as u64, 2);
    assert(v@ == date.iso_text());
    string_of(&v)
}

} // verus!
