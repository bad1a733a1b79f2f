//! Calendar dates: validity, the previous day, parsing a form date and the
//! `dd-mm-yyyy` rendering the reminder list shows.

use vstd::prelude::*;
use vstd::string::*;
use crate::text::{
    all_digits, append_zero_padded, decimal, digit_char, digit_value, digits_value,
    lemma_decimal_len_small, lemma_decimal_reads_back, lemma_digit_char_value,
    lemma_zero_pad_reads_back, pow10, signed_digits_value, zero_pad,
};
use chrono::Datelike;

verus! {

/// The earliest year a date can carry.
pub const MIN_YEAR: i32 = -262143;

/// The latest year a date can carry.
pub const MAX_YEAR: i32 = 262142;

/// A day of the proleptic Gregorian calendar.
#[derive(Clone, Copy, Debug, PartialEq, Eq)]
pub struct CalendarDate {
    pub year: i32,
    pub month: u32,
    pub day: u32,
}

/// A point in time in UTC, down to the nanosecond.
#[derive(Clone, Copy, Debug, PartialEq, Eq)]
pub struct UtcDateTime {
    pub date: CalendarDate,
    pub hour: u32,
    pub minute: u32,
    pub second: u32,
    pub nanosecond: u32,
}

/// Gregorian leap years: divisible by 4, except centuries not divisible by 400.
pub open spec fn is_leap_year(year: int) -> bool {
    (year % 4 == 0 && year % 100 != 0) || year % 400 == 0
}

/// The number of days of `month` in `year`.
pub open spec fn days_in_month(year: int, month: int) -> int {
    if month == 2 {
        if is_leap_year(year) {
            29
        } else {
            28
        }
    } else if month == 4 || month == 6 || month == 9 || month == 11 {
        30
    } else {
        31
    }
}

impl CalendarDate {
    /// The date exists in the calendar and lies in the supported range of years.
    pub open spec fn wf(self) -> bool {
        &&& MIN_YEAR <= self.year <= MAX_YEAR
        &&& 1 <= self.month <= 12
        &&& 1 <= self.day <= days_in_month(self.year as int, self.month as int)
    }
}

impl UtcDateTime {
    /// A valid date with a valid time of day (a leap second shows as a nanosecond
    /// count of one second or more).
    pub open spec fn wf(self) -> bool {
        &&& self.date.wf()
        &&& self.hour < 24
        &&& self.minute < 60
        &&& self.second < 60
        &&& self.nanosecond < 2_000_000_000
    }

    /// Midnight at the start of `date`.
    pub fn start_of_day(date: CalendarDate) -> (r: UtcDateTime)
        ensures
            r == (UtcDateTime { date, hour: 0, minute: 0, second: 0, nanosecond: 0 }),
    {
        UtcDateTime { date, hour: 0, minute: 0, second: 0, nanosecond: 0 }
    }
}

/// Whether `year` is a leap year.
pub fn leap_year(year: i32) -> (r: bool)
    requires
        MIN_YEAR <= year <= MAX_YEAR,
    ensures
        r == is_leap_year(year as int),
{
    // Shift by a multiple of 400 so that the remainders are taken of a natural number.
    let shifted: u32 = (year as i64 + 400_000) as u32;
    assert(shifted % 4 == year % 4 && shifted % 100 == year % 100 && shifted % 400 == year % 400)
        by {
        assert(shifted == year + 400 * 1000);
        vstd::arithmetic::div_mod::lemma_mod_add_multiples_vanish(year as int, 4);
        assert((year + 4 * 100000) % 4 == year % 4) by {
            vstd::arithmetic::div_mod::lemma_mod_multiples_vanish(100000, year as int, 4);
        }
        assert((year + 100 * 4000) % 100 == year % 100) by {
            vstd::arithmetic::div_mod::lemma_mod_multiples_vanish(4000, year as int, 100);
        }
        assert((year + 400 * 1000) % 400 == year % 400) by {
            vstd::arithmetic::div_mod::lemma_mod_multiples_vanish(1000, year as int, 400);
        }
    }
    (shifted % 4 == 0 && shifted % 100 != 0) || shifted % 400 == 0
}

/// The number of days of `month` in `year`.
pub fn month_length(year: i32, month: u32) -> (r: u32)
    requires
        MIN_YEAR <= year <= MAX_YEAR,
    ensures
        r == days_in_month(year as int, month as int),
{
    if month == 2 {
        if leap_year(year) {
            29
        } else {
            28
        }
    } else if month == 4 || month == 6 || month == 9 || month == 11 {
        30
    } else {
        31
    }
}

/// The day before `d`, if it lies in the supported range.
pub open spec fn previous_day_spec(d: CalendarDate) -> Option<CalendarDate> {
    if d.day > 1 {
        Some(CalendarDate { day: (d.day - 1) as u32, ..d })
    } else if d.month > 1 {
        Some(
            CalendarDate {
                year: d.year,
                month: (d.month - 1) as u32,
                day: days_in_month(d.year as int, d.month - 1) as u32,
            },
        )
    } else if d.year > MIN_YEAR {
        Some(CalendarDate { year: (d.year - 1) as i32, month: 12, day: 31 })
    } else {
        None
    }
}

/// The calendar day before `d`; `None` for the first supported day.
pub fn previous_day(d: CalendarDate) -> (r: Option<CalendarDate>)
    requires
        d.wf(),
    ensures
        r == previous_day_spec(d),
        r matches Some(p) ==> p.wf(),
{
    if d.day > 1 {
        Some(CalendarDate { day: d.day - 1, ..d })
    } else if d.month > 1 {
        Some(CalendarDate { year: d.year, month: d.month - 1, day: month_length(d.year, d.month - 1) })
    } else if d.year > MIN_YEAR {
        Some(CalendarDate { year: d.year - 1, month: 12, day: 31 })
    } else {
        None
    }
}

/// What `chrono::NaiveDate::parse_from_str` makes of a text and a format: the year,
/// month and day of the parsed date, or `None` where it reports an error.
pub uninterp spec fn chrono_parse_date(text: Seq<char>, format: Seq<char>) -> Option<(i32, u32, u32)>;

/// Parses `text` as a date laid out as `format` says, with
/// `chrono::NaiveDate::parse_from_str`. Trusted: the result is what that function
/// gives, and a date it gives is a valid calendar date in its supported range.
#[verifier::external_body]
fn parse_date(text: &str, format: &str) -> (r: Option<CalendarDate>)
    ensures
        r matches Some(d) ==> d.wf() && chrono_parse_date(text@, format@) == Some(
            (d.year, d.month, d.day),
        ),
        r is None ==> chrono_parse_date(text@, format@) is None,
{
    chrono::NaiveDate::parse_from_str(text, format).ok().map(
        |d| CalendarDate { year: d.year(), month: d.month(), day: d.day() },
    )
}

/// Parses a date typed in a form as `YYYY-MM-DD` (chrono's `%Y-%m-%d`).
pub fn parse_form_date(text: &str) -> (r: Option<CalendarDate>)
    ensures
        r matches Some(d) ==> d.wf() && chrono_parse_date(text@, "%Y-%m-%d"@) == Some(
            (d.year, d.month, d.day),
        ),
        r is None ==> chrono_parse_date(text@, "%Y-%m-%d"@) is None,
{
    parse_date(text, "%Y-%m-%d")
}

/// Today's date in UTC, read from the system clock with `chrono::Utc::now`.
/// Trusted: the date is a valid one in chrono's range, and it is 1970-01-01 or later,
/// because `Utc::now` (on the targets this crate builds for) panics where the clock
/// reads a time before the Unix epoch. Which date it is depends on the clock and is not
/// stated; that panic cannot be ruled out by a precondition and is left out of the
/// contract.
#[verifier::external_body]
fn utc_today() -> (r: CalendarDate)
    ensures
        r.wf(),
        r.year >= 1970,
{
    let d = chrono::Utc::now().date_naive();
    CalendarDate { year: d.year(), month: d.month(), day: d.day() }
}

/// Midnight (UTC) at the start of the day before `today`: reminders that are done
/// stay listed while they fall due at or after this instant.
pub fn listing_cutoff_for(today: CalendarDate) -> (r: Option<UtcDateTime>)
    requires
        today.wf(),
    ensures
        r == (match previous_day_spec(today) {
            Some(p) => Some(UtcDateTime { date: p, hour: 0, minute: 0, second: 0, nanosecond: 0 }),
            None => None,
        }),
        r matches Some(t) ==> t.wf(),
{
    match previous_day(today) {
        Some(p) => Some(UtcDateTime::start_of_day(p)),
        None => None,
    }
}

/// The listing cutoff for the current UTC day: midnight at the start of yesterday.
/// It always exists, since the clock's day is never the first supported day.
pub fn listing_cutoff() -> (r: Option<UtcDateTime>)
    ensures
        r is Some,
        r matches Some(t) ==> t.wf() && t.hour == 0 && t.minute == 0 && t.second == 0
            && t.nanosecond == 0,
        r matches Some(t) ==> exists|today: CalendarDate|
            today.wf() && today.year >= 1970 && #[trigger] previous_day_spec(today) == Some(
                t.date,
            ),
{
    let today = utc_today();
    let r = listing_cutoff_for(today);
    assert(previous_day_spec(today) is Some);
    r
}

/// Two decimal digits of `v` (which is below 100), as chrono's `%d` and `%m` write them.
pub open spec fn two_digits(v: nat) -> Seq<char> {
    seq![digit_char(v / 10), digit_char(v % 10)]
}

/// The year as chrono's `%Y` writes it: four digits at least, zero-padded, with a
/// sign in front of years outside 0 to 9999.
pub open spec fn year_text(year: int) -> Seq<char> {
    if 0 <= year <= 9999 {
        zero_pad(decimal(year as nat), 4)
    } else if year < 0 {
        seq!['-'] + zero_pad(decimal((-year) as nat), 4)
    } else {
        seq!['+'] + zero_pad(decimal(year as nat), 4)
    }
}

/// The date as chrono's `%d-%m-%Y` writes it.
pub open spec fn day_month_year_text(d: CalendarDate) -> Seq<char> {
    two_digits(d.day as nat) + seq!['-'] + two_digits(d.month as nat) + seq!['-'] + year_text(
        d.year as int,
    )
}

proof fn lemma_two_digits(v: nat)
    requires
        v < 100,
    ensures
        zero_pad(decimal(v), 2) == two_digits(v),
{
    if v < 10 {
        assert(decimal(v) == seq![digit_char(v)]);
        assert(zero_pad(decimal(v), 2) =~= two_digits(v));
    } else {
        let q = v / 10;
        assert(q < 10);
        assert(decimal(q) == seq![digit_char(q)]);
        assert(decimal(v) == decimal(q).push(digit_char(v % 10)));
        assert(zero_pad(decimal(v), 2) =~= two_digits(v));
    }
}

/// Renders a date as `dd-mm-yyyy`.
pub fn format_day_month_year(d: CalendarDate) -> (r: String)
    requires
        d.wf(),
    ensures
        r@ == day_month_year_text(d),
        r@.len() >= 10,
        all_digits(r@.subrange(0, 2)),
        digits_value(r@.subrange(0, 2)) == d.day,
        r@[2] == '-',
        all_digits(r@.subrange(3, 5)),
        digits_value(r@.subrange(3, 5)) == d.month,
        r@[5] == '-',
        signed_digits_value(r@.subrange(6, r@.len() as int)) == d.year,
{
    proof {
        lemma_day_month_year_reads_back(d);
        lemma_two_digits(d.day as nat);
        lemma_two_digits(d.month as nat);
        reveal_strlit("-");
        reveal_strlit("+");
    }
    let mut out = String::new();
    append_zero_padded(&mut out, d.day as u64, 2);
    out.append("-");
    append_zero_padded(&mut out, d.month as u64, 2);
    out.append("-");
    if 0 <= d.year && d.year <= 9999 {
        append_zero_padded(&mut out, d.year as u64, 4);
    } else if d.year < 0 {
        out.append("-");
        append_zero_padded(&mut out, (0 - d.year as i64) as u64, 4);
    } else {
        out.append("+");
        append_zero_padded(&mut out, d.year as u64, 4);
    }
    assert(out@ =~= day_month_year_text(d));
    out
}

/// A date of the years 0 to 9999 renders as ten characters `dd-mm-yyyy`, with the
/// dashes at positions 2 and 5.
pub proof fn lemma_day_month_year_shape(d: CalendarDate)
    requires
        d.wf(),
        0 <= d.year <= 9999,
    ensures
        day_month_year_text(d).len() == 10,
        day_month_year_text(d)[2] == '-',
        day_month_year_text(d)[5] == '-',
{
    assert(pow10(4) == 10000) by {
        reveal_with_fuel(pow10, 5);
    }
    lemma_decimal_len_small(d.year as nat, 4);
    assert(zero_pad(decimal(d.year as nat), 4).len() == 4);
}

proof fn lemma_two_digits_read_back(v: nat)
    requires
        v < 100,
    ensures
        two_digits(v).len() == 2,
        all_digits(two_digits(v)),
        digits_value(two_digits(v)) == v,
{
    let t = two_digits(v);
    let one = seq![digit_char(v / 10)];
    lemma_digit_char_value(v / 10);
    lemma_digit_char_value(v % 10);
    assert((v / 10) % 10 == v / 10);
    assert(one.last() == digit_char(v / 10));
    assert(one.drop_last() =~= Seq::<char>::empty());
    assert(digits_value(Seq::<char>::empty()) == 0);
    assert(digits_value(one) == digits_value(one.drop_last()) * 10 + digit_value(one.last()));
    assert(digits_value(one) == v / 10);
    assert(t.drop_last() =~= one);
    assert(t.last() == digit_char(v % 10));
    assert(digits_value(t) == digits_value(t.drop_last()) * 10 + digit_value(t.last()));
    assert(digits_value(t) == (v / 10) * 10 + v % 10);
}

proof fn lemma_year_text_reads_back(year: int)
    ensures
        year_text(year).len() >= 4,
        signed_digits_value(year_text(year)) == year,
{
    let a = if year < 0 {
        -year
    } else {
        year
    };
    lemma_decimal_reads_back(a as nat);
    lemma_zero_pad_reads_back(decimal(a as nat), 4);
    let z = zero_pad(decimal(a as nat), 4);
    if 0 <= year <= 9999 {
        assert('0' <= z[0] <= '9');
    } else if year < 0 {
        assert((seq!['-'] + z).drop_first() =~= z);
    } else {
        assert((seq!['+'] + z).drop_first() =~= z);
    }
}

/// The rendered date reads back as the date: its first two characters are the day of
/// the month in decimal, then a dash, two characters for the month, a dash, and the year
/// (with its sign where chrono writes one).
pub proof fn lemma_day_month_year_reads_back(d: CalendarDate)
    requires
        d.wf(),
    ensures
        day_month_year_text(d).len() >= 10,
        all_digits(day_month_year_text(d).subrange(0, 2)),
        digits_value(day_month_year_text(d).subrange(0, 2)) == d.day,
        day_month_year_text(d)[2] == '-',
        all_digits(day_month_year_text(d).subrange(3, 5)),
        digits_value(day_month_year_text(d).subrange(3, 5)) == d.month,
        day_month_year_text(d)[5] == '-',
        signed_digits_value(
            day_month_year_text(d).subrange(6, day_month_year_text(d).len() as int),
        ) == d.year,
{
    let t = day_month_year_text(d);
    lemma_two_digits_read_back(d.day as nat);
    lemma_two_digits_read_back(d.month as nat);
    lemma_year_text_reads_back(d.year as int);
    assert(t.subrange(0, 2) =~= two_digits(d.day as nat));
    assert(t.subrange(3, 5) =~= two_digits(d.month as nat));
    assert(t.subrange(6, t.len() as int) =~= year_text(d.year as int));
}

} // verus!
