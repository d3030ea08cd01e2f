//! Calendar days of the proleptic Gregorian calendar.

use crate::number::{
    digit_char, digit_value, is_digit, padded, padded_text, two_digit_text, two_digits,
};
use chrono::{Datelike, Duration, NaiveDate};
use vstd::prelude::*;

verus! {

/// A day of the calendar.
#[derive(Clone, Copy, PartialEq, Eq, Structural, Debug)]
pub struct Date {
    pub year: i32,
    pub month: u32,
    pub day: u32,
}

/// Whether `year` has a February 29.
pub open spec fn leap(year: int) -> bool {
    year % 4 == 0 && (year % 100 != 0 || year % 400 == 0)
}

/// The number of days of a month.
pub open spec fn month_days(year: int, month: int) -> int {
    if month == 2 {
        if leap(year) {
            29
        } else {
            28
        }
    } else if month == 4 || month == 6 || month == 9 || month == 11 {
        30
    } else {
        31
    }
}

/// The days of a year that come before a month.
pub open spec fn days_before_month(year: int, month: int) -> int
    decreases month,
{
    if month <= 1 {
        0
    } else {
        days_before_month(year, month - 1) + month_days(year, month - 1)
    }
}

/// The days from the first of January of the year 1 to the start of `year`.
pub open spec fn days_before_year(year: int) -> int {
    365 * (year - 1) + (year - 1) / 4 - (year - 1) / 100 + (year - 1) / 400
}

/// The first year that a date can have.
pub const FIRST_YEAR: i32 = -262143;

/// The last year that a date can have.
pub const LAST_YEAR: i32 = 262142;

impl Date {
    /// Whether the day exists, in a year within the supported range.
    pub open spec fn valid(self) -> bool {
        &&& FIRST_YEAR <= self.year <= LAST_YEAR
        &&& 1 <= self.month <= 12
        &&& 1 <= self.day <= month_days(self.year as int, self.month as int)
    }

    /// The number of the day, counted from the first of January of the year 1.
    pub open spec fn number(self) -> int {
        days_before_year(self.year as int) + days_before_month(
            self.year as int,
            self.month as int,
        ) + self.day
    }

    /// Whether the day comes before `other`.
    pub open spec fn before(self, other: Date) -> bool {
        ||| self.year < other.year
        ||| self.year == other.year && self.month < other.month
        ||| self.year == other.year && self.month == other.month && self.day < other.day
    }
}

// ------------------------------------------------------------------------------------------
// Order
// ------------------------------------------------------------------------------------------

proof fn lemma_months(year: int, month: int)
    requires
        1 <= month <= 12,
    ensures
        days_before_month(year, month) + month_days(year, month) <= 365 + (if leap(year) {
            1int
        } else {
            0int
        }),
        0 <= days_before_month(year, month),
{
    reveal_with_fuel(days_before_month, 13);
}

proof fn lemma_month_order(year: int, a: int, b: int)
    requires
        1 <= a < b <= 12,
    ensures
        days_before_month(year, a) + month_days(year, a) <= days_before_month(year, b),
    decreases b,
{
    if b > a + 1 {
        lemma_month_order(year, a, b - 1);
    }
}

proof fn lemma_next_year(year: int)
    ensures
        days_before_year(year + 1) == days_before_year(year) + 365 + (if leap(year) {
            1int
        } else {
            0int
        }),
{
    let y = year;
    assert(y / 4 == (y - 1) / 4 + (if y % 4 == 0 { 1int } else { 0int }));
    assert(y / 100 == (y - 1) / 100 + (if y % 100 == 0 { 1int } else { 0int }));
    assert(y / 400 == (y - 1) / 400 + (if y % 400 == 0 { 1int } else { 0int }));
    assert(y % 100 == 0 ==> y % 4 == 0) by {
        assert(y == 100 * (y / 100) + y % 100);
    }
    assert(y % 400 == 0 ==> y % 100 == 0) by {
        assert(y == 400 * (y / 400) + y % 400);
    }
}

proof fn lemma_year_order(a: int, b: int)
    requires
        a <= b,
    ensures
        days_before_year(a) <= days_before_year(b),
    decreases b - a,
{
    if a < b {
        lemma_next_year(b - 1);
        lemma_year_order(a, b - 1);
    }
}

proof fn lemma_before_is_smaller(a: Date, b: Date)
    requires
        a.valid(),
        b.valid(),
        a.before(b),
    ensures
        a.number() < b.number(),
{
    lemma_months(a.year as int, a.month as int);
    lemma_months(b.year as int, b.month as int);
    if a.year < b.year {
        lemma_next_year(a.year as int);
        lemma_year_order(a.year + 1, b.year as int);
    } else if a.month < b.month {
        lemma_month_order(a.year as int, a.month as int, b.month as int);
    }
}

/// The order of days is the order of their numbers, and a number belongs to one day only.
pub proof fn order_is_by_number(a: Date, b: Date)
    requires
        a.valid(),
        b.valid(),
    ensures
        a.before(b) <==> a.number() < b.number(),
        a == b <==> a.number() == b.number(),
{
    if a.before(b) {
        lemma_before_is_smaller(a, b);
    } else if b.before(a) {
        lemma_before_is_smaller(b, a);
    } else {
        assert(a.year == b.year && a.month == b.month && a.day == b.day);
    }
}

/// Whether `a` comes before `b`.
pub fn is_before(a: Date, b: Date) -> (r: bool)
    ensures
        r == a.before(b),
{
    a.year < b.year || (a.year == b.year && (a.month < b.month || (a.month == b.month && a.day
        < b.day)))
}

// ------------------------------------------------------------------------------------------
// Text
// ------------------------------------------------------------------------------------------

/// The year of a date as text: four digits, or a sign and at least four digits outside
/// `0..=9999`.
pub open spec fn year_text(year: int) -> Seq<char> {
    if 0 <= year <= 9999 {
        two_digits(year / 100) + two_digits(year % 100)
    } else if year < 0 {
        seq!['-'] + padded((-year) as nat, 4)
    } else {
        seq!['+'] + padded(year as nat, 4)
    }
}

/// The date as text, such as `2025-01-31`.
pub open spec fn date_text(d: Date) -> Seq<char> {
    year_text(d.year as int) + seq!['-'] + two_digits(d.month as int) + seq!['-'] + two_digits(
        d.day as int,
    )
}

/// The date as text, such as `2025-01-31`.
pub fn text_of_date(d: Date) -> (r: String)
    requires
        d.valid(),
    ensures
        r@ == date_text(d),
{
    let mut out = String::new();
    if 0 <= d.year && d.year <= 9999 {
        out.append(two_digit_text((d.year / 100) as u32).as_str());
        out.append(two_digit_text((d.year % 100) as u32).as_str());
    } else if d.year < 0 {
        out.push('-');
        out.append(padded_text((-d.year) as u64, 4).as_str());
    } else {
        out.push('+');
        out.append(padded_text(d.year as u64, 4).as_str());
    }
    assert(out@ =~= year_text(d.year as int));
    out.push('-');
    out.append(two_digit_text(d.month).as_str());
    out.push('-');
    out.append(two_digit_text(d.day).as_str());
    assert(out@ =~= date_text(d));
    out
}

/// Whether `s` has the shape `dddd-dd-dd`.
pub open spec fn iso_shape(s: Seq<char>) -> bool {
    &&& s.len() == 10
    &&& s[4] == '-' && s[7] == '-'
    &&& forall|i: int| 0 <= i < 10 && i != 4 && i != 7 ==> is_digit(#[trigger] s[i])
}

/// The date that a text of the shape `dddd-dd-dd` spells, if there is such a day.
pub open spec fn iso_date(s: Seq<char>) -> Option<Date> {
    let d = Date {
        year: (1000 * digit_value(s[0]) + 100 * digit_value(s[1]) + 10 * digit_value(s[2])
            + digit_value(s[3])) as i32,
        month: (10 * digit_value(s[5]) + digit_value(s[6])) as u32,
        day: (10 * digit_value(s[8]) + digit_value(s[9])) as u32,
    };
    if d.valid() {
        Some(d)
    } else {
        None
    }
}

/// What chrono reads from a text of another shape than `dddd-dd-dd`, such as `2025-1-9`.
pub uninterp spec fn irregular_date(s: Seq<char>) -> Option<Date>;

/// The date that a text spells.
pub open spec fn date_of(s: Seq<char>) -> Option<Date> {
    if iso_shape(s) {
        iso_date(s)
    } else {
        irregular_date(s)
    }
}

/// `chrono::NaiveDate::parse_from_str` with the format `%Y-%m-%d`. A text of four, two and two
/// digits with hyphens between them is read digit by digit, and is refused if there is no such
/// day; whatever else chrono reads as a date is a day that exists.
#[verifier::external_body]
pub(crate) fn parse_date(s: &str) -> (r: Option<Date>)
    ensures
        iso_shape(s@) ==> r == iso_date(s@),
        !iso_shape(s@) ==> r == irregular_date(s@),
        r matches Some(d) ==> d.valid(),
{
    match NaiveDate::parse_from_str(s, "%Y-%m-%d") {
        Ok(d) => Some(Date { year: d.year(), month: d.month(), day: d.day() }),
        Err(_) => None,
    }
}

/// Writing a date of a four-digit year and reading it gives the date back.
pub proof fn date_reads_back(d: Date)
    requires
        d.valid(),
        0 <= d.year <= 9999,
    ensures
        date_of(date_text(d)) == Some(d),
{
    let s = date_text(d);
    let y = d.year as int;
    assert(s =~= seq![
        digit_char((y / 100) / 10),
        digit_char((y / 100) % 10),
        digit_char((y % 100) / 10),
        digit_char((y % 100) % 10),
        '-',
        digit_char(d.month as int / 10),
        digit_char(d.month as int % 10),
        '-',
        digit_char(d.day as int / 10),
        digit_char(d.day as int % 10),
    ]);
    assert(d.day <= 31);
    let c = y / 100;
    let r = y % 100;
    assert(y == 100 * c + r && 0 <= c < 100 && 0 <= r < 100);
    lemma_two_digits(c);
    lemma_two_digits(r);
    lemma_two_digits(d.month as int);
    lemma_two_digits(d.day as int);
    assert(iso_shape(s));
    assert(iso_date(s) == Some(d));
}

proof fn lemma_two_digits(n: int)
    requires
        0 <= n < 100,
    ensures
        is_digit(digit_char(n / 10)),
        is_digit(digit_char(n % 10)),
        10 * digit_value(digit_char(n / 10)) + digit_value(digit_char(n % 10)) == n,
{
    assert(0 <= n / 10 < 10 && 0 <= n % 10 < 10 && n == 10 * (n / 10) + n % 10);
}

// ------------------------------------------------------------------------------------------
// Arithmetic
// ------------------------------------------------------------------------------------------

/// The first day that a date can be.
pub open spec fn first_day() -> Date {
    Date { year: FIRST_YEAR, month: 1, day: 1 }
}

/// The last day that a date can be.
pub open spec fn last_day() -> Date {
    Date { year: LAST_YEAR, month: 12, day: 31 }
}

/// Whether the day that comes `n` days before `d` is within the supported range.
pub open spec fn has_day_before(d: Date, n: int) -> bool {
    first_day().number() <= d.number() - n <= last_day().number()
}

/// `chrono::NaiveDate::checked_sub_signed` with `n` whole days: the day whose number is smaller
/// by `n`, unless it lies outside the supported range.
#[verifier::external_body]
pub(crate) fn days_before(d: Date, n: i64) -> (r: Option<Date>)
    requires
        d.valid(),
        i32::MIN <= n <= u32::MAX,
    ensures
        r is Some <==> has_day_before(d, n as int),
        r matches Some(e) ==> e.valid() && e.number() == d.number() - n,
{
    let day = NaiveDate::from_ymd_opt(d.year, d.month, d.day)?;
    let e = day.checked_sub_signed(Duration::days(n))?;
    Some(Date { year: e.year(), month: e.month(), day: e.day() })
}

/// `d` moved into another year, if that year has the day.
pub open spec fn in_year(d: Date, year: int) -> Option<Date> {
    let e = Date { year: year as i32, month: d.month, day: d.day };
    if i32::MIN <= year <= i32::MAX && e.valid() {
        Some(e)
    } else {
        None
    }
}

/// `chrono::Datelike::with_year`: the same month and day of another year, unless there is no
/// such day or the year is out of range.
#[verifier::external_body]
pub(crate) fn with_year(d: Date, year: i32) -> (r: Option<Date>)
    requires
        d.valid(),
    ensures
        r == in_year(d, year as int),
{
    let e = NaiveDate::from_ymd_opt(d.year, d.month, d.day)?.with_year(year)?;
    Some(Date { year: e.year(), month: e.month(), day: e.day() })
}

/// Whether `d` is the day `day` days before `today`, or `today` where that day is out of range.
pub open spec fn is_target_date(today: Date, day: int, d: Date) -> bool {
    if has_day_before(today, day) {
        d.valid() && d.number() == today.number() - day
    } else {
        d == today
    }
}

/// The day `day` days before `today`; `today` itself where that day is out of range.
pub fn target_date_for_day(today: Date, day: i32) -> (r: Date)
    requires
        today.valid(),
    ensures
        r.valid(),
        is_target_date(today, day as int, r),
        day == 0 ==> r == today,
{
    proof {
        reveal_with_fuel(days_before_month, 13);
        order_is_by_number(first_day(), today);
        order_is_by_number(last_day(), today);
        if day == 0 {
            assert forall|e: Date| e.valid() && #[trigger] e.number() == today.number() implies e
                == today by {
                order_is_by_number(e, today);
            }
        }
    }
    match days_before(today, day as i64) {
        Some(d) => d,
        None => today,
    }
}

/// The day that stands in for `d` one year earlier: the same day of the year before, or the day
/// 365 days before where that year has no such day.
pub open spec fn is_year_before(d: Date, e: Date) -> bool {
    &&& e.valid()
    &&& match in_year(d, d.year - 1) {
        Some(same) => e == same,
        None => e.number() == d.number() - 365,
    }
}

/// Whether there is a day that stands in for `d` one year earlier.
pub open spec fn has_year_before(d: Date) -> bool {
    in_year(d, d.year - 1) is Some || has_day_before(d, 365)
}

/// The label of the day one year before the day that `label` spells.
pub fn fallback_date_label(label: &str) -> (r: Option<String>)
    ensures
        r is Some <==> date_of(label@) is Some && has_year_before(date_of(label@).unwrap()),
        r matches Some(text) ==> exists|e: Date|
            #![trigger date_text(e)]
            is_year_before(date_of(label@).unwrap(), e) && text@ == date_text(e),
{
    let date = match parse_date(label) {
        Some(d) => d,
        None => {
            return None;
        },
    };
    let found = match with_year(date, date.year - 1) {
        Some(e) => Some(e),
        None => days_before(date, 365),
    };
    match found {
        Some(e) => {
            assert(is_year_before(date, e));
            Some(text_of_date(e))
        },
        None => None,
    }
}

/// The label of the year before is the same month and day, except for a leap day, whose place
/// the first of March takes.
pub proof fn year_before_keeps_the_day(d: Date, e: Date)
    requires
        d.valid(),
        FIRST_YEAR < d.year,
        is_year_before(d, e),
    ensures
        e.year == d.year - 1,
        if d.month == 2 && d.day == 29 {
            e.month == 3 && e.day == 1
        } else {
            e.month == d.month && e.day == d.day
        },
{
    let y = d.year as int;
    if in_year(d, y - 1) is None {
        assert(d.month == 2 && d.day == 29);
        let m = Date { year: (y - 1) as i32, month: 3, day: 1 };
        assert(leap(y) && !leap(y - 1));
        lemma_next_year(y - 1);
        reveal_with_fuel(days_before_month, 4);
        assert(m.number() == d.number() - 365);
        order_is_by_number(m, e);
    } else if d.month == 2 && d.day == 29 {
        assert(leap(y));
        assert(y % 4 == 0 && (y - 1) % 4 != 0);
    }
}

} // verus!
