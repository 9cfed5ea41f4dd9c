//! Calendar dates and the days between them.

use chrono::Datelike;
use chrono::NaiveDate;
use vstd::prelude::*;

verus! {

/// A day of the proleptic Gregorian calendar.
pub struct CalendarDay {
    pub year: int,
    pub month: int,
    pub day: int,
}

/// Whether a year has a 29 February.
pub open spec fn is_leap_year(year: int) -> bool {
    year % 4 == 0 && (year % 100 != 0 || year % 400 == 0)
}

/// The number of days in a month.
pub open spec fn days_in_month(year: int, month: int) -> int {
    if month == 2 {
        if is_leap_year(year) {
            29
        } else {
            28
        }
    } else if month == 4 || month == 6 || month == 9 || month == 11 {
        30
    } else {
        31
    }
}

/// The number of days in a year before the month `month`.
pub open spec fn days_before_month(year: int, month: int) -> int
    decreases month,
{
    if month <= 1 {
        0
    } else {
        days_before_month(year, month - 1) + days_in_month(year, month - 1)
    }
}

/// The number of days from 1 January of the year 1 to 1 January of `year`.
pub open spec fn days_before_year(year: int) -> int {
    let past = year - 1;
    365 * past + past / 4 - past / 100 + past / 400
}

impl CalendarDay {
    /// Whether the day exists and its year can be held.
    pub open spec fn is_valid(self) -> bool {
        &&& -262143 <= self.year <= 262142
        &&& 1 <= self.month <= 12
        &&& 1 <= self.day <= days_in_month(self.year, self.month)
    }

    /// The number of the day, where 1 January of the year 1 has the number 1.
    pub open spec fn number(self) -> int {
        days_before_year(self.year) + days_before_month(self.year, self.month) + self.day
    }

    /// Whether this day comes before `other`.
    pub open spec fn is_before(self, other: CalendarDay) -> bool {
        ||| self.year < other.year
        ||| self.year == other.year && self.month < other.month
        ||| self.year == other.year && self.month == other.month && self.day < other.day
    }
}

/// The number of days from `today` to `day`: negative where `day` is past.
pub open spec fn days_from(today: CalendarDay, day: CalendarDay) -> int {
    day.number() - today.number()
}

/// Whether a year has a 29 February.
fn leap_year(year: i32) -> (b: bool)
    requires
        -262143 <= year <= 262142,
    ensures
        b == is_leap_year(year as int),
{
    // A whole number of 400-year cycles later the calendar is the same.
    let later: u32 = (year + 262400) as u32;
    proof {
        vstd::arithmetic::div_mod::lemma_mod_multiples_vanish(65600, year as int, 4);
        vstd::arithmetic::div_mod::lemma_mod_multiples_vanish(2624, year as int, 100);
        vstd::arithmetic::div_mod::lemma_mod_multiples_vanish(656, year as int, 400);
    }
    later % 4 == 0 && (later % 100 != 0 || later % 400 == 0)
}

/// Whether a day exists and its year can be held.
fn calendar_day_exists(year: i32, month: u32, day: u32) -> (b: bool)
    ensures
        b == (CalendarDay { year: year as int, month: month as int, day: day as int }).is_valid(),
{
    if year < -262143 || year > 262142 || month < 1 || month > 12 {
        return false;
    }
    let length: u32 = if month == 2 {
        if leap_year(year) {
            29
        } else {
            28
        }
    } else if month == 4 || month == 6 || month == 9 || month == 11 {
        30
    } else {
        31
    };
    1 <= day && day <= length
}

/// The difference of two `NaiveDate`s of chrono, in whole days (`num_days`): the number of
/// calendar days from `today` to `day`.
#[verifier::external_body]
fn calendar_days_from(today: Date, day: Date) -> (days: i64)
    requires
        today@.is_valid(),
        day@.is_valid(),
    ensures
        days == days_from(today@, day@),
{
    let later = NaiveDate::from_ymd_opt(day.year, day.month, day.day).unwrap();
    let earlier = NaiveDate::from_ymd_opt(today.year, today.month, today.day).unwrap();
    (later - earlier).num_days()
}

/// `Utc::now().date_naive()` of chrono, as year, month and day: the date in UTC, which exists
/// in the calendar. Which date it is depends on the clock, and so nothing is said of it; chrono
/// panics where the clock stands before 1970.
#[verifier::external_body]
fn utc_now() -> (ymd: (i32, u32, u32))
    ensures
        (CalendarDay { year: ymd.0 as int, month: ymd.1 as int, day: ymd.2 as int }).is_valid(),
{
    let date = chrono::Utc::now().date_naive();
    (date.year(), date.month(), date.day())
}

/// A date without a time, such as the day on which a token expires.
#[derive(Clone, Copy, Debug)]
pub struct Date {
    year: i32,
    month: u32,
    day: u32,
}

impl View for Date {
    type V = CalendarDay;

    closed spec fn view(&self) -> CalendarDay {
        CalendarDay { year: self.year as int, month: self.month as int, day: self.day as int }
    }
}

impl Date {
    #[verifier::type_invariant]
    spec fn well_formed(self) -> bool {
        self@.is_valid()
    }

    /// The date of a year, month and day, where that day exists.
    pub fn from_ymd(year: i32, month: u32, day: u32) -> (date: Option<Date>)
        ensures
            ({
                let ymd = CalendarDay { year: year as int, month: month as int, day: day as int };
                if ymd.is_valid() {
                    date matches Some(d) && d@ == ymd
                } else {
                    date is None
                }
            }),
    {
        if calendar_day_exists(year, month, day) {
            Some(Date { year, month, day })
        } else {
            None
        }
    }

    /// The current date in UTC.
    pub fn today() -> (date: Date)
        ensures
            date@.is_valid(),
    {
        let (year, month, day) = utc_now();
        Date { year, month, day }
    }

    /// The number of days from `today` to this date: negative where this date is past.
    pub fn days_from(self, today: Date) -> (days: i64)
        ensures
            days == days_from(today@, self@),
    {
        proof {
            use_type_invariant(&self);
            use_type_invariant(&today);
        }
        calendar_days_from(today, self)
    }
}

/// The months of a year have 337 days together, beside those of February.
proof fn lemma_months_of_year(year: int)
    ensures
        days_before_month(year, 12) + days_in_month(year, 12) == 337 + days_in_month(year, 2),
{
    reveal_with_fuel(days_before_month, 13);
}

/// One more multiple of `step` is reached with a year exactly where the year is one.
proof fn lemma_multiples_up_to(year: int, step: int)
    requires
        step > 1,
    ensures
        year / step - (year - 1) / step == if year % step == 0 {
            1int
        } else {
            0
        },
{
    let quotient = year / step;
    let remainder = year % step;
    vstd::arithmetic::div_mod::lemma_fundamental_div_mod(year, step);
    vstd::arithmetic::div_mod::lemma_mod_bound(year, step);
    assert(step * quotient == quotient * step && step * (quotient - 1) == (quotient - 1) * step)
        by (nonlinear_arith);
    if remainder == 0 {
        assert((quotient - 1) * step == quotient * step - step) by (nonlinear_arith);
        vstd::arithmetic::div_mod::lemma_fundamental_div_mod_converse(
            year - 1,
            step,
            quotient - 1,
            step - 1,
        );
    } else {
        vstd::arithmetic::div_mod::lemma_fundamental_div_mod_converse(
            year - 1,
            step,
            quotient,
            remainder - 1,
        );
    }
}

/// A year is 365 days long, and a leap year 366.
proof fn lemma_year_length(year: int)
    ensures
        days_before_year(year + 1) - days_before_year(year) == if is_leap_year(year) {
            366int
        } else {
            365
        },
        days_before_month(year, 12) + days_in_month(year, 12) == if is_leap_year(year) {
            366int
        } else {
            365
        },
{
    lemma_months_of_year(year);
    lemma_multiples_up_to(year, 4);
    lemma_multiples_up_to(year, 100);
    lemma_multiples_up_to(year, 400);
    assert(year % 400 == 0 ==> year % 100 == 0);
    assert(year % 100 == 0 ==> year % 4 == 0);
}

/// An earlier month ends before a later month of the same year begins.
proof fn lemma_months_in_order(year: int, earlier: int, later: int)
    requires
        1 <= earlier < later,
    ensures
        days_before_month(year, earlier) + days_in_month(year, earlier) <= days_before_month(
            year,
            later,
        ),
    decreases later,
{
    if earlier < later - 1 {
        lemma_months_in_order(year, earlier, later - 1);
    }
}

/// An earlier year ends before a later year begins.
proof fn lemma_years_in_order(earlier: int, later: int)
    requires
        earlier < later,
    ensures
        days_before_year(earlier) + days_before_month(earlier, 12) + days_in_month(earlier, 12)
            <= days_before_year(later),
    decreases later - earlier,
{
    lemma_year_length(earlier);
    lemma_year_length(later - 1);
    if earlier < later - 1 {
        lemma_years_in_order(earlier, later - 1);
    }
}

/// An earlier day has a smaller number.
proof fn lemma_numbers_in_order(earlier: CalendarDay, later: CalendarDay)
    requires
        earlier.is_valid(),
        later.is_valid(),
        earlier.is_before(later),
    ensures
        earlier.number() < later.number(),
{
    if earlier.year < later.year {
        lemma_years_in_order(earlier.year, later.year);
        if earlier.month < 12 {
            lemma_months_in_order(earlier.year, earlier.month, 12);
        }
        lemma_months_nonnegative(later.year, later.month);
    } else if earlier.month < later.month {
        lemma_months_in_order(earlier.year, earlier.month, later.month);
    }
}

/// The months before a month have no negative number of days.
proof fn lemma_months_nonnegative(year: int, month: int)
    ensures
        days_before_month(year, month) >= 0,
    decreases month,
{
    if month > 1 {
        lemma_months_nonnegative(year, month - 1);
    }
}

/// The number of days to a date is positive exactly where the date is yet to come, zero exactly
/// on the date itself, and negative exactly where the date is past.
pub proof fn law_days_tell_order(today: CalendarDay, day: CalendarDay)
    requires
        today.is_valid(),
        day.is_valid(),
    ensures
        days_from(today, day) > 0 <==> today.is_before(day),
        days_from(today, day) == 0 <==> today == day,
        days_from(today, day) < 0 <==> day.is_before(today),
{
    if today.is_before(day) {
        lemma_numbers_in_order(today, day);
    } else if day.is_before(today) {
        lemma_numbers_in_order(day, today);
    } else {
        assert(today == day);
    }
}

/// The day after a day.
pub open spec fn day_after(day: CalendarDay) -> CalendarDay {
    if day.day < days_in_month(day.year, day.month) {
        CalendarDay { day: day.day + 1, ..day }
    } else if day.month < 12 {
        CalendarDay { month: day.month + 1, day: 1, ..day }
    } else {
        CalendarDay { year: day.year + 1, month: 1, day: 1 }
    }
}

/// The number of days to a date goes down by one with each day that passes.
pub proof fn law_days_count_down(today: CalendarDay, day: CalendarDay)
    requires
        today.is_valid(),
        day.is_valid(),
    ensures
        days_from(day_after(today), day) == days_from(today, day) - 1,
{
    lemma_year_length(today.year);
}

/// The months but February alternate between 31 and 30 days, July and August apart, which both
/// have 31. February has 28 days, and 29 in a leap year.
pub proof fn law_month_lengths(year: int, month: int)
    requires
        1 <= month <= 12,
    ensures
        month != 2 ==> days_in_month(year, month) == 30 + (month + month / 8) % 2,
        month == 2 ==> days_in_month(year, month) == days_before_year(year + 1) - days_before_year(
            year,
        ) - 337,
{
    lemma_year_length(year);
}

/// Every fourth year is a leap year, but of the full centuries only every fourth. The calendar
/// repeats after 400 years, which are 146097 days.
pub proof fn law_leap_years(year: int)
    ensures
        year % 4 != 0 ==> !is_leap_year(year),
        year % 4 == 0 && year % 100 != 0 ==> is_leap_year(year),
        is_leap_year(100 * year) <==> year % 4 == 0,
        is_leap_year(year) <==> days_before_year(year + 1) - days_before_year(year) == 366,
        days_before_year(1) == 0,
        days_before_year(year + 400) == days_before_year(year) + 146097,
{
    lemma_year_length(year);
    assert((100 * year) % 4 == 0 && (100 * year) % 100 == 0);
    assert((100 * year) % 400 == 0 <==> year % 4 == 0);
    let past = year - 1;
    assert((past + 400) / 4 == past / 4 + 100);
    assert((past + 400) / 100 == past / 100 + 4);
    assert((past + 400) / 400 == past / 400 + 1);
}

/// A day exists where its year is from -262143 to 262142, its month from 1 to 12 and its day from
/// 1 to 28. The days 29, 30 and 31 exist in the months that have them: 29 February only in every
/// fourth year, and in full centuries only in every fourth of those. The day after a day exists
/// too, but after the last day of all.
pub proof fn law_valid_days(day: CalendarDay)
    ensures
        day.is_valid() ==> -262143 <= day.year <= 262142 && 1 <= day.month <= 12 && 1 <= day.day
            <= 31,
        -262143 <= day.year <= 262142 && 1 <= day.month <= 12 ==> {
            &&& 1 <= day.day <= 28 ==> day.is_valid()
            &&& day.day == 29 ==> (day.is_valid() <==> day.month != 2 || day.year % 400 == 0 || (
            day.year % 4 == 0 && day.year % 100 != 0))
            &&& day.day == 30 ==> (day.is_valid() <==> day.month != 2)
            &&& day.day == 31 ==> (day.is_valid() <==> (day.month + day.month / 8) % 2 == 1)
        },
        day.is_valid() && (day.year < 262142 || day.month < 12 || day.day < 31) ==> day_after(
            day,
        ).is_valid(),
{
    law_leap_years(day.year);
    assert(day.year % 400 == 0 ==> day.year % 4 == 0);
}

/// The number of days between dates adds up: from one day to another and from there to a third
/// it is as far as from the first to the third.
pub proof fn law_days_add_up(a: CalendarDay, b: CalendarDay, c: CalendarDay)
    ensures
        days_from(a, b) + days_from(b, c) == days_from(a, c),
        days_from(a, b) == -days_from(b, a),
{
}

} // verus!
