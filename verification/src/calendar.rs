//! Calendar days, inclusive date ranges, and billing months.
use crate::error::TariffError;
use crate::text::{
    lemma_padded_year_reads_back, lemma_zero_pad_reads_back, padded_int, parse_field, parse_integer,
    pow10, push_char, push_padded,
};
use vstd::prelude::*;
use vstd::string::*;

verus! {

/// Whether `year` is a leap year of the proleptic Gregorian calendar, judged
/// on its magnitude.
pub open spec fn leap_year(year: int) -> bool {
    let y = if year < 0 { -year } else { year };
    y % 4 == 0 && (y % 100 != 0 || y % 400 == 0)
}

/// Number of days in `month` of `year`, for `month` in `1..=12`.
pub open spec fn month_length(year: int, month: int) -> int {
    if month == 2 {
        if leap_year(year) { 29 } else { 28 }
    } else if month == 4 || month == 6 || month == 9 || month == 11 {
        30
    } else {
        31
    }
}

/// The Gregorian month lengths: January, March, May, July, August, October
/// and December have 31 days; April, June, September and November have 30;
/// February has 29 in a leap year (a multiple of 4 that is not a multiple of
/// 100 unless also of 400) and 28 otherwise.
pub proof fn lemma_month_lengths(year: int)
    ensures
        month_length(year, 1) == 31,
        month_length(year, 2) == (if year % 4 == 0 && (year % 100 != 0 || year % 400 == 0) {
            29int
        } else {
            28int
        }),
        month_length(year, 3) == 31,
        month_length(year, 4) == 30,
        month_length(year, 5) == 31,
        month_length(year, 6) == 30,
        month_length(year, 7) == 31,
        month_length(year, 8) == 31,
        month_length(year, 9) == 30,
        month_length(year, 10) == 31,
        month_length(year, 11) == 30,
        month_length(year, 12) == 31,
{
    if year < 0 {
        let y = -year;
        assert((y % 4 == 0) == (year % 4 == 0));
        assert((y % 100 == 0) == (year % 100 == 0));
        assert((y % 400 == 0) == (year % 400 == 0));
    }
}

/// A year has 366 days when February has 29, and 365 otherwise.
pub proof fn lemma_year_length(year: int)
    ensures
        month_length(year, 1) + month_length(year, 2) + month_length(year, 3) + month_length(year, 4)
            + month_length(year, 5) + month_length(year, 6) + month_length(year, 7) + month_length(
            year,
            8,
        ) + month_length(year, 9) + month_length(year, 10) + month_length(year, 11)
            + month_length(year, 12) == if month_length(year, 2) == 29 {
            366int
        } else {
            365int
        },
{
    lemma_month_lengths(year);
}

/// `year`, `month`, `day` name a day of the calendar.
pub open spec fn valid_date(year: int, month: int, day: int) -> bool {
    1 <= month <= 12 && 1 <= day <= month_length(year, month)
}

/// The text `format!("{year:04}-{month:02}-{day:02}")` gives.
pub open spec fn iso_text(year: int, month: int, day: int) -> Seq<char> {
    padded_int(year, 4) + seq!['-'] + padded_int(month, 2) + seq!['-'] + padded_int(day, 2)
}

/// What `CalendarDate::new(year, month, day)` answers, given its result.
pub open spec fn date_outcome(
    year: int,
    month: int,
    day: int,
    result: Result<CalendarDate, TariffError>,
) -> bool {
    if !(1 <= month <= 12) {
        result == Err::<CalendarDate, TariffError>(TariffError::InvalidMonth(month as u8))
    } else if !(1 <= day <= month_length(year, month)) {
        result matches Err(TariffError::InvalidDate(text)) && text@ == iso_text(year, month, day)
    } else {
        result matches Ok(date) && date@ == (year, month, day)
    }
}

/// What `CalendarDate::parse` answers for the characters `s`, given its result.
pub open spec fn parse_outcome(s: Seq<char>, result: Result<CalendarDate, TariffError>) -> bool {
    let year = parse_integer(s.subrange(0, 4), true);
    let month = parse_integer(s.subrange(5, 7), false);
    let day = parse_integer(s.subrange(8, 10), false);
    if s.len() == 10 && s[4] == '-' && s[7] == '-' && year is Some && month is Some && day is Some {
        date_outcome(year->0, month->0, day->0, result)
    } else {
        result matches Err(TariffError::InvalidDate(text)) && text@ == s
    }
}

/// A date written by [`CalendarDate::to_iso`] reads back as the same date with
/// [`CalendarDate::parse`], for every year from -999 to 9999 (the years whose
/// padded form is four characters).
pub proof fn lemma_iso_text_parses_back(
    year: int,
    month: int,
    day: int,
    result: Result<CalendarDate, TariffError>,
)
    requires
        valid_date(year, month, day),
        -999 <= year <= 9999,
        parse_outcome(iso_text(year, month, day), result),
    ensures
        result matches Ok(date) && date@ == (year, month, day),
{
    assert(pow10(2) == 100) by {
        reveal_with_fuel(pow10, 3);
    }
    lemma_padded_year_reads_back(year);
    lemma_zero_pad_reads_back(month as nat, 2);
    lemma_zero_pad_reads_back(day as nat, 2);
    let y = padded_int(year, 4);
    let m = padded_int(month, 2);
    let d = padded_int(day, 2);
    let s = iso_text(year, month, day);
    assert(s.subrange(0, 4) =~= y);
    assert(s.subrange(5, 7) =~= m);
    assert(s.subrange(8, 10) =~= d);
}

fn is_leap(year: i32) -> (leap: bool)
    ensures
        leap == leap_year(year as int),
{
    let y: u32 = if year < 0 {
        (-(year as i64)) as u32
    } else {
        year as u32
    };
    y % 4 == 0 && (y % 100 != 0 || y % 400 == 0)
}

fn days_in_month(year: i32, month: u8) -> (days: Result<u8, TariffError>)
    ensures
        1 <= month <= 12 ==> days == Ok::<u8, TariffError>(month_length(year as int, month as int) as u8),
        !(1 <= month <= 12) ==> days == Err::<u8, TariffError>(TariffError::InvalidMonth(month)),
{
    match month {
        1 | 3 | 5 | 7 | 8 | 10 | 12 => Ok(31),
        4 | 6 | 9 | 11 => Ok(30),
        2 => Ok(
            if is_leap(year) {
                29
            } else {
                28
            },
        ),
        _ => Err(TariffError::InvalidMonth(month)),
    }
}

/// A calendar day in the proleptic Gregorian calendar.
#[derive(Debug, Clone, Copy, PartialEq, Eq, Structural, PartialOrd, Ord)]
pub struct CalendarDate {
    year: i32,
    month: u8,
    day: u8,
}

impl View for CalendarDate {
    type V = (int, int, int);

    /// Year, month and day.
    closed spec fn view(&self) -> (int, int, int) {
        (self.year as int, self.month as int, self.day as int)
    }
}

impl CalendarDate {
    #[verifier::type_invariant]
    spec fn is_calendar_day(self) -> bool {
        valid_date(self.year as int, self.month as int, self.day as int)
    }

    /// `CalendarDate::new(year, month, day)` is that day, if it exists.
    /// Does not read a clock.
    ///
    /// # Errors
    /// [`TariffError::InvalidMonth`] or [`TariffError::InvalidDate`].
    pub fn new(year: i32, month: u8, day: u8) -> (result: Result<Self, TariffError>)
        ensures
            date_outcome(year as int, month as int, day as int, result),
    {
        let max = days_in_month(year, month)?;
        if day == 0 || day > max {
            let mut text = String::new();
            push_padded(&mut text, year as i64, 4);
            push_char(&mut text, '-');
            push_padded(&mut text, month as i64, 2);
            push_char(&mut text, '-');
            push_padded(&mut text, day as i64, 2);
            proof {
                assert(text@ =~= iso_text(year as int, month as int, day as int));
            }
            return Err(TariffError::InvalidDate(text));
        }
        Ok(CalendarDate { year, month, day })
    }

    /// `CalendarDate::parse("YYYY-MM-DD")` is that day.
    ///
    /// Each field is read as Rust reads an integer: an optional sign (a minus
    /// only on the year), then digits.
    ///
    /// # Errors
    /// [`TariffError::InvalidDate`] or [`TariffError::InvalidMonth`].
    pub fn parse(text: &str) -> (result: Result<Self, TariffError>)
        ensures
            parse_outcome(text@, result),
    {
        let len = text.unicode_len();
        if len != 10 || text.get_char(4) != '-' || text.get_char(7) != '-' {
            return Err(TariffError::InvalidDate(text.to_owned()));
        }
        proof {
            assert(pow10(2) == 100) by {
                reveal_with_fuel(pow10, 3);
            }
        }
        let year = match parse_field(text, 0, 4, true) {
            Some(value) => value,
            None => return Err(TariffError::InvalidDate(text.to_owned())),
        };
        let month = match parse_field(text, 5, 7, false) {
            Some(value) => value,
            None => return Err(TariffError::InvalidDate(text.to_owned())),
        };
        let day = match parse_field(text, 8, 10, false) {
            Some(value) => value,
            None => return Err(TariffError::InvalidDate(text.to_owned())),
        };
        Self::new(year, month as u8, day as u8)
    }

    /// ISO-8601 calendar date, `YYYY-MM-DD`.
    pub fn to_iso(self) -> (text: String)
        ensures
            text@ == iso_text(self@.0, self@.1, self@.2),
    {
        let mut text = String::new();
        push_padded(&mut text, self.year as i64, 4);
        push_char(&mut text, '-');
        push_padded(&mut text, self.month as i64, 2);
        push_char(&mut text, '-');
        push_padded(&mut text, self.day as i64, 2);
        proof {
            assert(text@ =~= iso_text(self@.0, self@.1, self@.2));
        }
        text
    }
}

/// Day `a` falls strictly after day `b` (year, then month, then day).
pub open spec fn day_after(a: (int, int, int), b: (int, int, int)) -> bool {
    a.0 > b.0 || (a.0 == b.0 && (a.1 > b.1 || (a.1 == b.1 && a.2 > b.2)))
}

/// For days whose months are `1..=12`, `a` is after `b` exactly when `a`'s
/// month comes later on the count of months ([`month_index`]), or both fall
/// in the same month and `a`'s day of the month is later: the order of the
/// days on the calendar.
pub proof fn lemma_day_after_is_calendar_order(a: (int, int, int), b: (int, int, int))
    requires
        1 <= a.1 <= 12,
        1 <= b.1 <= 12,
    ensures
        day_after(a, b) <==> (month_index((a.0, a.1)) > month_index((b.0, b.1)) || (month_index(
            (a.0, a.1),
        ) == month_index((b.0, b.1)) && a.2 > b.2)),
{
}

/// No day is after itself; of two different days one is after the other; and
/// a day after one after a third is after that third.
pub proof fn lemma_day_after_strict_total_order(
    a: (int, int, int),
    b: (int, int, int),
    c: (int, int, int),
)
    ensures
        !day_after(a, a),
        a != b ==> (day_after(a, b) || day_after(b, a)),
        !(day_after(a, b) && day_after(b, a)),
        day_after(a, b) && day_after(b, c) ==> day_after(a, c),
{
}

impl CalendarDate {
    fn is_after(self, other: CalendarDate) -> (after: bool)
        ensures
            after == day_after(self@, other@),
    {
        self.year > other.year || (self.year == other.year && (self.month > other.month || (
        self.month == other.month && self.day > other.day)))
    }
}

/// Inclusive start and end calendar days.
#[derive(Debug, Clone, Copy, PartialEq, Eq, Structural)]
pub struct DateRange {
    start: CalendarDate,
    end: CalendarDate,
}

impl View for DateRange {
    type V = ((int, int, int), (int, int, int));

    /// First and last day.
    closed spec fn view(&self) -> ((int, int, int), (int, int, int)) {
        (self.start@, self.end@)
    }
}

impl DateRange {
    #[verifier::type_invariant]
    spec fn is_ordered(self) -> bool {
        !day_after(self.start@, self.end@)
    }

    /// `DateRange::new(start, end)` is that span.
    ///
    /// # Errors
    /// [`TariffError::InvertedDateRange`] when `start` is after `end`.
    pub fn new(start: CalendarDate, end: CalendarDate) -> (result: Result<Self, TariffError>)
        ensures
            day_after(start@, end@) <==> result is Err,
            result matches Err(e) ==> e == TariffError::InvertedDateRange,
            result matches Ok(range) ==> range@ == (start@, end@),
    {
        if start.is_after(end) {
            Err(TariffError::InvertedDateRange)
        } else {
            Ok(DateRange { start, end })
        }
    }

    /// First day, inclusive.
    pub fn start(self) -> (day: CalendarDate)
        ensures
            day@ == self@.0,
            !day_after(self@.0, self@.1),
    {
        proof {
            use_type_invariant(&self);
        }
        self.start
    }

    /// Last day, inclusive.
    pub fn end(self) -> (day: CalendarDate)
        ensures
            day@ == self@.1,
            !day_after(self@.0, self@.1),
    {
        proof {
            use_type_invariant(&self);
        }
        self.end
    }
}

/// Position of month `(year, month)` on a count of months: consecutive
/// months are consecutive integers.
pub open spec fn month_index(ym: (int, int)) -> int {
    ym.0 * 12 + ym.1 - 1
}

/// Year and month for demand billing. Not a wall clock.
#[derive(Debug, Clone, Copy, PartialEq, Eq, Structural, PartialOrd, Ord, Hash)]
pub struct YearMonth {
    year: i32,
    month: u8,
}

impl View for YearMonth {
    type V = (int, int);

    /// Year and month number.
    closed spec fn view(&self) -> (int, int) {
        (self.year as int, self.month as int)
    }
}

impl YearMonth {
    #[verifier::type_invariant]
    spec fn is_month(self) -> bool {
        1 <= self.month <= 12
    }

    /// `YearMonth::new(year, month)` is that month.
    ///
    /// # Errors
    /// [`TariffError::InvalidMonth`].
    pub fn new(year: i32, month: u8) -> (result: Result<Self, TariffError>)
        ensures
            1 <= month <= 12 ==> (result matches Ok(ym) && ym@ == (year as int, month as int)),
            !(1 <= month <= 12) ==> result == Err::<Self, TariffError>(
                TariffError::InvalidMonth(month),
            ),
    {
        if 1 <= month && month <= 12 {
            Ok(YearMonth { year, month })
        } else {
            Err(TariffError::InvalidMonth(month))
        }
    }

    /// Calendar year.
    pub fn year(self) -> (year: i32)
        ensures
            year == self@.0,
    {
        self.year
    }

    /// Month number 1..=12.
    pub fn month(self) -> (month: u8)
        ensures
            month == self@.1,
            1 <= month <= 12,
    {
        proof {
            use_type_invariant(&self);
        }
        self.month
    }

    /// The previous calendar month. January's is December of the year before.
    pub fn pred(self) -> (prev: Self)
        requires
            self@.0 > i32::MIN || self@.1 != 1,
        ensures
            prev@ == (if self@.1 == 1 { (self@.0 - 1, 12) } else { (self@.0, self@.1 - 1) }),
            month_index(prev@) == month_index(self@) - 1,
    {
        proof {
            use_type_invariant(&self);
        }
        if self.month == 1 {
            YearMonth { year: self.year - 1, month: 12 }
        } else {
            YearMonth { year: self.year, month: self.month - 1 }
        }
    }
}

} // verus!
