//! The time window of a request: a named interval or two dates, and the
//! bucket width that goes with it.

use vstd::prelude::*;
use crate::error::Error;
use crate::interval::{Granularity, Interval, RangeExpr, RangeExprView};
use crate::text::texts;

verus! {

/// Whether a year has a 29th of February.
pub open spec fn is_leap_year(year: int) -> bool {
    year % 4 == 0 && (year % 100 != 0 || year % 400 == 0)
}

/// The number of days of a month.
pub open spec fn days_in_month(year: int, month: int) -> int {
    if month == 2 {
        if is_leap_year(year) {
            29
        } else {
            28
        }
    } else if month == 4 || month == 6 || month == 9 || month == 11 {
        30
    } else {
        31
    }
}

/// Whether there is such a day in the calendar, in a year of four digits.
pub open spec fn is_date(year: int, month: int, day: int) -> bool {
    &&& 0 <= year <= 9999
    &&& 1 <= month <= 12
    &&& 1 <= day <= days_in_month(year, month)
}

/// The character of a decimal digit.
pub open spec fn digit(n: int) -> char {
    seq!['0', '1', '2', '3', '4', '5', '6', '7', '8', '9'][n]
}

/// A date as `YYYY-MM-DD`.
pub open spec fn iso_date(year: int, month: int, day: int) -> Seq<char> {
    seq![
        digit(year / 1000),
        digit(year / 100 % 10),
        digit(year / 10 % 10),
        digit(year % 10),
        '-',
        digit(month / 10),
        digit(month % 10),
        '-',
        digit(day / 10),
        digit(day % 10),
    ]
}

/// `chrono::NaiveDate::from_ymd_opt`, then `format("%Y-%m-%d")` and
/// `to_string` on the date. `chrono` knows every day of the calendar between
/// the years 0 and 9999, and writes such a day with a year of four digits, a
/// month of two and a day of two, each filled up with zeros.
#[verifier::external_body]
fn format_ymd(year: i32, month: u32, day: u32) -> (r: Option<String>)
    ensures
        is_date(year as int, month as int, day as int) ==> r is Some && r->Some_0@ == iso_date(
            year as int,
            month as int,
            day as int,
        ),
{
    chrono::NaiveDate::from_ymd_opt(year, month, day).map(|d| d.format("%Y-%m-%d").to_string())
}

/// A day of the calendar, in a year of four digits.
#[derive(Debug, Clone, Copy, PartialEq, Eq)]
pub struct Date {
    year: i32,
    month: u32,
    day: u32,
}

/// What a `Date` holds.
pub struct DateView {
    pub year: int,
    pub month: int,
    pub day: int,
}

impl View for Date {
    type V = DateView;

    closed spec fn view(&self) -> DateView {
        DateView { year: self.year as int, month: self.month as int, day: self.day as int }
    }
}

impl Date {
    #[verifier::type_invariant]
    spec fn well_formed(self) -> bool {
        is_date(self.year as int, self.month as int, self.day as int)
    }

    /// The date as `YYYY-MM-DD`.
    pub open spec fn text(self) -> Seq<char> {
        iso_date(self@.year, self@.month, self@.day)
    }

    /// The date with this year, month and day, where there is such a day.
    pub fn from_ymd(year: i32, month: u32, day: u32) -> (r: Option<Date>)
        ensures
            r is Some <==> is_date(year as int, month as int, day as int),
            r matches Some(date) ==> date@ == (DateView {
                year: year as int,
                month: month as int,
                day: day as int,
            }),
    {
        if year < 0 || year > 9999 || month < 1 || month > 12 || day < 1 {
            return None;
        }
        let leap = year % 4 == 0 && (year % 100 != 0 || year % 400 == 0);
        let days: u32 = if month == 2 {
            if leap {
                29
            } else {
                28
            }
        } else if month == 4 || month == 6 || month == 9 || month == 11 {
            30
        } else {
            31
        };
        if day > days {
            None
        } else {
            Some(Date { year, month, day })
        }
    }

    pub fn year(&self) -> (r: i32)
        ensures
            r == self@.year,
    {
        self.year
    }

    pub fn month(&self) -> (r: u32)
        ensures
            r == self@.month,
    {
        self.month
    }

    pub fn day(&self) -> (r: u32)
        ensures
            r == self@.day,
    {
        self.day
    }

    /// Writes the date as `YYYY-MM-DD`.
    pub fn to_text(&self) -> (r: String)
        ensures
            r@ == self.text(),
    {
        proof {
            use_type_invariant(self);
        }
        match format_ymd(self.year, self.month, self.day) {
            Some(text) => text,
            None => String::new(),
        }
    }
}

/// The time a caller asks about: two dates, or a named interval.
#[derive(Debug, Clone, Copy, PartialEq, Eq)]
pub struct DateRange {
    pub start: Option<Date>,
    pub end: Option<Date>,
    pub interval: Option<Interval>,
}

impl DateRange {
    /// The two dates, written out. Where a date is missing there is no
    /// range: nothing is made up for it, and the range is refused as an
    /// `InvalidTimeWindow`.
    pub fn to_strings(&self) -> (r: Result<Vec<String>, Error>)
        ensures
            match (self.start, self.end) {
                (Some(start), Some(end)) => r is Ok && texts(r->Ok_0@) == seq![
                    start.text(),
                    end.text(),
                ],
                _ => r == Err::<Vec<String>, Error>(Error::InvalidTimeWindow),
            },
    {
        match (&self.start, &self.end) {
            (Some(start), Some(end)) => Ok(dates_to_strings(start, end)),
            _ => Err(Error::InvalidTimeWindow),
        }
    }
}

/// Two dates, written out.
fn dates_to_strings(start: &Date, end: &Date) -> (r: Vec<String>)
    ensures
        texts(r@) == seq![start.text(), end.text()],
{
    let mut dates: Vec<String> = Vec::new();
    dates.push(start.to_text());
    dates.push(end.to_text());
    assert(texts(dates@) =~= seq![start.text(), end.text()]);
    dates
}

/// The resolved range of a time window.
#[derive(Debug, Clone, Copy, PartialEq, Eq)]
pub enum TimeRange {
    /// A named interval. It stays a name: the semantic layer works out the
    /// dates on the day on which it runs the query.
    Named(Interval),
    /// From the first date to the second.
    Explicit(Date, Date),
}

impl TimeRange {
    /// How the range is written in a query. A named interval goes by its
    /// name, `all` too: the dates are for the semantic layer to work out.
    pub open spec fn expr(self) -> RangeExprView {
        match self {
            TimeRange::Named(interval) => RangeExprView::Relative(interval.name()),
            TimeRange::Explicit(start, end) => RangeExprView::Absolute(
                seq![start.text(), end.text()],
            ),
        }
    }

    /// Writes the range as a query holds it.
    pub fn to_expr(&self) -> (r: RangeExpr)
        ensures
            r@ == self.expr(),
    {
        match self {
            TimeRange::Named(interval) => RangeExpr::Relative(interval.as_str().to_owned()),
            TimeRange::Explicit(start, end) => RangeExpr::Absolute(dates_to_strings(start, end)),
        }
    }
}

/// A resolved time window.
#[derive(Debug, Clone, Copy, PartialEq, Eq)]
pub struct TimeWindow {
    pub granularity: Granularity,
    pub range: TimeRange,
}

/// The window that the inputs describe. Two dates give an explicit range, in
/// buckets of a day unless a width is given. An interval without dates gives a
/// named range, in buckets of the interval's own width unless a width is
/// given. Everything else describes no window: one date without the other,
/// dates together with an interval, or nothing at all.
pub open spec fn window_of(range: DateRange, granularity: Option<Granularity>) -> Option<
    TimeWindow,
> {
    match (range.start, range.end, range.interval) {
        (Some(start), Some(end), None) => Some(
            TimeWindow {
                granularity: match granularity {
                    Some(g) => g,
                    None => Granularity::Day,
                },
                range: TimeRange::Explicit(start, end),
            },
        ),
        (None, None, Some(interval)) => Some(
            TimeWindow {
                granularity: match granularity {
                    Some(g) => g,
                    None => interval.granularity(),
                },
                range: TimeRange::Named(interval),
            },
        ),
        _ => None,
    }
}

/// A date range with one date and not the other describes no window,
/// whatever else is given: it is refused, and no date is made up.
pub proof fn lemma_one_bound_refused(range: DateRange, granularity: Option<Granularity>)
    requires
        range.start is Some != range.end is Some,
    ensures
        window_of(range, granularity) is None,
{
}

/// A window is explicit exactly where both dates are given and no interval,
/// and then it holds those two dates.
pub proof fn lemma_explicit_window(range: DateRange, granularity: Option<Granularity>)
    ensures
        (range.start is Some && range.end is Some && range.interval is None) <==> (window_of(
            range,
            granularity,
        ) matches Some(window) && window.range is Explicit),
        range.start is Some && range.end is Some && range.interval is None ==> window_of(
            range,
            granularity,
        )->Some_0.range == TimeRange::Explicit(range.start->Some_0, range.end->Some_0),
{
}

impl TimeWindow {
    /// Resolves the time window of a request, or refuses the inputs as an
    /// `InvalidTimeWindow`. No clock is read.
    pub fn resolve(range: &DateRange, granularity: Option<Granularity>) -> (r: Result<
        TimeWindow,
        Error,
    >)
        ensures
            match window_of(*range, granularity) {
                Some(window) => r == Ok::<TimeWindow, Error>(window),
                None => r == Err::<TimeWindow, Error>(Error::InvalidTimeWindow),
            },
    {
        match (range.start, range.end, range.interval) {
            (Some(start), Some(end), None) => Ok(
                TimeWindow {
                    granularity: match granularity {
                        Some(g) => g,
                        None => Granularity::Day,
                    },
                    range: TimeRange::Explicit(start, end),
                },
            ),
            (None, None, Some(interval)) => Ok(
                TimeWindow {
                    granularity: match granularity {
                        Some(g) => g,
                        None => interval.to_granularity(),
                    },
                    range: TimeRange::Named(interval),
                },
            ),
            _ => Err(Error::InvalidTimeWindow),
        }
    }

    /// The window of a named interval, in buckets of the interval's own width.
    pub fn of_interval(interval: Interval) -> (r: TimeWindow)
        ensures
            r == (TimeWindow {
                granularity: interval.granularity(),
                range: TimeRange::Named(interval),
            }),
    {
        TimeWindow { granularity: interval.to_granularity(), range: TimeRange::Named(interval) }
    }
}

} // verus!
