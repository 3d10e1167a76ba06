//! Named intervals, bucket widths, and how a date range is written in a query.

use vstd::prelude::*;
use vstd::std_specs::convert::FromSpecImpl;

verus! {

/// The bucket width a caller thinks in.
#[derive(Debug, Clone, Copy, PartialEq, Eq, Structural)]
pub enum Granularity {
    Hour,
    Day,
    Week,
    Month,
    Year,
}

impl Granularity {
    /// The name of the bucket width.
    pub open spec fn name(self) -> Seq<char> {
        match self {
            Granularity::Hour => "hour"@,
            Granularity::Day => "day"@,
            Granularity::Week => "week"@,
            Granularity::Month => "month"@,
            Granularity::Year => "year"@,
        }
    }

    /// The name of the bucket width.
    pub fn as_str(&self) -> (r: &'static str)
        ensures
            r@ == self.name(),
    {
        match self {
            Granularity::Hour => "hour",
            Granularity::Day => "day",
            Granularity::Week => "week",
            Granularity::Month => "month",
            Granularity::Year => "year",
        }
    }
}

/// The bucket width that the semantic layer is asked for.
#[derive(Debug, Clone, Copy, PartialEq, Eq, Structural)]
pub enum TimeGranularity {
    Second,
    Minute,
    Hour,
    Day,
    Week,
    Month,
    Quarter,
    Year,
}

impl TimeGranularity {
    /// The name of the bucket width in the semantic layer.
    pub open spec fn name(self) -> Seq<char> {
        match self {
            TimeGranularity::Second => "second"@,
            TimeGranularity::Minute => "minute"@,
            TimeGranularity::Hour => "hour"@,
            TimeGranularity::Day => "day"@,
            TimeGranularity::Week => "week"@,
            TimeGranularity::Month => "month"@,
            TimeGranularity::Quarter => "quarter"@,
            TimeGranularity::Year => "year"@,
        }
    }

    /// The name of the bucket width in the semantic layer.
    pub fn as_str(&self) -> (r: &'static str)
        ensures
            r@ == self.name(),
    {
        match self {
            TimeGranularity::Second => "second",
            TimeGranularity::Minute => "minute",
            TimeGranularity::Hour => "hour",
            TimeGranularity::Day => "day",
            TimeGranularity::Week => "week",
            TimeGranularity::Month => "month",
            TimeGranularity::Quarter => "quarter",
            TimeGranularity::Year => "year",
        }
    }

    /// The bucket width of the semantic layer that is the caller's: the one
    /// of the same name.
    pub open spec fn of(input: Granularity) -> TimeGranularity {
        match input {
            Granularity::Hour => TimeGranularity::Hour,
            Granularity::Day => TimeGranularity::Day,
            Granularity::Week => TimeGranularity::Week,
            Granularity::Month => TimeGranularity::Month,
            Granularity::Year => TimeGranularity::Year,
        }
    }

    /// The semantic layer is asked for buckets of the caller's width: the
    /// conversion keeps the name.
    pub proof fn lemma_width_kept(input: Granularity)
        ensures
            TimeGranularity::of(input).name() == input.name(),
    {
    }
}

impl From<Granularity> for TimeGranularity {
    fn from(input: Granularity) -> (r: Self) {
        match input {
            Granularity::Hour => TimeGranularity::Hour,
            Granularity::Day => TimeGranularity::Day,
            Granularity::Week => TimeGranularity::Week,
            Granularity::Month => TimeGranularity::Month,
            Granularity::Year => TimeGranularity::Year,
        }
    }
}

impl FromSpecImpl<Granularity> for TimeGranularity {
    open spec fn obeys_from_spec() -> bool {
        true
    }

    open spec fn from_spec(input: Granularity) -> Self {
        TimeGranularity::of(input)
    }
}

/// How a date range is written in a query: by a name that the semantic layer
/// resolves when it runs the query, or as a list of dates.
#[derive(Debug, PartialEq, Eq)]
pub enum RangeExpr {
    Relative(String),
    Absolute(Vec<String>),
}

/// What a `RangeExpr` holds.
pub enum RangeExprView {
    Relative(Seq<char>),
    Absolute(Seq<Seq<char>>),
}

impl View for RangeExpr {
    type V = RangeExprView;

    open spec fn view(&self) -> RangeExprView {
        match *self {
            RangeExpr::Relative(name) => RangeExprView::Relative(name@),
            RangeExpr::Absolute(dates) => RangeExprView::Absolute(crate::text::texts(dates@)),
        }
    }
}

/// A named interval, relative to the day on which the query runs.
#[derive(Debug, Clone, Copy, PartialEq, Eq, Structural)]
pub enum Interval {
    All,
    Today,
    Yesterday,
    ThisWeek,
    ThisMonth,
    ThisYear,
    Last7Days,
    Last30Days,
    LastWeek,
    LastMonth,
    LastQuarter,
    LastYear,
}

impl Default for Interval {
    fn default() -> (r: Self)
        ensures
            r == Interval::Today,
    {
        Interval::Today
    }
}

impl Interval {
    /// The name of the interval, as the semantic layer reads it.
    pub open spec fn name(self) -> Seq<char> {
        match self {
            Interval::All => "all"@,
            Interval::Today => "today"@,
            Interval::Yesterday => "yesterday"@,
            Interval::ThisWeek => "this week"@,
            Interval::ThisMonth => "this month"@,
            Interval::ThisYear => "this year"@,
            Interval::Last7Days => "last 7 days"@,
            Interval::Last30Days => "last 30 days"@,
            Interval::LastWeek => "last week"@,
            Interval::LastMonth => "last month"@,
            Interval::LastQuarter => "last quarter"@,
            Interval::LastYear => "last year"@,
        }
    }

    /// The bucket width that goes with an interval: hours within a day, days
    /// up to a month, weeks within a quarter, months within a year.
    pub open spec fn granularity(self) -> Granularity {
        match self {
            Interval::Today | Interval::Yesterday => Granularity::Hour,
            Interval::ThisWeek
            | Interval::All
            | Interval::Last7Days
            | Interval::LastWeek
            | Interval::ThisMonth
            | Interval::Last30Days
            | Interval::LastMonth => Granularity::Day,
            Interval::LastQuarter => Granularity::Week,
            Interval::ThisYear | Interval::LastYear => Granularity::Month,
        }
    }

    /// The interval as a range of dates: `All` is the range without bounds,
    /// which is an empty list of dates; every other interval goes by its
    /// name. (The query of a request for analytics does not use this: there
    /// every interval goes by its name, see `TimeRange::expr`.)
    pub open spec fn date_range(self) -> RangeExprView {
        if self == Interval::All {
            RangeExprView::Absolute(Seq::empty())
        } else {
            RangeExprView::Relative(self.name())
        }
    }

    /// The name of the interval.
    pub fn as_str(&self) -> (r: &'static str)
        ensures
            r@ == self.name(),
    {
        match self {
            Interval::All => "all",
            Interval::Today => "today",
            Interval::Yesterday => "yesterday",
            Interval::ThisWeek => "this week",
            Interval::ThisMonth => "this month",
            Interval::ThisYear => "this year",
            Interval::Last7Days => "last 7 days",
            Interval::Last30Days => "last 30 days",
            Interval::LastWeek => "last week",
            Interval::LastMonth => "last month",
            Interval::LastQuarter => "last quarter",
            Interval::LastYear => "last year",
        }
    }

    #[must_use]
    pub fn to_granularity(&self) -> (r: Granularity)
        ensures
            r == self.granularity(),
    {
        match self {
            Interval::Today | Interval::Yesterday => Granularity::Hour,
            Interval::ThisWeek
            | Interval::All
            | Interval::Last7Days
            | Interval::LastWeek
            | Interval::ThisMonth
            | Interval::Last30Days
            | Interval::LastMonth => Granularity::Day,
            Interval::LastQuarter => Granularity::Week,
            Interval::ThisYear | Interval::LastYear => Granularity::Month,
        }
    }

    #[must_use]
    pub fn to_date_range(&self) -> (r: RangeExpr)
        ensures
            r@ == self.date_range(),
    {
        match self {
            Interval::All => {
                let dates: Vec<String> = Vec::new();
                assert(crate::text::texts(dates@) =~= Seq::empty());
                RangeExpr::Absolute(dates)
            },
            Interval::ThisWeek
            | Interval::Today
            | Interval::Yesterday
            | Interval::Last7Days
            | Interval::LastWeek
            | Interval::ThisMonth
            | Interval::Last30Days
            | Interval::LastMonth
            | Interval::LastQuarter
            | Interval::ThisYear
            | Interval::LastYear => RangeExpr::Relative(self.as_str().to_owned()),
        }
    }
}

/// The direction in which results are listed.
#[derive(Debug, Clone, Copy, PartialEq, Eq, Structural)]
pub enum Order {
    Asc,
    Desc,
}

impl Order {
    /// The name of the direction.
    pub open spec fn name(self) -> Seq<char> {
        match self {
            Order::Asc => "asc"@,
            Order::Desc => "desc"@,
        }
    }

    /// The name of the direction.
    pub fn as_str(&self) -> (r: &'static str)
        ensures
            r@ == self.name(),
    {
        match self {
            Order::Asc => "asc",
            Order::Desc => "desc",
        }
    }
}

} // verus!
