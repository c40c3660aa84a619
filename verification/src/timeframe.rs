//! Historical-chart timeframes and their textual encodings.

use vstd::prelude::*;

verus! {

/// Range of history shown on the chart view.
#[derive(Debug, Clone, Copy, PartialEq, Eq, Structural)]
pub enum TimeFrame {
    OneDay,
    OneWeek,
    OneMonth,
    ThreeMonths,
    OneYear,
}

impl TimeFrame {
    /// The range parameter of the chart-data endpoint.
    pub fn to_api_string(&self) -> (r: &'static str)
        ensures
            r@ == (match *self {
                TimeFrame::OneDay => "1d"@,
                TimeFrame::OneWeek => "5d"@,
                TimeFrame::OneMonth => "1mo"@,
                TimeFrame::ThreeMonths => "3mo"@,
                TimeFrame::OneYear => "1y"@,
            }),
    {
        match self {
            TimeFrame::OneDay => "1d",
            TimeFrame::OneWeek => "5d",
            TimeFrame::OneMonth => "1mo",
            TimeFrame::ThreeMonths => "3mo",
            TimeFrame::OneYear => "1y",
        }
    }

    /// The sampling interval used for this range.
    pub fn to_interval(&self) -> (r: &'static str)
        ensures
            r@ == (match *self {
                TimeFrame::OneDay => "5m"@,
                TimeFrame::OneWeek => "30m"@,
                TimeFrame::OneMonth => "1d"@,
                TimeFrame::ThreeMonths => "1d"@,
                TimeFrame::OneYear => "1wk"@,
            }),
    {
        match self {
            TimeFrame::OneDay => "5m",
            TimeFrame::OneWeek => "30m",
            TimeFrame::OneMonth => "1d",
            TimeFrame::ThreeMonths => "1d",
            TimeFrame::OneYear => "1wk",
        }
    }

    /// The label shown to the user.
    pub fn display(&self) -> (r: &'static str)
        ensures
            r@ == (match *self {
                TimeFrame::OneDay => "1 Day"@,
                TimeFrame::OneWeek => "1 Week"@,
                TimeFrame::OneMonth => "1 Month"@,
                TimeFrame::ThreeMonths => "3 Months"@,
                TimeFrame::OneYear => "1 Year"@,
            }),
    {
        match self {
            TimeFrame::OneDay => "1 Day",
            TimeFrame::OneWeek => "1 Week",
            TimeFrame::OneMonth => "1 Month",
            TimeFrame::ThreeMonths => "3 Months",
            TimeFrame::OneYear => "1 Year",
        }
    }

    /// The next timeframe in the cycle.
    pub fn next(&self) -> (r: Self)
        ensures
            r == (match *self {
                TimeFrame::OneDay => TimeFrame::OneWeek,
                TimeFrame::OneWeek => TimeFrame::OneMonth,
                TimeFrame::OneMonth => TimeFrame::ThreeMonths,
                TimeFrame::ThreeMonths => TimeFrame::OneYear,
                TimeFrame::OneYear => TimeFrame::OneDay,
            }),
    {
        match self {
            TimeFrame::OneDay => TimeFrame::OneWeek,
            TimeFrame::OneWeek => TimeFrame::OneMonth,
            TimeFrame::OneMonth => TimeFrame::ThreeMonths,
            TimeFrame::ThreeMonths => TimeFrame::OneYear,
            TimeFrame::OneYear => TimeFrame::OneDay,
        }
    }

    /// The previous timeframe in the cycle; undoes `next`.
    pub fn prev(&self) -> (r: Self)
        ensures
            r == (match *self {
                TimeFrame::OneDay => TimeFrame::OneYear,
                TimeFrame::OneWeek => TimeFrame::OneDay,
                TimeFrame::OneMonth => TimeFrame::OneWeek,
                TimeFrame::ThreeMonths => TimeFrame::OneMonth,
                TimeFrame::OneYear => TimeFrame::ThreeMonths,
            }),
    {
        match self {
            TimeFrame::OneDay => TimeFrame::OneYear,
            TimeFrame::OneWeek => TimeFrame::OneDay,
            TimeFrame::OneMonth => TimeFrame::OneWeek,
            TimeFrame::ThreeMonths => TimeFrame::OneMonth,
            TimeFrame::OneYear => TimeFrame::ThreeMonths,
        }
    }
}

} // verus!
