use vstd::prelude::*;

verus! {

/// A calendar date as year, month (1-12) and day of month.
#[derive(Clone, Copy, Debug, PartialEq, Eq, Structural)]
pub struct Date {
    pub year: i32,
    pub month: u8,
    pub day: u8,
}

/// A calendar month: the year and the month number (1-12).
#[derive(Clone, Copy, Debug, PartialEq, Eq, Structural)]
pub struct YearMonth {
    pub year: i32,
    pub month: u8,
}

/// Chronological order on dates: `a` comes strictly before `b`.
pub open spec fn date_before(a: Date, b: Date) -> bool {
    a.year < b.year || (a.year == b.year && (a.month < b.month || (a.month == b.month && a.day
        < b.day)))
}

/// `d` lies in the half-open range `[start, end)`.
pub open spec fn date_in_range(d: Date, start: Date, end: Date) -> bool {
    !date_before(d, start) && date_before(d, end)
}

/// Month `a` comes strictly before month `b`.
pub open spec fn month_before(a: YearMonth, b: YearMonth) -> bool {
    a.year < b.year || (a.year == b.year && a.month < b.month)
}

/// The first day of the month that follows `ym`.
pub open spec fn next_month_start(ym: YearMonth) -> Date {
    if ym.month == 12 {
        Date { year: (ym.year + 1) as i32, month: 1, day: 1 }
    } else {
        Date { year: ym.year, month: (ym.month + 1) as u8, day: 1 }
    }
}

impl Date {
    /// `self` comes strictly before `other` in the calendar.
    pub fn is_before(&self, other: &Date) -> (r: bool)
        ensures
            r == date_before(*self, *other),
    {
        if self.year != other.year {
            self.year < other.year
        } else if self.month != other.month {
            self.month < other.month
        } else {
            self.day < other.day
        }
    }

    /// `self` lies in `[start, end)`.
    pub fn is_within(&self, start: &Date, end: &Date) -> (r: bool)
        ensures
            r == date_in_range(*self, *start, *end),
    {
        !self.is_before(start) && self.is_before(end)
    }
}

impl YearMonth {
    /// A month number outside 1-12 is not a month.
    pub open spec fn wf(self) -> bool {
        1 <= self.month <= 12
    }

    /// The month `month` of `year`, or `None` when `month` is not in 1-12.
    pub fn new(year: i32, month: u8) -> (r: Option<YearMonth>)
        ensures
            (1 <= month <= 12) ==> r == Some(YearMonth { year, month }),
            !(1 <= month <= 12) ==> r is None,
    {
        if 1 <= month && month <= 12 {
            Some(YearMonth { year, month })
        } else {
            None
        }
    }

    /// The month in which `d` falls.
    pub fn containing(d: &Date) -> (r: YearMonth)
        ensures
            r == (YearMonth { year: d.year, month: d.month }),
    {
        YearMonth { year: d.year, month: d.month }
    }

    /// `self` comes strictly before `other`.
    pub fn is_before(&self, other: &YearMonth) -> (r: bool)
        ensures
            r == month_before(*self, *other),
    {
        self.year < other.year || (self.year == other.year && self.month < other.month)
    }

    /// The first day of this month.
    pub fn first_day(&self) -> (r: Date)
        ensures
            r == (Date { year: self.year, month: self.month, day: 1 }),
    {
        Date { year: self.year, month: self.month, day: 1 }
    }

    /// The half-open window `[first day of this month, first day of the next month)`;
    /// December rolls over to January of the following year.
    pub fn window(&self) -> (r: (Date, Date))
        requires
            self.wf(),
            self.month == 12 ==> self.year < i32::MAX,
        ensures
            r.0 == (Date { year: self.year, month: self.month, day: 1 }),
            r.1 == next_month_start(*self),
    {
        let start = self.first_day();
        let end = if self.month == 12 {
            Date { year: self.year + 1, month: 1, day: 1 }
        } else {
            Date { year: self.year, month: self.month + 1, day: 1 }
        };
        (start, end)
    }
}

} // verus!
