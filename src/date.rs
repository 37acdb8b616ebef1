use vstd::prelude::*;

verus! {

/// Whether `y` is a leap year of the proleptic Gregorian calendar.
pub open spec fn is_leap_year(y: int) -> bool {
    y % 4 == 0 && (y % 100 != 0 || y % 400 == 0)
}

/// The number of days of month `m` (1 to 12) in year `y`.
pub open spec fn days_in_month(y: int, m: int) -> int {
    if m == 2 {
        if is_leap_year(y) {
            29
        } else {
            28
        }
    } else if m == 4 || m == 6 || m == 9 || m == 11 {
        30
    } else {
        31
    }
}

/// A calendar date in the range that the `time` crate represents by default.
pub open spec fn valid_date(y: int, m: int, d: int) -> bool {
    -9999 <= y <= 9999 && 1 <= m <= 12 && 1 <= d <= days_in_month(y, m)
}

/// The Julian day number of a valid calendar date.
pub uninterp spec fn julian_day_of(year: int, month: int, day: int) -> int;

/// Relies on `time::Month::try_from`, `time::Date::from_calendar_date` and
/// `time::Date::to_julian_day`: a date exists exactly for a month in 1 to 12, a
/// year in -9999 to 9999 and a day within that month, and then has a Julian day
/// number that depends on the date alone.
#[verifier::external_body]
fn julian_day(year: i32, month: u8, day: u8) -> (r: Option<i32>)
    ensures
        r.is_some() == valid_date(year as int, month as int, day as int),
        r matches Some(j) ==> j == julian_day_of(year as int, month as int, day as int),
{
    match time::Month::try_from(month) {
        Ok(m) => time::Date::from_calendar_date(year, m, day).ok().map(|d| d.to_julian_day()),
        Err(_) => None,
    }
}

/// A calendar date: year, month (1 to 12) and day of the month.
#[derive(Clone, Copy, Debug, PartialEq, Eq, Structural)]
pub struct Date {
    year: i32,
    month: u8,
    day: u8,
    julian: i32,
}

impl Date {
    /// The date is a real calendar date and carries its Julian day number.
    pub closed spec fn wf(&self) -> bool {
        valid_date(self.year as int, self.month as int, self.day as int) && self.julian
            == julian_day_of(self.year as int, self.month as int, self.day as int)
    }

    pub closed spec fn spec_year(&self) -> int {
        self.year as int
    }

    pub closed spec fn spec_month(&self) -> int {
        self.month as int
    }

    pub closed spec fn spec_day(&self) -> int {
        self.day as int
    }

    /// The Julian day number of this date.
    pub closed spec fn spec_julian(&self) -> int {
        julian_day_of(self.year as int, self.month as int, self.day as int)
    }

    /// Makes the date `year`-`month`-`day`, or `None` if there is no such date.
    pub fn from_calendar_date(year: i32, month: u8, day: u8) -> (r: Option<Date>)
        ensures
            r.is_some() == valid_date(year as int, month as int, day as int),
            r matches Some(d) ==> d.wf() && d.spec_year() == year && d.spec_month() == month
                && d.spec_day() == day,
    {
        match julian_day(year, month, day) {
            Some(j) => Some(Date { year, month, day, julian: j }),
            None => None,
        }
    }

    pub fn year(&self) -> (r: i32)
        ensures
            r == self.spec_year(),
    {
        self.year
    }

    pub fn month(&self) -> (r: u8)
        ensures
            r == self.spec_month(),
    {
        self.month
    }

    pub fn day(&self) -> (r: u8)
        ensures
            r == self.spec_day(),
    {
        self.day
    }

    /// The Julian day number of this date.
    pub fn to_julian_day(&self) -> (r: i32)
        requires
            self.wf(),
        ensures
            r == self.spec_julian(),
    {
        self.julian
    }
}

} // verus!
