use vstd::prelude::*;

verus! {

/// An absolute point in time, always carried with the IANA name of its
/// governing timezone. The calendar fields are the local (wall-clock) values
/// in that timezone, so calendar operations — truncating to the day, adding a
/// calendar day, substituting the month or day-of-month — act on the local
/// calendar. A day boundary therefore always falls on local midnight, even
/// when a daylight-saving transition makes the day longer or shorter than 24
/// hours.
#[derive(Debug, PartialEq, Eq)]
pub struct Instant {
    /// Proleptic Gregorian year of the common era (non-negative).
    pub year: i32,
    /// Month, 1 through 12.
    pub month: u32,
    /// Day of the month, 1 through the month's length.
    pub day: u32,
    /// Hour of the day, 0 through 23.
    pub hour: u32,
    /// Minute, 0 through 59.
    pub minute: u32,
    /// Second, 0 through 59.
    pub second: u32,
    /// IANA timezone name, e.g. "America/New_York".
    pub tz: String,
}

/// The mathematical value of an [`Instant`]: the same fields over unbounded
/// integers, with the timezone name as a character sequence.
pub struct InstantModel {
    pub year: int,
    pub month: int,
    pub day: int,
    pub hour: int,
    pub minute: int,
    pub second: int,
    pub tz: Seq<char>,
}

impl View for Instant {
    type V = InstantModel;

    open spec fn view(&self) -> InstantModel {
        InstantModel {
            year: self.year as int,
            month: self.month as int,
            day: self.day as int,
            hour: self.hour as int,
            minute: self.minute as int,
            second: self.second as int,
            tz: self.tz@,
        }
    }
}

/// A leap year of the proleptic Gregorian calendar.
pub open spec fn spec_is_leap_year(year: int) -> bool {
    year % 4 == 0 && (year % 100 != 0 || year % 400 == 0)
}

/// How many days the given month of the given year has.
pub open spec fn spec_days_in_month(year: int, month: int) -> int
    recommends
        1 <= month <= 12,
{
    if month == 2 {
        if spec_is_leap_year(year) {
            29
        } else {
            28
        }
    } else if month == 4 || month == 6 || month == 9 || month == 11 {
        30
    } else {
        31
    }
}

impl InstantModel {
    /// The calendar fields lie in their ranges: a value that names a real
    /// local wall-clock reading.
    pub open spec fn valid_calendar(self) -> bool {
        &&& 1 <= self.month <= 12
        &&& 1 <= self.day <= spec_days_in_month(self.year, self.month)
        &&& 0 <= self.hour <= 23
        &&& 0 <= self.minute <= 59
        &&& 0 <= self.second <= 59
    }

    /// A well-formed instant: calendar-valid, with a year of the common era
    /// that leaves room for the calendar successor in an `i32`.
    pub open spec fn wf(self) -> bool {
        &&& self.valid_calendar()
        &&& 0 <= self.year < i32::MAX
    }
}

/// Day truncation: the same calendar date at local midnight.
pub open spec fn spec_midnight(i: InstantModel) -> InstantModel {
    InstantModel { hour: 0, minute: 0, second: 0, ..i }
}

/// The next calendar day, with the time-of-day fields unchanged. Adding a
/// calendar day in the local calendar preserves the wall-clock reading — in
/// particular local midnight stays local midnight across a daylight-saving
/// transition, where a fixed 24-hour offset would not.
pub open spec fn spec_next_day(i: InstantModel) -> InstantModel {
    if i.day < spec_days_in_month(i.year, i.month) {
        InstantModel { day: i.day + 1, ..i }
    } else if i.month < 12 {
        InstantModel { month: i.month + 1, day: 1, ..i }
    } else {
        InstantModel { year: i.year + 1, month: 1, day: 1, ..i }
    }
}

/// Whether `month`/`day` name a date of `year`'s calendar.
pub open spec fn spec_valid_month_day(year: int, month: int, day: int) -> bool {
    &&& 1 <= month <= 12
    &&& 1 <= day <= spec_days_in_month(year, month)
}

/// The same instant with its month and day-of-month fields overwritten.
pub open spec fn spec_with_month_day(i: InstantModel, month: int, day: int) -> InstantModel {
    InstantModel { month: month, day: day, ..i }
}

/// The next calendar day of a calendar-valid instant is calendar-valid.
pub proof fn lemma_next_day_valid_calendar(i: InstantModel)
    requires
        i.valid_calendar(),
    ensures
        spec_next_day(i).valid_calendar(),
{
}

/// How many days the given month of the given year has.
pub fn days_in_month(year: i32, month: u32) -> (d: u32)
    requires
        0 <= year,
        1 <= month <= 12,
    ensures
        d == spec_days_in_month(year as int, month as int),
{
    if month == 2 {
        let y: u32 = year as u32;
        if y % 4 == 0 && (y % 100 != 0 || y % 400 == 0) {
            29
        } else {
            28
        }
    } else if month == 4 || month == 6 || month == 9 || month == 11 {
        30
    } else {
        31
    }
}

impl Instant {
    /// This instant truncated to its calendar day: local midnight.
    pub fn midnight(&self) -> (r: Instant)
        ensures
            r@ == spec_midnight(self@),
    {
        Instant {
            year: self.year,
            month: self.month,
            day: self.day,
            hour: 0,
            minute: 0,
            second: 0,
            tz: self.tz.clone(),
        }
    }

    /// The next calendar day, time-of-day fields unchanged.
    pub fn next_day(&self) -> (r: Instant)
        requires
            self@.wf(),
        ensures
            r@ == spec_next_day(self@),
    {
        let dim: u32 = days_in_month(self.year, self.month);
        if self.day < dim {
            Instant {
                year: self.year,
                month: self.month,
                day: self.day + 1,
                hour: self.hour,
                minute: self.minute,
                second: self.second,
                tz: self.tz.clone(),
            }
        } else if self.month < 12 {
            Instant {
                year: self.year,
                month: self.month + 1,
                day: 1,
                hour: self.hour,
                minute: self.minute,
                second: self.second,
                tz: self.tz.clone(),
            }
        } else {
            Instant {
                year: self.year + 1,
                month: 1,
                day: 1,
                hour: self.hour,
                minute: self.minute,
                second: self.second,
                tz: self.tz.clone(),
            }
        }
    }
}

} // verus!
