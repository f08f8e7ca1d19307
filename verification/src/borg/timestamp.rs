//! Instants as Borg reports them: a UTC calendar date and a time of day with
//! microsecond precision.

use vstd::prelude::*;
use crate::borg::calendar::{
    calendar_day_exists, is_calendar_day, lemma_days_in_order, seconds_since_epoch, unix_timestamp,
};

verus! {

/// The mathematical model of an instant: its calendar fields in UTC.
///
/// `second` may be 60, which stands for a leap second.
pub struct CivilTime {
    pub year: int,
    pub month: int,
    pub day: int,
    pub hour: int,
    pub minute: int,
    pub second: int,
    pub microsecond: int,
}

impl CivilTime {
    /// The instants that a timestamp can hold: a day that exists in a year of
    /// four digits, and a time of day within it.
    pub open spec fn is_valid(self) -> bool {
        &&& 0 <= self.year <= 9999
        &&& is_calendar_day(self.year, self.month, self.day)
        &&& 0 <= self.hour <= 23
        &&& 0 <= self.minute <= 59
        &&& 0 <= self.second <= 60
        &&& 0 <= self.microsecond <= 999_999
    }

    /// Chronological order: `self` is strictly earlier than `other`.
    pub open spec fn precedes(self, other: CivilTime) -> bool {
        if self.year != other.year {
            self.year < other.year
        } else if self.month != other.month {
            self.month < other.month
        } else if self.day != other.day {
            self.day < other.day
        } else if self.hour != other.hour {
            self.hour < other.hour
        } else if self.minute != other.minute {
            self.minute < other.minute
        } else if self.second != other.second {
            self.second < other.second
        } else {
            self.microsecond < other.microsecond
        }
    }

    /// The Unix time of the instant in whole seconds. A leap second counts as
    /// the second before it.
    pub open spec fn unix_seconds(self) -> int {
        seconds_since_epoch(
            self.year,
            self.month,
            self.day,
            self.hour,
            self.minute,
            if self.second == 60 {
                59
            } else {
                self.second
            },
        )
    }
}

/// Unix time follows chronological order: an earlier instant has no greater
/// Unix time. (It may have the same: the fraction of a second is dropped, and
/// a leap second counts as the second before it.)
pub proof fn lemma_unix_seconds_in_order(a: CivilTime, b: CivilTime)
    requires
        a.is_valid(),
        b.is_valid(),
        a.precedes(b),
    ensures
        a.unix_seconds() <= b.unix_seconds(),
{
    if a.year != b.year || a.month != b.month || a.day != b.day {
        lemma_days_in_order(a.year, a.month, a.day, b.year, b.month, b.day);
    }
}

/// An instant. Every value of this type is a valid one.
#[derive(Clone, Copy, Debug, PartialEq, Eq, Structural)]
pub struct Timestamp {
    year: u16,
    month: u8,
    day: u8,
    hour: u8,
    minute: u8,
    second: u8,
    microsecond: u32,
}

impl View for Timestamp {
    type V = CivilTime;

    closed spec fn view(&self) -> CivilTime {
        CivilTime {
            year: self.year as int,
            month: self.month as int,
            day: self.day as int,
            hour: self.hour as int,
            minute: self.minute as int,
            second: self.second as int,
            microsecond: self.microsecond as int,
        }
    }
}

impl Timestamp {
    #[verifier::type_invariant]
    spec fn well_formed(self) -> bool {
        self@.is_valid()
    }

    /// Makes the instant with the given fields, if there is one.
    pub fn new(
        year: u16,
        month: u8,
        day: u8,
        hour: u8,
        minute: u8,
        second: u8,
        microsecond: u32,
    ) -> (made: Option<Timestamp>)
        ensures
            made is Some <==> (CivilTime {
                year: year as int,
                month: month as int,
                day: day as int,
                hour: hour as int,
                minute: minute as int,
                second: second as int,
                microsecond: microsecond as int,
            }).is_valid(),
            made matches Some(t) ==> t@ == (CivilTime {
                year: year as int,
                month: month as int,
                day: day as int,
                hour: hour as int,
                minute: minute as int,
                second: second as int,
                microsecond: microsecond as int,
            }),
    {
        if year > 9999 || hour > 23 || minute > 59 || second > 60 || microsecond > 999_999 {
            return None;
        }
        if !calendar_day_exists(year as i32, month as u32, day as u32) {
            return None;
        }
        Some(Timestamp { year, month, day, hour, minute, second, microsecond })
    }

    pub fn year(&self) -> (year: u16)
        ensures
            year == self@.year,
            self@.is_valid(),
    {
        proof {
            use_type_invariant(self);
        }
        self.year
    }

    pub fn month(&self) -> (month: u8)
        ensures
            month == self@.month,
            self@.is_valid(),
    {
        proof {
            use_type_invariant(self);
        }
        self.month
    }

    pub fn day(&self) -> (day: u8)
        ensures
            day == self@.day,
            self@.is_valid(),
    {
        proof {
            use_type_invariant(self);
        }
        self.day
    }

    pub fn hour(&self) -> (hour: u8)
        ensures
            hour == self@.hour,
            self@.is_valid(),
    {
        proof {
            use_type_invariant(self);
        }
        self.hour
    }

    pub fn minute(&self) -> (minute: u8)
        ensures
            minute == self@.minute,
            self@.is_valid(),
    {
        proof {
            use_type_invariant(self);
        }
        self.minute
    }

    pub fn second(&self) -> (second: u8)
        ensures
            second == self@.second,
            self@.is_valid(),
    {
        proof {
            use_type_invariant(self);
        }
        self.second
    }

    pub fn microsecond(&self) -> (microsecond: u32)
        ensures
            microsecond == self@.microsecond,
            self@.is_valid(),
    {
        proof {
            use_type_invariant(self);
        }
        self.microsecond
    }

    /// Whether `self` is strictly earlier than `other`.
    pub fn precedes(&self, other: &Timestamp) -> (earlier: bool)
        ensures
            earlier == self@.precedes(other@),
    {
        if self.year != other.year {
            self.year < other.year
        } else if self.month != other.month {
            self.month < other.month
        } else if self.day != other.day {
            self.day < other.day
        } else if self.hour != other.hour {
            self.hour < other.hour
        } else if self.minute != other.minute {
            self.minute < other.minute
        } else if self.second != other.second {
            self.second < other.second
        } else {
            self.microsecond < other.microsecond
        }
    }

    /// The Unix time of the instant in whole seconds.
    pub fn timestamp(&self) -> (seconds: i64)
        ensures
            seconds == self@.unix_seconds(),
    {
        proof {
            use_type_invariant(self);
        }
        let second: u8 = if self.second == 60 {
            59
        } else {
            self.second
        };
        unix_timestamp(
            self.year as i32,
            self.month as u32,
            self.day as u32,
            self.hour as u32,
            self.minute as u32,
            second as u32,
        )
    }
}

} // verus!
