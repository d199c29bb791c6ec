//! Calendar days and instants, counted in whole days and whole seconds.

use chrono::{Datelike, NaiveDate};
use vstd::prelude::*;

verus! {

/// The number of the first day that a date can hold: 1 January of the year
/// -262143.
pub const FIRST_DAY: i32 = -95_746_129;

/// The number of the last day that a date can hold: 31 December of the year
/// 262142.
pub const LAST_DAY: i32 = 95_745_399;

/// The length of a day in seconds.
pub const SECONDS_IN_DAY: u32 = 86_400;

/// The day of the year, from 1, of the day with the given number in the
/// proleptic Gregorian calendar.
pub uninterp spec fn day_of_year(day_number: int) -> int;

/// The day on which the instant `seconds` falls.
pub open spec fn day_of(seconds: int) -> int {
    seconds / 86_400
}

/// The first instant of the day with the given number.
pub open spec fn midnight(day_number: int) -> int {
    day_number * 86_400
}

/// Whether an instant falls on a day that a date can hold.
pub open spec fn representable(seconds: int) -> bool {
    FIRST_DAY <= day_of(seconds) <= LAST_DAY
}

/// `chrono::NaiveDate::from_num_days_from_ce_opt`, then `Datelike::ordinal`
/// on the date it gives. Believed of them: the date exists for every day
/// number from `FIRST_DAY` to `LAST_DAY`, and the ordinal is the day of the
/// year, which lies between 1 and 366.
#[verifier::external_body]
fn ordinal_of_day_number(days: i32) -> (ordinal: Option<u32>)
    ensures
        FIRST_DAY <= days <= LAST_DAY ==> ordinal is Some,
        ordinal matches Some(o) ==> o == day_of_year(days as int) && 1 <= o <= 366,
{
    match NaiveDate::from_num_days_from_ce_opt(days) {
        Some(date) => Some(date.ordinal()),
        None => None,
    }
}

/// A day of the proleptic Gregorian calendar, held as its number: 1 January
/// of the year 1 is day 1. Its view is that number.
#[derive(Debug, Eq, PartialEq, Copy, Clone, Structural)]
pub struct CalendarDate {
    days: i32,
}

impl View for CalendarDate {
    type V = int;

    closed spec fn view(&self) -> int {
        self.days as int
    }
}

impl CalendarDate {
    #[verifier::type_invariant]
    spec fn in_range(self) -> bool {
        FIRST_DAY <= self.days <= LAST_DAY
    }

    /// The date with the given day number, if there is one.
    pub fn from_days(days: i32) -> (date: Option<CalendarDate>)
        ensures
            date is Some <==> FIRST_DAY <= days <= LAST_DAY,
            date matches Some(d) ==> d@ == days,
    {
        if FIRST_DAY <= days && days <= LAST_DAY {
            Some(CalendarDate { days })
        } else {
            None
        }
    }

    /// The day number.
    pub fn days(self) -> (days: i32)
        ensures
            days == self@,
            FIRST_DAY <= days <= LAST_DAY,
    {
        proof {
            use_type_invariant(&self);
        }
        self.days
    }

    /// The day of the year, from 1.
    pub fn ordinal(self) -> (ordinal: u32)
        ensures
            ordinal == day_of_year(self@),
            1 <= ordinal <= 366,
    {
        proof {
            use_type_invariant(&self);
        }
        ordinal_of_day_number(self.days).unwrap()
    }

    /// The day after.
    pub fn succ(self) -> (next: CalendarDate)
        requires
            self@ < LAST_DAY,
        ensures
            next@ == self@ + 1,
    {
        proof {
            use_type_invariant(&self);
        }
        CalendarDate { days: self.days + 1 }
    }

    /// The day before.
    pub fn pred(self) -> (previous: CalendarDate)
        requires
            self@ > FIRST_DAY,
        ensures
            previous@ == self@ - 1,
    {
        proof {
            use_type_invariant(&self);
        }
        CalendarDate { days: self.days - 1 }
    }
}

/// An instant of universal time, to the second. Its view is the number of
/// seconds from the first instant of day 0.
#[derive(Debug, Eq, PartialEq, Copy, Clone, Structural)]
pub struct Timestamp {
    date: CalendarDate,
    second: u32,
}

impl View for Timestamp {
    type V = int;

    closed spec fn view(&self) -> int {
        midnight(self.date@) + self.second
    }
}

impl Timestamp {
    #[verifier::type_invariant]
    spec fn within_day(self) -> bool {
        self.second < SECONDS_IN_DAY
    }

    /// The instant `second_of_day` seconds after the day `date` began, if it
    /// still falls on that day.
    pub fn new(date: CalendarDate, second_of_day: u32) -> (instant: Option<Timestamp>)
        ensures
            instant is Some <==> second_of_day < SECONDS_IN_DAY,
            instant matches Some(t) ==> t@ == midnight(date@) + second_of_day,
    {
        if second_of_day < SECONDS_IN_DAY {
            Some(Timestamp { date, second: second_of_day })
        } else {
            None
        }
    }

    /// The first second of a day.
    pub fn start_of(date: CalendarDate) -> (instant: Timestamp)
        ensures
            instant@ == midnight(date@),
    {
        Timestamp { date, second: 0 }
    }

    /// The last second of a day.
    pub fn end_of(date: CalendarDate) -> (instant: Timestamp)
        ensures
            instant@ == midnight(date@ + 1) - 1,
    {
        Timestamp { date, second: SECONDS_IN_DAY - 1 }
    }

    /// The day on which the instant falls.
    pub fn date(self) -> (date: CalendarDate)
        ensures
            date@ == day_of(self@),
    {
        proof {
            use_type_invariant(&self);
        }
        self.date
    }

    /// The seconds since the day began.
    pub fn second_of_day(self) -> (second: u32)
        ensures
            second == self@ - midnight(day_of(self@)),
            second < SECONDS_IN_DAY,
    {
        proof {
            use_type_invariant(&self);
        }
        self.second
    }

    /// Whether the instant is later than `other`.
    pub fn is_after(self, other: Timestamp) -> (later: bool)
        ensures
            later == (self@ > other@),
    {
        proof {
            use_type_invariant(&self);
            use_type_invariant(&other);
            use_type_invariant(&self.date);
            use_type_invariant(&other.date);
        }
        self.date.days > other.date.days || (self.date.days == other.date.days && self.second
            > other.second)
    }

    /// Whether the instant is earlier than `other`.
    pub fn is_before(self, other: Timestamp) -> (earlier: bool)
        ensures
            earlier == (self@ < other@),
    {
        other.is_after(self)
    }
}

} // verus!
