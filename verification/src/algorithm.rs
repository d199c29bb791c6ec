//! From the figures of the sun's position to the instant of an event.
//!
//! The position of the sun is worked out in floating point, outside this
//! library. What comes out of it is handed over as a `SolarSolution`: how the
//! cosine of the hour angle lay to the interval from -1 to 1, the universal
//! time in whole seconds of the day, and on which side of noon that time lay
//! before it was rounded. This module decides the rest: whether the event
//! occurs, on which calendar day its instant falls, and what the instant is.

use crate::event::{Event, SunEvent};
use crate::pos::Hemisphere;
use crate::time::{
    day_of, midnight, representable, CalendarDate, Timestamp, FIRST_DAY, LAST_DAY, SECONDS_IN_DAY,
};
use vstd::prelude::*;

verus! {

/// How the cosine of the sun's hour angle lies to the interval from -1 to 1.
/// Beyond the interval no hour angle exists: above it the sun never comes up
/// to the angle asked for, below it the sun never goes down to it. `Within`
/// stands for every value that is neither above 1 nor below -1.
#[derive(Debug, Eq, PartialEq, Copy, Clone, Structural)]
pub enum HourAngleCosine {
    Below,
    Within,
    Above,
}

/// How a universal time of day lies to 12:00. `Noon` stands for every time
/// that is neither before nor after it.
#[derive(Debug, Eq, PartialEq, Copy, Clone, Structural)]
pub enum DayHalf {
    Morning,
    Noon,
    Afternoon,
}

/// What the computation of the sun's position hands over for one event on one
/// day at one place.
#[derive(Debug, Eq, PartialEq, Copy, Clone, Structural)]
pub struct SolarSolution {
    /// The cosine of the hour angle against the interval from -1 to 1.
    pub cosine: HourAngleCosine,
    /// The universal time of the event, in seconds since midnight, rounded to
    /// the nearest whole second. A time that rounds up to the next midnight
    /// comes as 86 400, and the instant is then the first of the day after.
    pub second: u32,
    /// The universal time of the event against 12:00, before rounding.
    pub half: DayHalf,
}

/// Whether the event occurs on the day: a sunrise does unless the cosine lies
/// above the interval, a sunset does unless it lies below.
pub open spec fn occurs(event: SunEvent, cosine: HourAngleCosine) -> bool {
    &&& !(cosine == HourAngleCosine::Above && event.event == Event::Sunrise)
    &&& !(cosine == HourAngleCosine::Below && event.event == Event::Sunset)
}

/// By how many days the instant of the event lies from the day asked for.
/// East of the meridian a sunrise found after noon of universal time belongs
/// to the day before; west of it a sunset found before noon belongs to the
/// day after.
pub open spec fn day_shift(side: Hemisphere, half: DayHalf, event: SunEvent) -> int {
    if side == Hemisphere::Eastern && half == DayHalf::Afternoon && event.event == Event::Sunrise {
        -1
    } else if side == Hemisphere::Western && half == DayHalf::Morning && event.event
        == Event::Sunset {
        1
    } else {
        0
    }
}

/// The instant of the event, in seconds, whether or not it occurs: the
/// universal time of day on the day asked for, moved by `day_shift`.
pub open spec fn instant_of(
    day_number: int,
    side: Hemisphere,
    event: SunEvent,
    solution: SolarSolution,
) -> int {
    midnight(day_number + day_shift(side, solution.half, event)) + solution.second
}

/// The instant of the event on the day with the given number, if the event
/// occurs on it.
pub open spec fn event_instant(
    day_number: int,
    side: Hemisphere,
    event: SunEvent,
    solution: SolarSolution,
) -> Option<int> {
    if occurs(event, solution.cosine) {
        Some(instant_of(day_number, side, event, solution))
    } else {
        None
    }
}

/// Whether the instant of the event, if it occurs, falls on a day that a date
/// can hold.
pub open spec fn event_fits(
    day_number: int,
    side: Hemisphere,
    event: SunEvent,
    solution: SolarSolution,
) -> bool {
    occurs(event, solution.cosine) ==> representable(
        instant_of(day_number, side, event, solution),
    )
}

/// Whether the event occurs, given how the cosine of its hour angle lies.
pub fn event_occurs(event: SunEvent, cosine: HourAngleCosine) -> (b: bool)
    ensures
        b == occurs(event, cosine),
{
    match cosine {
        HourAngleCosine::Above => !event.is_sunrise(),
        HourAngleCosine::Below => !event.is_sunset(),
        HourAngleCosine::Within => true,
    }
}

/// By how many days the instant of the event lies from the day asked for.
pub fn day_correction(side: Hemisphere, half: DayHalf, event: SunEvent) -> (shift: i32)
    ensures
        shift == day_shift(side, half, event),
{
    let should_be_yesterday = side == Hemisphere::Eastern && half == DayHalf::Afternoon
        && event.is_sunrise();
    let should_be_tomorrow = side == Hemisphere::Western && half == DayHalf::Morning
        && event.is_sunset();
    if should_be_yesterday {
        -1
    } else if should_be_tomorrow {
        1
    } else {
        0
    }
}

/// The day on which the instant of the event falls, whether or not the event
/// occurs.
fn day_of_event(
    date: CalendarDate,
    side: Hemisphere,
    event: SunEvent,
    solution: SolarSolution,
) -> (day: i64)
    ensures
        day == day_of(instant_of(date@, side, event, solution)),
        instant_of(date@, side, event, solution) == midnight(day as int) + solution.second
            % SECONDS_IN_DAY,
{
    let shift: i32 = day_correction(side, solution.half, event);
    let carried: u32 = solution.second / SECONDS_IN_DAY;
    date.days() as i64 + shift as i64 + carried as i64
}

/// Whether `time_of_event` can be called with these arguments: whether the
/// instant of the event, if it occurs, falls on a day that a date can hold.
pub fn event_time_fits(
    date: CalendarDate,
    side: Hemisphere,
    event: SunEvent,
    solution: SolarSolution,
) -> (fits: bool)
    ensures
        fits == event_fits(date@, side, event, solution),
{
    if !event_occurs(event, solution.cosine) {
        return true;
    }
    let day: i64 = day_of_event(date, side, event, solution);
    FIRST_DAY as i64 <= day && day <= LAST_DAY as i64
}

/// The instant at which `event` occurs on `date` at a place on the given side
/// of the prime meridian, or `None` if it does not occur there on that day.
/// The result is fixed by the arguments: `event_instant` of them.
pub fn time_of_event(
    date: CalendarDate,
    side: Hemisphere,
    event: SunEvent,
    solution: SolarSolution,
) -> (instant: Option<Timestamp>)
    requires
        event_fits(date@, side, event, solution),
    ensures
        (match instant {
            Some(t) => event_instant(date@, side, event, solution) == Some(t@),
            None => event_instant(date@, side, event, solution) is None,
        }),
{
    if !event_occurs(event, solution.cosine) {
        return None;
    }
    let day: i64 = day_of_event(date, side, event, solution);
    let date = CalendarDate::from_days(day as i32).unwrap();
    Timestamp::new(date, solution.second % SECONDS_IN_DAY)
}

/// Where the universal time of the event is a time of day, the day of its
/// instant, moved back by `day_shift`, is the day that was asked for.
pub proof fn lemma_instant_recovers_requested_day(
    day_number: int,
    side: Hemisphere,
    event: SunEvent,
    solution: SolarSolution,
)
    requires
        solution.second < SECONDS_IN_DAY,
    ensures
        day_of(instant_of(day_number, side, event, solution)) - day_shift(
            side,
            solution.half,
            event,
        ) == day_number,
        -1 <= day_shift(side, solution.half, event) <= 1,
{
}

} // verus!
