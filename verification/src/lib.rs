//! Times of sunrise, sunset and the twilights around them, for any day and
//! any place on Earth, and the sequences of such events through time.
//!
//! The arithmetic on angles is done in floating point by the caller; this
//! library holds everything that is decided around it: which event is meant,
//! in what order events occur within a day, whether an event occurs at all,
//! on which calendar day its instant falls, and how a sequence of events walks
//! through the days without losing one.

pub mod algorithm;
pub mod event;
pub mod iter;
pub mod pos;
pub mod run;
pub mod time;

pub use algorithm::{event_time_fits, time_of_event, DayHalf, HourAngleCosine, SolarSolution};
pub use event::{Event, SunEvent, Zenith};
pub use iter::{
    cycled, CycleState, EventCycle, EventOccurrence, ForecastedSunEvents, HistoricSunEvents,
    SolarQuery, SunEvents,
};
pub use pos::Hemisphere;
pub use time::{CalendarDate, Timestamp};
