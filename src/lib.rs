//! Sunrise/sunset day windows and the polling state machine that acts
//! only while the sun is up.
//!
//! The library holds the integer side of the work: the Gregorian calendar,
//! UTC instants and their order, the split of a second count into a clock
//! time, and the decisions taken at each poll. The solar ephemeris itself is
//! floating-point arithmetic and is done by the caller, which hands the
//! event time over as a whole number of seconds.
pub mod calendar;
pub mod clock;
pub mod schedule;

pub use calendar::{day_of_year, next_date, CalendarDate, DateError};
pub use clock::{event_instant, hms_of_seconds, time_of_day, UtcInstant};
pub use schedule::{perform_task, DayWindow, PollAction, SchedulingState, TaskResult};


