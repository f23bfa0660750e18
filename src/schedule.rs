//! The day window tracked by the polling loop, and the decision taken at
//! each poll: wait, run the action, or move on to the next day.
use vstd::prelude::*;
use crate::calendar::{next_date, CalendarDate};
use crate::clock::UtcInstant;

verus! {

/// Where an instant falls against a day window.
#[derive(Clone, Copy, Debug, PartialEq, Eq, Structural)]
pub enum TaskResult {
    /// Before sunrise.
    Early,
    /// After sunset.
    Late,
    /// Between sunrise and sunset, both included: the action runs.
    Executed,
}

/// What the polling loop does after one poll.
#[derive(Clone, Copy, Debug, PartialEq, Eq, Structural)]
pub enum PollAction {
    /// Nothing until the next poll.
    Wait,
    /// Run the action once, then wait for the next poll.
    Invoke,
    /// Compute the window of the given day, install it with
    /// `SchedulingState::advance`, then wait for the next poll.
    Advance(CalendarDate),
}

/// The sunrise and sunset of one calendar day.
#[derive(Clone, Copy, Debug, PartialEq, Eq, Structural)]
pub struct DayWindow {
    pub date: CalendarDate,
    pub sunrise: UtcInstant,
    pub sunset: UtcInstant,
}

impl DayWindow {
    /// Both instants are valid and fall on the window's own day.
    pub open spec fn is_valid(self) -> bool {
        &&& self.date.is_valid()
        &&& self.sunrise.is_valid()
        &&& self.sunset.is_valid()
        &&& self.sunrise.date == self.date
        &&& self.sunset.date == self.date
    }

    /// Builds the window of `date`, or `None` where an instant is not valid
    /// or lies on another day.
    pub fn new(date: CalendarDate, sunrise: UtcInstant, sunset: UtcInstant) -> (r: Option<DayWindow>)
        ensures
            r is Some <==> (DayWindow { date, sunrise, sunset }).is_valid(),
            r matches Some(w) ==> w == (DayWindow { date, sunrise, sunset }),
    {
        let rise_ok = UtcInstant::new(sunrise.date, sunrise.hour, sunrise.minute, sunrise.second);
        let set_ok = UtcInstant::new(sunset.date, sunset.hour, sunset.minute, sunset.second);
        if rise_ok.is_some() && set_ok.is_some() && sunrise.date == date && sunset.date == date {
            Some(DayWindow { date, sunrise, sunset })
        } else {
            None
        }
    }
}

/// Where `now` falls against `window`: before sunrise, after sunset, or
/// inside the window.
pub open spec fn classify(window: DayWindow, now: UtcInstant) -> TaskResult {
    if now.before_spec(window.sunrise) {
        TaskResult::Early
    } else if window.sunset.before_spec(now) {
        TaskResult::Late
    } else {
        TaskResult::Executed
    }
}

/// Classifies `current` against `window`.
pub fn perform_task(window: &DayWindow, current: &UtcInstant) -> (r: TaskResult)
    requires
        window.is_valid(),
        current.is_valid(),
    ensures
        r == classify(*window, *current),
{
    if current.is_before(&window.sunrise) {
        TaskResult::Early
    } else if window.sunset.is_before(current) {
        TaskResult::Late
    } else {
        TaskResult::Executed
    }
}

/// The state that the polling loop carries from one poll to the next.
#[derive(Clone, Copy, Debug, PartialEq, Eq, Structural)]
pub struct SchedulingState {
    pub window: DayWindow,
    pub poll_period_millis: u64,
}

/// What a poll at `now` decides in `state`: wait before sunrise, run the
/// action inside the window, and after sunset move on to the next day
/// (or wait, where the calendar has no next day to give).
pub open spec fn poll_action(state: SchedulingState, now: UtcInstant) -> PollAction {
    match classify(state.window, now) {
        TaskResult::Early => PollAction::Wait,
        TaskResult::Executed => PollAction::Invoke,
        TaskResult::Late => {
            if state.window.date.has_successor() {
                let (y, m, d) = state.window.date.succ_spec();
                PollAction::Advance(CalendarDate { year: y as i32, month: m as u32, day: d as u32 })
            } else {
                PollAction::Wait
            }
        },
    }
}

impl SchedulingState {
    pub open spec fn is_valid(self) -> bool {
        self.window.is_valid()
    }

    /// The state that tracks `window`, polled every `poll_period_millis`.
    pub fn new(window: DayWindow, poll_period_millis: u64) -> (r: SchedulingState)
        requires
            window.is_valid(),
        ensures
            r.is_valid(),
            r.window == window,
            r.poll_period_millis == poll_period_millis,
    {
        SchedulingState { window, poll_period_millis }
    }

    /// The decision of one poll at `now`.
    pub fn poll(&self, now: &UtcInstant) -> (r: PollAction)
        requires
            self.is_valid(),
            now.is_valid(),
        ensures
            r == poll_action(*self, *now),
            r matches PollAction::Advance(d) ==> d.is_valid() && self.window.date.before_spec(d),
    {
        match perform_task(&self.window, now) {
            TaskResult::Early => PollAction::Wait,
            TaskResult::Executed => PollAction::Invoke,
            TaskResult::Late => {
                if self.window.date.year < i32::MAX || self.window.date.month < 12
                    || self.window.date.day < 31 {
                    PollAction::Advance(next_date(self.window.date))
                } else {
                    PollAction::Wait
                }
            },
        }
    }

    /// The state after the tracked day has rolled over: `window` replaces
    /// the current window, and the poll period stays.
    pub fn advance(self, window: DayWindow) -> (r: SchedulingState)
        requires
            self.is_valid(),
            window.is_valid(),
            self.window.date.has_successor(),
            (window.date.year as int, window.date.month as int, window.date.day as int)
                == self.window.date.succ_spec(),
        ensures
            r.is_valid(),
            r.window == window,
            r.poll_period_millis == self.poll_period_millis,
    {
        SchedulingState { window, poll_period_millis: self.poll_period_millis }
    }
}

/// After the window has moved on to the next day, an instant of the day
/// before is early for it: a late poll is followed by waiting, not by
/// another classification of the same instant as late or inside.
pub proof fn lemma_advanced_window_is_early(
    state: SchedulingState,
    window: DayWindow,
    now: UtcInstant,
)
    requires
        state.is_valid(),
        window.is_valid(),
        now.is_valid(),
        state.window.date.has_successor(),
        (window.date.year as int, window.date.month as int, window.date.day as int)
            == state.window.date.succ_spec(),
        now.date == state.window.date,
    ensures
        classify(window, now) == TaskResult::Early,
        poll_action(
            SchedulingState { window, poll_period_millis: state.poll_period_millis },
            now,
        ) == PollAction::Wait,
{
    crate::calendar::lemma_successor_ordinal(
        state.window.date.year as int,
        state.window.date.month as int,
        state.window.date.day as int,
    );
}

/// A poll inside the window runs the action, and only such a poll does.
pub proof fn lemma_invoke_iff_inside(state: SchedulingState, now: UtcInstant)
    requires
        state.is_valid(),
        now.is_valid(),
    ensures
        (poll_action(state, now) == PollAction::Invoke) <==> (!now.before_spec(state.window.sunrise)
            && !state.window.sunset.before_spec(now)),
{
}

} // verus!
