use prolapse::{
    event_instant, next_date, perform_task, CalendarDate, DayWindow, PollAction,
    SchedulingState, TaskResult, UtcInstant,
};

fn window(date: CalendarDate, rise: i64, set: i64) -> DayWindow {
    DayWindow::new(date, event_instant(date, rise), event_instant(date, set)).unwrap()
}

fn at(date: CalendarDate, h: u32, m: u32, s: u32) -> UtcInstant {
    UtcInstant::new(date, h, m, s).unwrap()
}

fn today() -> CalendarDate {
    CalendarDate::new(2021, 6, 14).unwrap()
}

#[test]
fn before_sunrise_is_early_and_waits() {
    let w = window(today(), 5 * 3600, 21 * 3600);
    let now = at(today(), 4, 59, 59);
    assert_eq!(perform_task(&w, &now), TaskResult::Early);
    let state = SchedulingState::new(w, 1000);
    assert_eq!(state.poll(&now), PollAction::Wait);
}

#[test]
fn inside_window_invokes_once_per_poll() {
    let w = window(today(), 5 * 3600, 21 * 3600);
    let state = SchedulingState::new(w, 1000);
    for now in [at(today(), 5, 0, 0), at(today(), 12, 0, 0), at(today(), 21, 0, 0)] {
        assert_eq!(perform_task(&w, &now), TaskResult::Executed);
        assert_eq!(state.poll(&now), PollAction::Invoke);
    }
}

#[test]
fn after_sunset_advances_then_waits() {
    let w = window(today(), 5 * 3600, 21 * 3600);
    let now = at(today(), 21, 0, 1);
    assert_eq!(perform_task(&w, &now), TaskResult::Late);
    let state = SchedulingState::new(w, 1000);
    let tomorrow = next_date(today());
    assert_eq!(state.poll(&now), PollAction::Advance(tomorrow));
    let advanced = state.advance(window(tomorrow, 5 * 3600 - 30, 21 * 3600 + 30));
    assert_eq!(advanced.window.date, tomorrow);
    assert_eq!(advanced.poll_period_millis, 1000);
    // The same late instant is now early for tomorrow's window.
    assert_eq!(advanced.poll(&now), PollAction::Wait);
    assert_eq!(perform_task(&advanced.window, &now), TaskResult::Early);
}

#[test]
fn zero_length_window_runs_at_its_instant_only() {
    let w = window(today(), 12 * 3600, 12 * 3600);
    assert_eq!(perform_task(&w, &at(today(), 11, 59, 59)), TaskResult::Early);
    assert_eq!(perform_task(&w, &at(today(), 12, 0, 0)), TaskResult::Executed);
    assert_eq!(perform_task(&w, &at(today(), 12, 0, 1)), TaskResult::Late);
}

#[test]
fn last_day_of_year_advances_to_january() {
    let d = CalendarDate::new(2021, 12, 31).unwrap();
    let state = SchedulingState::new(window(d, 8 * 3600, 16 * 3600), 500);
    let now = UtcInstant::new(d, 17, 0, 0).unwrap();
    let jan = CalendarDate::new(2022, 1, 1).unwrap();
    assert_eq!(state.poll(&now), PollAction::Advance(jan));
}

#[test]
fn window_on_another_day_is_refused() {
    let d = today();
    let other = next_date(d);
    assert!(DayWindow::new(d, event_instant(d, 0), event_instant(other, 0)).is_none());
    assert!(DayWindow::new(d, event_instant(other, 0), event_instant(d, 0)).is_none());
}
