//! The refresh scheduler's decisions: sleep until 00:01 of the next day,
//! fire exactly on January 1, and return to sleep whatever the refresh's
//! outcome. The surrounding loop — the clock, the suspension and the
//! orchestrator call — is the runtime shell's job; every decision it acts on
//! is taken here.

use vstd::prelude::*;
use crate::date_utils::{Date, next_date, valid_date};

verus! {

/// The two states of the refresh loop.
pub enum SchedulerState {
    /// Suspended until the next 00:01 target.
    Sleeping,
    /// A refresh for the current year is running.
    Firing,
}

/// What the loop observes: a wake at a date, or the end of a refresh attempt
/// at a date, successful or not.
pub enum SchedulerEvent {
    Woke(Date),
    Finished(Date, bool),
}

/// What the loop must do next: suspend until 00:01 on the given date, or run
/// the refresh for the given year.
pub enum SchedulerAction {
    Sleep(Date),
    Refresh(i32),
}

/// The minute past midnight at which the scheduler wakes.
pub const WAKE_MINUTE: u64 = 1;

/// The year boundary: January 1.
pub open spec fn is_new_year_day(d: Date) -> bool {
    d.month == 1 && d.day == 1
}

/// The scheduler's whole decision rule. A wake on January 1 fires for that
/// year; any other wake re-arms for 00:01 of the next day. A finished
/// refresh, successful or failed alike, returns to sleep and re-arms for the
/// next day: errors are swallowed, the loop never ends.
pub open spec fn scheduler_step_spec(state: SchedulerState, event: SchedulerEvent) -> (
    SchedulerState,
    SchedulerAction,
) {
    match (state, event) {
        (SchedulerState::Sleeping, SchedulerEvent::Woke(d)) => if is_new_year_day(d) {
            (SchedulerState::Firing, SchedulerAction::Refresh(d.year))
        } else {
            (SchedulerState::Sleeping, SchedulerAction::Sleep(next_date(d)))
        },
        (SchedulerState::Firing, SchedulerEvent::Finished(d, _)) => (
            SchedulerState::Sleeping,
            SchedulerAction::Sleep(next_date(d)),
        ),
        (SchedulerState::Sleeping, SchedulerEvent::Finished(d, _)) => (
            SchedulerState::Sleeping,
            SchedulerAction::Sleep(next_date(d)),
        ),
        (SchedulerState::Firing, SchedulerEvent::Woke(d)) => (
            SchedulerState::Sleeping,
            SchedulerAction::Sleep(next_date(d)),
        ),
    }
}

/// The date an event carries.
pub open spec fn event_date(event: SchedulerEvent) -> Date {
    match event {
        SchedulerEvent::Woke(d) => d,
        SchedulerEvent::Finished(d, _) => d,
    }
}

/// One step of the refresh loop.
pub fn scheduler_step(state: SchedulerState, event: SchedulerEvent) -> (r: (
    SchedulerState,
    SchedulerAction,
))
    requires
        valid_date(event_date(event)),
        !(event_date(event).year == 9999 && event_date(event).month == 12 && event_date(
            event,
        ).day == 31),
    ensures
        r == scheduler_step_spec(state, event),
        (r.1 matches SchedulerAction::Sleep(d) ==> valid_date(d)),
{
    match (state, event) {
        (SchedulerState::Sleeping, SchedulerEvent::Woke(d)) => {
            if d.month == 1 && d.day == 1 {
                (SchedulerState::Firing, SchedulerAction::Refresh(d.year))
            } else {
                (SchedulerState::Sleeping, SchedulerAction::Sleep(d.next_day()))
            }
        },
        (SchedulerState::Firing, SchedulerEvent::Finished(d, _)) => {
            (SchedulerState::Sleeping, SchedulerAction::Sleep(d.next_day()))
        },
        (SchedulerState::Sleeping, SchedulerEvent::Finished(d, _)) => {
            (SchedulerState::Sleeping, SchedulerAction::Sleep(d.next_day()))
        },
        (SchedulerState::Firing, SchedulerEvent::Woke(d)) => {
            (SchedulerState::Sleeping, SchedulerAction::Sleep(d.next_day()))
        },
    }
}

/// One boundary fires exactly once. A wake on January 1 fires for that year;
/// the step after the refresh finishes re-arms for the next calendar day,
/// whatever the outcome was; and that next wake, January 2, does not fire. So
/// between two sleeps a boundary produces one refresh, never two.
pub proof fn lemma_fires_once_per_boundary(d: Date, ok: bool)
    requires
        valid_date(d),
        is_new_year_day(d),
        d.year < 9999,
    ensures
        scheduler_step_spec(SchedulerState::Sleeping, SchedulerEvent::Woke(d)) == (
            SchedulerState::Firing,
            SchedulerAction::Refresh(d.year),
        ),
        scheduler_step_spec(SchedulerState::Firing, SchedulerEvent::Finished(d, ok)) == (
            SchedulerState::Sleeping,
            SchedulerAction::Sleep(next_date(d)),
        ),
        !is_new_year_day(next_date(d)),
        scheduler_step_spec(SchedulerState::Sleeping, SchedulerEvent::Woke(next_date(d))) == (
            SchedulerState::Sleeping,
            SchedulerAction::Sleep(next_date(next_date(d))),
        ),
{
    assert(next_date(d).day == 2);
}

/// A failed refresh and a successful one leave the loop in the same state
/// with the same next wake: errors are swallowed and never stop the loop.
pub proof fn lemma_outcome_is_swallowed(state: SchedulerState, d: Date)
    ensures
        scheduler_step_spec(state, SchedulerEvent::Finished(d, true)) == scheduler_step_spec(
            state,
            SchedulerEvent::Finished(d, false),
        ),
        scheduler_step_spec(state, SchedulerEvent::Finished(d, false)).0
            == SchedulerState::Sleeping,
{
}

} // verus!
