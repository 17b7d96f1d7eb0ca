//! The decisions of the background refresher: a state machine from state and
//! event to next state and action. The caller runs the timer and the
//! refreshes, and hands back what happened.

use vstd::prelude::*;

verus! {

/// Where the refresher is.
#[derive(Debug, Clone, Copy, PartialEq, Eq, Structural)]
pub enum AutoRefresherState {
    /// Not started.
    Idle,
    /// A tick is scheduled and no refresh runs.
    Scheduled,
    /// A refresh runs.
    Running,
    /// Stopped while a refresh runs: that refresh may complete.
    Stopping,
    /// Terminal: nothing is scheduled and nothing runs.
    Stopped,
}

/// What happened.
#[derive(Debug, Clone, Copy, PartialEq, Eq, Structural)]
pub enum AutoRefresherEvent {
    Start,
    Tick,
    RefreshFinished { succeeded: bool },
    Stop,
}

/// What the caller must do next.
#[derive(Debug, Clone, Copy, PartialEq, Eq, Structural)]
pub enum AutoRefresherAction {
    /// Nothing.
    Nothing,
    /// Arm the timer for the next tick.
    ScheduleTick,
    /// Begin one refresh.
    StartRefresh,
    /// A tick came while a refresh runs: ignore it.
    SkipTick,
    /// Hand the failure to the observer, then arm the timer.
    ReportErrorAndScheduleTick,
    /// Hand the failure to the observer; nothing more is scheduled.
    ReportError,
    /// Cancel the armed timer.
    CancelTick,
}

/// A refresh is in flight in this state.
pub open spec fn in_flight(s: AutoRefresherState) -> bool {
    s == AutoRefresherState::Running || s == AutoRefresherState::Stopping
}

/// The state after `e` in `s`.
pub open spec fn next_state(s: AutoRefresherState, e: AutoRefresherEvent) -> AutoRefresherState {
    match (s, e) {
        (AutoRefresherState::Idle, AutoRefresherEvent::Start) => AutoRefresherState::Scheduled,
        (AutoRefresherState::Scheduled, AutoRefresherEvent::Tick) => AutoRefresherState::Running,
        (AutoRefresherState::Running, AutoRefresherEvent::RefreshFinished { .. }) => AutoRefresherState::Scheduled,
        (AutoRefresherState::Stopping, AutoRefresherEvent::RefreshFinished { .. }) => AutoRefresherState::Stopped,
        (AutoRefresherState::Running, AutoRefresherEvent::Stop) => AutoRefresherState::Stopping,
        (AutoRefresherState::Idle, AutoRefresherEvent::Stop) => AutoRefresherState::Stopped,
        (AutoRefresherState::Scheduled, AutoRefresherEvent::Stop) => AutoRefresherState::Stopped,
        _ => s,
    }
}

/// The action for `e` in `s`.
pub open spec fn action_of(s: AutoRefresherState, e: AutoRefresherEvent) -> AutoRefresherAction {
    match (s, e) {
        (AutoRefresherState::Idle, AutoRefresherEvent::Start) => AutoRefresherAction::ScheduleTick,
        (AutoRefresherState::Scheduled, AutoRefresherEvent::Tick) => AutoRefresherAction::StartRefresh,
        (AutoRefresherState::Running, AutoRefresherEvent::Tick) => AutoRefresherAction::SkipTick,
        (AutoRefresherState::Stopping, AutoRefresherEvent::Tick) => AutoRefresherAction::SkipTick,
        (AutoRefresherState::Running, AutoRefresherEvent::RefreshFinished { succeeded }) => if succeeded {
            AutoRefresherAction::ScheduleTick
        } else {
            AutoRefresherAction::ReportErrorAndScheduleTick
        },
        (AutoRefresherState::Stopping, AutoRefresherEvent::RefreshFinished { succeeded }) => if succeeded {
            AutoRefresherAction::Nothing
        } else {
            AutoRefresherAction::ReportError
        },
        (AutoRefresherState::Scheduled, AutoRefresherEvent::Stop) => AutoRefresherAction::CancelTick,
        (AutoRefresherState::Running, AutoRefresherEvent::Stop) => AutoRefresherAction::CancelTick,
        _ => AutoRefresherAction::Nothing,
    }
}

/// How many refreshes a run of events from `s` starts.
pub open spec fn starts_in(s: AutoRefresherState, events: Seq<AutoRefresherEvent>) -> nat
    decreases events.len(),
{
    if events.len() == 0 {
        0
    } else {
        (if action_of(s, events[0]) == AutoRefresherAction::StartRefresh { 1nat } else { 0nat })
            + starts_in(next_state(s, events[0]), events.drop_first())
    }
}

/// The state after a run of events from `s`.
pub open spec fn state_after(s: AutoRefresherState, events: Seq<AutoRefresherEvent>) -> AutoRefresherState
    decreases events.len(),
{
    if events.len() == 0 {
        s
    } else {
        state_after(next_state(s, events[0]), events.drop_first())
    }
}

/// A refresh starts only when none is in flight, and the one it starts is
/// then in flight.
pub proof fn lemma_start_only_when_idle(s: AutoRefresherState, e: AutoRefresherEvent)
    ensures
        action_of(s, e) == AutoRefresherAction::StartRefresh ==> !in_flight(s) && in_flight(
            next_state(s, e),
        ),
{
}

/// While a refresh is in flight, any number of ticks starts no other
/// refresh, and the refresh stays in flight.
pub proof fn lemma_single_flight(s: AutoRefresherState, events: Seq<AutoRefresherEvent>)
    requires
        in_flight(s),
        forall|i: int| 0 <= i < events.len() ==> #[trigger] events[i] == AutoRefresherEvent::Tick,
    ensures
        starts_in(s, events) == 0,
        in_flight(state_after(s, events)),
    decreases events.len(),
{
    if events.len() > 0 {
        let rest = events.drop_first();
        assert forall|i: int| 0 <= i < rest.len() implies #[trigger] rest[i] == AutoRefresherEvent::Tick by {
            assert(rest[i] == events[i + 1]);
        }
        assert(events[0] == AutoRefresherEvent::Tick);
        lemma_single_flight(next_state(s, events[0]), rest);
    }
}

/// A failed refresh does not stop the refresher: the next tick is armed.
pub proof fn lemma_failure_keeps_schedule()
    ensures
        next_state(
            AutoRefresherState::Running,
            AutoRefresherEvent::RefreshFinished { succeeded: false },
        ) == AutoRefresherState::Scheduled,
        action_of(
            AutoRefresherState::Running,
            AutoRefresherEvent::RefreshFinished { succeeded: false },
        ) == AutoRefresherAction::ReportErrorAndScheduleTick,
{
}

/// The refresher's decisions, with the interval between ticks.
pub struct SecretVaultAutoRefresher {
    state: AutoRefresherState,
    refresh_interval_ms: u64,
}

impl SecretVaultAutoRefresher {
    pub closed spec fn state_view(&self) -> AutoRefresherState {
        self.state
    }

    pub closed spec fn interval_view(&self) -> u64 {
        self.refresh_interval_ms
    }

    /// An idle refresher that ticks every `refresh_interval_ms` milliseconds.
    pub fn new(refresh_interval_ms: u64) -> (r: Self)
        ensures
            r.state_view() == AutoRefresherState::Idle,
            r.interval_view() == refresh_interval_ms,
    {
        SecretVaultAutoRefresher { state: AutoRefresherState::Idle, refresh_interval_ms }
    }

    pub fn state(&self) -> (r: AutoRefresherState)
        ensures
            r == self.state_view(),
    {
        self.state
    }

    pub fn refresh_interval_ms(&self) -> (r: u64)
        ensures
            r == self.interval_view(),
    {
        self.refresh_interval_ms
    }

    /// Takes one event and says what to do.
    pub fn step(&mut self, event: AutoRefresherEvent) -> (r: AutoRefresherAction)
        ensures
            final(self).state_view() == next_state(old(self).state_view(), event),
            final(self).interval_view() == old(self).interval_view(),
            r == action_of(old(self).state_view(), event),
    {
        let (next, action) = match (self.state, event) {
            (AutoRefresherState::Idle, AutoRefresherEvent::Start) => (
                AutoRefresherState::Scheduled,
                AutoRefresherAction::ScheduleTick,
            ),
            (AutoRefresherState::Scheduled, AutoRefresherEvent::Tick) => (
                AutoRefresherState::Running,
                AutoRefresherAction::StartRefresh,
            ),
            (AutoRefresherState::Running, AutoRefresherEvent::Tick) => (
                AutoRefresherState::Running,
                AutoRefresherAction::SkipTick,
            ),
            (AutoRefresherState::Stopping, AutoRefresherEvent::Tick) => (
                AutoRefresherState::Stopping,
                AutoRefresherAction::SkipTick,
            ),
            (AutoRefresherState::Running, AutoRefresherEvent::RefreshFinished { succeeded }) => (
                AutoRefresherState::Scheduled,
                if succeeded {
                    AutoRefresherAction::ScheduleTick
                } else {
                    AutoRefresherAction::ReportErrorAndScheduleTick
                },
            ),
            (AutoRefresherState::Stopping, AutoRefresherEvent::RefreshFinished { succeeded }) => (
                AutoRefresherState::Stopped,
                if succeeded {
                    AutoRefresherAction::Nothing
                } else {
                    AutoRefresherAction::ReportError
                },
            ),
            (AutoRefresherState::Idle, AutoRefresherEvent::Stop) => (
                AutoRefresherState::Stopped,
                AutoRefresherAction::Nothing,
            ),
            (AutoRefresherState::Scheduled, AutoRefresherEvent::Stop) => (
                AutoRefresherState::Stopped,
                AutoRefresherAction::CancelTick,
            ),
            (AutoRefresherState::Running, AutoRefresherEvent::Stop) => (
                AutoRefresherState::Stopping,
                AutoRefresherAction::CancelTick,
            ),
            (s, _) => (s, AutoRefresherAction::Nothing),
        };
        self.state = next;
        action
    }
}

} // verus!
