//! The life of the service: starting, running, shutting down, stopped.
//!
//! The service accepts lookups only while it runs, and it starts to run only
//! with a snapshot in the store. On a termination request it stops accepting
//! lookups and starts no refresh; it is stopped once the server and the
//! scheduler have confirmed and no refresh is in flight.

use crate::refresh::{
    is_one_refresh, is_run, law_failed_refresh_keeps_snapshot, next_action, next_state,
    run_outcome, RefreshAction, RefreshCoordinator, RefreshEvent, RefreshState,
};
use crate::snapshot::{Snapshot, SnapshotStore};
use vstd::prelude::*;

verus! {

#[derive(Clone, Copy, Debug, PartialEq, Eq, Structural)]
pub enum Phase {
    /// No snapshot has been installed yet; nothing is served.
    Starting,
    /// Lookups are served and refreshes are started.
    Running,
    /// Termination was asked for; what is in flight may finish.
    ShuttingDown,
    /// Everything has ended. The process exits.
    Stopped,
}

/// The state of the life cycle.
#[derive(Clone, Copy, Debug, PartialEq, Eq, Structural)]
pub struct LifecycleState {
    pub phase: Phase,
    /// The server has confirmed that it serves no more.
    pub server_stopped: bool,
    /// The scheduler has confirmed that it fires no more.
    pub scheduler_stopped: bool,
    /// The service never came up.
    pub failed: bool,
}

/// What the caller reports.
#[derive(Clone, Copy, Debug, PartialEq, Eq, Structural)]
pub enum LifecycleEvent {
    /// An interrupt or a termination signal arrived.
    TerminationRequested,
    /// The server has ended.
    ServerStopped,
    /// The scheduler has ended.
    SchedulerStopped,
    /// A refresh has ended.
    RefreshSettled,
    /// No first snapshot could be had.
    StartupFailed,
}

/// What the caller is asked to do.
#[derive(Clone, Copy, Debug, PartialEq, Eq, Structural)]
pub enum LifecycleAction {
    /// Nothing; go on.
    Proceed,
    /// Stop accepting requests and stop the scheduler; report when each has
    /// ended.
    StopServing,
    /// Exit with this code.
    Exit(u8),
}

/// The exit code of a clean shutdown.
pub const EXIT_CLEAN: u8 = 0;

/// The exit code of a service that never came up.
pub const EXIT_STARTUP_FAILED: u8 = 1;

/// The state that `event` leads to, before it is asked whether all has ended.
pub open spec fn after_event(state: LifecycleState, event: LifecycleEvent) -> LifecycleState {
    match (state.phase, event) {
        (Phase::Starting, LifecycleEvent::StartupFailed) => LifecycleState {
            phase: Phase::ShuttingDown,
            server_stopped: true,
            scheduler_stopped: true,
            failed: true,
        },
        (Phase::Starting, LifecycleEvent::TerminationRequested) | (
            Phase::Running,
            LifecycleEvent::TerminationRequested,
        ) => LifecycleState { phase: Phase::ShuttingDown, ..state },
        (Phase::Running, LifecycleEvent::ServerStopped) | (
            Phase::ShuttingDown,
            LifecycleEvent::ServerStopped,
        ) => LifecycleState { phase: Phase::ShuttingDown, server_stopped: true, ..state },
        (Phase::Running, LifecycleEvent::SchedulerStopped) | (
            Phase::ShuttingDown,
            LifecycleEvent::SchedulerStopped,
        ) => LifecycleState { phase: Phase::ShuttingDown, scheduler_stopped: true, ..state },
        _ => state,
    }
}

/// Everything that shutting down waits for has happened.
pub open spec fn all_ended(state: LifecycleState, refresh_idle: bool) -> bool {
    &&& state.phase is ShuttingDown
    &&& state.server_stopped
    &&& state.scheduler_stopped
    &&& refresh_idle
}

/// The state after `event`, given whether a refresh is in flight.
pub open spec fn next_lifecycle(
    state: LifecycleState,
    event: LifecycleEvent,
    refresh_idle: bool,
) -> LifecycleState {
    let reached = after_event(state, event);
    if all_ended(reached, refresh_idle) {
        LifecycleState { phase: Phase::Stopped, ..reached }
    } else {
        reached
    }
}

/// The exit code of a service in `state`.
pub open spec fn exit_code(state: LifecycleState) -> u8 {
    if state.failed {
        EXIT_STARTUP_FAILED
    } else {
        EXIT_CLEAN
    }
}

/// What the caller is asked to do after `event`.
pub open spec fn lifecycle_action(
    state: LifecycleState,
    event: LifecycleEvent,
    refresh_idle: bool,
) -> LifecycleAction {
    let reached = next_lifecycle(state, event, refresh_idle);
    if reached.phase is Stopped && !(state.phase is Stopped) {
        LifecycleAction::Exit(exit_code(reached))
    } else if reached.phase is ShuttingDown && !(state.phase is ShuttingDown) && !reached.failed {
        LifecycleAction::StopServing
    } else {
        LifecycleAction::Proceed
    }
}

/// Whether lookups are accepted.
pub open spec fn accepts(state: LifecycleState) -> bool {
    state.phase is Running
}

/// Whether a refresh may be started.
pub open spec fn admits(state: LifecycleState) -> bool {
    state.phase is Starting || state.phase is Running
}

/// Whether a service in `state` begins to serve over a store that holds
/// `content`: it must be starting, and there must be a snapshot.
pub open spec fn serving_begins(state: LifecycleState, content: Option<Snapshot>) -> bool {
    state.phase is Starting && content is Some
}

/// Decides when the service serves and when it has stopped.
pub struct Lifecycle {
    state: LifecycleState,
}

impl View for Lifecycle {
    type V = LifecycleState;

    closed spec fn view(&self) -> LifecycleState {
        self.state
    }
}

impl Lifecycle {
    /// A service that is starting.
    pub fn new() -> (lifecycle: Lifecycle)
        ensures
            lifecycle@ == (LifecycleState {
                phase: Phase::Starting,
                server_stopped: false,
                scheduler_stopped: false,
                failed: false,
            }),
    {
        Lifecycle {
            state: LifecycleState {
                phase: Phase::Starting,
                server_stopped: false,
                scheduler_stopped: false,
                failed: false,
            },
        }
    }

    pub fn phase(&self) -> (phase: Phase)
        ensures
            phase == self@.phase,
    {
        self.state.phase
    }

    /// Whether lookups are accepted: only while running.
    pub fn accepts_requests(&self) -> (accepted: bool)
        ensures
            accepted == accepts(self@),
    {
        match self.state.phase {
            Phase::Running => true,
            _ => false,
        }
    }

    /// Whether a refresh may be started: while starting or running.
    pub fn admits_refresh(&self) -> (admitted: bool)
        ensures
            admitted == admits(self@),
    {
        match self.state.phase {
            Phase::Starting | Phase::Running => true,
            _ => false,
        }
    }

    /// Begins to serve, if the service is starting and the store holds a
    /// snapshot. In every other case nothing changes.
    pub fn begin_serving(&mut self, store: &SnapshotStore) -> (serving: bool)
        ensures
            serving == serving_begins(old(self)@, store.content()),
            serving ==> final(self)@ == (LifecycleState { phase: Phase::Running, ..old(self)@ }),
            !serving ==> final(self)@ == old(self)@,
    {
        match self.state.phase {
            Phase::Starting => {
                if store.ready() {
                    self.state.phase = Phase::Running;
                    true
                } else {
                    false
                }
            },
            _ => false,
        }
    }

    /// Takes `event` in and says what to do. `refresh` is read for whether a
    /// refresh is in flight: the service is not stopped while one is.
    pub fn step(&mut self, event: LifecycleEvent, refresh: &RefreshCoordinator) -> (action:
        LifecycleAction)
        ensures
            final(self)@ == next_lifecycle(old(self)@, event, refresh@.phase is Idle),
            action == lifecycle_action(old(self)@, event, refresh@.phase is Idle),
    {
        let before = self.state;
        let mut reached = before;
        match event {
            LifecycleEvent::StartupFailed => match before.phase {
                Phase::Starting => {
                    reached = LifecycleState {
                        phase: Phase::ShuttingDown,
                        server_stopped: true,
                        scheduler_stopped: true,
                        failed: true,
                    };
                },
                _ => {},
            },
            LifecycleEvent::TerminationRequested => match before.phase {
                Phase::Starting | Phase::Running => {
                    reached.phase = Phase::ShuttingDown;
                },
                _ => {},
            },
            LifecycleEvent::ServerStopped => match before.phase {
                Phase::Running | Phase::ShuttingDown => {
                    reached.phase = Phase::ShuttingDown;
                    reached.server_stopped = true;
                },
                _ => {},
            },
            LifecycleEvent::SchedulerStopped => match before.phase {
                Phase::Running | Phase::ShuttingDown => {
                    reached.phase = Phase::ShuttingDown;
                    reached.scheduler_stopped = true;
                },
                _ => {},
            },
            LifecycleEvent::RefreshSettled => {},
        }
        assert(reached == after_event(before, event));
        let shutting = match reached.phase {
            Phase::ShuttingDown => true,
            _ => false,
        };
        let was_shutting = match before.phase {
            Phase::ShuttingDown => true,
            _ => false,
        };
        if shutting && reached.server_stopped && reached.scheduler_stopped && refresh.is_idle() {
            reached.phase = Phase::Stopped;
            self.state = reached;
            LifecycleAction::Exit(
                if reached.failed {
                    EXIT_STARTUP_FAILED
                } else {
                    EXIT_CLEAN
                },
            )
        } else {
            self.state = reached;
            if shutting && !was_shutting && !reached.failed {
                LifecycleAction::StopServing
            } else {
                LifecycleAction::Proceed
            }
        }
    }

    /// Asks for a refresh on behalf of the schedule or of an operator. While
    /// the service is shutting down or stopped none is started: the request
    /// is rejected and nothing changes.
    pub fn request_refresh(
        &self,
        refresh: &mut RefreshCoordinator,
        store: &mut SnapshotStore,
    ) -> (action: RefreshAction)
        ensures
            admits(self@) ==> {
                &&& final(refresh)@ == next_state(old(refresh)@, RefreshEvent::Requested)
                &&& action == next_action(old(refresh)@, RefreshEvent::Requested)
            },
            !admits(self@) ==> final(refresh)@ == old(refresh)@ && action
                == RefreshAction::Rejected,
            final(store).content() == old(store).content(),
    {
        if self.admits_refresh() {
            refresh.step(store, RefreshEvent::Requested)
        } else {
            RefreshAction::Rejected
        }
    }
}

/// The states follow from the events, one step each; `idle` says at each
/// step whether no refresh was in flight.
pub open spec fn lifecycle_follows(
    states: Seq<LifecycleState>,
    events: Seq<LifecycleEvent>,
    idle: Seq<bool>,
) -> bool {
    &&& states.len() == events.len() + 1
    &&& idle.len() == events.len()
    &&& forall|i: int|
        #![trigger events[i]]
        0 <= i < events.len() ==> states[i + 1] == next_lifecycle(states[i], events[i], idle[i])
}

/// Once shutting down has begun, no lookup is accepted and no refresh is
/// started again, whatever is reported afterwards.
pub proof fn law_shutdown_is_final(
    states: Seq<LifecycleState>,
    events: Seq<LifecycleEvent>,
    idle: Seq<bool>,
    i: int,
    j: int,
)
    requires
        lifecycle_follows(states, events, idle),
        0 <= i <= j < states.len(),
        states[i].phase is ShuttingDown || states[i].phase is Stopped,
    ensures
        !accepts(states[j]),
        !admits(states[j]),
        states[j].phase is ShuttingDown || states[j].phase is Stopped,
    decreases j - i,
{
    if i < j {
        law_shutdown_is_final(states, events, idle, i, j - 1);
        assert(states[j] == next_lifecycle(states[j - 1], events[j - 1], idle[j - 1]));
    }
}

/// The service reaches `Stopped` only at a step at which no refresh is in
/// flight, and only after the server and the scheduler have ended.
pub proof fn law_stop_waits_for_refresh(
    state: LifecycleState,
    event: LifecycleEvent,
    refresh_idle: bool,
)
    requires
        !(state.phase is Stopped),
        next_lifecycle(state, event, refresh_idle).phase is Stopped,
    ensures
        refresh_idle,
        next_lifecycle(state, event, refresh_idle).server_stopped,
        next_lifecycle(state, event, refresh_idle).scheduler_stopped,
        lifecycle_action(state, event, refresh_idle) is Exit,
{
}

/// No report makes the service run: it runs only from `begin_serving`, which
/// asks for a snapshot in the store.
pub proof fn law_only_a_snapshot_starts_service(
    state: LifecycleState,
    event: LifecycleEvent,
    refresh_idle: bool,
)
    requires
        !accepts(state),
    ensures
        !accepts(next_lifecycle(state, event, refresh_idle)),
{
}

/// A service that starts without a snapshot and whose first refresh fails
/// does not begin to serve: the store is still empty, so `begin_serving`
/// refuses.
pub proof fn law_failed_first_refresh_blocks_service(
    lifecycle: LifecycleState,
    states: Seq<RefreshState>,
    stores: Seq<Option<Snapshot>>,
    events: Seq<RefreshEvent>,
)
    requires
        is_run(states, stores, events),
        is_one_refresh(states, events),
        !(run_outcome(states, events) is Succeeded),
        stores[0] is None,
    ensures
        !serving_begins(lifecycle, stores[events.len() as int]),
{
    law_failed_refresh_keeps_snapshot(states, stores, events);
}

} // verus!
