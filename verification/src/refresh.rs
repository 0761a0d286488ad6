//! The decisions of the refresh pipeline.
//!
//! A refresh fetches an archive, stages it in a directory of its own, opens
//! the staged database, installs it, writes it to its lasting place and
//! removes the staging directory. The work itself is done by the caller: the
//! coordinator is told what happened and answers with what to do next.

use crate::database::database_opens;
use crate::snapshot::{Snapshot, SnapshotStore};
use vstd::prelude::*;

verus! {

/// How a refresh ended.
#[derive(Clone, Copy, Debug, PartialEq, Eq, Structural)]
pub enum RefreshOutcome {
    /// A new snapshot, made at the given time, is active.
    Succeeded(u64),
    FetchFailed,
    StagingFailed,
    ValidationFailed,
}

/// Where a refresh stands.
#[derive(Clone, Copy, Debug, PartialEq, Eq, Structural)]
pub enum RefreshPhase {
    /// No refresh is in flight.
    Idle,
    /// The archive is being fetched.
    Fetching,
    /// The archive is being unpacked into the staging directory.
    Staging,
    /// The snapshot made at `created` is active; the staged database is
    /// being written to its lasting place.
    Persisting { created: u64 },
    /// The staging directory is being removed; `outcome` is then reported.
    Cleaning { outcome: RefreshOutcome },
}

/// The state of the coordinator: the phase, and the number of the attempt
/// in flight (of the last one while idle, 0 before the first).
#[derive(Clone, Copy, Debug, PartialEq, Eq, Structural)]
pub struct RefreshState {
    pub phase: RefreshPhase,
    pub attempt: u64,
}

/// What the caller reports to the coordinator.
#[derive(Clone, Debug, PartialEq, Eq)]
pub enum RefreshEvent {
    /// A refresh is asked for, by the schedule or by hand.
    Requested,
    /// The fetch ended: with the archive, or without one.
    Fetched(Option<Vec<u8>>),
    /// Staging ended at time `now`: with the bytes of the database found in
    /// the archive, or without them.
    Staged { database: Option<Vec<u8>>, now: u64 },
    /// The staged database was written to its lasting place, or could not be.
    Persisted,
    /// The staging directory is gone.
    Cleaned,
}

/// What the coordinator asks of the caller.
#[derive(Clone, Debug, PartialEq, Eq)]
pub enum RefreshAction {
    /// Fetch the archive.
    Fetch { attempt: u64 },
    /// Unpack `archive` into the staging directory of this attempt.
    Stage { attempt: u64, archive: Vec<u8> },
    /// Write the staged database to its lasting place.
    Persist { attempt: u64 },
    /// Remove the staging directory of this attempt.
    Clean { attempt: u64 },
    /// The refresh is over.
    Finished(RefreshOutcome),
    /// A refresh is in flight already; nothing was started.
    Rejected,
    /// The event does not belong to the phase; nothing changed.
    Ignored,
}

/// The number of the attempt after `attempt`. Numbers start at 1 and start
/// over after the largest.
pub open spec fn next_attempt(attempt: u64) -> u64 {
    if attempt == u64::MAX {
        1
    } else {
        (attempt + 1) as u64
    }
}

/// Whether the event makes the coordinator install a snapshot: staging
/// handed over bytes that open as a database.
pub open spec fn installs(state: RefreshState, event: RefreshEvent) -> bool {
    &&& state.phase is Staging
    &&& event matches RefreshEvent::Staged { database: Some(bytes), .. }
    &&& database_opens(bytes@)
}

/// The state after `event`.
pub open spec fn next_state(state: RefreshState, event: RefreshEvent) -> RefreshState {
    match (state.phase, event) {
        (RefreshPhase::Idle, RefreshEvent::Requested) => RefreshState {
            phase: RefreshPhase::Fetching,
            attempt: next_attempt(state.attempt),
        },
        (RefreshPhase::Fetching, RefreshEvent::Fetched(Some(_))) => RefreshState {
            phase: RefreshPhase::Staging,
            ..state
        },
        (RefreshPhase::Fetching, RefreshEvent::Fetched(None)) => RefreshState {
            phase: RefreshPhase::Idle,
            ..state
        },
        (RefreshPhase::Staging, RefreshEvent::Staged { database: Some(bytes), now }) => {
            if database_opens(bytes@) {
                RefreshState { phase: RefreshPhase::Persisting { created: now }, ..state }
            } else {
                RefreshState {
                    phase: RefreshPhase::Cleaning { outcome: RefreshOutcome::ValidationFailed },
                    ..state
                }
            }
        },
        (RefreshPhase::Staging, RefreshEvent::Staged { database: None, .. }) => RefreshState {
            phase: RefreshPhase::Cleaning { outcome: RefreshOutcome::StagingFailed },
            ..state
        },
        (RefreshPhase::Persisting { created }, RefreshEvent::Persisted) => RefreshState {
            phase: RefreshPhase::Cleaning { outcome: RefreshOutcome::Succeeded(created) },
            ..state
        },
        (RefreshPhase::Cleaning { .. }, RefreshEvent::Cleaned) => RefreshState {
            phase: RefreshPhase::Idle,
            ..state
        },
        _ => state,
    }
}

/// What the coordinator asks for after `event`.
pub open spec fn next_action(state: RefreshState, event: RefreshEvent) -> RefreshAction {
    match (state.phase, event) {
        (RefreshPhase::Idle, RefreshEvent::Requested) => RefreshAction::Fetch {
            attempt: next_attempt(state.attempt),
        },
        (_, RefreshEvent::Requested) => RefreshAction::Rejected,
        (RefreshPhase::Fetching, RefreshEvent::Fetched(Some(archive))) => RefreshAction::Stage {
            attempt: state.attempt,
            archive,
        },
        (RefreshPhase::Fetching, RefreshEvent::Fetched(None)) => RefreshAction::Finished(
            RefreshOutcome::FetchFailed,
        ),
        (RefreshPhase::Staging, RefreshEvent::Staged { database: Some(bytes), .. }) => {
            if database_opens(bytes@) {
                RefreshAction::Persist { attempt: state.attempt }
            } else {
                RefreshAction::Clean { attempt: state.attempt }
            }
        },
        (RefreshPhase::Staging, RefreshEvent::Staged { database: None, .. }) => {
            RefreshAction::Clean { attempt: state.attempt }
        },
        (RefreshPhase::Persisting { .. }, RefreshEvent::Persisted) => RefreshAction::Clean {
            attempt: state.attempt,
        },
        (RefreshPhase::Cleaning { outcome }, RefreshEvent::Cleaned) => RefreshAction::Finished(
            outcome,
        ),
        _ => RefreshAction::Ignored,
    }
}

/// What `event` does to the active snapshot: where it installs, the store
/// holds a snapshot of the staged bytes, made at the time of staging; in
/// every other case the store holds what it held.
pub open spec fn store_follows(
    state: RefreshState,
    event: RefreshEvent,
    before: Option<Snapshot>,
    after: Option<Snapshot>,
) -> bool {
    if installs(state, event) {
        &&& after matches Some(snapshot)
        &&& event matches RefreshEvent::Staged { database: Some(bytes), now }
        &&& snapshot.source() == bytes@
        &&& snapshot.created_at() == now
    } else {
        after == before
    }
}

/// Runs at most one refresh at a time and decides each of its steps.
pub struct RefreshCoordinator {
    state: RefreshState,
}

impl View for RefreshCoordinator {
    type V = RefreshState;

    closed spec fn view(&self) -> RefreshState {
        self.state
    }
}

impl RefreshCoordinator {
    /// A coordinator with no refresh in flight and none made yet.
    pub fn new() -> (coordinator: RefreshCoordinator)
        ensures
            coordinator@ == (RefreshState { phase: RefreshPhase::Idle, attempt: 0 }),
    {
        RefreshCoordinator { state: RefreshState { phase: RefreshPhase::Idle, attempt: 0 } }
    }

    /// The phase of the refresh in flight, `Idle` where there is none.
    pub fn phase(&self) -> (phase: RefreshPhase)
        ensures
            phase == self@.phase,
    {
        self.state.phase
    }

    /// The number of the attempt in flight, or of the last one.
    pub fn attempt(&self) -> (attempt: u64)
        ensures
            attempt == self@.attempt,
    {
        self.state.attempt
    }

    /// Whether no refresh is in flight.
    pub fn is_idle(&self) -> (idle: bool)
        ensures
            idle == (self@.phase is Idle),
    {
        match self.state.phase {
            RefreshPhase::Idle => true,
            _ => false,
        }
    }

    /// Takes `event` in: moves to the next state, installs the staged
    /// database in `store` where it opens, and says what to do next. The
    /// store is touched in no other case.
    pub fn step(&mut self, store: &mut SnapshotStore, event: RefreshEvent) -> (action:
        RefreshAction)
        ensures
            final(self)@ == next_state(old(self)@, event),
            action == next_action(old(self)@, event),
            store_follows(old(self)@, event, old(store).content(), final(store).content()),
    {
        let attempt = self.state.attempt;
        match event {
            RefreshEvent::Requested => match self.state.phase {
                RefreshPhase::Idle => {
                    let number: u64 = if attempt == u64::MAX {
                        1
                    } else {
                        attempt + 1
                    };
                    self.state = RefreshState { phase: RefreshPhase::Fetching, attempt: number };
                    RefreshAction::Fetch { attempt: number }
                },
                _ => RefreshAction::Rejected,
            },
            RefreshEvent::Fetched(fetched) => match self.state.phase {
                RefreshPhase::Fetching => match fetched {
                    Some(archive) => {
                        self.state = RefreshState { phase: RefreshPhase::Staging, attempt };
                        RefreshAction::Stage { attempt, archive }
                    },
                    None => {
                        self.state = RefreshState { phase: RefreshPhase::Idle, attempt };
                        RefreshAction::Finished(RefreshOutcome::FetchFailed)
                    },
                },
                _ => RefreshAction::Ignored,
            },
            RefreshEvent::Staged { database, now } => match self.state.phase {
                RefreshPhase::Staging => match database {
                    Some(bytes) => match Snapshot::open(bytes, now) {
                        Some(snapshot) => {
                            store.swap(snapshot);
                            self.state = RefreshState {
                                phase: RefreshPhase::Persisting { created: now },
                                attempt,
                            };
                            RefreshAction::Persist { attempt }
                        },
                        None => {
                            self.state = RefreshState {
                                phase: RefreshPhase::Cleaning {
                                    outcome: RefreshOutcome::ValidationFailed,
                                },
                                attempt,
                            };
                            RefreshAction::Clean { attempt }
                        },
                    },
                    None => {
                        self.state = RefreshState {
                            phase: RefreshPhase::Cleaning {
                                outcome: RefreshOutcome::StagingFailed,
                            },
                            attempt,
                        };
                        RefreshAction::Clean { attempt }
                    },
                },
                _ => RefreshAction::Ignored,
            },
            RefreshEvent::Persisted => match self.state.phase {
                RefreshPhase::Persisting { created } => {
                    self.state = RefreshState {
                        phase: RefreshPhase::Cleaning {
                            outcome: RefreshOutcome::Succeeded(created),
                        },
                        attempt,
                    };
                    RefreshAction::Clean { attempt }
                },
                _ => RefreshAction::Ignored,
            },
            RefreshEvent::Cleaned => match self.state.phase {
                RefreshPhase::Cleaning { outcome } => {
                    self.state = RefreshState { phase: RefreshPhase::Idle, attempt };
                    RefreshAction::Finished(outcome)
                },
                _ => RefreshAction::Ignored,
            },
        }
    }
}

/// The states follow from the events, one step each.
pub open spec fn states_follow(states: Seq<RefreshState>, events: Seq<RefreshEvent>) -> bool {
    &&& states.len() == events.len() + 1
    &&& forall|i: int|
        #![trigger events[i]]
        0 <= i < events.len() ==> states[i + 1] == next_state(states[i], events[i])
}

/// A run of the coordinator: the states and the contents of the store that a
/// sequence of events leads through.
pub open spec fn is_run(
    states: Seq<RefreshState>,
    stores: Seq<Option<Snapshot>>,
    events: Seq<RefreshEvent>,
) -> bool {
    &&& states_follow(states, events)
    &&& stores.len() == events.len() + 1
    &&& forall|i: int|
        #![trigger events[i]]
        0 <= i < events.len() ==> store_follows(states[i], events[i], stores[i], stores[i + 1])
}

/// None of the first `count` steps ends a refresh.
pub open spec fn none_finished(
    states: Seq<RefreshState>,
    events: Seq<RefreshEvent>,
    count: int,
) -> bool {
    forall|i: int|
        #![trigger events[i]]
        0 <= i < count ==> !(next_action(states[i], events[i]) is Finished)
}

/// The events are those of one refresh: they start with no refresh in
/// flight, and the last step, and no step before it, ends a refresh.
pub open spec fn is_one_refresh(states: Seq<RefreshState>, events: Seq<RefreshEvent>) -> bool {
    &&& events.len() >= 1
    &&& states_follow(states, events)
    &&& states[0].phase is Idle
    &&& none_finished(states, events, events.len() - 1)
    &&& next_action(states[events.len() - 1], events[events.len() - 1]) is Finished
}

/// The outcome that a run of one refresh ends with.
pub open spec fn run_outcome(states: Seq<RefreshState>, events: Seq<RefreshEvent>) -> RefreshOutcome {
    next_action(states[events.len() - 1], events[events.len() - 1])->Finished_0
}

/// The refresh in flight, if any, has installed nothing.
pub open spec fn has_installed_nothing(state: RefreshState) -> bool {
    match state.phase {
        RefreshPhase::Idle | RefreshPhase::Fetching | RefreshPhase::Staging => true,
        RefreshPhase::Persisting { .. } => false,
        RefreshPhase::Cleaning { outcome } => !(outcome is Succeeded),
    }
}

/// As long as the refresh has installed nothing, the store holds what it
/// held when the run began.
proof fn lemma_store_is_kept(
    states: Seq<RefreshState>,
    stores: Seq<Option<Snapshot>>,
    events: Seq<RefreshEvent>,
    k: int,
)
    requires
        is_run(states, stores, events),
        states[0].phase is Idle,
        0 <= k <= events.len(),
        none_finished(states, events, k),
    ensures
        has_installed_nothing(states[k]) ==> stores[k] == stores[0],
    decreases k,
{
    if k > 0 {
        lemma_store_is_kept(states, stores, events, k - 1);
        let event = events[k - 1];
        assert(states[k] == next_state(states[k - 1], event));
        assert(store_follows(states[k - 1], event, stores[k - 1], stores[k]));
        assert(!(next_action(states[k - 1], event) is Finished));
    }
}

/// A refresh that ends with `FetchFailed`, `StagingFailed` or
/// `ValidationFailed` leaves the store as it found it: the active snapshot
/// after the run is the one before it, and an empty store is still empty.
pub proof fn law_failed_refresh_keeps_snapshot(
    states: Seq<RefreshState>,
    stores: Seq<Option<Snapshot>>,
    events: Seq<RefreshEvent>,
)
    requires
        is_run(states, stores, events),
        is_one_refresh(states, events),
        !(run_outcome(states, events) is Succeeded),
    ensures
        stores[events.len() as int] == stores[0],
{
    let last = events.len() - 1;
    lemma_store_is_kept(states, stores, events, last);
    let event = events[last];
    assert(states[last + 1] == next_state(states[last], event));
    assert(store_follows(states[last], event, stores[last], stores[last + 1]));
}

/// A refresh that ends with `Succeeded` has installed a snapshot: the store
/// is not empty after the run, and the outcome carries the time at which the
/// active snapshot was made.
pub proof fn law_successful_refresh_installs(
    states: Seq<RefreshState>,
    stores: Seq<Option<Snapshot>>,
    events: Seq<RefreshEvent>,
)
    requires
        is_run(states, stores, events),
        is_one_refresh(states, events),
        run_outcome(states, events) is Succeeded,
    ensures
        stores[events.len() as int] matches Some(snapshot) && run_outcome(states, events)
            == RefreshOutcome::Succeeded(snapshot.created_at()),
{
    let last = events.len() - 1;
    lemma_installed_is_kept(states, stores, events, last);
    let event = events[last];
    assert(states[last + 1] == next_state(states[last], event));
    assert(store_follows(states[last], event, stores[last], stores[last + 1]));
}

/// The time that the refresh in flight reports on success, once it has
/// installed.
pub open spec fn installed_at(state: RefreshState) -> Option<u64> {
    match state.phase {
        RefreshPhase::Persisting { created } => Some(created),
        RefreshPhase::Cleaning { outcome: RefreshOutcome::Succeeded(created) } => Some(created),
        _ => None,
    }
}

/// Once the refresh has installed, the store holds a snapshot made at the
/// time that the refresh will report.
proof fn lemma_installed_is_kept(
    states: Seq<RefreshState>,
    stores: Seq<Option<Snapshot>>,
    events: Seq<RefreshEvent>,
    k: int,
)
    requires
        is_run(states, stores, events),
        states[0].phase is Idle,
        0 <= k <= events.len(),
        none_finished(states, events, k),
    ensures
        installed_at(states[k]) matches Some(created) ==> (stores[k] matches Some(snapshot)
            && snapshot.created_at() == created),
    decreases k,
{
    if k > 0 {
        lemma_installed_is_kept(states, stores, events, k - 1);
        let event = events[k - 1];
        assert(states[k] == next_state(states[k - 1], event));
        assert(store_follows(states[k - 1], event, stores[k - 1], stores[k]));
        assert(!(next_action(states[k - 1], event) is Finished));
    }
}

/// After step `i` asked for staging, every later state of the refresh is
/// one of staging, persisting or cleaning, under the same attempt number; and
/// once it is cleaning, the step `j` that the lemma returns asked for the
/// staging directory of that attempt to be removed.
proof fn lemma_cleaning_follows_staging(
    states: Seq<RefreshState>,
    events: Seq<RefreshEvent>,
    i: int,
    k: int,
) -> (j: int)
    requires
        states_follow(states, events),
        0 <= i < k <= events.len(),
        none_finished(states, events, k),
        next_action(states[i], events[i]) is Stage,
    ensures
        states[k].attempt == states[i].attempt,
        states[k].phase is Staging || states[k].phase is Persisting || states[k].phase is Cleaning,
        states[k].phase is Cleaning ==> i < j < k && next_action(states[j], events[j])
            == (RefreshAction::Clean { attempt: states[i].attempt }),
    decreases k,
{
    let event = events[k - 1];
    assert(states[k] == next_state(states[k - 1], event));
    assert(!(next_action(states[k - 1], event) is Finished));
    if k == i + 1 {
        i
    } else {
        let before = lemma_cleaning_follows_staging(states, events, i, k - 1);
        if states[k - 1].phase is Cleaning {
            before
        } else {
            k - 1
        }
    }
}

/// Within one refresh, a step that asks for staging is followed by a step
/// that asks for the staging directory of the same attempt to be removed, and
/// the refresh ends only on the report that it is gone.
pub proof fn law_staging_is_cleaned(
    states: Seq<RefreshState>,
    events: Seq<RefreshEvent>,
    i: int,
)
    requires
        is_one_refresh(states, events),
        0 <= i < events.len(),
        next_action(states[i], events[i]) is Stage,
    ensures
        events[events.len() - 1] is Cleaned,
        exists|j: int|
            i < j < events.len() - 1 && #[trigger] next_action(states[j], events[j]) == (
            RefreshAction::Clean { attempt: states[i].attempt }),
{
    let last = events.len() - 1;
    assert(i < last);
    let j = lemma_cleaning_follows_staging(states, events, i, last);
    assert(next_action(states[j], events[j]) == (RefreshAction::Clean {
        attempt: states[i].attempt,
    }));
}

/// A store that holds a snapshot holds one ever after: no step of any run
/// empties it.
pub proof fn law_store_stays_ready(
    states: Seq<RefreshState>,
    stores: Seq<Option<Snapshot>>,
    events: Seq<RefreshEvent>,
    i: int,
    j: int,
)
    requires
        is_run(states, stores, events),
        0 <= i <= j <= events.len(),
        stores[i] is Some,
    ensures
        stores[j] is Some,
    decreases j - i,
{
    if i < j {
        law_store_stays_ready(states, stores, events, i, j - 1);
        assert(store_follows(states[j - 1], events[j - 1], stores[j - 1], stores[j]));
    }
}

/// While a refresh is in flight, a request for another is rejected and
/// changes nothing.
pub proof fn law_one_refresh_at_a_time(state: RefreshState)
    requires
        !(state.phase is Idle),
    ensures
        next_action(state, RefreshEvent::Requested) == RefreshAction::Rejected,
        next_state(state, RefreshEvent::Requested) == state,
        !installs(state, RefreshEvent::Requested),
{
}

/// Two attempts in a row never share a number, so never a staging directory.
pub proof fn law_attempts_differ(state: RefreshState)
    requires
        state.phase is Idle,
    ensures
        next_state(state, RefreshEvent::Requested).attempt != state.attempt,
        next_state(state, RefreshEvent::Requested).attempt >= 1,
{
}

} // verus!
