//! Reconnect supervisor: the retry policy of the daemon event stream as an
//! explicit state machine.
//!
//! The driver (which owns the network and the clock) feeds events in and
//! performs the action that comes back.

use vstd::prelude::*;
use crate::store::{StateStore, StoreView};

verus! {

/// Shortest wait between two connection attempts, in milliseconds.
pub const BACKOFF_FLOOR_MS: u64 = 100;

/// Longest wait between two connection attempts, in milliseconds.
pub const BACKOFF_CEILING_MS: u64 = 30000;

/// How long an open stream may stay silent (no bytes, not even a keepalive)
/// before it is treated as dead, in milliseconds.
pub const IDLE_TIMEOUT_MS: u64 = 60000;

/// Where the supervisor stands in its connection lifecycle.
#[derive(Clone, Copy, Debug, PartialEq, Eq, Structural)]
pub enum Phase {
    Idle,
    Connecting,
    Streaming,
    BackoffWait,
}

/// What the driver observed.
#[derive(Clone, Copy, Debug, PartialEq, Eq, Structural)]
pub enum SupervisorEvent {
    /// The driver starts the loop.
    Start,
    /// The handshake of a new stream succeeded at the given time.
    Connected { now_ms: u64 },
    /// The handshake failed (refused, non-success status, network error).
    ConnectFailed,
    /// Bytes (a keepalive included) arrived on the open stream.
    Activity { now_ms: u64 },
    /// The driver asks whether the open stream has gone silent for too long.
    IdleCheck { now_ms: u64 },
    /// The open stream ended or reported a read error.
    StreamEnded,
    /// The backoff sleep is over.
    SleepElapsed,
}

/// What the driver must do next.
#[derive(Clone, Copy, Debug, PartialEq, Eq, Structural)]
pub enum SupervisorAction {
    /// Open a new stream.
    Connect,
    /// Keep reading the open stream.
    Read,
    /// Drop the stream, if any, and sleep this long.
    Sleep { ms: u64 },
    /// Nothing to do for this event.
    Ignore,
}

/// The reconnect state machine.
#[derive(Clone, Copy, Debug, PartialEq, Eq, Structural)]
pub struct Supervisor {
    pub phase: Phase,
    /// The wait that the next failure will cause.
    pub delay_ms: u64,
    /// Time of the last sign of life of the open stream.
    pub last_activity_ms: u64,
}

/// The delay after one more failed cycle: doubled, capped at the ceiling.
pub open spec fn next_delay(d: u64) -> u64 {
    if 2 * d > BACKOFF_CEILING_MS {
        BACKOFF_CEILING_MS
    } else {
        (2 * d) as u64
    }
}

/// Whether a stream last active at `last` has been silent too long at `now`.
pub open spec fn idle_expired(last: u64, now: u64) -> bool {
    now >= last && now - last > IDLE_TIMEOUT_MS
}

impl Supervisor {
    /// The delay stays between floor and ceiling.
    pub open spec fn wf(self) -> bool {
        BACKOFF_FLOOR_MS <= self.delay_ms <= BACKOFF_CEILING_MS
    }

    /// Whether the daemon counts as connected in this state.
    pub open spec fn is_connected(self) -> bool {
        self.phase == Phase::Streaming
    }

    /// The transition table: the next state and the action for one event.
    pub open spec fn transition(self, e: SupervisorEvent) -> (Supervisor, SupervisorAction) {
        match (self.phase, e) {
            (Phase::Idle, SupervisorEvent::Start) => (
                Supervisor { phase: Phase::Connecting, ..self },
                SupervisorAction::Connect,
            ),
            (Phase::Connecting, SupervisorEvent::Connected { now_ms }) => (
                Supervisor {
                    phase: Phase::Streaming,
                    delay_ms: BACKOFF_FLOOR_MS,
                    last_activity_ms: now_ms,
                },
                SupervisorAction::Read,
            ),
            (Phase::Connecting, SupervisorEvent::ConnectFailed) => (
                Supervisor { phase: Phase::BackoffWait, ..self },
                SupervisorAction::Sleep { ms: self.delay_ms },
            ),
            (Phase::Streaming, SupervisorEvent::Activity { now_ms }) => (
                Supervisor { last_activity_ms: now_ms, ..self },
                SupervisorAction::Read,
            ),
            (Phase::Streaming, SupervisorEvent::IdleCheck { now_ms }) => if idle_expired(
                self.last_activity_ms,
                now_ms,
            ) {
                (
                    Supervisor { phase: Phase::BackoffWait, ..self },
                    SupervisorAction::Sleep { ms: self.delay_ms },
                )
            } else {
                (self, SupervisorAction::Read)
            },
            (Phase::Streaming, SupervisorEvent::StreamEnded) => (
                Supervisor { phase: Phase::BackoffWait, ..self },
                SupervisorAction::Sleep { ms: self.delay_ms },
            ),
            (Phase::BackoffWait, SupervisorEvent::SleepElapsed) => (
                Supervisor { phase: Phase::Connecting, delay_ms: next_delay(self.delay_ms), ..self },
                SupervisorAction::Connect,
            ),
            _ => (self, SupervisorAction::Ignore),
        }
    }

    /// A supervisor that has not started yet, with the delay at its floor.
    pub fn new() -> (r: Supervisor)
        ensures
            r.wf(),
            r.phase == Phase::Idle,
            r.delay_ms == BACKOFF_FLOOR_MS,
            r.last_activity_ms == 0,
    {
        Supervisor { phase: Phase::Idle, delay_ms: BACKOFF_FLOOR_MS, last_activity_ms: 0 }
    }

    /// Whether the daemon counts as connected.
    pub fn connected(&self) -> (r: bool)
        ensures
            r == self.is_connected(),
    {
        self.phase == Phase::Streaming
    }

    /// Feeds one event in and returns what the driver must do.
    pub fn step(&mut self, e: SupervisorEvent) -> (r: SupervisorAction)
        requires
            old(self).wf(),
        ensures
            final(self).wf(),
            (*final(self), r) == old(self).transition(e),
    {
        match (self.phase, e) {
            (Phase::Idle, SupervisorEvent::Start) => {
                self.phase = Phase::Connecting;
                SupervisorAction::Connect
            },
            (Phase::Connecting, SupervisorEvent::Connected { now_ms }) => {
                self.phase = Phase::Streaming;
                self.delay_ms = BACKOFF_FLOOR_MS;
                self.last_activity_ms = now_ms;
                SupervisorAction::Read
            },
            (Phase::Connecting, SupervisorEvent::ConnectFailed) => {
                self.phase = Phase::BackoffWait;
                SupervisorAction::Sleep { ms: self.delay_ms }
            },
            (Phase::Streaming, SupervisorEvent::Activity { now_ms }) => {
                self.last_activity_ms = now_ms;
                SupervisorAction::Read
            },
            (Phase::Streaming, SupervisorEvent::IdleCheck { now_ms }) => {
                if now_ms >= self.last_activity_ms && now_ms - self.last_activity_ms
                    > IDLE_TIMEOUT_MS {
                    self.phase = Phase::BackoffWait;
                    SupervisorAction::Sleep { ms: self.delay_ms }
                } else {
                    SupervisorAction::Read
                }
            },
            (Phase::Streaming, SupervisorEvent::StreamEnded) => {
                self.phase = Phase::BackoffWait;
                SupervisorAction::Sleep { ms: self.delay_ms }
            },
            (Phase::BackoffWait, SupervisorEvent::SleepElapsed) => {
                self.phase = Phase::Connecting;
                self.delay_ms = if self.delay_ms > BACKOFF_CEILING_MS / 2 {
                    BACKOFF_CEILING_MS
                } else {
                    2 * self.delay_ms
                };
                SupervisorAction::Connect
            },
            _ => SupervisorAction::Ignore,
        }
    }
}

impl Supervisor {
    /// Feeds one event in and keeps the store's connectivity flag in step:
    /// it becomes true on entering `Streaming` and false on leaving it.
    pub fn drive(&mut self, e: SupervisorEvent, store: &mut StateStore) -> (r: SupervisorAction)
        requires
            old(self).wf(),
            old(store).wf(),
        ensures
            final(self).wf(),
            final(store).wf(),
            (*final(self), r) == old(self).transition(e),
            final(store)@ == if final(self).is_connected() != old(self).is_connected() {
                StoreView { connected: final(self).is_connected(), ..old(store)@ }
            } else {
                old(store)@
            },
    {
        let was = self.connected();
        let r = self.step(e);
        let now = self.connected();
        if was != now {
            store.set_connected(now);
        }
        r
    }
}

} // verus!
