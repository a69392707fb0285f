//! Lifecycle management for the console exporter.

use vstd::prelude::*;

use crate::console::error::ExportError;

verus! {

/// Lifecycle states for the console exporter.
#[derive(Debug, Clone, Copy, PartialEq, Eq, Structural)]
pub enum LifecycleState {
    /// Initial state before initialization.
    Uninitialized,
    /// Running state after initialization.
    Running,
    /// Flushing state during shutdown.
    Flushing,
    /// Shutdown state after completion.
    Shutdown,
    /// Error state when an error occurred.
    Error,
}

/// The state a transition from `from` towards `target` reaches, or `None`
/// when the transition is not allowed. Allowed: Uninitialized -> Running,
/// Running -> Flushing, Running -> Shutdown, Flushing -> Shutdown, and any
/// state -> Error.
pub open spec fn transition(from: LifecycleState, target: LifecycleState) -> Option<LifecycleState> {
    match (from, target) {
        (LifecycleState::Uninitialized, LifecycleState::Running) => Some(LifecycleState::Running),
        (LifecycleState::Running, LifecycleState::Flushing) => Some(LifecycleState::Flushing),
        (LifecycleState::Running, LifecycleState::Shutdown) => Some(LifecycleState::Shutdown),
        (LifecycleState::Flushing, LifecycleState::Shutdown) => Some(LifecycleState::Shutdown),
        (_, LifecycleState::Error) => Some(LifecycleState::Error),
        _ => None,
    }
}

/// Lifecycle state machine for the console exporter.
#[derive(Debug)]
pub struct LifecycleStateMachine {
    state: LifecycleState,
}

impl LifecycleStateMachine {
    /// The current state.
    pub closed spec fn spec_state(&self) -> LifecycleState {
        self.state
    }

    /// Creates a new lifecycle state machine in the uninitialized state.
    pub fn new() -> (r: Self)
        ensures
            r.spec_state() == LifecycleState::Uninitialized,
    {
        LifecycleStateMachine { state: LifecycleState::Uninitialized }
    }

    /// Transitions the state machine to `target` if the transition is
    /// allowed; otherwise reports a lifecycle error and keeps the state.
    pub fn transition_to(&mut self, target: LifecycleState) -> (r: Result<(), ExportError>)
        ensures
            match transition(old(self).spec_state(), target) {
                Some(s) => r is Ok && final(self).spec_state() == s,
                None => (r matches Err(ExportError::Lifecycle(m))
                    && m@ == "Invalid lifecycle transition"@)
                    && final(self).spec_state() == old(self).spec_state(),
            },
    {
        match (self.state, target) {
            (LifecycleState::Uninitialized, LifecycleState::Running) => {
                self.state = LifecycleState::Running;
                Ok(())
            },
            (LifecycleState::Running, LifecycleState::Flushing) => {
                self.state = LifecycleState::Flushing;
                Ok(())
            },
            (LifecycleState::Running, LifecycleState::Shutdown) => {
                self.state = LifecycleState::Shutdown;
                Ok(())
            },
            (LifecycleState::Flushing, LifecycleState::Shutdown) => {
                self.state = LifecycleState::Shutdown;
                Ok(())
            },
            (_, LifecycleState::Error) => {
                self.state = LifecycleState::Error;
                Ok(())
            },
            _ => Err(ExportError::Lifecycle("Invalid lifecycle transition".to_string())),
        }
    }

    /// Returns the current lifecycle state.
    pub fn current(&self) -> (r: LifecycleState)
        ensures
            r == self.spec_state(),
    {
        self.state
    }

    /// Checks if the exporter is initialized (any state but Uninitialized).
    pub fn is_initialized(&self) -> (r: bool)
        ensures
            r == (self.spec_state() != LifecycleState::Uninitialized),
    {
        match self.state {
            LifecycleState::Uninitialized => false,
            _ => true,
        }
    }

    /// Checks if the exporter is running.
    pub fn is_running(&self) -> (r: bool)
        ensures
            r == (self.spec_state() == LifecycleState::Running),
    {
        match self.state {
            LifecycleState::Running => true,
            _ => false,
        }
    }

    /// Checks if the exporter is shutting down (Flushing or Shutdown).
    pub fn is_shutting_down(&self) -> (r: bool)
        ensures
            r == (self.spec_state() == LifecycleState::Flushing || self.spec_state()
                == LifecycleState::Shutdown),
    {
        match self.state {
            LifecycleState::Flushing | LifecycleState::Shutdown => true,
            _ => false,
        }
    }
}

impl Default for LifecycleStateMachine {
    fn default() -> (r: Self)
        ensures
            r.spec_state() == LifecycleState::Uninitialized,
    {
        LifecycleStateMachine::new()
    }
}

/// The error state can be reached from every state.
pub proof fn lemma_error_reachable_from_any_state(from: LifecycleState)
    ensures
        transition(from, LifecycleState::Error) == Some(LifecycleState::Error),
{
}

/// No transition ever leads back to the uninitialized state.
pub proof fn lemma_never_back_to_uninitialized(from: LifecycleState, target: LifecycleState)
    ensures
        transition(from, target) != Some(LifecycleState::Uninitialized),
{
}

/// Once shut down (or in error), the only allowed transition is into the
/// error state: a stopped exporter never runs again.
pub proof fn lemma_stopped_is_final(from: LifecycleState, target: LifecycleState)
    requires
        from == LifecycleState::Shutdown || from == LifecycleState::Error,
        transition(from, target) is Some,
    ensures
        target == LifecycleState::Error,
        transition(from, target) == Some(LifecycleState::Error),
{
}

/// An allowed transition always lands exactly on the requested state.
pub proof fn lemma_transition_reaches_target(from: LifecycleState, target: LifecycleState)
    requires
        transition(from, target) is Some,
    ensures
        transition(from, target) == Some(target),
{
}

/// Only Uninitialized leads to Running: a running exporter was started
/// exactly once, from its initial state.
pub proof fn lemma_running_only_from_uninitialized(from: LifecycleState)
    requires
        transition(from, LifecycleState::Running) is Some,
    ensures
        from == LifecycleState::Uninitialized,
{
}

} // verus!
