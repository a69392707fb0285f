use kitlogger::console::lifecycle::{LifecycleState, LifecycleStateMachine};

fn make() -> LifecycleStateMachine {
    LifecycleStateMachine::new()
}

#[test]
fn initial_state_is_uninitialized() {
    let lsm = make();
    assert_eq!(lsm.current(), LifecycleState::Uninitialized);
    assert!(!lsm.is_initialized());
    assert!(!lsm.is_running());
    assert!(!lsm.is_shutting_down());
}

#[test]
fn transition_uninitialized_to_running() {
    let mut lsm = make();
    assert!(lsm.transition_to(LifecycleState::Running).is_ok());
    assert_eq!(lsm.current(), LifecycleState::Running);
    assert!(lsm.is_initialized());
    assert!(lsm.is_running());
    assert!(!lsm.is_shutting_down());
}

#[test]
fn transition_running_to_flushing() {
    let mut lsm = make();
    lsm.transition_to(LifecycleState::Running).unwrap();
    assert!(lsm.transition_to(LifecycleState::Flushing).is_ok());
    assert_eq!(lsm.current(), LifecycleState::Flushing);
    assert!(lsm.is_initialized());
    assert!(!lsm.is_running());
    assert!(lsm.is_shutting_down());
}

#[test]
fn transition_flushing_to_shutdown() {
    let mut lsm = make();
    lsm.transition_to(LifecycleState::Running).unwrap();
    lsm.transition_to(LifecycleState::Flushing).unwrap();
    assert!(lsm.transition_to(LifecycleState::Shutdown).is_ok());
    assert_eq!(lsm.current(), LifecycleState::Shutdown);
    assert!(lsm.is_initialized());
    assert!(!lsm.is_running());
    assert!(lsm.is_shutting_down());
}

#[test]
fn transition_running_to_shutdown() {
    let mut lsm = make();
    lsm.transition_to(LifecycleState::Running).unwrap();
    assert!(lsm.transition_to(LifecycleState::Shutdown).is_ok());
    assert_eq!(lsm.current(), LifecycleState::Shutdown);
}

#[test]
fn invalid_uninitialized_to_shutdown_returns_err() {
    let mut lsm = make();
    let result = lsm.transition_to(LifecycleState::Shutdown);
    assert!(result.is_err());
    assert_eq!(lsm.current(), LifecycleState::Uninitialized);
}

#[test]
fn invalid_running_to_uninitialized_returns_err() {
    let mut lsm = make();
    lsm.transition_to(LifecycleState::Running).unwrap();
    let result = lsm.transition_to(LifecycleState::Uninitialized);
    assert!(result.is_err());
    assert_eq!(lsm.current(), LifecycleState::Running);
}

#[test]
fn invalid_flushing_to_running_returns_err() {
    let mut lsm = make();
    lsm.transition_to(LifecycleState::Running).unwrap();
    lsm.transition_to(LifecycleState::Flushing).unwrap();
    let result = lsm.transition_to(LifecycleState::Running);
    assert!(result.is_err());
    assert_eq!(lsm.current(), LifecycleState::Flushing);
}

#[test]
fn delivery_after_shutdown_is_blocked() {
    let mut lsm = make();
    lsm.transition_to(LifecycleState::Running).unwrap();
    lsm.transition_to(LifecycleState::Shutdown).unwrap();
    assert!(!lsm.is_running());
    assert!(lsm.is_initialized());
}

#[test]
fn transition_to_error_from_any_state() {
    let mut lsm = make();
    assert!(lsm.transition_to(LifecycleState::Error).is_ok());
    assert_eq!(lsm.current(), LifecycleState::Error);

    let mut lsm2 = make();
    lsm2.transition_to(LifecycleState::Running).unwrap();
    assert!(lsm2.transition_to(LifecycleState::Error).is_ok());
    assert_eq!(lsm2.current(), LifecycleState::Error);

    let mut lsm3 = make();
    lsm3.transition_to(LifecycleState::Running).unwrap();
    lsm3.transition_to(LifecycleState::Flushing).unwrap();
    assert!(lsm3.transition_to(LifecycleState::Error).is_ok());
    assert_eq!(lsm3.current(), LifecycleState::Error);

    let mut lsm4 = make();
    lsm4.transition_to(LifecycleState::Running).unwrap();
    lsm4.transition_to(LifecycleState::Shutdown).unwrap();
    assert!(lsm4.transition_to(LifecycleState::Error).is_ok());
    assert_eq!(lsm4.current(), LifecycleState::Error);
}

#[test]
fn stopped_state_refuses_every_target_but_error() {
    let mut lsm = make();
    lsm.transition_to(LifecycleState::Running).unwrap();
    lsm.transition_to(LifecycleState::Shutdown).unwrap();
    let err = lsm.transition_to(LifecycleState::Running).unwrap_err();
    assert_eq!(err.message(), "lifecycle error: Invalid lifecycle transition");
    assert_eq!(lsm.current(), LifecycleState::Shutdown);
}
