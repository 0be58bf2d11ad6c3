use weight_throwing::message::ProcessState;
use weight_throwing::monitor::{weight_recovered, TerminationMonitor, MAX_IDLE_CHECKS};
use weight_throwing::weight::{INITIAL_WEIGHT, TERMINATION_TOLERANCE};

#[test]
fn recovered_within_tolerance() {
    assert!(weight_recovered(INITIAL_WEIGHT));
    assert!(weight_recovered(INITIAL_WEIGHT - TERMINATION_TOLERANCE + 1));
    assert!(!weight_recovered(INITIAL_WEIGHT - TERMINATION_TOLERANCE));
    assert!(!weight_recovered(0));
    assert!(weight_recovered(INITIAL_WEIGHT + 600_000_000));
}

#[test]
fn termination_needs_five_consecutive_checks() {
    let mut m = TerminationMonitor::new();
    for k in 1..MAX_IDLE_CHECKS {
        assert!(!m.observe(INITIAL_WEIGHT, ProcessState::Idle));
        assert_eq!(m.consecutive_idle_checks, k);
    }
    assert!(m.observe(INITIAL_WEIGHT, ProcessState::Idle));
    assert_eq!(m.consecutive_idle_checks, 5);
}

#[test]
fn active_agent_resets_the_count() {
    let mut m = TerminationMonitor::new();
    assert!(!m.observe(INITIAL_WEIGHT, ProcessState::Idle));
    assert!(!m.observe(INITIAL_WEIGHT, ProcessState::Idle));
    assert!(!m.observe(INITIAL_WEIGHT, ProcessState::Active));
    assert_eq!(m.consecutive_idle_checks, 0);
    for _ in 0..4 {
        assert!(!m.observe(INITIAL_WEIGHT, ProcessState::Idle));
    }
    assert!(m.observe(INITIAL_WEIGHT, ProcessState::Idle));
}

#[test]
fn missing_weight_resets_the_count() {
    let mut m = TerminationMonitor::new();
    assert!(!m.observe(INITIAL_WEIGHT, ProcessState::Idle));
    assert!(!m.observe(INITIAL_WEIGHT / 2, ProcessState::Idle));
    assert_eq!(m.consecutive_idle_checks, 0);
}
