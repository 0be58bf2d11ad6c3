//! Detection of termination from what the controlling agent publishes.
use vstd::prelude::*;
use crate::message::ProcessState;
use crate::weight::{INITIAL_WEIGHT, TERMINATION_TOLERANCE};

verus! {

/// Number of consecutive observations of a recovered, idle controlling agent
/// after which termination is declared.
pub const MAX_IDLE_CHECKS: usize = 5;

/// The controlling agent holds the whole weight, up to the tolerance: the
/// weight missing from it is below `TERMINATION_TOLERANCE`.
pub open spec fn recovered(ca_weight: u64) -> bool {
    INITIAL_WEIGHT - ca_weight < TERMINATION_TOLERANCE
}

/// Whether the controlling agent holds the whole weight, up to the tolerance.
pub fn weight_recovered(ca_weight: u64) -> (r: bool)
    ensures
        r == recovered(ca_weight),
{
    ca_weight > INITIAL_WEIGHT - TERMINATION_TOLERANCE
}

/// Watches the controlling agent and declares termination once it has been
/// seen idle with the whole weight `MAX_IDLE_CHECKS` times in a row.
#[derive(Clone, Copy, Debug, PartialEq, Eq, Structural)]
pub struct TerminationMonitor {
    /// Consecutive observations of a recovered, idle controlling agent.
    pub consecutive_idle_checks: usize,
}

impl TerminationMonitor {
    /// A monitor that has seen nothing yet.
    pub fn new() -> (m: TerminationMonitor)
        ensures
            m.consecutive_idle_checks == 0,
    {
        TerminationMonitor { consecutive_idle_checks: 0 }
    }

    /// Records one observation of the controlling agent's weight and state.
    /// An idle agent holding the whole weight extends the run of good
    /// observations, anything else ends it.  Returns whether termination is
    /// detected: the run has reached `MAX_IDLE_CHECKS`.
    pub fn observe(&mut self, ca_weight: u64, ca_state: ProcessState) -> (terminated: bool)
        requires
            old(self).consecutive_idle_checks < usize::MAX,
        ensures
            recovered(ca_weight) && ca_state == ProcessState::Idle ==> final(self).consecutive_idle_checks
                == old(self).consecutive_idle_checks + 1,
            !(recovered(ca_weight) && ca_state == ProcessState::Idle)
                ==> final(self).consecutive_idle_checks == 0,
            terminated == (final(self).consecutive_idle_checks >= MAX_IDLE_CHECKS),
            terminated == (final(self).consecutive_idle_checks >= 5),
    {
        let is_recovered = weight_recovered(ca_weight);
        let ca_is_idle = ca_state == ProcessState::Idle;
        if is_recovered && ca_is_idle {
            self.consecutive_idle_checks = self.consecutive_idle_checks + 1;
            self.consecutive_idle_checks >= MAX_IDLE_CHECKS
        } else {
            self.consecutive_idle_checks = 0;
            false
        }
    }
}

} // verus!
