use vstd::prelude::*;

verus! {

/// Lifecycle phase of an activation.
#[derive(Debug, Clone, Copy, PartialEq, Eq, Structural, Hash)]
pub enum ActivationPhase {
    Queued,
    Running,
    WaitingForInteraction,
    Cancelling,
    Succeeded,
    Failed,
    Cancelled,
    Interrupted,
}

/// Final phases: the activation succeeded, failed, was cancelled or was interrupted.
pub open spec fn phase_is_terminal(p: ActivationPhase) -> bool {
    p == ActivationPhase::Succeeded || p == ActivationPhase::Failed || p
        == ActivationPhase::Cancelled || p == ActivationPhase::Interrupted
}

/// Live phases: queued, running, waiting for interaction or being cancelled.
pub open spec fn phase_is_active(p: ActivationPhase) -> bool {
    p == ActivationPhase::Queued || p == ActivationPhase::Running || p
        == ActivationPhase::WaitingForInteraction || p == ActivationPhase::Cancelling
}

impl ActivationPhase {
    pub fn is_terminal(&self) -> (r: bool)
        ensures
            r == phase_is_terminal(*self),
    {
        match self {
            ActivationPhase::Succeeded | ActivationPhase::Failed | ActivationPhase::Cancelled
            | ActivationPhase::Interrupted => true,
            _ => false,
        }
    }

    pub fn is_active(&self) -> (r: bool)
        ensures
            r == phase_is_active(*self),
    {
        match self {
            ActivationPhase::Queued | ActivationPhase::Running
            | ActivationPhase::WaitingForInteraction | ActivationPhase::Cancelling => true,
            _ => false,
        }
    }
}

/// Every phase is exactly one of active and terminal.
pub proof fn lemma_phase_active_xor_terminal(p: ActivationPhase)
    ensures
        phase_is_terminal(p) != phase_is_active(p),
{
}

} // verus!
