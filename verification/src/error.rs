//! Error types of the agent.

use vstd::prelude::*;

verus! {

/// Everything that can go wrong in the agent, by layer.
#[derive(Debug, Clone)]
pub enum MigiError {
    Observer(String),
    Learner(String),
    Intervener(String),
    TrustViolation(String),
    HostCommunication(String),
    Config(String),
    PhaseTransitionRejected { reason: String },
}

/// The result type used throughout the agent.
pub type MigiResult<T> = Result<T, MigiError>;

} // verus!
