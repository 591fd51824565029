//! What the coordinator reports when it cannot handle a request.

use crate::transaction::TransactionId;
use vstd::prelude::*;

verus! {

/// The name of a phase, without the data that the phase carries.
#[derive(Clone, Copy, Debug, PartialEq, Eq, Structural)]
pub enum PhaseKind {
    PreAccepting,
    Accepting,
    Executing,
}

/// The message or transition that a record was asked to take.
#[derive(Clone, Copy, Debug, PartialEq, Eq, Structural)]
pub enum Attempt {
    PreAcceptOk,
    AcceptOk,
    MoveToAccepting,
    MoveToExecuting,
}

#[derive(Debug, Clone, PartialEq, Eq)]
pub enum AccordError {
    /// The coordinator holds no record for this transaction.
    MissingTx(TransactionId),
    /// The record is in a phase that does not admit what was attempted.
    InvalidPhase { phase: PhaseKind, attempted: Attempt },
    /// The executor failed; the detail is its diagnostic.
    ExecutorError(String),
    /// A checked invariant did not hold.
    InternalInvariantViolated(String),
}

} // verus!
