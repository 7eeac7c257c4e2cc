//! The error taxonomy of the core: every entry point aborts as a whole and
//! surfaces exactly one of these codes.

use vstd::prelude::*;

verus! {

/// Why an entry point refused to act or a delegated call failed.
#[derive(Clone, Copy, PartialEq, Eq, Structural, Debug)]
pub enum CoreError {
    /// The callback caller is not a verified signer of the invocation.
    AuthorizationError,
    /// The singleton agent already exists; initialization is write-once.
    AlreadyInitialized,
    /// The instruction bundle exceeds the compiler's encoding limits.
    CompilationError,
    /// The chosen task identifier is already occupied in the queue.
    DuplicateTaskError,
    /// A failure surfaced by the oracle or queue service, passed on unread.
    DelegatedCallFailure,
    /// The payer cannot cover allocation or reward costs.
    InsufficientFunds,
    /// The supplied context reference is not the one the agent is bound to.
    ContextMismatch,
}

} // verus!
