//! The ways in which an entry point can refuse a call.

use vstd::prelude::*;

verus! {

/// Why a call was refused. A refused call leaves the entity as it was.
#[derive(Clone, Copy, Debug, PartialEq, Eq, Structural)]
pub enum Error {
    /// The calling account lacks the role that the operation asks for.
    PermissionDenied,
    /// An argument is outside what the operation accepts.
    ValidationError,
    /// The entity has already been initialized.
    OnceOnly,
    /// The name is already taken, or reserved by a creation in flight.
    DuplicateName,
    /// The call would break something that must hold at all times.
    InvariantViolation,
    /// The entity is in an interim state that excludes the call.
    ConflictError,
    /// Nothing is known under the given name or key.
    NotFound,
}

} // verus!
