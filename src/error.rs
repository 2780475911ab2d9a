//! Outcomes that a mount operation reports to its caller.
use vstd::prelude::*;

verus! {

/// Why a mount operation failed.
#[derive(Clone, Copy, Debug, PartialEq, Eq, Structural)]
pub enum DeviceError {
    /// The port could not be opened or the mount did not answer the handshake.
    CannotConnect,
    /// The link failed for another reason than a timeout.
    ComError,
    /// No complete answer came before the read deadline.
    Timeout,
    /// The property exists but cannot be written.
    CannotUpdateReadOnlyProperty,
    /// No property has that name.
    UnknownProperty,
    /// The mount refused the command, its answer could not be read, or the value is not allowed.
    InvalidValue,
    /// No connected mount has that id.
    UnknownDevice,
}

} // verus!
