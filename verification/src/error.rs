//! The error taxonomy of the routing core.

use vstd::prelude::*;

verus! {

/// Internal error reasons.  User-visible failures are always one of these
/// kinds; panics are never part of the contract.
#[derive(Clone, Copy, Debug, PartialEq, Eq, Structural)]
pub enum RoutingError {
    /// No delivery group can be computed for the destination.
    CannotRoute,
    /// The message's source is not acceptable.
    InvalidSource,
    /// The message's destination is not acceptable.
    InvalidDestination,
    /// The message's proof does not link into any trusted key.
    UntrustedMessage,
    /// A signature failed verification.
    BadSignature,
    /// Combining signature shares produced no valid signature.
    FailedSignature,
    /// A signature share was rejected.
    InvalidSignatureShare,
    /// The operation is not valid in the node's current state.
    InvalidState,
    /// No seed peer could be contacted.
    BootstrapFailed,
    /// Admission into the target section failed.
    JoinFailed,
    /// The transport reported a failure.
    TransportError,
    /// A record could not be encoded or decoded.
    SerializationError,
}

} // verus!
