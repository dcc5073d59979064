//! Failures of a delivery attempt.

use vstd::prelude::*;

verus! {

/// Why the delivery to one destination domain was given up.  Each failure
/// concerns a single group of recipients and never the groups beside it.
#[derive(Debug, Clone, Copy, PartialEq, Eq, Structural)]
pub enum DeliveryError {
    /// The message names no recipient.
    NoForwardPaths,
    /// The recipients of the message do not share one domain.
    MismatchedDomains,
    /// No address could be found for the destination domain.
    ResolutionFailure,
    /// The connection was not established within the allowed time.
    ConnectionTimeout,
    /// The connection could not be established.
    ConnectionError,
    /// The server answered a command with a reply that the protocol does
    /// not allow at that stage.
    ProtocolViolation,
}

} // verus!
