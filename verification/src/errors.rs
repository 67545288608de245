//! Errors of the resolution and session commands.

use vstd::prelude::*;

verus! {

/// Why a resolution or session command failed.
///
/// Graph and path construction never fail: malformed edges and cycles
/// degrade instead. These errors belong to the command layer around them.
#[derive(Debug)]
pub enum SpaceError {
    /// A malformed room id was supplied to a resolution call.
    InvalidIdentifier,
    /// Resolution was requested against a root that is not a known space.
    NotASpace,
    /// The hierarchy query or sync call failed at the protocol-client
    /// level; the message is propagated, not interpreted.
    UpstreamFailure(String),
    /// An operation that needs a session ran while the store was empty.
    NoActiveSession,
}

} // verus!
