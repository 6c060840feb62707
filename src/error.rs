//! Errors that cross the transport layer's boundary.
use vstd::prelude::*;

verus! {

/// What went wrong in the transport layer.
#[derive(Debug, Clone, Copy, PartialEq, Eq, Structural)]
pub enum Error {
    /// A bounded table is full.
    NoSpace,
    /// No exchange matches the id, role and session asked for.
    NoExchange,
    /// A received packet names a session that does not exist.
    NoSession,
    /// A received counter was already seen.
    Duplicate,
    /// The mDNS service refused a registration.
    MdnsError,
    /// The session machinery could not place a packet.
    Invalid,
}

} // verus!
