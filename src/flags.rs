//! Protocol versions.
use vstd::prelude::*;

verus! {

/// A protocol version.
#[derive(Clone, Copy, Debug, PartialEq, Eq, Structural)]
pub struct ProtocolVersion {
    pub major: u16,
    pub minor: u16,
}

impl ProtocolVersion {
    /// The version this library speaks.
    pub fn current() -> (r: ProtocolVersion)
        ensures
            r.major == crate::PROTOCOL_VERSION_MAJOR,
            r.minor == crate::PROTOCOL_VERSION_MINOR,
    {
        ProtocolVersion { major: crate::PROTOCOL_VERSION_MAJOR, minor: crate::PROTOCOL_VERSION_MINOR }
    }

    /// A peer at version `other` can be served: same major version, and a
    /// minor version no newer than ours.
    pub fn is_compatible(&self, other: &ProtocolVersion) -> (r: bool)
        ensures
            r == (self.major == other.major && self.minor >= other.minor),
    {
        self.major == other.major && self.minor >= other.minor
    }
}

} // verus!
