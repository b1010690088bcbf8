//! Protocol version tags and their ordering.
//!
//! A path template in an endpoint's history is tagged either with a stable
//! protocol version (ordered, comparable) or with an unstable tag that marks
//! a pre-stabilization path, usable only as an explicit fallback.

use vstd::prelude::*;

verus! {

/// A stable protocol version, ordered lexicographically by
/// (`major`, `minor`).
#[derive(Clone, Copy, Debug, PartialEq, Eq, Structural)]
pub struct StableVersion {
    pub major: u8,
    pub minor: u8,
}

/// The tag attached to one entry of an endpoint's version table: either a
/// stable, comparable version, or the unstable fallback marker.
#[derive(Clone, Copy, Debug, PartialEq, Eq, Structural)]
pub enum VersionTag {
    /// A pre-stabilization path, used only when no stable entry qualifies.
    Unstable,
    /// A stable protocol version.
    Stable(StableVersion),
}

/// `a` is at most `b` in the version order.
pub open spec fn version_le(a: StableVersion, b: StableVersion) -> bool {
    a.major < b.major || (a.major == b.major && a.minor <= b.minor)
}

/// `a` is strictly below `b` in the version order.
pub open spec fn version_lt(a: StableVersion, b: StableVersion) -> bool {
    version_le(a, b) && a != b
}

impl StableVersion {
    /// Builds the version `major.minor`.
    pub fn new(major: u8, minor: u8) -> (r: StableVersion)
        ensures
            r == (StableVersion { major, minor }),
    {
        StableVersion { major, minor }
    }

    /// Decides whether `self` is at most `other` in the version order.
    pub fn le(&self, other: &StableVersion) -> (r: bool)
        ensures
            r == version_le(*self, *other),
    {
        self.major < other.major || (self.major == other.major && self.minor <= other.minor)
    }

    /// Decides whether `self` is strictly below `other` in the version order.
    pub fn lt(&self, other: &StableVersion) -> (r: bool)
        ensures
            r == version_lt(*self, *other),
    {
        self.major < other.major || (self.major == other.major && self.minor < other.minor)
    }
}

} // verus!
