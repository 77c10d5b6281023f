//! Protocol versioning.
//!
//! Two peers can talk to each other when they share a major version; the minor
//! version only grows with backwards-compatible additions.

use crate::text::decimal_digits;
use crate::text::push_decimal;
use vstd::prelude::*;

verus! {

/// Major part of the protocol version spoken by this crate.
pub const PROTOCOL_MAJOR: u8 = 1;

/// Minor part of the protocol version spoken by this crate.
pub const PROTOCOL_MINOR: u8 = 0;

/// A protocol version: breaking changes bump `major`, compatible ones `minor`.
#[derive(Debug, Clone, Copy, PartialEq, Eq, Hash, Structural)]
pub struct Version {
    /// Major version.
    pub major: u8,
    /// Minor version.
    pub minor: u8,
}

impl Version {
    /// Whether two versions can interoperate: exactly when their majors agree.
    pub open spec fn compatible(self, other: Version) -> bool {
        self.major == other.major
    }

    /// The text form `major.minor`.
    pub open spec fn text(self) -> Seq<char> {
        decimal_digits(self.major as nat) + seq!['.'] + decimal_digits(self.minor as nat)
    }

    /// Builds a version from its two parts.
    #[must_use]
    pub fn new(major: u8, minor: u8) -> (v: Self)
        ensures
            v.major == major,
            v.minor == minor,
    {
        Self { major, minor }
    }

    /// The protocol version spoken by this crate.
    #[must_use]
    pub fn current() -> (v: Self)
        ensures
            v.major == PROTOCOL_MAJOR,
            v.minor == PROTOCOL_MINOR,
    {
        Self { major: PROTOCOL_MAJOR, minor: PROTOCOL_MINOR }
    }

    /// Renders the version as `major.minor` in decimal.
    #[must_use]
    pub fn to_string(&self) -> (s: String)
        ensures
            s@ == self.text(),
    {
        let mut out = String::new();
        push_decimal(&mut out, self.major as u64);
        proof {
            reveal_strlit(".");
        }
        out.append(".");
        push_decimal(&mut out, self.minor as u64);
        assert(out@ =~= self.text());
        out
    }

    /// Tells whether `self` and `other` share a major version.
    #[must_use]
    pub fn is_compatible_with(&self, other: &Version) -> (ok: bool)
        ensures
            ok == self.compatible(*other),
    {
        self.major == other.major
    }
}

impl Default for Version {
    fn default() -> (v: Self)
        ensures
            v.major == PROTOCOL_MAJOR,
            v.minor == PROTOCOL_MINOR,
    {
        Version::current()
    }
}

/// Compatibility is an equivalence on versions that looks at the major part
/// only: it is reflexive, symmetric and transitive, and the minor part never
/// matters.
pub proof fn lemma_compatibility_is_major_equality(a: Version, b: Version, c: Version)
    ensures
        a.compatible(b) <==> a.major == b.major,
        a.compatible(a),
        a.compatible(b) ==> b.compatible(a),
        a.compatible(b) && b.compatible(c) ==> a.compatible(c),
{
}

} // verus!
