//! Diagnostics surfaced while resolving a system or merging attribute
//! configuration.  Every variant aborts the enclosing build step; none is
//! recovered or retried.

use vstd::prelude::*;

verus! {

/// A build-time diagnostic.
#[derive(Clone, Copy, Debug, PartialEq, Eq, Structural)]
pub enum BuildError {
    /// An equation reduces to `0 = c` with `c != 0`.
    ContradictoryIdentity,
    /// A system does not contain exactly two equations.
    ArityError,
    /// Fewer independent constraints than unknowns.
    Underdetermined,
    /// The equations are mutually inconsistent.
    Contradiction,
    /// The same configuration key was supplied twice for one field.
    DuplicateAttribute,
}

impl BuildError {
    /// The diagnostic text shown when the build is aborted.
    pub fn message(&self) -> (r: &'static str)
        ensures
            r@ == self.spec_message(),
    {
        match self {
            BuildError::ContradictoryIdentity => "invalid equal",
            BuildError::ArityError => "require two formula",
            BuildError::Underdetermined => "no solution",
            BuildError::Contradiction => "no solution",
            BuildError::DuplicateAttribute => "redundant attribute argument",
        }
    }

    /// The diagnostic text, at the specification level.
    pub open spec fn spec_message(self) -> Seq<char> {
        match self {
            BuildError::ContradictoryIdentity => "invalid equal"@,
            BuildError::ArityError => "require two formula"@,
            BuildError::Underdetermined => "no solution"@,
            BuildError::Contradiction => "no solution"@,
            BuildError::DuplicateAttribute => "redundant attribute argument"@,
        }
    }
}

} // verus!
