//! The failures that the engine reports.
use vstd::prelude::*;

verus! {

/// Why a package operation failed.
#[derive(Debug, Clone, Copy, PartialEq, Eq, Structural)]
pub enum PkgError {
    /// The identity record is missing a field, or does not match the name given.
    Validation,
    /// An archive carries no identity entry.
    InvalidPackage,
    /// No registry entry matches the package.
    NotInstalled,
    /// More than one registry entry matches the package.
    AmbiguousInstall,
    /// One half of a registry entry is present without the other.
    CorruptEntry,
    /// A version string could not be parsed.
    InvalidVersion,
    /// The candidate is not newer than the installed package.
    NotNewer,
}

} // verus!
