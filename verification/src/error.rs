//! The error taxonomy of the engine.
//!
//! Every unsatisfiable outcome carries the full identity (name and version)
//! and the original constraint text of each implicated dependent; no failure
//! is reported as a bare flag. Errors of the surrounding tooling (file and
//! network handling) are not represented here.

use vstd::prelude::*;

use crate::req::Comparator;

verus! {

/// A dependent implicated in a diagnostic: ((name, version), constraint text).
pub type DependentRef = ((String, String), String);

#[derive(Debug)]
pub enum ConstError {
    /// A comparator uses an operator outside the supported set: the
    /// comparator, the version text, and a description of the fault.
    VersionError(Comparator, String, String),
    /// The maximum rust version requested is not a version number.
    InvalidMaxRustVersionError(String),
    /// No satisfiable version supports the requested maximum rust version.
    UnsatisfiableMaxRustVersionError(String),
    /// A dependent declares a requirement with zero comparators.
    EmptyVersionReqError { crate_name: String, crate_version: String },
    /// A single dependent's own comparators leave an empty interval.
    NonOverlappingBoundsError {
        version_req: String,
        crate_name: String,
        crate_version: String,
    },
    /// No package in the snapshot depends on the target.
    NoMatchingDependentError(String),
    /// A dependent's bound is incompatible with the bound accumulated from
    /// the dependents seen before it: that dependent, against every earlier
    /// one whose boundary it empties.
    UnsatisfiableMultipleDependentsError {
        crate_name: String,
        dependent: DependentRef,
        dependents: Vec<DependentRef>,
    },
    /// The dependents owning the surviving lower and upper boundaries admit
    /// no published release between them.
    UnsatisfiableBoundDependentsError {
        crate_name: String,
        lower: DependentRef,
        upper: DependentRef,
    },
    /// One dependent owns both surviving boundaries and no published release
    /// lies between them.
    UnsatisfiableSingleDependentError { crate_name: String, dependent: DependentRef },
    /// Every release in the satisfiable range is yanked.
    OnlyYankedVersionExistsError { crate_name: String },
    /// The snapshot claims a dependency edge the provider does not corroborate.
    DependencyMismatchFromCargoLock {
        crate_name: String,
        crate_version: String,
        dependency: String,
    },
    /// A count argument is neither "all" nor a number.
    InvalidCountArgument { argument: String },
}

} // verus!
