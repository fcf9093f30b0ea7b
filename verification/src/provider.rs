//! Plain data handed in by the data provider.
//!
//! The provider (network, cache, snapshot file) lives outside this library;
//! the engine consumes its output as already-fetched plain values: which
//! dependencies a package declares, and which versions of a package have
//! been published.

use vstd::prelude::*;

use crate::req::{Constraint, ConstraintModel};
use crate::version::{Version, VersionModel};

verus! {

/// One declared dependency of a fetched package: the depended-on package and
/// the requirement put on it.
pub struct ParsedDependency {
    pub crate_id: String,
    pub version_req: Constraint,
}

/// Mathematical model of a declared dependency.
#[verifier::ext_equal]
pub struct ParsedDependencyModel {
    pub crate_id: Seq<char>,
    pub version_req: ConstraintModel,
}

impl View for ParsedDependency {
    type V = ParsedDependencyModel;

    open spec fn view(&self) -> ParsedDependencyModel {
        ParsedDependencyModel { crate_id: self.crate_id@, version_req: self.version_req@ }
    }
}

/// All declared dependencies of one fetched package.
pub struct ParsedCrateDependency {
    pub dependencies: Vec<ParsedDependency>,
}

impl View for ParsedCrateDependency {
    type V = Seq<ParsedDependencyModel>;

    open spec fn view(&self) -> Seq<ParsedDependencyModel> {
        self.dependencies@.map_values(|d: ParsedDependency| d@)
    }
}

/// One published release of the target package.
pub struct ParsedVersion {
    pub yanked: bool,
    pub num: Version,
    pub rust_version: Option<String>,
}

/// Mathematical model of a published release.
#[verifier::ext_equal]
pub struct ParsedVersionModel {
    pub yanked: bool,
    pub num: VersionModel,
    pub rust_version: Option<Seq<char>>,
}

impl View for ParsedVersion {
    type V = ParsedVersionModel;

    open spec fn view(&self) -> ParsedVersionModel {
        ParsedVersionModel {
            yanked: self.yanked,
            num: self.num@,
            rust_version: match &self.rust_version {
                Some(s) => Some(s@),
                None => None,
            },
        }
    }
}

/// All published releases of the target package.
pub struct ParsedCrateVersion {
    pub versions: Vec<ParsedVersion>,
}

impl View for ParsedCrateVersion {
    type V = Seq<ParsedVersionModel>;

    open spec fn view(&self) -> Seq<ParsedVersionModel> {
        self.versions@.map_values(|v: ParsedVersion| v@)
    }
}

} // verus!
