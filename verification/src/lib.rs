//! Finds, for a target package, the range of its published versions that
//! satisfies the version constraints declared by every dependent package in a
//! dependency snapshot.
//!
//! The core is the bound-computation and conflict-diagnosis engine: it
//! translates each dependent's constraint into a canonical version interval,
//! intersects the intervals while tracking which dependent owns each surviving
//! boundary, attributes unsatisfiability to the responsible dependents, and
//! maps a satisfiable interval onto indices of the sorted published-version
//! list. Fetching, parsing and printing live outside this library; it computes
//! over already-fetched plain data.

pub mod bound;
pub mod compat;
pub mod error;
pub mod locate;
pub mod provider;
pub mod req;
pub mod resolve;
pub mod utils;
pub mod version;
