//! RPM dependency resolution over the `resolvo` solver.
//!
//! [`RpmProvider`] holds the packages of any number of repositories, groups and advisories
//! among them, and answers what a solver asks: which packages provide a capability, in which
//! order they are tried, and what they need. Requires, Provides (with versions of their own),
//! Conflicts, Obsoletes, Recommends, Suggests, files, target architectures and the priority
//! of repositories are taken into account. Beside it stand a closure check, queries on
//! advisories, and the download of repository metadata as a sequence of decisions.
//!
//! The library computes; reading files, talking to the network and running the solver are
//! left to its callers.
use vstd::prelude::*;

pub mod closure;
pub mod comps;
pub mod detail;
pub mod draft;
pub mod evr;
pub mod fetch;
pub mod index;
pub mod laws;
pub mod loader;
pub mod metadata;
pub mod model;
pub mod options;
pub mod package;
pub mod pool;
pub mod provider;
pub mod provides;
pub mod query;
pub mod report;
pub mod rpm_provider;
pub mod solving;
pub mod sorting;
pub mod streaming;
pub mod table;
pub mod text;
pub mod updateinfo;
pub mod urls;
pub mod virtuals;
pub mod weak;

pub use crate::metadata::{
    CompsGroup, CompsPackageReq, UpdateCollection, UpdateCollectionPackage, UpdateRecord,
    UpdateReference,
};
pub use crate::options::{
    ClosureOptions, EnvironmentInstallOptions, GroupInstallOptions, LoadOptions, ResolveOptions,
};
pub use crate::package::{
    DependencySpec, NameId, PackageSpec, ProvidesVersion, RequirementType, RpmPackageVersion,
    RpmRequirement, SolvableId, VersionSetId,
};
pub use crate::provider::RpmProvider;
pub use crate::provides::ProvidesMap;

verus! {

} // verus!
