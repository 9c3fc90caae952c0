use std::cell::RefCell;
use std::collections::BTreeSet;
use std::fmt::Display;

use resolvo_rpm::solving;
use resolvo_rpm::{
    CompsGroup, CompsPackageReq, DependencySpec, GroupInstallOptions, PackageSpec, RequirementType,
    ResolveOptions, RpmProvider, UpdateCollection, UpdateCollectionPackage, UpdateRecord,
};

/// The provider as the solver sees it.
struct Adapter {
    inner: RefCell<RpmProvider>,
}

fn lib_solvable(id: resolvo::SolvableId) -> resolvo_rpm::SolvableId {
    resolvo_rpm::SolvableId(id.0)
}

fn lib_set(id: resolvo::VersionSetId) -> resolvo_rpm::VersionSetId {
    resolvo_rpm::VersionSetId(id.0)
}

fn lib_solvables(ids: &[resolvo::SolvableId]) -> Vec<resolvo_rpm::SolvableId> {
    ids.iter().map(|id| lib_solvable(*id)).collect()
}

fn solver_solvables(ids: &[resolvo_rpm::SolvableId]) -> Vec<resolvo::SolvableId> {
    ids.iter().map(|id| resolvo::SolvableId(id.0)).collect()
}

impl Adapter {
    fn package_name(&self, id: resolvo::SolvableId) -> String {
        self.inner.borrow().package_name(lib_solvable(id)).to_string()
    }

    fn package_version(&self, id: resolvo::SolvableId) -> String {
        self.inner.borrow().package_version(lib_solvable(id))
    }
}

impl resolvo::Interner for Adapter {
    fn display_solvable(&self, id: resolvo::SolvableId) -> impl Display + '_ {
        format!("{} {}", self.package_name(id), self.package_version(id))
    }

    fn display_name(&self, id: resolvo::NameId) -> impl Display + '_ {
        self.inner.borrow().name(resolvo_rpm::NameId(id.0)).to_string()
    }

    fn display_version_set(&self, id: resolvo::VersionSetId) -> impl Display + '_ {
        self.inner.borrow().version_set(lib_set(id)).display()
    }

    fn display_string(&self, _id: resolvo::StringId) -> impl Display + '_ {
        String::new()
    }

    fn version_set_name(&self, id: resolvo::VersionSetId) -> resolvo::NameId {
        resolvo::NameId(self.inner.borrow().version_set_name(lib_set(id)).0)
    }

    fn solvable_name(&self, id: resolvo::SolvableId) -> resolvo::NameId {
        resolvo::NameId(self.inner.borrow().solvable_name(lib_solvable(id)).0)
    }

    fn version_sets_in_union(
        &self,
        _id: resolvo::VersionSetUnionId,
    ) -> impl Iterator<Item = resolvo::VersionSetId> {
        std::iter::empty()
    }

    fn resolve_condition(&self, _id: resolvo::ConditionId) -> resolvo::Condition {
        panic!("no requirement is conditional")
    }
}

impl resolvo::DependencyProvider for Adapter {
    async fn filter_candidates(
        &self,
        candidates: &[resolvo::SolvableId],
        version_set: resolvo::VersionSetId,
        inverse: bool,
    ) -> Vec<resolvo::SolvableId> {
        let list = lib_solvables(candidates);
        solver_solvables(&self.inner.borrow().filter_candidates(&list, lib_set(version_set), inverse))
    }

    async fn get_candidates(&self, name: resolvo::NameId) -> Option<resolvo::Candidates> {
        match self.inner.borrow().get_candidates(resolvo_rpm::NameId(name.0)) {
            solving::Candidates::Found(list) => Some(resolvo::Candidates {
                candidates: solver_solvables(&list),
                hint_dependencies_available: resolvo::HintDependenciesAvailable::All,
                ..resolvo::Candidates::default()
            }),
            _ => None,
        }
    }

    async fn sort_candidates(
        &self,
        _solver: &resolvo::SolverCache<Self>,
        solvables: &mut [resolvo::SolvableId],
    ) {
        let mut list = lib_solvables(solvables);
        self.inner.borrow().sort_candidates(&mut list);
        solvables.copy_from_slice(&solver_solvables(&list));
    }

    async fn get_dependencies(&self, id: resolvo::SolvableId) -> resolvo::Dependencies {
        let known = self.inner.borrow().get_dependencies(lib_solvable(id));
        resolvo::Dependencies::Known(resolvo::KnownDependencies {
            requirements: known
                .requirements
                .iter()
                .map(|set| resolvo::ConditionalRequirement {
                    condition: None,
                    requirement: resolvo::Requirement::Single(resolvo::VersionSetId(set.0)),
                })
                .collect(),
            constrains: known.constrains.iter().map(|set| resolvo::VersionSetId(set.0)).collect(),
        })
    }
}

fn new_solver(provider: RpmProvider) -> resolvo::Solver<Adapter> {
    resolvo::Solver::new(Adapter { inner: RefCell::new(provider) })
}

/// Solves for the hard dependencies, then once more with the weak ones.
fn resolve(
    solver: &mut resolvo::Solver<Adapter>,
    names: &[&str],
    options: &ResolveOptions,
) -> Result<Vec<resolvo::SolvableId>, resolvo::UnsolvableOrCancelled> {
    let wanted: Vec<resolvo::ConditionalRequirement> = solver
        .provider()
        .inner
        .borrow_mut()
        .make_install_requirements(names)
        .iter()
        .map(|set| resolvo::ConditionalRequirement {
            condition: None,
            requirement: resolvo::Requirement::Single(resolvo::VersionSetId(set.0)),
        })
        .collect();
    let first = solver.solve(resolvo::Problem::new().requirements(wanted.clone()))?;
    let soft = solver
        .provider()
        .inner
        .borrow()
        .collect_recommended_solvables(&lib_solvables(&first), options);
    if soft.is_empty() {
        return Ok(first);
    }
    solver.solve(
        resolvo::Problem::new().requirements(wanted).soft_requirements(solver_solvables(&soft)),
    )
}

/// Helper: build a CompsGroup with the given id and package list.
fn make_group(id: &str, packages: Vec<CompsPackageReq>) -> CompsGroup {
    CompsGroup {
        id: id.to_owned(),
        name: id.to_owned(),
        packages,
        ..CompsGroup::default()
    }
}

/// Helper: build a CompsPackageReq with the given name and type.
fn make_pkg_req(name: &str, reqtype: &str) -> CompsPackageReq {
    CompsPackageReq {
        name: name.to_owned(),
        reqtype: reqtype.to_owned(),
        requires: None,
        basearchonly: false,
    }
}

/// Helper: add a minimal package to the provider.
fn add_simple_package(provider: &mut RpmProvider, repo_id: usize, name: &str) {
    provider.add_package(
        repo_id,
        &PackageSpec {
            name,
            epoch: "0",
            version: "1.0",
            release: "1",
            arch: "x86_64",
            requires: &[],
            provides: &[],
            conflicts: &[],
            obsoletes: &[],
            recommends: &[],
            suggests: &[],
            supplements: &[],
            enhances: &[],
            files: &[],
        },
    );
}

#[test]
fn add_group_resolves_mandatory_and_default() {
    let mut provider = RpmProvider::new(None);
    let repo = provider.add_repo("test");

    add_simple_package(&mut provider, repo, "mandatory-pkg");
    add_simple_package(&mut provider, repo, "default-pkg");
    add_simple_package(&mut provider, repo, "optional-pkg");

    let group = make_group(
        "test-group",
        vec![
            make_pkg_req("mandatory-pkg", "mandatory"),
            make_pkg_req("default-pkg", "default"),
            make_pkg_req("optional-pkg", "optional"),
        ],
    );
    provider.add_group(repo, &group, &GroupInstallOptions::default());

    let mut solver = new_solver(provider);
    let result = resolve(&mut solver, &["@test-group"], &ResolveOptions::new()).unwrap();
    let names: BTreeSet<String> = result
        .iter()
        .map(|s| solver.provider().package_name(*s))
        .collect();

    assert!(names.contains("@test-group"));
    assert!(names.contains("mandatory-pkg"));
    assert!(names.contains("default-pkg"));
    assert!(
        !names.contains("optional-pkg"),
        "optional packages should not be included by default"
    );
}

#[test]
fn add_group_includes_optional_when_requested() {
    let mut provider = RpmProvider::new(None);
    let repo = provider.add_repo("test");

    add_simple_package(&mut provider, repo, "mandatory-pkg");
    add_simple_package(&mut provider, repo, "optional-pkg");

    let group = make_group(
        "test-group",
        vec![
            make_pkg_req("mandatory-pkg", "mandatory"),
            make_pkg_req("optional-pkg", "optional"),
        ],
    );

    let options = GroupInstallOptions::new().include_optional(true);
    provider.add_group(repo, &group, &options);

    let mut solver = new_solver(provider);
    let result = resolve(&mut solver, &["@test-group"], &ResolveOptions::new()).unwrap();
    let names: BTreeSet<String> = result
        .iter()
        .map(|s| solver.provider().package_name(*s))
        .collect();

    assert!(names.contains("mandatory-pkg"));
    assert!(
        names.contains("optional-pkg"),
        "optional packages should be included when requested"
    );
}

#[test]
fn add_group_skips_conditional_packages() {
    let mut provider = RpmProvider::new(None);
    let repo = provider.add_repo("test");

    add_simple_package(&mut provider, repo, "unconditional-pkg");
    add_simple_package(&mut provider, repo, "conditional-pkg");

    let group = make_group(
        "test-group",
        vec![
            make_pkg_req("unconditional-pkg", "mandatory"),
            CompsPackageReq {
                name: "conditional-pkg".to_owned(),
                reqtype: "conditional".to_owned(),
                requires: Some("some-lang".to_owned()),
                basearchonly: false,
            },
        ],
    );
    provider.add_group(repo, &group, &GroupInstallOptions::default());

    let mut solver = new_solver(provider);
    let result = resolve(&mut solver, &["@test-group"], &ResolveOptions::new()).unwrap();
    let names: BTreeSet<String> = result
        .iter()
        .map(|s| solver.provider().package_name(*s))
        .collect();

    assert!(names.contains("unconditional-pkg"));
    assert!(
        !names.contains("conditional-pkg"),
        "conditional packages should be skipped"
    );
}

#[test]
fn add_group_resolves_transitive_deps() {
    let mut provider = RpmProvider::new(None);
    let repo = provider.add_repo("test");

    // "app" requires "lib"
    provider.add_package(
        repo,
        &PackageSpec {
            name: "app",
            epoch: "0",
            version: "1.0",
            release: "1",
            arch: "x86_64",
            requires: &[DependencySpec {
                name: "lib",
                flags: None,
                epoch: None,
                version: None,
                release: None,
                preinstall: false,
            }],
            provides: &[],
            conflicts: &[],
            obsoletes: &[],
            recommends: &[],
            suggests: &[],
            supplements: &[],
            enhances: &[],
            files: &[],
        },
    );
    add_simple_package(&mut provider, repo, "lib");

    let group = make_group("test-group", vec![make_pkg_req("app", "mandatory")]);
    provider.add_group(repo, &group, &GroupInstallOptions::default());

    let mut solver = new_solver(provider);
    let result = resolve(&mut solver, &["@test-group"], &ResolveOptions::new()).unwrap();
    let names: BTreeSet<String> = result
        .iter()
        .map(|s| solver.provider().package_name(*s))
        .collect();

    assert!(names.contains("app"));
    assert!(
        names.contains("lib"),
        "transitive dependencies of group members should be resolved"
    );
}

#[test]
fn add_group_mandatory_only() {
    let mut provider = RpmProvider::new(None);
    let repo = provider.add_repo("test");

    add_simple_package(&mut provider, repo, "mandatory-pkg");
    add_simple_package(&mut provider, repo, "default-pkg");

    let group = make_group(
        "test-group",
        vec![
            make_pkg_req("mandatory-pkg", "mandatory"),
            make_pkg_req("default-pkg", "default"),
        ],
    );

    let options = GroupInstallOptions::new().include_default(false);
    provider.add_group(repo, &group, &options);

    let mut solver = new_solver(provider);
    let result = resolve(&mut solver, &["@test-group"], &ResolveOptions::new()).unwrap();
    let names: BTreeSet<String> = result
        .iter()
        .map(|s| solver.provider().package_name(*s))
        .collect();

    assert!(names.contains("mandatory-pkg"));
    assert!(
        !names.contains("default-pkg"),
        "default packages should be excluded when include_default is false"
    );
}

#[test]
fn group_mixed_with_packages() {
    let mut provider = RpmProvider::new(None);
    let repo = provider.add_repo("test");

    add_simple_package(&mut provider, repo, "group-member");
    add_simple_package(&mut provider, repo, "standalone-pkg");

    let group = make_group("my-group", vec![make_pkg_req("group-member", "mandatory")]);
    provider.add_group(repo, &group, &GroupInstallOptions::default());

    let mut solver = new_solver(provider);

    // Resolve both a group and a standalone package together.
    let result = resolve(
        &mut solver,
        &["@my-group", "standalone-pkg"],
        &ResolveOptions::new(),
    )
    .unwrap();
    let names: BTreeSet<String> = result
        .iter()
        .map(|s| solver.provider().package_name(*s))
        .collect();

    assert!(names.contains("@my-group"));
    assert!(names.contains("group-member"));
    assert!(names.contains("standalone-pkg"));
}

/// Helper: add a minimal package to the provider with the given NEVRA.
fn add_package(
    provider: &mut RpmProvider,
    repo_id: usize,
    name: &str,
    epoch: &str,
    version: &str,
    release: &str,
    arch: &str,
) {
    provider.add_package(
        repo_id,
        &PackageSpec {
            name,
            epoch,
            version,
            release,
            arch,
            requires: &[],
            provides: &[],
            conflicts: &[],
            obsoletes: &[],
            recommends: &[],
            suggests: &[],
            supplements: &[],
            enhances: &[],
            files: &[],
        },
    );
}

/// Helper: add a package with a Requires dependency.
fn add_package_with_requires(
    provider: &mut RpmProvider,
    repo_id: usize,
    name: &str,
    epoch: &str,
    version: &str,
    release: &str,
    arch: &str,
    requires: &[DependencySpec],
) {
    provider.add_package(
        repo_id,
        &PackageSpec {
            name,
            epoch,
            version,
            release,
            arch,
            requires,
            provides: &[],
            conflicts: &[],
            obsoletes: &[],
            recommends: &[],
            suggests: &[],
            supplements: &[],
            enhances: &[],
            files: &[],
        },
    );
}

/// Helper: build an UpdateRecord with a single collection of packages.
fn make_advisory(id: &str, packages: Vec<UpdateCollectionPackage>) -> UpdateRecord {
    UpdateRecord {
        id: id.to_owned(),
        update_type: "security".to_owned(),
        version: "1".to_owned(),
        pkglist: vec![UpdateCollection {
            packages,
            ..UpdateCollection::default()
        }],
        ..UpdateRecord::default()
    }
}

/// Helper: build an UpdateCollectionPackage with the given NEVRA.
fn make_advisory_pkg(
    name: &str,
    epoch: &str,
    version: &str,
    release: &str,
    arch: &str,
) -> UpdateCollectionPackage {
    UpdateCollectionPackage {
        name: name.to_owned(),
        epoch: epoch.to_owned(),
        version: version.to_owned(),
        release: release.to_owned(),
        arch: arch.to_owned(),
        ..UpdateCollectionPackage::default()
    }
}

/// Resolving a patch: advisory should include the virtual solvable and force
/// the referenced package to meet the advisory's minimum version.
#[test]
fn add_advisory_forces_upgrade() {
    let mut provider = RpmProvider::new(None);
    let repo = provider.add_repo("test");

    // Two versions of "foo": old (1.0) and fixed (2.0)
    add_package(&mut provider, repo, "foo", "0", "1.0", "1.el9", "x86_64");
    add_package(&mut provider, repo, "foo", "0", "2.0", "1.el9", "x86_64");

    // Advisory says foo needs >= 2.0-1.el9
    let advisory = make_advisory(
        "RHSA-2024:0001",
        vec![make_advisory_pkg("foo", "0", "2.0", "1.el9", "x86_64")],
    );
    provider.add_advisory(repo, &advisory);

    let mut solver = new_solver(provider);
    let result = resolve(
        &mut solver,
        &["patch:RHSA-2024:0001", "foo"],
        &ResolveOptions::new(),
    )
    .unwrap();

    let resolved: BTreeSet<(String, String)> = result
        .iter()
        .map(|s| {
            let p = solver.provider();
            (
                p.package_name(*s).to_string(),
                p.package_version(*s).to_string(),
            )
        })
        .collect();

    assert!(
        resolved
            .iter()
            .any(|(n, _)| n == "patch:RHSA-2024:0001"),
        "the advisory virtual solvable should be in the result"
    );
    assert!(
        resolved
            .iter()
            .any(|(n, v)| n == "foo" && v.contains("2.0")),
        "foo should be upgraded to the fixed version, got: {:?}",
        resolved
    );
    assert!(
        !resolved
            .iter()
            .any(|(n, v)| n == "foo" && v.contains("1.0")),
        "the old version of foo should NOT be selected"
    );
}

/// When multiple versions satisfy the advisory constraint, the solver must
/// not pick a version older than the advisory's fix version.
#[test]
fn advisory_excludes_old_versions() {
    let mut provider = RpmProvider::new(None);
    let repo = provider.add_repo("test");

    add_package(&mut provider, repo, "bar", "0", "1.0", "1", "x86_64");
    add_package(&mut provider, repo, "bar", "0", "2.0", "1", "x86_64");
    add_package(&mut provider, repo, "bar", "0", "3.0", "1", "x86_64");

    // Advisory says bar needs >= 2.0. The old 1.0 version must be excluded.
    let advisory = make_advisory(
        "RHSA-2024:0002",
        vec![make_advisory_pkg("bar", "0", "2.0", "1", "x86_64")],
    );
    provider.add_advisory(repo, &advisory);

    let mut solver = new_solver(provider);
    let result = resolve(
        &mut solver,
        &["patch:RHSA-2024:0002", "bar"],
        &ResolveOptions::new(),
    )
    .unwrap();

    let versions: Vec<String> = result
        .iter()
        .filter_map(|s| {
            let p = solver.provider();
            if p.package_name(*s) == "bar" {
                Some(p.package_version(*s).to_string())
            } else {
                None
            }
        })
        .collect();

    assert_eq!(versions.len(), 1);
    assert!(
        !versions[0].contains("1.0"),
        "bar 1.0 should be excluded by the advisory constraint, got: {}",
        versions[0]
    );
}

/// An advisory referencing multiple packages should generate conflicts for
/// all of them. Resolving the advisory + all packages should upgrade each.
#[test]
fn advisory_with_multiple_packages() {
    let mut provider = RpmProvider::new(None);
    let repo = provider.add_repo("test");

    // Two packages, each with an old and a new version
    add_package(&mut provider, repo, "alpha", "0", "1.0", "1", "x86_64");
    add_package(&mut provider, repo, "alpha", "0", "2.0", "1", "x86_64");
    add_package(&mut provider, repo, "beta", "0", "1.0", "1", "x86_64");
    add_package(&mut provider, repo, "beta", "0", "2.0", "1", "x86_64");

    let advisory = make_advisory(
        "RHSA-2024:0003",
        vec![
            make_advisory_pkg("alpha", "0", "2.0", "1", "x86_64"),
            make_advisory_pkg("beta", "0", "2.0", "1", "x86_64"),
        ],
    );
    provider.add_advisory(repo, &advisory);

    let mut solver = new_solver(provider);
    let result = resolve(
        &mut solver,
        &["patch:RHSA-2024:0003", "alpha", "beta"],
        &ResolveOptions::new(),
    )
    .unwrap();

    let resolved: BTreeSet<(String, String)> = result
        .iter()
        .map(|s| {
            let p = solver.provider();
            (
                p.package_name(*s).to_string(),
                p.package_version(*s).to_string(),
            )
        })
        .collect();

    assert!(
        resolved
            .iter()
            .any(|(n, v)| n == "alpha" && v.contains("2.0")),
        "alpha should be at version 2.0, got: {:?}",
        resolved
    );
    assert!(
        resolved
            .iter()
            .any(|(n, v)| n == "beta" && v.contains("2.0")),
        "beta should be at version 2.0, got: {:?}",
        resolved
    );
}

/// Source-arch packages in advisories should be skipped — they're not installable.
#[test]
fn advisory_skips_src_arch() {
    let mut provider = RpmProvider::new(None);
    let repo = provider.add_repo("test");

    add_package(&mut provider, repo, "baz", "0", "1.0", "1", "x86_64");
    add_package(&mut provider, repo, "baz", "0", "2.0", "1", "x86_64");

    // Advisory has both an x86_64 entry and a src entry.
    // Only the x86_64 entry should generate a conflict.
    let advisory = make_advisory(
        "RHSA-2024:0004",
        vec![
            make_advisory_pkg("baz", "0", "2.0", "1", "x86_64"),
            make_advisory_pkg("baz", "0", "2.0", "1", "src"),
        ],
    );
    provider.add_advisory(repo, &advisory);

    let mut solver = new_solver(provider);
    let result = resolve(
        &mut solver,
        &["patch:RHSA-2024:0004", "baz"],
        &ResolveOptions::new(),
    )
    .unwrap();

    let names: BTreeSet<String> = result
        .iter()
        .map(|s| solver.provider().package_name(*s))
        .collect();

    assert!(names.contains("patch:RHSA-2024:0004"));
    assert!(names.contains("baz"));
}

/// Advisory with an epoch > 0 should correctly force upgrades past that epoch.
#[test]
fn advisory_with_nonzero_epoch() {
    let mut provider = RpmProvider::new(None);
    let repo = provider.add_repo("test");

    // epoch=1 packages
    add_package(&mut provider, repo, "qux", "1", "3.0", "1", "x86_64");
    add_package(&mut provider, repo, "qux", "1", "4.0", "1", "x86_64");

    let advisory = make_advisory(
        "RHSA-2024:0005",
        vec![make_advisory_pkg("qux", "1", "4.0", "1", "x86_64")],
    );
    provider.add_advisory(repo, &advisory);

    let mut solver = new_solver(provider);
    let result = resolve(
        &mut solver,
        &["patch:RHSA-2024:0005", "qux"],
        &ResolveOptions::new(),
    )
    .unwrap();

    let resolved: BTreeSet<(String, String)> = result
        .iter()
        .map(|s| {
            let p = solver.provider();
            (
                p.package_name(*s).to_string(),
                p.package_version(*s).to_string(),
            )
        })
        .collect();

    assert!(
        resolved
            .iter()
            .any(|(n, v)| n == "qux" && v.contains("4.0")),
        "qux should be at version 4.0 (epoch 1), got: {:?}",
        resolved
    );
}

/// Advisory conflict should cascade through transitive dependencies:
/// if package "app" requires "lib", and an advisory forces "lib" to upgrade,
/// resolving the advisory + app should pull in the upgraded lib.
#[test]
fn advisory_cascades_through_deps() {
    let mut provider = RpmProvider::new(None);
    let repo = provider.add_repo("test");

    // "app" requires "lib"
    add_package_with_requires(
        &mut provider,
        repo,
        "app",
        "0",
        "1.0",
        "1",
        "x86_64",
        &[DependencySpec {
            name: "lib",
            flags: None,
            epoch: None,
            version: None,
            release: None,
            preinstall: false,
        }],
    );

    // Two versions of lib
    add_package(&mut provider, repo, "lib", "0", "1.0", "1", "x86_64");
    add_package(&mut provider, repo, "lib", "0", "2.0", "1", "x86_64");

    // Advisory says lib >= 2.0
    let advisory = make_advisory(
        "RHSA-2024:0006",
        vec![make_advisory_pkg("lib", "0", "2.0", "1", "x86_64")],
    );
    provider.add_advisory(repo, &advisory);

    let mut solver = new_solver(provider);
    let result = resolve(
        &mut solver,
        &["patch:RHSA-2024:0006", "app"],
        &ResolveOptions::new(),
    )
    .unwrap();

    let resolved: BTreeSet<(String, String)> = result
        .iter()
        .map(|s| {
            let p = solver.provider();
            (
                p.package_name(*s).to_string(),
                p.package_version(*s).to_string(),
            )
        })
        .collect();

    assert!(
        resolved
            .iter()
            .any(|(n, _)| n == "app"),
        "app should be in the result"
    );
    assert!(
        resolved
            .iter()
            .any(|(n, v)| n == "lib" && v.contains("2.0")),
        "lib should be upgraded to 2.0 via advisory cascade, got: {:?}",
        resolved
    );
}

/// Mixed advisory + package resolution: resolving a patch advisory alongside
/// regular packages should succeed, with the advisory forcing upgrades.
#[test]
fn mixed_advisory_and_package_resolution() {
    let mut provider = RpmProvider::new(None);
    let repo = provider.add_repo("test");

    add_package(&mut provider, repo, "secure-lib", "0", "1.0", "1", "x86_64");
    add_package(&mut provider, repo, "secure-lib", "0", "2.0", "1", "x86_64");
    add_package(&mut provider, repo, "unrelated-pkg", "0", "1.0", "1", "x86_64");

    let advisory = make_advisory(
        "RHSA-2024:9999",
        vec![make_advisory_pkg(
            "secure-lib",
            "0",
            "2.0",
            "1",
            "x86_64",
        )],
    );
    provider.add_advisory(repo, &advisory);

    let mut solver = new_solver(provider);
    let result = resolve(
        &mut solver,
        &["patch:RHSA-2024:9999", "secure-lib", "unrelated-pkg"],
        &ResolveOptions::new(),
    )
    .unwrap();

    let names: BTreeSet<String> = result
        .iter()
        .map(|s| solver.provider().package_name(*s))
        .collect();

    assert!(names.contains("patch:RHSA-2024:9999"));
    assert!(names.contains("secure-lib"));
    assert!(names.contains("unrelated-pkg"));
}

#[test]
fn resolve_manual_packages() {
    let mut provider = RpmProvider::new(None);
    let repo = provider.add_repo("test");

    // Package "app" requires "lib"
    provider.add_package(
        repo,
        &PackageSpec {
            name: "app",
            epoch: "0",
            version: "1.0",
            release: "1",
            arch: "x86_64",
            requires: &[DependencySpec {
                name: "lib",
                flags: Some(RequirementType::GE),
                epoch: None,
                version: Some("1.0"),
                release: None,
                preinstall: false,
            }],
            provides: &[],
            conflicts: &[],
            obsoletes: &[],
            recommends: &[],
            suggests: &[],
            supplements: &[],
            enhances: &[],
            files: &[],
        },
    );

    // Package "lib" provides itself
    provider.add_package(
        repo,
        &PackageSpec {
            name: "lib",
            epoch: "0",
            version: "2.0",
            release: "1",
            arch: "x86_64",
            requires: &[],
            provides: &[],
            conflicts: &[],
            obsoletes: &[],
            recommends: &[],
            suggests: &[],
            supplements: &[],
            enhances: &[],
            files: &[],
        },
    );

    let mut solver = new_solver(provider);
    let result = resolve(&mut solver, &["app"], &ResolveOptions::new()).unwrap();
    let names: BTreeSet<String> = result
        .iter()
        .map(|s| solver.provider().package_name(*s))
        .collect();

    assert_eq!(names, BTreeSet::from(["app".to_string(), "lib".to_string()]));
}

#[test]
fn resolve_manual_provides() {

    let mut provider = RpmProvider::new(None);
    let repo = provider.add_repo("test");

    // Package "app" requires capability "libfoo"
    provider.add_package(
        repo,
        &PackageSpec {
            name: "app",
            epoch: "0",
            version: "1.0",
            release: "1",
            arch: "x86_64",
            requires: &[DependencySpec {
                name: "libfoo",
                flags: None,
                epoch: None,
                version: None,
                release: None,
                preinstall: false,
            }],
            provides: &[],
            conflicts: &[],
            obsoletes: &[],
            recommends: &[],
            suggests: &[],
            supplements: &[],
            enhances: &[],
            files: &[],
        },
    );

    // Package "foo-impl" provides "libfoo" at version 3.0
    provider.add_package(
        repo,
        &PackageSpec {
            name: "foo-impl",
            epoch: "0",
            version: "1.0",
            release: "1",
            arch: "x86_64",
            requires: &[],
            provides: &[DependencySpec {
                name: "libfoo",
                flags: Some(RequirementType::EQ),
                epoch: None,
                version: Some("3.0"),
                release: None,
                preinstall: false,
            }],
            conflicts: &[],
            obsoletes: &[],
            recommends: &[],
            suggests: &[],
            supplements: &[],
            enhances: &[],
            files: &[],
        },
    );

    let mut solver = new_solver(provider);
    let result = resolve(&mut solver, &["app"], &ResolveOptions::new()).unwrap();
    let names: BTreeSet<String> = result
        .iter()
        .map(|s| solver.provider().package_name(*s))
        .collect();

    assert_eq!(names, BTreeSet::from(["app".to_string(), "foo-impl".to_string()]));
}

#[test]
fn resolve_unversioned_conflict() {

    let mut provider = RpmProvider::new(None);
    let repo = provider.add_repo("test");

    // "app" requires both "lib-a" and "lib-b"
    provider.add_package(
        repo,
        &PackageSpec {
            name: "app",
            epoch: "0",
            version: "1.0",
            release: "1",
            arch: "x86_64",
            requires: &[
                DependencySpec {
                    name: "lib-a",
                    flags: None,
                    epoch: None,
                    version: None,
                    release: None,
                    preinstall: false,
                },
                DependencySpec {
                    name: "lib-b",
                    flags: None,
                    epoch: None,
                    version: None,
                    release: None,
                    preinstall: false,
                },
            ],
            provides: &[],
            conflicts: &[],
            obsoletes: &[],
            recommends: &[],
            suggests: &[],
            supplements: &[],
            enhances: &[],
            files: &[],
        },
    );

    // "lib-a" has an unversioned conflict with "lib-b"
    provider.add_package(
        repo,
        &PackageSpec {
            name: "lib-a",
            epoch: "0",
            version: "1.0",
            release: "1",
            arch: "x86_64",
            requires: &[],
            provides: &[],
            conflicts: &[DependencySpec {
                name: "lib-b",
                flags: None,
                epoch: None,
                version: None,
                release: None,
                preinstall: false,
            }],
            obsoletes: &[],
            recommends: &[],
            suggests: &[],
            supplements: &[],
            enhances: &[],
            files: &[],
        },
    );

    provider.add_package(
        repo,
        &PackageSpec {
            name: "lib-b",
            epoch: "0",
            version: "1.0",
            release: "1",
            arch: "x86_64",
            requires: &[],
            provides: &[],
            conflicts: &[],
            obsoletes: &[],
            recommends: &[],
            suggests: &[],
            supplements: &[],
            enhances: &[],
            files: &[],
        },
    );

    let mut solver = new_solver(provider);
    let result = resolve(&mut solver, &["app"], &ResolveOptions::new());
    assert!(
        result.is_err(),
        "unversioned conflict should make resolution fail"
    );
}

#[test]
fn resolve_obsoletes_excludes_old_version() {

    let mut provider = RpmProvider::new(None);
    let repo = provider.add_repo("test");

    // "app" requires "lib"
    provider.add_package(
        repo,
        &PackageSpec {
            name: "app",
            epoch: "0",
            version: "1.0",
            release: "1",
            arch: "x86_64",
            requires: &[DependencySpec {
                name: "lib",
                flags: None,
                epoch: None,
                version: None,
                release: None,
                preinstall: false,
            }],
            provides: &[],
            conflicts: &[],
            obsoletes: &[],
            recommends: &[],
            suggests: &[],
            supplements: &[],
            enhances: &[],
            files: &[],
        },
    );

    // "lib" version 1.0
    provider.add_package(
        repo,
        &PackageSpec {
            name: "lib",
            epoch: "0",
            version: "1.0",
            release: "1",
            arch: "x86_64",
            requires: &[],
            provides: &[],
            conflicts: &[],
            obsoletes: &[],
            recommends: &[],
            suggests: &[],
            supplements: &[],
            enhances: &[],
            files: &[],
        },
    );

    // "lib" version 2.0
    provider.add_package(
        repo,
        &PackageSpec {
            name: "lib",
            epoch: "0",
            version: "2.0",
            release: "1",
            arch: "x86_64",
            requires: &[],
            provides: &[],
            conflicts: &[],
            obsoletes: &[],
            recommends: &[],
            suggests: &[],
            supplements: &[],
            enhances: &[],
            files: &[],
        },
    );

    // "new-lib" obsoletes lib < 2.0, and "app" also requires "new-lib"
    provider.add_package(
        repo,
        &PackageSpec {
            name: "new-lib",
            epoch: "0",
            version: "1.0",
            release: "1",
            arch: "x86_64",
            requires: &[],
            provides: &[],
            conflicts: &[],
            obsoletes: &[DependencySpec {
                name: "lib",
                flags: Some(RequirementType::LT),
                epoch: None,
                version: Some("2.0"),
                release: None,
                preinstall: false,
            }],
            recommends: &[],
            suggests: &[],
            supplements: &[],
            enhances: &[],
            files: &[],
        },
    );

    // Require both app and new-lib — the obsoletes should force lib >= 2.0
    let mut solver = new_solver(provider);
    let result = resolve(&mut solver, &["app", "new-lib"], &ResolveOptions::new()).unwrap();
    let names: BTreeSet<String> = result
        .iter()
        .map(|s| solver.provider().package_name(*s))
        .collect();

    assert!(names.contains("lib"), "lib should be in the solution");
    assert!(
        names.contains("new-lib"),
        "new-lib should be in the solution"
    );

    // Verify lib 2.0 was selected (not 1.0, which is obsoleted)
    let lib_version = result
        .iter()
        .find(|&&s| solver.provider().package_name(s) == "lib")
        .map(|s| solver.provider().package_version(*s).to_string())
        .unwrap();
    assert_eq!(
        lib_version, "0:2.0-1",
        "lib 2.0 should be selected, not 1.0"
    );
}

#[test]
fn resolve_suggests_off_by_default() {

    let mut provider = RpmProvider::new(None);
    let repo = provider.add_repo("test");

    provider.add_package(
        repo,
        &PackageSpec {
            name: "app",
            epoch: "0",
            version: "1.0",
            release: "1",
            arch: "x86_64",
            requires: &[],
            provides: &[],
            conflicts: &[],
            obsoletes: &[],
            recommends: &[],
            suggests: &[DependencySpec {
                name: "optional-tool",
                flags: None,
                epoch: None,
                version: None,
                release: None,
                preinstall: false,
            }],
            supplements: &[],
            enhances: &[],
            files: &[],
        },
    );

    provider.add_package(
        repo,
        &PackageSpec {
            name: "optional-tool",
            epoch: "0",
            version: "1.0",
            release: "1",
            arch: "x86_64",
            requires: &[],
            provides: &[],
            conflicts: &[],
            obsoletes: &[],
            recommends: &[],
            suggests: &[],
            supplements: &[],
            enhances: &[],
            files: &[],
        },
    );

    // Default: suggests off
    let mut solver = new_solver(provider);
    let result = resolve(&mut solver, &["app"], &ResolveOptions::new()).unwrap();
    let names: BTreeSet<String> = result
        .iter()
        .map(|s| solver.provider().package_name(*s))
        .collect();
    assert_eq!(
        names,
        BTreeSet::from(["app".to_string()]),
        "suggests should not be pulled in by default"
    );

    // With suggests enabled
    let result = resolve(
        &mut solver,
        &["app"],
        &ResolveOptions::new().enable_suggests(true),
    )
    .unwrap();
    let names: BTreeSet<String> = result
        .iter()
        .map(|s| solver.provider().package_name(*s))
        .collect();
    assert_eq!(
        names,
        BTreeSet::from(["app".to_string(), "optional-tool".to_string()]),
        "suggests should be pulled in when enabled"
    );
}
