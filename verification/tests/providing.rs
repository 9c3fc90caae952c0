use resolvo_rpm::metadata::{CompsGroup, CompsPackageReq, UpdateCollection, UpdateCollectionPackage};
use resolvo_rpm::{
    ClosureOptions, DependencySpec, GroupInstallOptions, PackageSpec, RequirementType,
    ResolveOptions, RpmProvider, SolvableId, UpdateRecord, VersionSetId,
};

fn plain(name: &str) -> DependencySpec<'_> {
    DependencySpec { name, flags: None, epoch: None, version: None, release: None, preinstall: false }
}

fn with_version<'a>(name: &'a str, flags: RequirementType, version: &'a str) -> DependencySpec<'a> {
    DependencySpec { flags: Some(flags), version: Some(version), ..plain(name) }
}

fn package<'a>(name: &'a str, version: &'a str) -> PackageSpec<'a> {
    PackageSpec {
        name,
        epoch: "0",
        version,
        release: "1",
        arch: "x86_64",
        requires: &[],
        provides: &[],
        conflicts: &[],
        obsoletes: &[],
        recommends: &[],
        suggests: &[],
        supplements: &[],
        enhances: &[],
        files: &[],
    }
}

fn texts(provider: &RpmProvider, ids: &[VersionSetId]) -> Vec<String> {
    ids.iter().map(|id| provider.version_set(*id).display()).collect()
}

#[test]
fn stated_version_of_a_capability_counts() {
    let mut p = RpmProvider::new(None);
    let repo = p.add_repo("r");
    let provides = [
        with_version("cap", RequirementType::EQ, "5"),
        plain("other"),
    ];
    let mut lib = package("lib", "1");
    lib.provides = &provides;
    let lib = p.add_package(repo, &lib);
    let cap = p.intern_requirement(&with_version("cap", RequirementType::GE, "5"));
    let other = p.intern_requirement(&with_version("other", RequirementType::GE, "5"));
    let own = p.intern_requirement(&with_version("lib", RequirementType::GE, "5"));
    assert!(p.version_set_contains(cap, lib));
    assert!(!p.version_set_contains(other, lib));
    assert!(!p.version_set_contains(own, lib));
}

#[test]
fn last_stated_version_counts() {
    let mut p = RpmProvider::new(None);
    let repo = p.add_repo("r");
    let provides = [
        with_version("cap", RequirementType::EQ, "5"),
        with_version("cap", RequirementType::EQ, "6"),
    ];
    let mut lib = package("lib", "1");
    lib.provides = &provides;
    let lib = p.add_package(repo, &lib);
    let six = p.intern_requirement(&with_version("cap", RequirementType::EQ, "6"));
    assert!(p.version_set_contains(six, lib));
    let name = p.intern_name("cap");
    assert_eq!(p.providers(name), Some(&vec![lib, lib]));
}

#[test]
fn equal_requirements_share_an_id() {
    let mut p = RpmProvider::new(None);
    let a = p.intern_requirement(&with_version("x", RequirementType::GE, "1"));
    let b = p.intern_requirement(&with_version("x", RequirementType::GE, "1"));
    let c = p.intern_requirement(&with_version("y", RequirementType::GE, "1"));
    assert_eq!(a, b);
    assert_ne!(a, c);
    assert_eq!(p.intern_name("x"), p.version_set_name(a));
}

#[test]
fn candidates_are_filtered_both_ways() {
    let mut p = RpmProvider::new(None);
    let repo = p.add_repo("r");
    let ids: Vec<SolvableId> =
        ["1", "2", "3"].iter().map(|v| p.add_package(repo, &package("lib", v))).collect();
    // The package's release makes 2-1 newer than a bare 2.
    let set = p.intern_requirement(&with_version("lib", RequirementType::GT, "2"));
    assert_eq!(p.filter_candidates(&ids, set, false), vec![ids[1], ids[2]]);
    assert_eq!(p.filter_candidates(&ids, set, true), vec![ids[0]]);
}

#[test]
fn candidates_sort_by_repository_then_version() {
    let mut p = RpmProvider::new(None);
    let first = p.add_repo("first");
    let second = p.add_repo("second");
    let new_second = p.add_package(second, &package("lib", "9"));
    let old_first = p.add_package(first, &package("lib", "1"));
    let new_first = p.add_package(first, &package("lib", "2"));
    let twin = p.add_package(first, &package("lib", "2"));
    let mut ids = vec![new_second, old_first, new_first, twin];
    p.sort_candidates(&mut ids);
    assert_eq!(ids, vec![new_first, twin, old_first, new_second]);
    let any = p.intern_unversioned("lib");
    assert_eq!(p.best_candidate(any), Some(new_first));
    let none = p.intern_requirement(&with_version("lib", RequirementType::GT, "10"));
    assert_eq!(p.best_candidate(none), None);
    assert!(p.is_satisfied(any) && !p.is_satisfied(none));
}

#[test]
fn newest_of_name_and_architecture() {
    let mut p = RpmProvider::new(None);
    let repo = p.add_repo("r");
    let old = p.add_package(repo, &package("a", "1"));
    let new = p.add_package(repo, &package("a", "2"));
    let mut other = package("a", "0.5");
    other.arch = "i686";
    let other = p.add_package(repo, &other);
    assert!(p.is_outdated(old));
    assert!(!p.is_outdated(new));
    assert!(!p.is_outdated(other));
}

#[test]
fn closure_reports_in_order_and_asks_for_file_lists() {
    let mut p = RpmProvider::new(None);
    let repo = p.add_repo("r");
    let needs = [plain("b"), plain("/bin/x"), plain("a")];
    let mut a = package("a", "1");
    a.requires = &needs;
    let a = p.add_package(repo, &a);
    let problems = p.check_closure(&ClosureOptions::new());
    let shown: Vec<(SolvableId, String)> =
        problems.iter().map(|(s, set)| (*s, p.version_set(*set).display())).collect();
    assert_eq!(shown, vec![(a, "b".to_string()), (a, "/bin/x".to_string())]);
    assert!(p.misses_file(&problems));
    p.load_filelists();
    assert!(!p.misses_file(&problems));
}

#[test]
fn adding_a_provider_mends_and_breaks_nothing() {
    let mut p = RpmProvider::new(None);
    let repo = p.add_repo("r");
    let needs = [with_version("lib", RequirementType::LT, "2")];
    let mut a = package("a", "1");
    a.requires = &needs;
    p.add_package(repo, &a);
    assert_eq!(p.check_closure(&ClosureOptions::new()).len(), 1);
    p.add_package(repo, &package("lib", "1"));
    assert!(p.check_closure(&ClosureOptions::new()).is_empty());
    p.add_package(repo, &package("lib", "5"));
    assert!(p.check_closure(&ClosureOptions::new()).is_empty());
}

#[test]
fn group_becomes_a_package() {
    let mut p = RpmProvider::new(None);
    let repo = p.add_repo("r");
    let member = |name: &str, reqtype: &str, requires: Option<&str>| CompsPackageReq {
        name: name.to_string(),
        reqtype: reqtype.to_string(),
        requires: requires.map(|s| s.to_string()),
        basearchonly: false,
    };
    let group = CompsGroup {
        id: "core".to_string(),
        packages: vec![
            member("m", "mandatory", None),
            member("d", "default", None),
            member("o", "optional", None),
            member("c", "conditional", Some("x")),
            member("md", "mandatory", Some("x")),
            member("u", "unknown", None),
        ],
        ..CompsGroup::default()
    };
    assert!(p.has_room_for_group(&group));
    let id = p.add_group(repo, &group, &GroupInstallOptions::new());
    assert_eq!(p.package_name(id), "@core");
    assert_eq!(p.package_version(id), "0:1.0-1");
    assert_eq!(p.package(id).arch, "noarch");
    assert_eq!(texts(&p, &p.package(id).requires), ["m", "d"]);
    let options = GroupInstallOptions::new().include_mandatory(false).include_optional(true);
    let id = p.add_group(repo, &group, &options);
    assert_eq!(texts(&p, &p.package(id).requires), ["d", "o"]);
    assert_eq!(id, SolvableId(1));
}

#[test]
fn advisory_becomes_a_package() {
    let mut p = RpmProvider::new(None);
    let repo = p.add_repo("r");
    let entry = |name: &str, epoch: &str, release: &str, arch: &str| UpdateCollectionPackage {
        name: name.to_string(),
        epoch: epoch.to_string(),
        version: "2.0".to_string(),
        release: release.to_string(),
        arch: arch.to_string(),
        ..UpdateCollectionPackage::default()
    };
    let advisory = UpdateRecord {
        id: "A-1".to_string(),
        pkglist: vec![
            UpdateCollection {
                packages: vec![
                    entry("foo", "", "1", "x86_64"),
                    entry("foo", "", "1", "src"),
                    entry("", "", "1", "x86_64"),
                ],
                ..UpdateCollection::default()
            },
            UpdateCollection {
                packages: vec![entry("bar", "3", "", "noarch")],
                ..UpdateCollection::default()
            },
        ],
        ..UpdateRecord::default()
    };
    assert!(p.has_room_for_advisory(&advisory));
    let id = p.add_advisory(repo, &advisory);
    assert_eq!(p.package_name(id), "patch:A-1");
    assert_eq!(p.package_version(id), "0:0-1");
    let conflicts = p.package(id).conflicts.clone();
    assert_eq!(conflicts.len(), 2);
    let foo = p.version_set(conflicts[0]);
    assert_eq!((foo.name, foo.epoch, foo.version, foo.release), ("foo", Some("0"), Some("2.0"), Some("1")));
    let bar = p.version_set(conflicts[1]);
    assert_eq!((bar.name, bar.epoch, bar.version, bar.release), ("bar", Some("3"), Some("2.0"), None));
    let fixed = p.add_package(repo, &package("foo", "2.0"));
    let broken = p.add_package(repo, &package("foo", "1.9"));
    assert!(p.version_set_contains(conflicts[0], fixed));
    assert!(!p.version_set_contains(conflicts[0], broken));
}

#[test]
fn weak_dependencies_are_picked() {
    let mut p = RpmProvider::new(None);
    let repo = p.add_repo("r");
    let recommends = [plain("nice"), plain("absent"), plain("there")];
    let suggests = [plain("nicer")];
    let mut app = package("app", "1");
    app.recommends = &recommends;
    app.suggests = &suggests;
    let app = p.add_package(repo, &app);
    let nice_old = p.add_package(repo, &package("nice", "1"));
    let nice_new = p.add_package(repo, &package("nice", "2"));
    let nicer = p.add_package(repo, &package("nicer", "1"));
    let there = p.add_package(repo, &package("there", "1"));
    let solution = [app, there];
    let picks = |o: &ResolveOptions| p.collect_recommended_solvables(&solution, o);
    assert_eq!(picks(&ResolveOptions::new()), vec![nice_new]);
    assert_eq!(picks(&ResolveOptions::new().enable_suggests(true)), vec![nice_new, nicer]);
    assert!(picks(&ResolveOptions::new().enable_recommends(false)).is_empty());
    assert_eq!(
        p.collect_recommended_solvables(&[app, there, nice_old], &ResolveOptions::new()),
        Vec::<SolvableId>::new()
    );
}

#[test]
fn install_requirements_name_any_version() {
    let mut p = RpmProvider::new(None);
    let ids = p.make_install_requirements(&["a", "@g", "a"]);
    assert_eq!(texts(&p, &ids), ["a", "@g", "a"]);
    assert_eq!(ids[0], ids[2]);
    assert!(p.has_room(1));
    assert!(!p.has_room(0x1_0000_0000));
}
