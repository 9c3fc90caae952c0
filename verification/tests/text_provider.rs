use std::collections::hash_map::DefaultHasher;
use std::hash::{Hash, Hasher};

use resolvo_rpm::evr::VersionOrder;
use resolvo_rpm::rpm_provider::{
    check_version_constraint, RPMPackageVersion, RPMProvider, RPMRequirement, RepoPackage,
    Requirement,
};
use resolvo_rpm::SolvableId;

fn need(name: &str) -> Requirement {
    Requirement {
        name: name.to_string(),
        flags: None,
        epoch: None,
        version: None,
        release: None,
        preinstall: false,
    }
}

fn at(name: &str, flags: &str, version: &str) -> Requirement {
    Requirement {
        flags: Some(flags.to_string()),
        version: Some(version.to_string()),
        ..need(name)
    }
}

fn package(name: &str, version: &str) -> RPMPackageVersion {
    RPMPackageVersion {
        name: name.to_string(),
        epoch: "0".to_string(),
        version: version.to_string(),
        release: "1".to_string(),
        ..RPMPackageVersion::default()
    }
}

fn repo_package(name: &str, version: &str, provides: &[&str]) -> RepoPackage {
    RepoPackage {
        package: package(name, version),
        provides: provides.iter().map(|s| s.to_string()).collect(),
    }
}

#[test]
fn constraint_texts_compare_versions() {
    let p = package("a", "2");
    let check = |flags| check_version_constraint(Some(flags), None, Some("2"), Some("1"), &p);
    assert!(check("EQ") && check("LE") && check("GE"));
    assert!(!check("LT") && !check("GT"));
    assert!(check("??"));
    assert!(check_version_constraint(None, None, Some("9"), None, &p));
    assert!(check_version_constraint(Some("GT"), None, None, None, &p));
    assert!(!check_version_constraint(Some("GE"), Some("1"), Some("2"), None, &p));
}

#[test]
fn requirements_compare_by_name_version_and_flags() {
    let a = RPMRequirement(at("a", "GE", "1"));
    let mut other = at("a", "GE", "1");
    other.epoch = Some("7".to_string());
    assert!(a == RPMRequirement(other));
    assert!(a != RPMRequirement(at("a", "GE", "2")));
    assert!(a != RPMRequirement(at("a", "GT", "1")));
    assert!(a != RPMRequirement(at("b", "GE", "1")));
    assert_eq!(a.display(), "GE-1");
    assert_eq!(RPMRequirement(need("a")).display(), "UNDEF-UNDEF");
}

#[test]
fn packages_compare_by_name_and_version() {
    let mut bare = package("a", "1");
    bare.epoch = String::new();
    assert!(package("a", "1") == bare);
    assert!(package("a", "1") != package("b", "1"));
    assert!(package("a", "1") != package("a", "2"));
    assert_eq!(package("a", "1").version_order(&package("b", "2")), VersionOrder::Less);
    assert_eq!(package("a", "10").version_order(&package("a", "9")), VersionOrder::Greater);
    assert!(package("b", "1") < package("a", "2"));
    assert!(package("a", "1.10") > package("a", "1.9"));
    assert_eq!(package("a", "1").display(), "0:1-1");
    assert_eq!(format!("{}", package("a", "1")), "0:1-1");
}

#[test]
fn packages_provide_what_they_say() {
    let p = RPMProvider::from_repodata(
        &vec![
            repo_package("a", "1", &["a", "cap"]),
            repo_package("b", "1", &["cap"]),
        ],
        false,
    );
    assert_eq!(p.package_count(), 2);
    let a = p.solvable_name(SolvableId(0));
    let b = p.solvable_name(SolvableId(1));
    assert_eq!(p.get_candidates(a), Some(&vec![SolvableId(0)]));
    assert_eq!(p.get_candidates(b), None);
    assert_eq!(p.display_name(b), "b");
    assert_eq!(p.display_solvable(SolvableId(1)), "b 0:1-1");
}

#[test]
fn dependencies_are_interned_when_asked_for() {
    let mut app = repo_package("app", "1", &["app"]);
    app.package.requires = vec![need("/bin/sh"), need("(x if y)"), at("lib", "GE", "2")];
    app.package.suggests = vec![need("tool"), at("lib", "GE", "2")];
    let packages = vec![app, repo_package("lib", "1", &["lib"]), repo_package("lib", "3", &["lib"])];

    let mut p = RPMProvider::from_repodata(&packages, false);
    assert!(p.has_room_for_dependencies(SolvableId(0)));
    let sets = p.get_dependencies(SolvableId(0));
    let names: Vec<String> =
        sets.iter().map(|s| p.display_name(p.version_set_name(*s)).to_string()).collect();
    assert_eq!(names, ["lib", "tool", "lib"]);
    assert_eq!(sets[0], sets[2]);
    assert_eq!(p.display_version_set(sets[0]), "GE-2");
    let candidates = p.get_candidates(p.version_set_name(sets[0])).unwrap().clone();
    assert_eq!(candidates, vec![SolvableId(1), SolvableId(2)]);
    assert_eq!(p.filter_candidates(&candidates, sets[0], false), vec![SolvableId(2)]);
    assert_eq!(p.filter_candidates(&candidates, sets[0], true), vec![SolvableId(1)]);
    assert!(p.version_set_contains(sets[0], SolvableId(2)));

    let mut quiet = RPMProvider::from_repodata(&packages, true);
    assert_eq!(quiet.get_dependencies(SolvableId(0)).len(), 1);
}

#[test]
fn dependencies_are_held_with_epoch_and_release() {
    let mut wanted = at("lib", "GE", "2.0");
    wanted.epoch = Some("1".to_string());
    wanted.release = Some("3".to_string());
    let mut app = repo_package("app", "1", &["app"]);
    app.package.requires = vec![wanted];
    let mut newer = repo_package("lib", "2.0", &["lib"]);
    newer.package.epoch = "1".to_string();
    newer.package.release = "3".to_string();
    let packages = vec![app, repo_package("lib", "2.0", &["lib"]), newer];
    let mut p = RPMProvider::from_repodata(&packages, false);
    let sets = p.get_dependencies(SolvableId(0));
    let candidates = vec![SolvableId(1), SolvableId(2)];
    assert_eq!(p.filter_candidates(&candidates, sets[0], false), vec![SolvableId(2)]);
    assert!(!p.version_set_contains(sets[0], SolvableId(1)));
}

#[test]
fn first_of_equal_dependencies_is_held() {
    let mut first = at("lib", "GE", "2.0");
    first.epoch = Some("1".to_string());
    let mut app = repo_package("app", "1", &["app"]);
    app.package.requires = vec![first, at("lib", "GE", "2.0")];
    let packages = vec![app, repo_package("lib", "2.0", &["lib"])];
    let mut p = RPMProvider::from_repodata(&packages, false);
    let sets = p.get_dependencies(SolvableId(0));
    assert_eq!(sets[0], sets[1]);
    assert!(!p.version_set_contains(sets[1], SolvableId(1)));
}

#[test]
fn equal_requirements_hash_alike() {
    let hash = |r: &RPMRequirement| {
        let mut state = DefaultHasher::new();
        r.hash(&mut state);
        state.finish()
    };
    let a = RPMRequirement(at("a", "GE", "1"));
    let mut other = at("a", "GE", "1");
    other.epoch = Some("7".to_string());
    other.release = Some("8".to_string());
    other.preinstall = true;
    assert_eq!(hash(&a), hash(&RPMRequirement(other)));
    assert_ne!(hash(&a), hash(&RPMRequirement(at("a", "GT", "1"))));
    assert_eq!(a.hash_key(), ("a", Some("1"), Some("GE")));
    assert_eq!(RPMRequirement(need("b")).hash_key(), ("b", None, None));
}

#[test]
fn candidates_sort_oldest_first() {
    let p = RPMProvider::from_repodata(
        &vec![
            repo_package("lib", "10", &[]),
            repo_package("lib", "9", &[]),
            repo_package("lib", "9", &[]),
            repo_package("lib", "1", &[]),
        ],
        false,
    );
    let mut ids = vec![SolvableId(0), SolvableId(1), SolvableId(2), SolvableId(3)];
    p.sort_candidates(&mut ids);
    assert_eq!(ids, vec![SolvableId(3), SolvableId(1), SolvableId(2), SolvableId(0)]);
}

#[test]
fn empty_provider_has_no_packages() {
    let p = RPMProvider::default();
    assert_eq!(p.package_count(), 0);
    assert!(p.has_room(5));
}
