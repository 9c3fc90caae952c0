use std::path::PathBuf;

use resolvo_rpm::comps::GroupLoader;
use resolvo_rpm::loader::{FilelistsLoader, PrimaryLoader, RepoDocuments};
use resolvo_rpm::solving::Candidates;
use resolvo_rpm::updateinfo::UpdateinfoLoader;
use resolvo_rpm::{
    DependencySpec, GroupInstallOptions, LoadOptions, PackageSpec, RequirementType, RpmProvider, SolvableId,
};

fn dep(name: &str) -> DependencySpec<'_> {
    DependencySpec { name, flags: None, epoch: None, version: None, release: None, preinstall: false }
}

fn versioned<'a>(name: &'a str, flags: RequirementType, version: &'a str) -> DependencySpec<'a> {
    DependencySpec { flags: Some(flags), version: Some(version), ..dep(name) }
}

fn spec<'a>(name: &'a str, version: &'a str, arch: &'a str) -> PackageSpec<'a> {
    PackageSpec {
        name,
        epoch: "0",
        version,
        release: "1",
        arch,
        requires: &[],
        provides: &[],
        conflicts: &[],
        obsoletes: &[],
        recommends: &[],
        suggests: &[],
        supplements: &[],
        enhances: &[],
        files: &[],
    }
}

/// The requirement texts of a list of ids.
fn shown(provider: &RpmProvider, ids: &[resolvo_rpm::VersionSetId]) -> Vec<String> {
    ids.iter().map(|id| provider.version_set(*id).display()).collect()
}

#[test]
fn streamed_package_like_added_package() {
    let mut streamed = RpmProvider::new(Some("x86_64"));
    let repo = streamed.add_repo("r");
    let mut loader = PrimaryLoader::new(repo);
    loader.begin_package(&streamed, "app", "x86_64");
    loader.set_evr(&streamed, "0", "1.0", "1");
    loader.add_provide(&mut streamed, &versioned("cap", RequirementType::EQ, "7"));
    loader.add_require(&mut streamed, &versioned("lib", RequirementType::GE, "2"));
    loader.add_conflict(&mut streamed, &versioned("old", RequirementType::LT, "3"));
    loader.add_obsolete(&mut streamed, &dep("older"));
    loader.add_recommend(&mut streamed, &dep("nice"));
    loader.add_suggest(&mut streamed, &dep("nicer"));
    loader.add_supplement(&mut streamed, &dep("sup"));
    loader.add_enhance(&mut streamed, &dep("enh"));
    loader.add_file(&mut streamed, "/usr/bin/app");
    loader.end_package(&mut streamed);

    let mut added = RpmProvider::new(None);
    let repo = added.add_repo("r");
    let provides = [versioned("cap", RequirementType::EQ, "7")];
    let requires = [versioned("lib", RequirementType::GE, "2")];
    let conflicts = [versioned("old", RequirementType::LT, "3")];
    let obsoletes = [dep("older")];
    let recommends = [dep("nice")];
    let suggests = [dep("nicer")];
    let supplements = [dep("sup")];
    let enhances = [dep("enh")];
    let files = ["/usr/bin/app"];
    let mut app = spec("app", "1.0", "x86_64");
    app.provides = &provides;
    app.requires = &requires;
    app.conflicts = &conflicts;
    app.obsoletes = &obsoletes;
    app.recommends = &recommends;
    app.suggests = &suggests;
    app.supplements = &supplements;
    app.enhances = &enhances;
    app.files = &files;
    assert!(added.has_room_for(&app));
    let id = added.add_package(repo, &app);

    for p in [&mut streamed, &mut added] {
        assert_eq!(p.package_count(), 1);
        assert_eq!(p.package_name(id), "app");
        assert_eq!(p.package_version(id), "0:1.0-1");
        assert_eq!(p.repo_label(id), "r");
        let record = p.package(id);
        assert_eq!(record.arch, "x86_64");
        assert_eq!(shown(p, &record.requires), ["lib >= 2"]);
        assert_eq!(shown(p, &record.conflicts), ["old >= 3"]);
        assert_eq!(shown(p, &record.obsoletes), ["older < 0"]);
        assert_eq!(shown(p, &record.recommends), ["nice"]);
        assert_eq!(shown(p, &record.suggests), ["nicer"]);
        assert_eq!(shown(p, &record.supplements), ["sup"]);
        assert_eq!(shown(p, &record.enhances), ["enh"]);
        let deps = p.get_dependencies(id);
        assert_eq!(shown(p, &deps.requirements), ["lib >= 2"]);
        assert_eq!(shown(p, &deps.constrains), ["old >= 3", "older < 0"]);
        for name in ["app", "cap", "/usr/bin/app"] {
            let name_id = p.intern_name(name);
            assert_eq!(p.providers(name_id), Some(&vec![id]));
        }
        let other = p.intern_name("other");
        assert_eq!(p.providers(other), None);
    }
}

#[test]
fn other_architectures_are_passed_over() {
    let mut p = RpmProvider::new(Some("x86_64"));
    let repo = p.add_repo("r");
    let mut loader = PrimaryLoader::new(repo);
    for (name, arch) in [("a", "x86_64"), ("b", "i686"), ("c", "noarch")] {
        loader.begin_package(&p, name, arch);
        loader.set_evr(&p, "0", "1", "1");
        loader.add_require(&mut p, &dep("x"));
        loader.end_package(&mut p);
    }
    assert_eq!(p.package_count(), 2);
    assert_eq!(p.package_name(SolvableId(0)), "a");
    assert_eq!(p.package_name(SolvableId(1)), "c");
}

#[test]
fn boolean_dependencies_are_left_out() {
    let mut p = RpmProvider::new(None);
    let repo = p.add_repo("r");
    let mut loader = PrimaryLoader::new(repo);
    loader.begin_package(&p, "a", "x86_64");
    loader.set_evr(&p, "0", "1", "1");
    loader.add_require(&mut p, &dep("(x if y)"));
    loader.add_require(&mut p, &dep("(x or y)"));
    loader.add_conflict(&mut p, &dep("(x if y)"));
    loader.add_obsolete(&mut p, &dep("(x or y)"));
    loader.add_recommend(&mut p, &dep("(x and y)"));
    loader.add_suggest(&mut p, &dep("(x and y)"));
    loader.add_supplement(&mut p, &dep("(x and y)"));
    loader.add_enhance(&mut p, &dep("(x and y)"));
    loader.end_package(&mut p);
    let record = p.package(SolvableId(0));
    assert_eq!(shown(&p, &record.requires), ["(x or y)"]);
    assert!(record.conflicts.is_empty() && record.obsoletes.is_empty());
    assert!(record.recommends.is_empty() && record.suggests.is_empty());
    assert!(record.supplements.is_empty() && record.enhances.is_empty());
}

#[test]
fn order_of_entries_makes_no_difference() {
    let mut p = RpmProvider::new(None);
    let repo = p.add_repo("r");
    let mut loader = PrimaryLoader::new(repo);
    loader.begin_package(&p, "a", "x86_64");
    loader.add_file(&mut p, "/a");
    loader.add_require(&mut p, &dep("x"));
    loader.add_provide(&mut p, &versioned("cap", RequirementType::EQ, "7"));
    loader.add_conflict(&mut p, &versioned("old", RequirementType::GE, "3"));
    loader.add_require(&mut p, &dep("(x if y)"));
    loader.set_evr(&p, "0", "1", "1");
    loader.add_require(&mut p, &dep("y"));
    loader.end_package(&mut p);
    let id = SolvableId(0);
    assert_eq!(p.package_version(id), "0:1-1");
    assert_eq!(shown(&p, &p.package(id).requires), ["x", "y"]);
    assert_eq!(shown(&p, &p.package(id).conflicts), ["old < 3"]);
    for name in ["a", "cap", "/a"] {
        let name_id = p.intern_name(name);
        assert_eq!(p.providers(name_id), Some(&vec![id]));
    }
}

#[test]
fn passed_over_packages_intern_nothing() {
    let mut p = RpmProvider::new(Some("x86_64"));
    let repo = p.add_repo("r");
    let mut loader = PrimaryLoader::new(repo);
    loader.begin_package(&p, "b", "i686");
    loader.add_file(&mut p, "/b");
    loader.add_require(&mut p, &dep("x"));
    loader.set_evr(&p, "0", "1", "1");
    loader.add_provide(&mut p, &dep("cap"));
    loader.end_package(&mut p);
    assert_eq!(p.package_count(), 0);
    // The first name to be interned is the next one.
    assert_eq!(p.intern_name("fresh"), resolvo_rpm::NameId(0));
    assert_eq!(p.intern_unversioned("fresh"), resolvo_rpm::VersionSetId(0));
}

#[test]
fn file_lists_register_files_for_all_packages_of_the_name() {
    let mut p = RpmProvider::new(None);
    let repo = p.add_repo("r");
    let first = p.add_package(repo, &spec("a", "1", "x86_64"));
    let second = p.add_package(repo, &spec("a", "2", "x86_64"));
    let mut loader = FilelistsLoader::new();
    loader.begin_package(&mut p, "a");
    loader.add_file(&mut p, "/a");
    loader.begin_package(&mut p, "unknown");
    loader.add_file(&mut p, "/b");
    let a = p.intern_name("/a");
    let b = p.intern_name("/b");
    assert_eq!(p.providers(a), Some(&vec![first, second]));
    assert_eq!(p.providers(b), None);
}

#[test]
fn file_lists_pass_over_mere_providers_of_the_name() {
    let mut p = RpmProvider::new(None);
    let repo = p.add_repo("r");
    let provides = [dep("webclient")];
    let mut browser = spec("browser", "1", "x86_64");
    browser.provides = &provides;
    let id = p.add_package(repo, &browser);
    let webclient = p.intern_name("webclient");
    assert_eq!(p.providers(webclient), Some(&vec![id]));
    let mut loader = FilelistsLoader::new();
    loader.begin_package(&mut p, "webclient");
    assert!(loader.current_solvables.is_empty());
    loader.add_file(&mut p, "/usr/bin/w");
    let file = p.intern_name("/usr/bin/w");
    assert_eq!(p.providers(file), None);
}

#[test]
fn file_lists_take_each_package_once() {
    let mut p = RpmProvider::new(None);
    let repo = p.add_repo("r");
    let provides = [versioned("a", RequirementType::EQ, "1")];
    let mut a = spec("a", "1", "x86_64");
    a.provides = &provides;
    let first = p.add_package(repo, &a);
    let mut b = spec("b", "1", "x86_64");
    b.provides = &provides;
    p.add_package(repo, &b);
    let last = p.add_package(repo, &a);
    let mut loader = FilelistsLoader::new();
    loader.begin_package(&mut p, "a");
    assert_eq!(loader.current_solvables, vec![first, last]);
}

#[test]
fn file_lists_are_put_off_and_handed_out_once() {
    let mut p = RpmProvider::new(None);
    let plan = p.load_repo(
        RepoDocuments {
            primary: PathBuf::from("p"),
            filelists: Some(PathBuf::from("f")),
            group: Some(PathBuf::from("g")),
            updateinfo: Some(PathBuf::from("u")),
        },
        "first",
    );
    assert_eq!(plan.repo_id, 0);
    assert_eq!(plan.primary, PathBuf::from("p"));
    assert!(plan.filelists.is_none() && plan.group.is_none() && plan.updateinfo.is_none());

    let file = p.intern_name("/missing");
    let plain = p.intern_name("missing");
    assert!(matches!(p.get_candidates(file), Candidates::NeedsFilelists));
    assert!(matches!(p.get_candidates(plain), Candidates::Missing));
    assert_eq!(p.load_filelists(), vec![PathBuf::from("f")]);
    assert!(p.filelists_loaded());
    assert!(p.load_filelists().is_empty());
    assert!(matches!(p.get_candidates(file), Candidates::Missing));
}

#[test]
fn file_lists_of_a_later_repository_are_handed_out() {
    let documents = |list: &str| RepoDocuments {
        primary: PathBuf::from("p"),
        filelists: Some(PathBuf::from(list)),
        group: None,
        updateinfo: None,
    };
    let mut p = RpmProvider::new(None);
    p.load_repo(documents("a"), "a");
    assert_eq!(p.load_filelists(), vec![PathBuf::from("a")]);
    let plan = p.load_repo(documents("b"), "b");
    let q = p.add_package(plan.repo_id, &spec("q", "1", "x86_64"));
    assert!(!p.filelists_loaded());
    let file = p.intern_name("/f");
    assert!(matches!(p.get_candidates(file), Candidates::NeedsFilelists));
    assert_eq!(p.load_filelists(), vec![PathBuf::from("b")]);
    let mut loader = FilelistsLoader::new();
    loader.begin_package(&mut p, "q");
    loader.add_file(&mut p, "/f");
    assert!(matches!(p.get_candidates(file), Candidates::Found(list) if list == vec![q]));
    assert!(p.load_filelists().is_empty());
    let other = p.intern_name("/g");
    assert!(matches!(p.get_candidates(other), Candidates::Missing));
}

#[test]
fn plan_follows_options() {
    let mut p = RpmProvider::new(None);
    p.add_repo("zero");
    let plan = p.load_repo_with_options(
        RepoDocuments {
            primary: PathBuf::from("p"),
            filelists: Some(PathBuf::from("f")),
            group: Some(PathBuf::from("g")),
            updateinfo: None,
        },
        "one",
        &LoadOptions::new().load_filelists(true).load_groups(true).load_advisories(true),
    );
    assert_eq!(plan.repo_id, 1);
    assert_eq!(plan.filelists, Some(PathBuf::from("f")));
    assert_eq!(plan.group, Some(PathBuf::from("g")));
    assert_eq!(plan.updateinfo, None);
    assert_eq!(p.repo_count(), 2);
    assert!(p.load_filelists().is_empty());
}

#[test]
fn groups_are_collected() {
    let mut loader = GroupLoader::new();
    loader.set_group_id("ignored");
    loader.begin_group();
    loader.set_group_id("core");
    loader.set_group_name("Core", None);
    loader.set_group_name("Kern", Some("de"));
    loader.set_group_description("Base", None);
    loader.set_group_description("Basis", Some("de"));
    loader.set_group_default(true);
    loader.set_group_uservisible(true);
    loader.set_group_biarchonly(true);
    loader.set_group_langonly("de");
    loader.set_group_display_order(7);
    loader.add_group_package("bash", "mandatory", None, false);
    loader.add_group_package("lang", "conditional", Some("x"), true);
    loader.end_group();
    loader.end_group();
    assert_eq!(loader.groups.len(), 1);
    let g = &loader.groups[0];
    assert_eq!(g.id, "core");
    assert_eq!(g.name, "Core");
    assert_eq!(g.name_by_lang, vec![("de".to_string(), "Kern".to_string())]);
    assert_eq!(g.description, "Base");
    assert_eq!(g.desc_by_lang, vec![("de".to_string(), "Basis".to_string())]);
    assert!(g.default && g.uservisible && g.biarchonly);
    assert_eq!(g.langonly.as_deref(), Some("de"));
    assert_eq!(g.display_order, Some(7));
    assert_eq!(g.packages.len(), 2);
    assert_eq!(g.packages[1].requires.as_deref(), Some("x"));
    assert!(g.packages[1].basearchonly);
}

#[test]
fn each_group_and_advisory_becomes_one_package() {
    let mut p = RpmProvider::new(None);
    let repo = p.add_repo("r");
    let mut groups = GroupLoader::new();
    for id in ["core", "base"] {
        groups.begin_group();
        groups.set_group_id(id);
        groups.add_group_package("bash", "mandatory", None, false);
        groups.end_group();
    }
    assert!(p.has_room_for_groups(&groups.groups));
    p.add_groups(repo, &groups.groups, &GroupInstallOptions::new());
    let mut updates = UpdateinfoLoader::new();
    for id in ["A-1", "A-2"] {
        updates.begin_update("security");
        updates.set_id(id);
        updates.begin_collection_package("foo", "0", "2.0", "1", "x86_64");
        updates.end_collection_package();
        updates.end_update();
    }
    assert!(p.has_room_for_advisories(&updates.advisories));
    p.add_advisories(repo, &updates.advisories);
    assert_eq!(p.package_count(), 4);
    for (i, name) in ["@core", "@base", "patch:A-1", "patch:A-2"].iter().enumerate() {
        assert_eq!(p.package_name(SolvableId(i as u32)), *name);
    }
    assert_eq!(shown(&p, &p.package(SolvableId(1)).requires), ["bash"]);
    assert_eq!(shown(&p, &p.package(SolvableId(3)).conflicts), ["foo >= 2.0"]);
}

#[test]
fn advisories_are_collected() {
    let mut loader = UpdateinfoLoader::new();
    loader.begin_update("security");
    loader.set_id("A-1");
    loader.begin_collection_package("foo", "0", "2.0", "1", "x86_64");
    loader.end_collection_package();
    loader.end_collection_package();
    loader.begin_collection_package("bar", "1", "3", "4", "src");
    loader.end_collection_package();
    loader.end_update();
    loader.end_update();
    loader.begin_update("bugfix");
    loader.end_update();
    assert_eq!(loader.advisories.len(), 2);
    let a = &loader.advisories[0];
    assert_eq!(a.id, "A-1");
    assert_eq!(a.update_type, "");
    assert_eq!(a.pkglist.len(), 1);
    let names: Vec<&str> = a.pkglist[0].packages.iter().map(|p| p.name.as_str()).collect();
    assert_eq!(names, ["foo", "bar"]);
    assert_eq!(a.pkglist[0].packages[1].epoch, "1");
    assert_eq!(loader.advisories[1].id, "bugfix");
}
