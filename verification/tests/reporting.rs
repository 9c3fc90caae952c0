use resolvo_rpm::detail::{advisory_detail, advisory_lines};
use resolvo_rpm::query::{advisory_by_id, query_advisories, AdvisoryQuery};
use resolvo_rpm::report::{problem_lines, resolution_lines, resolve_load_options};
use resolvo_rpm::table::{is_before, push_padded, wider, Row, Table};
use resolvo_rpm::text;
use resolvo_rpm::{
    ClosureOptions, DependencySpec, PackageSpec, RequirementType, RpmProvider, UpdateCollection,
    UpdateCollectionPackage, UpdateRecord, UpdateReference,
};

fn row(a: &str, b: &str, c: &str) -> Row {
    Row { first: a.to_string(), second: b.to_string(), third: c.to_string() }
}

fn advisory(id: &str, kind: &str, severity: Option<&str>, package: &str, cve: &str) -> UpdateRecord {
    UpdateRecord {
        id: id.to_string(),
        update_type: kind.to_string(),
        severity: severity.map(|s| s.to_string()),
        title: format!("Title of {}", id),
        references: vec![UpdateReference {
            href: "https://h".to_string(),
            id: Some(cve.to_string()),
            title: None,
            reftype: "cve".to_string(),
        }],
        pkglist: vec![UpdateCollection {
            packages: vec![UpdateCollectionPackage {
                name: package.to_string(),
                epoch: "0".to_string(),
                version: "1".to_string(),
                release: "2".to_string(),
                arch: "noarch".to_string(),
                ..UpdateCollectionPackage::default()
            }],
            ..UpdateCollection::default()
        }],
        ..UpdateRecord::default()
    }
}

fn records() -> Vec<UpdateRecord> {
    vec![
        advisory("A-1", "security", Some("Important"), "foo", "CVE-1"),
        advisory("A-22", "bugfix", None, "bar", "CVE-2"),
        advisory("A-3", "security", Some("Low"), "foo", "CVE-2"),
    ]
}

const NO_FILTER: AdvisoryQuery<'static> =
    AdvisoryQuery { package: None, cve: None, advisory_type: None, severity: None };

fn ids(query: AdvisoryQuery<'_>) -> Vec<String> {
    query_advisories(&records(), &query).iter().map(|a| a.id.clone()).collect()
}

#[test]
fn filters_are_combined() {
    assert_eq!(ids(NO_FILTER), ["A-1", "A-22", "A-3"]);
    assert_eq!(ids(AdvisoryQuery { package: Some("foo"), ..NO_FILTER }), ["A-1", "A-3"]);
    assert_eq!(ids(AdvisoryQuery { cve: Some("CVE-2"), ..NO_FILTER }), ["A-22", "A-3"]);
    assert_eq!(ids(AdvisoryQuery { advisory_type: Some("security"), ..NO_FILTER }), ["A-1", "A-3"]);
    assert_eq!(ids(AdvisoryQuery { severity: Some("Low"), ..NO_FILTER }), ["A-3"]);
    let both = AdvisoryQuery { package: Some("foo"), cve: Some("CVE-2"), ..NO_FILTER };
    assert_eq!(ids(both), ["A-3"]);
    assert!(ids(AdvisoryQuery { package: Some("none"), ..NO_FILTER }).is_empty());
    assert!(ids(AdvisoryQuery { severity: Some("None"), ..NO_FILTER }).is_empty());
}

#[test]
fn references_of_other_kinds_are_no_cves() {
    let mut list = records();
    list[0].references[0].reftype = "bugzilla".to_string();
    list[1].references[0].id = None;
    let query = AdvisoryQuery { cve: Some("CVE-1"), ..NO_FILTER };
    assert!(query_advisories(&list, &query).is_empty());
    let query = AdvisoryQuery { cve: Some("CVE-2"), ..NO_FILTER };
    assert_eq!(query_advisories(&list, &query).len(), 1);
}

#[test]
fn advisories_of_one_id_are_found_together() {
    let mut list = records();
    list[2].id = "A-22".to_string();
    let query = AdvisoryQuery { package: Some("foo"), ..NO_FILTER };
    assert_eq!(query_advisories(&list, &query).len(), 3);
    assert_eq!(advisory_by_id(&list, "A-22").unwrap().update_type, "bugfix");
    assert!(advisory_by_id(&list, "A-4").is_none());
}

#[test]
fn listing_is_aligned() {
    let list = records();
    let lines = advisory_lines(&query_advisories(&list, &NO_FILTER));
    assert_eq!(
        lines,
        [
            "A-1   security  Important  Title of A-1",
            "A-22  bugfix               Title of A-22",
            "A-3   security  Low        Title of A-3",
        ]
    );
    assert!(advisory_lines(&Vec::new()).is_empty());
}

#[test]
fn detail_shows_all_sections() {
    let mut a = advisory("A-1", "security", None, "foo", "CVE-1");
    a.issued_date = Some("2024-01-01".to_string());
    a.updated_date = Some("2024-02-02".to_string());
    a.references.push(UpdateReference {
        href: "https://long".to_string(),
        id: Some("CVE-1234".to_string()),
        title: None,
        reftype: "cve".to_string(),
    });
    a.pkglist[0].packages.push(UpdateCollectionPackage {
        name: "longer".to_string(),
        version: "10".to_string(),
        release: "1".to_string(),
        arch: "src".to_string(),
        ..UpdateCollectionPackage::default()
    });
    assert_eq!(
        advisory_detail(&a),
        [
            "A-1  security  None",
            "Title of A-1",
            "Issued:  2024-01-01",
            "Updated: 2024-02-02",
            "",
            "References:",
            "  CVE-1     https://h",
            "  CVE-1234  https://long",
            "",
            "Packages:",
            "  foo     0:1-2  noarch",
            "  longer  10-1   src",
        ]
    );
}

#[test]
fn detail_leaves_empty_sections_out() {
    let a = UpdateRecord {
        id: "A".to_string(),
        update_type: "bugfix".to_string(),
        severity: Some("Low".to_string()),
        ..UpdateRecord::default()
    };
    assert_eq!(advisory_detail(&a), ["A  bugfix  Low", ""]);
}

#[test]
fn table_is_sorted_and_holds_each_row_once() {
    let mut table = Table::new();
    for r in [row("b", "1", "x"), row("a", "2", "x"), row("b", "1", "x"), row("a", "1", "y"), row("B", "1", "x")] {
        table.insert(r);
    }
    let rows: Vec<(&str, &str, &str)> = table
        .rows()
        .iter()
        .map(|r| (r.first.as_str(), r.second.as_str(), r.third.as_str()))
        .collect();
    assert_eq!(rows, [("B", "1", "x"), ("a", "1", "y"), ("a", "2", "x"), ("b", "1", "x")]);
}

#[test]
fn texts_are_ordered_by_bytes() {
    assert!(is_before("", "a"));
    assert!(is_before("a", "aa"));
    assert!(is_before("Z", "a"));
    assert!(is_before("z", "é"));
    assert!(!is_before("a", "a"));
    assert!(!is_before("b", "ab"));
}

#[test]
fn widths_count_bytes_and_padding_counts_characters() {
    assert_eq!(wider(0, "é"), 2);
    assert_eq!(wider(3, "é"), 3);
    let mut line = String::from("|");
    push_padded(&mut line, "é", 2);
    push_padded(&mut line, "abc", 2);
    assert_eq!(line, "|é abc");
}

#[test]
fn resolution_is_shown_as_a_table() {
    let mut p = RpmProvider::new(None);
    let repo = p.add_repo("base");
    let spec = |name, version| PackageSpec {
        name,
        epoch: "0",
        version,
        release: "1",
        arch: "x86_64",
        requires: &[],
        provides: &[],
        conflicts: &[],
        obsoletes: &[],
        recommends: &[],
        suggests: &[],
        supplements: &[],
        enhances: &[],
        files: &[],
    };
    let b = p.add_package(repo, &spec("bash", "5.2"));
    let a = p.add_package(repo, &spec("a", "1"));
    let table = p.resolution_table(&[b, a, b]);
    assert_eq!(resolution_lines(&table), ["a     0:1-1    [base]", "bash  0:5.2-1  [base]"]);
}

#[test]
fn problems_are_shown_as_a_table() {
    let mut p = RpmProvider::new(None);
    let repo = p.add_repo("base");
    let needs = [
        DependencySpec {
            name: "lib",
            flags: Some(RequirementType::GE),
            epoch: None,
            version: Some("2"),
            release: Some("9"),
            preinstall: false,
        },
        DependencySpec {
            name: "any",
            flags: None,
            epoch: None,
            version: None,
            release: None,
            preinstall: false,
        },
    ];
    p.add_package(
        repo,
        &PackageSpec {
            name: "app",
            epoch: "",
            version: "1",
            release: "1",
            arch: "x86_64",
            requires: &needs,
            provides: &[],
            conflicts: &[],
            obsoletes: &[],
            recommends: &[],
            suggests: &[],
            supplements: &[],
            enhances: &[],
            files: &[],
        },
    );
    let problems = p.check_closure(&ClosureOptions::new());
    let table = p.problem_table(&problems);
    assert_eq!(problem_lines(&table), ["app  1-1  requires: any", "app  1-1  requires: lib >= 2"]);
}

#[test]
fn names_decide_what_is_loaded() {
    let options = |names: &[&str]| {
        resolve_load_options(&names.iter().map(|s| s.to_string()).collect())
    };
    let o = options(&["bash"]);
    assert!(!o.load_groups && !o.load_advisories && !o.load_filelists);
    let o = options(&["bash", "@core"]);
    assert!(o.load_groups && !o.load_advisories);
    let o = options(&["patch:A-1"]);
    assert!(!o.load_groups && o.load_advisories);
    let o = options(&["patch", "x@y", "dispatch:x"]);
    assert!(!o.load_groups && !o.load_advisories);
}

#[test]
fn text_helpers() {
    assert!(text::str_eq("é", "é") && !text::str_eq("a", "b") && !text::str_eq("a", "aa"));
    assert!(text::contains("a if b", " if ") && !text::contains("aif", " if "));
    assert!(text::contains("abc", "") && text::contains("aab", "ab"));
    assert!(text::starts_with("patch:x", "patch:") && !text::starts_with("pat", "patch:"));
    assert!(text::starts_with_char("/a", '/') && !text::starts_with_char("", '/'));
    assert_eq!(text::concat("a", "é"), "aé");
}
