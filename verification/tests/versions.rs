use resolvo_rpm::evr::{evr_eq, evr_string, EvrRef};
use resolvo_rpm::package::{invert_flags, RequirementRef, VersionRelation};

fn evr<'a>(epoch: &'a str, version: &'a str, release: &'a str) -> EvrRef<'a> {
    EvrRef { epoch, version, release }
}

fn requirement<'a>(
    flags: Option<VersionRelation>,
    epoch: Option<&'a str>,
    version: Option<&'a str>,
    release: Option<&'a str>,
) -> RequirementRef<'a> {
    RequirementRef { name: "x", flags, epoch, version, release, preinstall: false }
}

#[test]
fn relations_follow_version_order() {
    let at_two = |flags| requirement(Some(flags), None, Some("2.0"), Some("1"));
    let cases = [
        (VersionRelation::LT, [true, false, false]),
        (VersionRelation::LE, [true, true, false]),
        (VersionRelation::EQ, [false, true, false]),
        (VersionRelation::GE, [false, true, true]),
        (VersionRelation::GT, [false, false, true]),
        (VersionRelation::NE, [true, false, true]),
    ];
    for (flags, expected) in cases {
        let r = at_two(flags);
        assert_eq!(r.accepts(evr("0", "1.9", "1")), expected[0]);
        assert_eq!(r.accepts(evr("", "2.0", "1")), expected[1]);
        assert_eq!(r.accepts(evr("0", "2.10", "1")), expected[2]);
    }
}

#[test]
fn epoch_outweighs_version() {
    let r = requirement(Some(VersionRelation::GE), Some("1"), Some("1.0"), None);
    assert!(!r.accepts(evr("0", "9.0", "1")));
    assert!(r.accepts(evr("1", "1.0", "1")));
    assert!(r.accepts(evr("2", "0.1", "1")));
}

#[test]
fn release_breaks_ties() {
    let r = requirement(Some(VersionRelation::LT), None, Some("1.0"), Some("10"));
    assert!(r.accepts(evr("", "1.0", "9")));
    assert!(!r.accepts(evr("", "1.0", "10")));
}

#[test]
fn tilde_sorts_before_release() {
    let r = requirement(Some(VersionRelation::LT), None, Some("1.0"), Some("1"));
    assert!(r.accepts(evr("", "1.0~rc1", "1")));
}

#[test]
fn incomplete_requirement_accepts_everything() {
    assert!(requirement(None, None, Some("9"), None).accepts(evr("", "1", "1")));
    assert!(requirement(Some(VersionRelation::GT), Some("9"), None, None).accepts(evr("", "1", "1")));
}

#[test]
fn inverted_relation_accepts_the_rest() {
    for flags in [
        VersionRelation::LT,
        VersionRelation::GT,
        VersionRelation::EQ,
        VersionRelation::LE,
        VersionRelation::GE,
        VersionRelation::NE,
    ] {
        let plain = requirement(Some(flags), None, Some("2"), Some("1"));
        let inverted = requirement(Some(invert_flags(flags)), None, Some("2"), Some("1"));
        for version in ["1", "2", "3"] {
            let found = evr("", version, "1");
            assert_ne!(plain.accepts(found), inverted.accepts(found));
        }
        assert_eq!(invert_flags(invert_flags(flags)), flags);
    }
}

#[test]
fn version_text_shows_epoch_where_there_is_one() {
    assert_eq!(evr_string(evr("0", "2.0", "1")), "0:2.0-1");
    assert_eq!(evr_string(evr("", "2.0", "1.el9")), "2.0-1.el9");
}

#[test]
fn version_equality_takes_missing_epoch_for_zero() {
    assert!(evr_eq(evr("", "1", "1"), evr("0", "1", "1")));
    assert!(!evr_eq(evr("", "1", "1"), evr("1", "1", "1")));
    assert!(!evr_eq(evr("", "1", "1"), evr("", "1", "2")));
    assert!(!evr_eq(evr("", "1.0", "1"), evr("", "1.00", "1")));
}

#[test]
fn operators_have_symbols() {
    assert_eq!(VersionRelation::LE.as_operator(), "<=");
    assert_eq!(VersionRelation::NE.as_operator(), "!=");
    assert_eq!(VersionRelation::EQ.as_operator(), "=");
}
