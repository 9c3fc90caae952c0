//! Epoch, version and release: the order of package versions and their text form.
use vstd::prelude::*;
use vstd::string::*;
use crate::text::{concat, str_eq};

verus! {

/// How one version stands to another.
#[derive(Clone, Copy, Debug, PartialEq, Eq, Hash, Structural)]
pub enum VersionOrder {
    Less,
    Equal,
    Greater,
}

impl VersionOrder {
    /// How the second of two versions stands to the first.
    pub open spec fn flipped(self) -> VersionOrder {
        match self {
            VersionOrder::Less => VersionOrder::Greater,
            VersionOrder::Equal => VersionOrder::Equal,
            VersionOrder::Greater => VersionOrder::Less,
        }
    }
}

/// An epoch, a version and a release, as texts.
#[verifier::ext_equal]
pub struct EvrModel {
    pub epoch: Seq<char>,
    pub version: Seq<char>,
    pub release: Seq<char>,
}

/// The result of `rpm_version::Evr::cmp` on two epoch-version-release triples: the
/// version order of RPM, with an empty epoch read as `0`.
pub uninterp spec fn evr_order(
    epoch1: Seq<char>,
    version1: Seq<char>,
    release1: Seq<char>,
    epoch2: Seq<char>,
    version2: Seq<char>,
    release2: Seq<char>,
) -> VersionOrder;

/// The order of two versions.
pub open spec fn order(a: EvrModel, b: EvrModel) -> VersionOrder {
    evr_order(a.epoch, a.version, a.release, b.epoch, b.version, b.release)
}

/// Whether `a` is at least as new as `b`, seen from both sides.
pub open spec fn not_older(a: EvrModel, b: EvrModel) -> bool {
    order(a, b) != VersionOrder::Less && order(b, a) != VersionOrder::Greater
}

/// The three parts of a version, borrowed.
#[derive(Clone, Copy, Debug)]
pub struct EvrRef<'a> {
    pub epoch: &'a str,
    pub version: &'a str,
    pub release: &'a str,
}

impl<'a> View for EvrRef<'a> {
    type V = EvrModel;

    open spec fn view(&self) -> EvrModel {
        EvrModel { epoch: self.epoch@, version: self.version@, release: self.release@ }
    }
}

/// Compares two versions with `rpm_version::Evr::cmp`.
///
/// Claimed of that function: it gives the same answer for the same texts, the answer for the
/// two versions swapped is the opposite one, and it is transitive, as `Ord` asks: where one
/// version is not older than another, it is not older than all that the other is not older
/// than. (It compares epoch, version and release in turn, each as a sequence of segments under
/// one fixed order of segments.) What the order of segments is, is left to `rpm_version`.
#[verifier::external_body]
pub(crate) fn compare_versions(a: EvrRef<'_>, b: EvrRef<'_>) -> (r: VersionOrder)
    ensures
        r == evr_order(
            a.epoch@,
            a.version@,
            a.release@,
            b.epoch@,
            b.version@,
            b.release@,
        ),
        order(b@, a@) == r.flipped(),
        forall|c: EvrModel| #[trigger]
            not_older(a@, c) && #[trigger] not_older(c, b@) ==> r != VersionOrder::Less,
        r != VersionOrder::Less ==> forall|c: EvrModel| #[trigger]
            not_older(b@, c) ==> not_older(a@, c),
        r != VersionOrder::Less ==> forall|c: EvrModel| #[trigger]
            not_older(c, a@) ==> not_older(c, b@),
        r != VersionOrder::Greater ==> forall|c: EvrModel| #[trigger]
            not_older(a@, c) ==> not_older(b@, c),
        r != VersionOrder::Greater ==> forall|c: EvrModel| #[trigger]
            not_older(c, b@) ==> not_older(c, a@),
{
    let left = rpm_version::Evr::new(a.epoch, a.version, a.release);
    let right = rpm_version::Evr::new(b.epoch, b.version, b.release);
    match left.cmp(&right) {
        std::cmp::Ordering::Less => VersionOrder::Less,
        std::cmp::Ordering::Equal => VersionOrder::Equal,
        std::cmp::Ordering::Greater => VersionOrder::Greater,
    }
}

/// Whether two versions are written alike: equal version and release, and epochs that
/// are equal or differ only as an empty epoch differs from `0`.
pub open spec fn same_evr(a: EvrModel, b: EvrModel) -> bool {
    &&& a.epoch == b.epoch || (a.epoch.len() == 0 && b.epoch == "0"@) || (a.epoch == "0"@
        && b.epoch.len() == 0)
    &&& a.version == b.version
    &&& a.release == b.release
}

/// Whether two versions are written alike.
pub fn evr_eq(a: EvrRef<'_>, b: EvrRef<'_>) -> (r: bool)
    ensures
        r == same_evr(a@, b@),
{
    let epochs: bool = str_eq(a.epoch, b.epoch) || (a.epoch.is_empty() && str_eq(b.epoch, "0"))
        || (str_eq(a.epoch, "0") && b.epoch.is_empty());
    epochs && str_eq(a.version, b.version) && str_eq(a.release, b.release)
}

/// The text form of a version: `epoch:version-release`, or `version-release` where the
/// epoch is empty.
pub open spec fn evr_text(e: EvrModel) -> Seq<char> {
    if e.epoch.len() == 0 {
        e.version + seq!['-'] + e.release
    } else {
        e.epoch + seq![':'] + e.version + seq!['-'] + e.release
    }
}

/// The text form of a version.
pub fn evr_string(e: EvrRef<'_>) -> (r: String)
    ensures
        r@ == evr_text(e@),
{
    proof {
        reveal_strlit("-");
        reveal_strlit(":");
        assert("-"@ =~= seq!['-']);
        assert(":"@ =~= seq![':']);
    }
    let mut s: String = if e.epoch.is_empty() {
        e.version.to_owned()
    } else {
        let mut t: String = concat(e.epoch, ":");
        t.append(e.version);
        t
    };
    s.append("-");
    s.append(e.release);
    s
}

} // verus!
