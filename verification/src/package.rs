//! Packages, dependencies and the ids that stand for interned values.
use vstd::prelude::*;
use crate::evr::{compare_versions, order, EvrModel, EvrRef, VersionOrder};
use crate::text::{opt_str_view, or_empty, str_or_empty, str_texts};

verus! {

/// The id of an interned capability or package name.
#[derive(Clone, Copy, Debug, PartialEq, Eq, Hash, PartialOrd, Ord, Structural)]
pub struct NameId(pub u32);

/// The id of an interned string.
#[derive(Clone, Copy, Debug, PartialEq, Eq, Hash, PartialOrd, Ord, Structural)]
pub struct StringId(pub u32);

/// The id of an interned requirement.
#[derive(Clone, Copy, Debug, PartialEq, Eq, Hash, PartialOrd, Ord, Structural)]
pub struct VersionSetId(pub u32);

/// The id of a package that takes part in a resolution. Ids count up from zero in the
/// order in which packages are added.
#[derive(Clone, Copy, Debug, PartialEq, Eq, Hash, PartialOrd, Ord, Structural)]
pub struct SolvableId(pub u32);

/// The comparison operators that repository metadata can hold.
#[derive(Clone, Copy, Debug, PartialEq, Eq, Hash, Structural)]
pub enum RequirementType {
    LT,
    GT,
    EQ,
    LE,
    GE,
}

/// The comparisons that an interned requirement can make. Beside the operators of the
/// metadata there is `NE`, the inverse of `EQ`.
#[derive(Clone, Copy, Debug, PartialEq, Eq, Hash, Structural)]
pub enum VersionRelation {
    LT,
    GT,
    EQ,
    LE,
    GE,
    NE,
}

/// Whether a version that stands in order `o` to the required one meets the relation.
pub open spec fn relation_holds(relation: VersionRelation, o: VersionOrder) -> bool {
    match relation {
        VersionRelation::LT => o == VersionOrder::Less,
        VersionRelation::GT => o == VersionOrder::Greater,
        VersionRelation::EQ => o == VersionOrder::Equal,
        VersionRelation::LE => o != VersionOrder::Greater,
        VersionRelation::GE => o != VersionOrder::Less,
        VersionRelation::NE => o != VersionOrder::Equal,
    }
}

/// Whether a version that stands in order `o` to the required one meets the relation.
pub fn check_relation(relation: VersionRelation, o: VersionOrder) -> (r: bool)
    ensures
        r == relation_holds(relation, o),
{
    match relation {
        VersionRelation::LT => o == VersionOrder::Less,
        VersionRelation::GT => o == VersionOrder::Greater,
        VersionRelation::EQ => o == VersionOrder::Equal,
        VersionRelation::LE => o != VersionOrder::Greater,
        VersionRelation::GE => o != VersionOrder::Less,
        VersionRelation::NE => o != VersionOrder::Equal,
    }
}

impl RequirementType {
    /// The relation that the operator stands for.
    pub open spec fn spec_relation(self) -> VersionRelation {
        match self {
            RequirementType::LT => VersionRelation::LT,
            RequirementType::GT => VersionRelation::GT,
            RequirementType::EQ => VersionRelation::EQ,
            RequirementType::LE => VersionRelation::LE,
            RequirementType::GE => VersionRelation::GE,
        }
    }

    /// The relation that the operator stands for.
    pub fn relation(self) -> (r: VersionRelation)
        ensures
            r == self.spec_relation(),
    {
        match self {
            RequirementType::LT => VersionRelation::LT,
            RequirementType::GT => VersionRelation::GT,
            RequirementType::EQ => VersionRelation::EQ,
            RequirementType::LE => VersionRelation::LE,
            RequirementType::GE => VersionRelation::GE,
        }
    }
}

impl VersionRelation {
    /// The symbol of the relation.
    pub open spec fn operator_text(self) -> Seq<char> {
        match self {
            VersionRelation::LT => "<"@,
            VersionRelation::GT => ">"@,
            VersionRelation::EQ => "="@,
            VersionRelation::LE => "<="@,
            VersionRelation::GE => ">="@,
            VersionRelation::NE => "!="@,
        }
    }

    /// The symbol of the relation.
    pub fn as_operator(self) -> (r: &'static str)
        ensures
            r@ == self.operator_text(),
    {
        match self {
            VersionRelation::LT => "<",
            VersionRelation::GT => ">",
            VersionRelation::EQ => "=",
            VersionRelation::LE => "<=",
            VersionRelation::GE => ">=",
            VersionRelation::NE => "!=",
        }
    }
}

/// The relation that holds exactly where the given one does not.
pub open spec fn inverse_relation(relation: VersionRelation) -> VersionRelation {
    match relation {
        VersionRelation::LT => VersionRelation::GE,
        VersionRelation::GT => VersionRelation::LE,
        VersionRelation::EQ => VersionRelation::NE,
        VersionRelation::LE => VersionRelation::GT,
        VersionRelation::GE => VersionRelation::LT,
        VersionRelation::NE => VersionRelation::EQ,
    }
}

/// The relation that holds exactly where the given one does not.
pub fn invert_flags(relation: VersionRelation) -> (r: VersionRelation)
    ensures
        r == inverse_relation(relation),
        forall|o: VersionOrder| relation_holds(r, o) == !relation_holds(relation, o),
{
    match relation {
        VersionRelation::LT => VersionRelation::GE,
        VersionRelation::GT => VersionRelation::LE,
        VersionRelation::EQ => VersionRelation::NE,
        VersionRelation::LE => VersionRelation::GT,
        VersionRelation::GE => VersionRelation::LT,
        VersionRelation::NE => VersionRelation::EQ,
    }
}

/// A dependency as repository metadata or a caller writes it down.
#[derive(Clone, Copy, Debug)]
pub struct DependencySpec<'a> {
    pub name: &'a str,
    pub flags: Option<RequirementType>,
    pub epoch: Option<&'a str>,
    pub version: Option<&'a str>,
    pub release: Option<&'a str>,
    pub preinstall: bool,
}

/// A dependency with its texts: the name of the capability and the versions of it that
/// are meant.
#[verifier::ext_equal]
pub struct RequirementModel {
    pub name: Seq<char>,
    pub flags: Option<VersionRelation>,
    pub epoch: Option<Seq<char>>,
    pub version: Option<Seq<char>>,
    pub release: Option<Seq<char>>,
    pub preinstall: bool,
}

impl<'a> View for DependencySpec<'a> {
    type V = RequirementModel;

    open spec fn view(&self) -> RequirementModel {
        RequirementModel {
            name: self.name@,
            flags: match self.flags {
                Some(f) => Some(f.spec_relation()),
                None => None,
            },
            epoch: opt_str_view(self.epoch),
            version: opt_str_view(self.version),
            release: opt_str_view(self.release),
            preinstall: self.preinstall,
        }
    }
}

impl RequirementModel {
    /// The version that the requirement compares with.
    pub open spec fn bound(self) -> EvrModel {
        EvrModel {
            epoch: or_empty(self.epoch),
            version: or_empty(self.version),
            release: or_empty(self.release),
        }
    }

    /// Whether the requirement is met by a package of version `evr`. One without an
    /// operator or without a version is met by every version.
    pub open spec fn accepts(self, evr: EvrModel) -> bool {
        match (self.flags, self.version) {
            (Some(f), Some(_)) => relation_holds(f, order(evr, self.bound())),
            _ => true,
        }
    }

    /// A requirement on the name alone.
    pub open spec fn unversioned(name: Seq<char>) -> RequirementModel {
        RequirementModel {
            name,
            flags: None,
            epoch: None,
            version: None,
            release: None,
            preinstall: false,
        }
    }

    /// What a conflict or an obsoletes entry asks of the other package: a version that the
    /// entry does not name. An entry without an operator names every version; it becomes
    /// a requirement for a version below `0:0`, which no package has.
    pub open spec fn inverted(self) -> RequirementModel {
        match self.flags {
            None => RequirementModel {
                name: self.name,
                flags: Some(VersionRelation::LT),
                epoch: Some("0"@),
                version: Some("0"@),
                release: None,
                preinstall: false,
            },
            Some(f) => RequirementModel { flags: Some(inverse_relation(f)), ..self },
        }
    }
}

/// An inverted requirement is met by exactly those versions that do not meet the
/// requirement itself, where it has an operator and a version.
pub proof fn inverted_accepts_the_rest(r: RequirementModel, evr: EvrModel)
    requires
        r.flags is Some,
        r.version is Some,
    ensures
        r.inverted().accepts(evr) == !r.accepts(evr),
{
}

/// The inverse of a requirement without an operator is met by exactly the versions
/// below `0:0`.
pub proof fn inverted_unversioned_accepts_below_zero(r: RequirementModel, evr: EvrModel)
    requires
        r.flags is None,
    ensures
        r.accepts(evr),
        r.inverted().accepts(evr) == (order(
            evr,
            EvrModel { epoch: "0"@, version: "0"@, release: Seq::empty() },
        ) == VersionOrder::Less),
{
    assert(r.inverted().bound() =~= EvrModel {
        epoch: "0"@,
        version: "0"@,
        release: Seq::empty(),
    });
}

/// Inverting a requirement twice gives the requirement back, where it has an operator.
pub proof fn inverting_twice_restores(r: RequirementModel)
    requires
        r.flags is Some,
    ensures
        r.inverted().inverted() == r,
{
}

/// A requirement with its texts, borrowed.
#[derive(Clone, Copy, Debug)]
pub struct RequirementRef<'a> {
    pub name: &'a str,
    pub flags: Option<VersionRelation>,
    pub epoch: Option<&'a str>,
    pub version: Option<&'a str>,
    pub release: Option<&'a str>,
    pub preinstall: bool,
}

impl<'a> View for RequirementRef<'a> {
    type V = RequirementModel;

    open spec fn view(&self) -> RequirementModel {
        RequirementModel {
            name: self.name@,
            flags: self.flags,
            epoch: opt_str_view(self.epoch),
            version: opt_str_view(self.version),
            release: opt_str_view(self.release),
            preinstall: self.preinstall,
        }
    }
}

impl<'a> RequirementRef<'a> {
    /// Whether the requirement is met by a package of version `evr`.
    pub fn accepts(&self, evr: EvrRef<'_>) -> (r: bool)
        ensures
            r == self@.accepts(evr@),
    {
        match (self.flags, self.version) {
            (Some(f), Some(version)) => {
                let bound = EvrRef {
                    epoch: str_or_empty(self.epoch),
                    version,
                    release: str_or_empty(self.release),
                };
                assert(bound@ =~= self@.bound());
                check_relation(f, compare_versions(evr, bound))
            },
            _ => true,
        }
    }
}

/// A requirement as it is interned: the capability name is kept beside it, the texts are
/// interned strings.
#[derive(Clone, Copy, Debug, PartialEq, Eq, Hash, Structural)]
pub struct RpmRequirement {
    pub flags: Option<VersionRelation>,
    pub epoch: Option<StringId>,
    pub version: Option<StringId>,
    pub release: Option<StringId>,
    pub preinstall: bool,
}

/// The version of a capability that a package provides, where it states one.
#[derive(Clone, Debug)]
pub struct ProvidesVersion {
    pub epoch: String,
    pub version: String,
    pub release: String,
}

impl View for ProvidesVersion {
    type V = EvrModel;

    open spec fn view(&self) -> EvrModel {
        EvrModel { epoch: self.epoch@, version: self.version@, release: self.release@ }
    }
}

impl ProvidesVersion {
    /// The parts of the version, borrowed.
    pub fn evr(&self) -> (r: EvrRef<'_>)
        ensures
            r@ == self@,
    {
        EvrRef {
            epoch: self.epoch.as_str(),
            version: self.version.as_str(),
            release: self.release.as_str(),
        }
    }
}

/// One version of a package, with its dependencies as interned requirements.
#[derive(Debug)]
pub struct RpmPackageVersion {
    pub name: String,
    pub epoch: String,
    pub version: String,
    pub release: String,
    pub arch: String,
    pub repo_id: usize,
    pub requires: Vec<VersionSetId>,
    pub conflicts: Vec<VersionSetId>,
    pub obsoletes: Vec<VersionSetId>,
    pub recommends: Vec<VersionSetId>,
    pub suggests: Vec<VersionSetId>,
    pub supplements: Vec<VersionSetId>,
    pub enhances: Vec<VersionSetId>,
}

/// A package version with its texts and its lists of requirement ids.
#[verifier::ext_equal]
pub struct PackageRecord {
    pub name: Seq<char>,
    pub evr: EvrModel,
    pub arch: Seq<char>,
    pub repo_id: usize,
    pub requires: Seq<VersionSetId>,
    pub conflicts: Seq<VersionSetId>,
    pub obsoletes: Seq<VersionSetId>,
    pub recommends: Seq<VersionSetId>,
    pub suggests: Seq<VersionSetId>,
    pub supplements: Seq<VersionSetId>,
    pub enhances: Seq<VersionSetId>,
}

impl View for RpmPackageVersion {
    type V = PackageRecord;

    open spec fn view(&self) -> PackageRecord {
        PackageRecord {
            name: self.name@,
            evr: EvrModel { epoch: self.epoch@, version: self.version@, release: self.release@ },
            arch: self.arch@,
            repo_id: self.repo_id,
            requires: self.requires@,
            conflicts: self.conflicts@,
            obsoletes: self.obsoletes@,
            recommends: self.recommends@,
            suggests: self.suggests@,
            supplements: self.supplements@,
            enhances: self.enhances@,
        }
    }
}

impl RpmPackageVersion {
    /// The parts of the package's version, borrowed.
    pub fn evr(&self) -> (r: EvrRef<'_>)
        ensures
            r@ == self@.evr,
    {
        EvrRef {
            epoch: self.epoch.as_str(),
            version: self.version.as_str(),
            release: self.release.as_str(),
        }
    }
}

/// A package version with its dependencies written out.
#[verifier::ext_equal]
pub struct PackageModel {
    pub name: Seq<char>,
    pub evr: EvrModel,
    pub arch: Seq<char>,
    pub repo_id: usize,
    pub requires: Seq<RequirementModel>,
    pub conflicts: Seq<RequirementModel>,
    pub obsoletes: Seq<RequirementModel>,
    pub recommends: Seq<RequirementModel>,
    pub suggests: Seq<RequirementModel>,
    pub supplements: Seq<RequirementModel>,
    pub enhances: Seq<RequirementModel>,
}

/// A package that a caller adds by hand.
#[derive(Clone, Copy, Debug)]
pub struct PackageSpec<'a> {
    pub name: &'a str,
    pub epoch: &'a str,
    pub version: &'a str,
    pub release: &'a str,
    pub arch: &'a str,
    pub requires: &'a [DependencySpec<'a>],
    pub provides: &'a [DependencySpec<'a>],
    pub conflicts: &'a [DependencySpec<'a>],
    pub obsoletes: &'a [DependencySpec<'a>],
    pub recommends: &'a [DependencySpec<'a>],
    pub suggests: &'a [DependencySpec<'a>],
    pub supplements: &'a [DependencySpec<'a>],
    pub enhances: &'a [DependencySpec<'a>],
    pub files: &'a [&'a str],
}

/// The dependencies of a list, with their texts.
pub open spec fn dependencies(list: Seq<DependencySpec<'_>>) -> Seq<RequirementModel> {
    list.map_values(|d: DependencySpec<'_>| d@)
}

/// The dependencies of a list, each inverted.
pub open spec fn inverted_all(list: Seq<RequirementModel>) -> Seq<RequirementModel> {
    list.map_values(|r: RequirementModel| r.inverted())
}

/// A capability that a package provides, with the version it states for it, if any.
#[verifier::ext_equal]
pub struct ProvideModel {
    pub name: Seq<char>,
    pub evr: Option<EvrModel>,
}

/// What a `Provides` entry states: its version counts where any of its parts is given.
pub open spec fn provide_model(
    name: Seq<char>,
    epoch: Option<Seq<char>>,
    version: Option<Seq<char>>,
    release: Option<Seq<char>>,
) -> ProvideModel {
    ProvideModel {
        name,
        evr: if version is Some || epoch is Some || release is Some {
            Some(
                EvrModel {
                    epoch: or_empty(epoch),
                    version: or_empty(version),
                    release: or_empty(release),
                },
            )
        } else {
            None
        },
    }
}

/// What the `Provides` entries of a list state.
pub open spec fn provides_of(list: Seq<DependencySpec<'_>>) -> Seq<ProvideModel> {
    list.map_values(
        |d: DependencySpec<'_>|
            provide_model(
                d.name@,
                opt_str_view(d.epoch),
                opt_str_view(d.version),
                opt_str_view(d.release),
            ),
    )
}

impl<'a> PackageSpec<'a> {
    /// The package with its dependencies written out, as it stands in repository `repo_id`.
    /// Conflicts and obsoletes are held inverted: as what they ask of the other package.
    pub open spec fn package(self, repo_id: usize) -> PackageModel {
        PackageModel {
            name: self.name@,
            evr: EvrModel { epoch: self.epoch@, version: self.version@, release: self.release@ },
            arch: self.arch@,
            repo_id,
            requires: dependencies(self.requires@),
            conflicts: inverted_all(dependencies(self.conflicts@)),
            obsoletes: inverted_all(dependencies(self.obsoletes@)),
            recommends: dependencies(self.recommends@),
            suggests: dependencies(self.suggests@),
            supplements: dependencies(self.supplements@),
            enhances: dependencies(self.enhances@),
        }
    }

    /// How many dependencies the package lists.
    pub open spec fn dependency_count(self) -> nat {
        self.requires@.len() + self.conflicts@.len() + self.obsoletes@.len()
            + self.recommends@.len() + self.suggests@.len() + self.supplements@.len()
            + self.enhances@.len()
    }

    /// How many values of one kind adding the package interns at most.
    pub open spec fn size(self) -> nat {
        4 * self.dependency_count() + self.provides@.len() + self.files@.len() + 2
    }

    /// The capabilities that the package provides by `Provides` entries.
    pub open spec fn provided(self) -> Seq<ProvideModel> {
        provides_of(self.provides@)
    }

    /// The files that the package ships.
    pub open spec fn shipped(self) -> Seq<Seq<char>> {
        str_texts(self.files@)
    }
}

} // verus!
