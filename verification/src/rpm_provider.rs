//! A provider over packages whose dependencies are interned when the solver asks for them.
//!
//! Requirements compare by the texts that the metadata holds (`EQ`, `LT`, ...). Weak
//! dependencies count as hard ones unless they are switched off, and dependencies on files
//! are passed over.
use vstd::prelude::*;
use vstd::string::*;
use vstd::std_specs::cmp::{PartialEqSpecImpl, PartialOrdSpecImpl};
use core::cmp::Ordering;
use core::fmt::Display;
use core::hash::{Hash, Hasher};
use resolvo::utils::{Pool, VersionSet};
use crate::evr::{
    compare_versions, evr_eq, evr_string, evr_text, not_older, order, same_evr, EvrModel, EvrRef,
    VersionOrder,
};
use crate::index::{index_kept, index_valid, named_by_id, providers_by_name, providers_registered};
use crate::model::{providers_in, with_provider, with_providers};
use crate::package::{
    check_relation, relation_holds, NameId, SolvableId, VersionRelation, VersionSetId,
};
use crate::pool::{extended, with_value, ID_LIMIT};
use crate::provides::ProvidesMap;
use crate::sorting::{in_order, insertion_keeps_sorted, nothing_is_sorted, stably_sorted};
use crate::text::{
    begins_with, concat, contains, occurs_in, opt_str_view, opt_view, or_empty, starts_with_char,
    str_eq, str_or_empty, texts,
};

verus! {

/// A dependency as repository metadata writes it down.
#[derive(Clone, Debug)]
pub struct Requirement {
    pub name: String,
    /// `EQ`, `LT`, `GT`, `LE` or `GE`; any other text is met by every version.
    pub flags: Option<String>,
    pub epoch: Option<String>,
    pub version: Option<String>,
    pub release: Option<String>,
    pub preinstall: bool,
}

/// A dependency, with its texts.
#[verifier::ext_equal]
pub struct RequirementText {
    pub name: Seq<char>,
    pub flags: Option<Seq<char>>,
    pub epoch: Option<Seq<char>>,
    pub version: Option<Seq<char>>,
    pub release: Option<Seq<char>>,
    pub preinstall: bool,
}

impl View for Requirement {
    type V = RequirementText;

    open spec fn view(&self) -> RequirementText {
        RequirementText {
            name: self.name@,
            flags: opt_view(self.flags),
            epoch: opt_view(self.epoch),
            version: opt_view(self.version),
            release: opt_view(self.release),
            preinstall: self.preinstall,
        }
    }
}

/// A copy of an optional string.
fn copy_text(s: &Option<String>) -> (r: Option<String>)
    ensures
        opt_view(r) == opt_view(*s),
{
    match s {
        Some(t) => Some(t.clone()),
        None => None,
    }
}

/// An optional string, borrowed.
fn borrowed(s: &Option<String>) -> (r: Option<&str>)
    ensures
        opt_str_view(r) == opt_view(*s),
{
    match s {
        Some(t) => Some(t.as_str()),
        None => None,
    }
}

/// Whether two optional strings are equal.
fn same_text(a: &Option<String>, b: &Option<String>) -> (r: bool)
    ensures
        r == (opt_view(*a) == opt_view(*b)),
{
    match (a, b) {
        (Some(x), Some(y)) => str_eq(x.as_str(), y.as_str()),
        (None, None) => true,
        _ => false,
    }
}

impl Requirement {
    /// A copy of the dependency.
    pub fn copy(&self) -> (r: Requirement)
        ensures
            r@ == self@,
    {
        Requirement {
            name: self.name.clone(),
            flags: copy_text(&self.flags),
            epoch: copy_text(&self.epoch),
            version: copy_text(&self.version),
            release: copy_text(&self.release),
            preinstall: self.preinstall,
        }
    }
}

/// A dependency as it is interned. Two of them count as equal where name, version and
/// comparison are, whatever epoch and release they have.
#[derive(Clone, Debug)]
pub struct RPMRequirement(pub Requirement);

/// Whether two dependencies count as equal.
pub open spec fn similar(a: RequirementText, b: RequirementText) -> bool {
    a.name == b.name && a.version == b.version && a.flags == b.flags
}

impl PartialEq for RPMRequirement {
    fn eq(&self, other: &Self) -> (r: bool) {
        str_eq(self.0.name.as_str(), other.0.name.as_str()) && same_text(
            &self.0.version,
            &other.0.version,
        ) && same_text(&self.0.flags, &other.0.flags)
    }
}

impl PartialEqSpecImpl for RPMRequirement {
    open spec fn obeys_eq_spec() -> bool {
        true
    }

    open spec fn eq_spec(&self, other: &Self) -> bool {
        similar(self.0@, other.0@)
    }
}

impl Eq for RPMRequirement {

}

impl RPMRequirement {
    /// What is hashed of a dependency: name, version and comparison. Two dependencies agree in
    /// it where they count as equal, and only there.
    pub fn hash_key(&self) -> (r: (&str, Option<&str>, Option<&str>))
        ensures
            r.0@ == self.0@.name,
            opt_str_view(r.1) == self.0@.version,
            opt_str_view(r.2) == self.0@.flags,
            forall|other: RequirementText| #[trigger]
                similar(self.0@, other) <==> r.0@ == other.name && opt_str_view(r.1)
                    == other.version && opt_str_view(r.2) == other.flags,
    {
        (self.0.name.as_str(), borrowed(&self.0.version), borrowed(&self.0.flags))
    }
}

impl Hash for RPMRequirement {
    /// `std::hash::Hash::hash` on the key of the dependency. Nothing is claimed of it: no
    /// function of the library calls it, `resolvo::utils::Pool` asks that it is there and
    /// agrees with `==`.
    #[verifier::external_body]
    fn hash<H: Hasher>(&self, state: &mut H) {
        self.hash_key().hash(state)
    }
}

impl RPMRequirement {
    /// The dependency as text: comparison and version, `UNDEF` for what is missing.
    pub fn display(&self) -> (r: String)
        ensures
            r@ == requirement_display(self.0@),
    {
        let mut s: String = match &self.0.flags {
            Some(f) => f.clone(),
            None => "UNDEF".to_owned(),
        };
        s.append("-");
        match &self.0.version {
            Some(v) => s.append(v.as_str()),
            None => s.append("UNDEF"),
        }
        s
    }
}

/// A dependency as text.
pub open spec fn requirement_display(r: RequirementText) -> Seq<char> {
    (match r.flags {
        Some(f) => f,
        None => "UNDEF"@,
    }) + "-"@ + (match r.version {
        Some(v) => v,
        None => "UNDEF"@,
    })
}

/// One version of a package with its dependencies.
#[derive(Clone, Debug)]
pub struct RPMPackageVersion {
    pub name: String,
    pub epoch: String,
    pub version: String,
    pub release: String,
    pub requires: Vec<Requirement>,
    pub suggests: Vec<Requirement>,
}

/// One version of a package, with its texts.
#[verifier::ext_equal]
pub struct PackageText {
    pub name: Seq<char>,
    pub evr: EvrModel,
    pub requires: Seq<RequirementText>,
    pub suggests: Seq<RequirementText>,
}

/// The dependencies of a list, with their texts.
pub open spec fn requirement_texts(list: Seq<Requirement>) -> Seq<RequirementText> {
    list.map_values(|r: Requirement| r@)
}

impl View for RPMPackageVersion {
    type V = PackageText;

    open spec fn view(&self) -> PackageText {
        PackageText {
            name: self.name@,
            evr: EvrModel { epoch: self.epoch@, version: self.version@, release: self.release@ },
            requires: requirement_texts(self.requires@),
            suggests: requirement_texts(self.suggests@),
        }
    }
}

impl Default for RPMPackageVersion {
    fn default() -> (r: Self)
        ensures
            r@ == (PackageText {
                name: Seq::empty(),
                evr: EvrModel {
                    epoch: Seq::empty(),
                    version: Seq::empty(),
                    release: Seq::empty(),
                },
                requires: Seq::empty(),
                suggests: Seq::empty(),
            }),
    {
        let r = RPMPackageVersion {
            name: String::new(),
            epoch: String::new(),
            version: String::new(),
            release: String::new(),
            requires: Vec::new(),
            suggests: Vec::new(),
        };
        proof {
            assert(r@.requires =~= Seq::empty());
            assert(r@.suggests =~= Seq::empty());
        }
        r
    }
}

impl RPMPackageVersion {
    /// The parts of the package's version, borrowed.
    pub fn evr(&self) -> (r: EvrRef<'_>)
        ensures
            r@ == self@.evr,
    {
        EvrRef {
            epoch: self.epoch.as_str(),
            version: self.version.as_str(),
            release: self.release.as_str(),
        }
    }

    /// A copy of the package.
    pub fn copy(&self) -> (r: RPMPackageVersion)
        ensures
            r@ == self@,
    {
        RPMPackageVersion {
            name: self.name.clone(),
            epoch: self.epoch.clone(),
            version: self.version.clone(),
            release: self.release.clone(),
            requires: copy_requirements(&self.requires),
            suggests: copy_requirements(&self.suggests),
        }
    }

    /// How the package's version stands to that of another package. Names are not looked at.
    pub fn version_order(&self, other: &RPMPackageVersion) -> (r: VersionOrder)
        ensures
            r == order(self@.evr, other@.evr),
    {
        compare_versions(self.evr(), other.evr())
    }

    /// The package's version as text.
    pub fn display(&self) -> (r: String)
        ensures
            r@ == evr_text(self@.evr),
    {
        evr_string(self.evr())
    }
}

impl PartialEq for RPMPackageVersion {
    fn eq(&self, other: &Self) -> (r: bool) {
        str_eq(self.name.as_str(), other.name.as_str()) && evr_eq(self.evr(), other.evr())
    }
}

impl PartialEqSpecImpl for RPMPackageVersion {
    open spec fn obeys_eq_spec() -> bool {
        true
    }

    open spec fn eq_spec(&self, other: &Self) -> bool {
        self@.name == other@.name && same_evr(self@.evr, other@.evr)
    }
}

impl Eq for RPMPackageVersion {

}

impl PartialOrd for RPMPackageVersion {
    fn partial_cmp(&self, other: &Self) -> (r: Option<Ordering>) {
        match self.version_order(other) {
            VersionOrder::Less => Some(Ordering::Less),
            VersionOrder::Equal => Some(Ordering::Equal),
            VersionOrder::Greater => Some(Ordering::Greater),
        }
    }
}

impl PartialOrdSpecImpl for RPMPackageVersion {
    open spec fn obeys_partial_cmp_spec() -> bool {
        true
    }

    open spec fn partial_cmp_spec(&self, other: &Self) -> Option<Ordering> {
        match order(self@.evr, other@.evr) {
            VersionOrder::Less => Some(Ordering::Less),
            VersionOrder::Equal => Some(Ordering::Equal),
            VersionOrder::Greater => Some(Ordering::Greater),
        }
    }
}

impl Display for RPMPackageVersion {
    /// Writes the version as `rpm_version::Evr` displays it. Nothing is claimed of it: no
    /// function of the library calls it, `resolvo::utils::Pool` asks that it is there.
    #[verifier::external_body]
    fn fmt(&self, f: &mut core::fmt::Formatter<'_>) -> core::fmt::Result {
        let evr = rpm_version::Evr::new(
            self.epoch.as_str(),
            self.version.as_str(),
            self.release.as_str(),
        );
        write!(f, "{}", evr)
    }
}

impl VersionSet for RPMRequirement {
    type V = RPMPackageVersion;
}

/// What a comparison's text stands for, where it stands for one.
pub open spec fn relation_of(flags: Seq<char>) -> Option<VersionRelation> {
    if flags == "EQ"@ {
        Some(VersionRelation::EQ)
    } else if flags == "LT"@ {
        Some(VersionRelation::LT)
    } else if flags == "GT"@ {
        Some(VersionRelation::GT)
    } else if flags == "LE"@ {
        Some(VersionRelation::LE)
    } else if flags == "GE"@ {
        Some(VersionRelation::GE)
    } else {
        None
    }
}

impl RequirementText {
    /// Whether the dependency is met by a package of the given version. One without a
    /// comparison, without a version or with a comparison of another kind is met by all.
    pub open spec fn accepts(self, evr: EvrModel) -> bool {
        match (self.flags, self.version) {
            (Some(flags), Some(version)) => match relation_of(flags) {
                Some(relation) => relation_holds(
                    relation,
                    order(
                        evr,
                        EvrModel {
                            epoch: or_empty(self.epoch),
                            version,
                            release: or_empty(self.release),
                        },
                    ),
                ),
                None => true,
            },
            _ => true,
        }
    }
}

/// Whether a package's version meets a constraint.
pub fn check_version_constraint(
    flags: Option<&str>,
    req_epoch: Option<&str>,
    req_version: Option<&str>,
    req_release: Option<&str>,
    candidate: &RPMPackageVersion,
) -> (r: bool)
    ensures
        r == (RequirementText {
            name: Seq::empty(),
            flags: opt_str_view(flags),
            epoch: opt_str_view(req_epoch),
            version: opt_str_view(req_version),
            release: opt_str_view(req_release),
            preinstall: false,
        }).accepts(candidate@.evr),
{
    let flags: &str = match flags {
        Some(f) => f,
        None => return true,
    };
    let version: &str = match req_version {
        Some(v) => v,
        None => return true,
    };
    let bound = EvrRef {
        epoch: str_or_empty(req_epoch),
        version,
        release: str_or_empty(req_release),
    };
    let found = compare_versions(candidate.evr(), bound);
    if str_eq(flags, "EQ") {
        check_relation(VersionRelation::EQ, found)
    } else if str_eq(flags, "LT") {
        check_relation(VersionRelation::LT, found)
    } else if str_eq(flags, "GT") {
        check_relation(VersionRelation::GT, found)
    } else if str_eq(flags, "LE") {
        check_relation(VersionRelation::LE, found)
    } else if str_eq(flags, "GE") {
        check_relation(VersionRelation::GE, found)
    } else {
        true
    }
}

/// `resolvo::utils::Pool` over the dependencies and packages of this module.
#[verifier::external_body]
pub struct TextPool {
    pool: Pool<RPMRequirement>,
}

/// The package names that the pool holds, in the order of their ids.
pub uninterp spec fn text_pool_names(pool: TextPool) -> Seq<Seq<char>>;

/// The dependencies that the pool holds with the names they are about, in the order of
/// their ids.
pub uninterp spec fn text_pool_sets(pool: TextPool) -> Seq<(NameId, RequirementText)>;

/// The packages that the pool holds with the names they are filed under, in the order of
/// their ids.
pub uninterp spec fn text_pool_solvables(pool: TextPool) -> Seq<(NameId, PackageText)>;

/// Whether an entry is about the name and a dependency that counts as equal.
pub open spec fn matching(
    entry: (NameId, RequirementText),
    name: NameId,
    set: RequirementText,
) -> bool {
    entry.0 == name && similar(entry.1, set)
}

/// Whether the list holds an entry about the name and a dependency that counts as equal.
pub open spec fn holds_matching(
    list: Seq<(NameId, RequirementText)>,
    name: NameId,
    set: RequirementText,
) -> bool {
    exists|i: int| 0 <= i < list.len() && matching(#[trigger] list[i], name, set)
}

impl TextPool {
    /// `Pool::new`: a pool that holds nothing.
    #[verifier::external_body]
    pub(crate) fn new() -> (r: TextPool)
        ensures
            text_pool_names(r) == Seq::<Seq<char>>::empty(),
            text_pool_sets(r) == Seq::<(NameId, RequirementText)>::empty(),
            text_pool_solvables(r) == Seq::<(NameId, PackageText)>::empty(),
    {
        TextPool { pool: Pool::new() }
    }

    /// `Pool::intern_package_name`: the id of a name that the pool holds, or of the name
    /// appended to it. Names are not stored twice. Nothing else changes.
    #[verifier::external_body]
    pub(crate) fn intern_package_name(&mut self, name: &str) -> (r: NameId)
        requires
            text_pool_names(*old(self)).len() < ID_LIMIT,
        ensures
            text_pool_names(*final(self)) == with_value(text_pool_names(*old(self)), name@),
            r.0 < text_pool_names(*final(self)).len(),
            text_pool_names(*final(self))[r.0 as int] == name@,
            text_pool_sets(*final(self)) == text_pool_sets(*old(self)),
            text_pool_solvables(*final(self)) == text_pool_solvables(*old(self)),
    {
        NameId(self.pool.intern_package_name(name).0)
    }

    /// `Pool::resolve_package_name`: the name with the given id. It panics on an id that the
    /// pool has not given out.
    #[verifier::external_body]
    pub(crate) fn resolve_package_name(&self, id: NameId) -> (r: &str)
        requires
            id.0 < text_pool_names(*self).len(),
        ensures
            r@ == text_pool_names(*self)[id.0 as int],
    {
        self.pool.resolve_package_name(resolvo::NameId(id.0))
    }

    /// `Pool::intern_version_set`: the id of a dependency that the pool holds for the name
    /// and that counts as equal by `==`, or of the dependency appended to it. Nothing else
    /// changes.
    #[verifier::external_body]
    pub(crate) fn intern_version_set(&mut self, name: NameId, set: RPMRequirement) -> (r:
        VersionSetId)
        requires
            text_pool_sets(*old(self)).len() < ID_LIMIT,
        ensures
            text_pool_sets(*final(self)) == (if holds_matching(
                text_pool_sets(*old(self)),
                name,
                set.0@,
            ) {
                text_pool_sets(*old(self))
            } else {
                text_pool_sets(*old(self)).push((name, set.0@))
            }),
            r.0 < text_pool_sets(*final(self)).len(),
            matching(text_pool_sets(*final(self))[r.0 as int], name, set.0@),
            text_pool_names(*final(self)) == text_pool_names(*old(self)),
            text_pool_solvables(*final(self)) == text_pool_solvables(*old(self)),
    {
        VersionSetId(self.pool.intern_version_set(resolvo::NameId(name.0), set).0)
    }

    /// `Pool::resolve_version_set`: the dependency with the given id. It panics on an id that
    /// the pool has not given out.
    #[verifier::external_body]
    pub(crate) fn resolve_version_set(&self, id: VersionSetId) -> (r: &RPMRequirement)
        requires
            id.0 < text_pool_sets(*self).len(),
        ensures
            r.0@ == text_pool_sets(*self)[id.0 as int].1,
    {
        self.pool.resolve_version_set(resolvo::VersionSetId(id.0))
    }

    /// `Pool::resolve_version_set_package_name`: the name that the dependency with the given
    /// id is about. It panics on an id that the pool has not given out.
    #[verifier::external_body]
    pub(crate) fn resolve_version_set_package_name(&self, id: VersionSetId) -> (r: NameId)
        requires
            id.0 < text_pool_sets(*self).len(),
        ensures
            r == text_pool_sets(*self)[id.0 as int].0,
    {
        NameId(self.pool.resolve_version_set_package_name(resolvo::VersionSetId(id.0)).0)
    }

    /// `Pool::intern_solvable`: appends a package and gives its id. Nothing else changes.
    #[verifier::external_body]
    pub(crate) fn intern_solvable(&mut self, name: NameId, record: RPMPackageVersion) -> (r:
        SolvableId)
        requires
            text_pool_solvables(*old(self)).len() < ID_LIMIT,
        ensures
            r.0 == text_pool_solvables(*old(self)).len(),
            text_pool_solvables(*final(self)) == text_pool_solvables(*old(self)).push(
                (name, record@),
            ),
            text_pool_names(*final(self)) == text_pool_names(*old(self)),
            text_pool_sets(*final(self)) == text_pool_sets(*old(self)),
    {
        SolvableId(self.pool.intern_solvable(resolvo::NameId(name.0), record).0)
    }

    /// `Pool::resolve_solvable`: the package with the given id and the name it is filed
    /// under. It panics on an id that the pool has not given out.
    #[verifier::external_body]
    pub(crate) fn resolve_solvable(&self, id: SolvableId) -> (r: (NameId, &RPMPackageVersion))
        requires
            id.0 < text_pool_solvables(*self).len(),
        ensures
            (r.0, r.1@) == text_pool_solvables(*self)[id.0 as int],
    {
        let solvable = self.pool.resolve_solvable(resolvo::SolvableId(id.0));
        (NameId(solvable.name.0), &solvable.record)
    }
}

/// What a provider of this kind knows.
#[verifier::ext_equal]
pub struct TextModel {
    /// The packages, in the order of their ids.
    pub packages: Seq<PackageText>,
    /// The packages that provide each capability; names that nothing provides are left out.
    pub providers: Map<Seq<char>, Seq<SolvableId>>,
    /// Whether suggested packages are passed over rather than required.
    pub disable_suggest: bool,
}

impl TextModel {
    /// The id that the next package will have.
    pub open spec fn next_id(self) -> SolvableId {
        SolvableId(self.packages.len() as u32)
    }

    /// The provider with one more package, which provides the given capabilities. A package
    /// does not provide its own name unless it says so.
    pub open spec fn with_package(self, package: PackageText, provides: Seq<Seq<char>>) -> TextModel {
        TextModel {
            packages: self.packages.push(package),
            providers: with_providers(self.providers, provides, self.next_id()),
            ..self
        }
    }

    /// The packages that provide a capability, in the order in which they were registered.
    pub open spec fn providers_of(self, name: Seq<char>) -> Seq<SolvableId> {
        providers_in(self.providers, name)
    }
}

/// A provider over packages whose dependencies are interned when they are asked for.
pub struct RPMProvider {
    pool: TextPool,
    provides_to_package: ProvidesMap,
    disable_suggest: bool,
    name_count: u64,
    set_count: u64,
    solvable_count: u64,
}

/// A package of a repository, with the names of what it provides.
#[derive(Debug)]
pub struct RepoPackage {
    pub package: RPMPackageVersion,
    pub provides: Vec<String>,
}

impl View for RPMProvider {
    type V = TextModel;

    closed spec fn view(&self) -> TextModel {
        TextModel {
            packages: self.solvables().map_values(|s: (NameId, PackageText)| s.1),
            providers: providers_by_name(self.names(), self.provides_to_package),
            disable_suggest: self.disable_suggest,
        }
    }
}

impl RPMProvider {
    /// The interned names, in the order of their ids.
    pub closed spec fn names(self) -> Seq<Seq<char>> {
        text_pool_names(self.pool)
    }

    /// The interned dependencies with the names they are about, in the order of their ids.
    pub closed spec fn sets(self) -> Seq<(NameId, RequirementText)> {
        text_pool_sets(self.pool)
    }

    /// The packages with the names they are filed under.
    spec fn solvables(self) -> Seq<(NameId, PackageText)> {
        text_pool_solvables(self.pool)
    }

    /// The provider's invariant: names, and dependencies that count as equal, are held once,
    /// every id in it was given out by its pool, and the counts are right.
    pub closed spec fn wf(self) -> bool {
        &&& self.room(0)
        &&& self.name_count == self.names().len()
        &&& self.set_count == self.sets().len()
        &&& self.solvable_count == self.solvables().len()
        &&& self.names().no_duplicates()
        &&& forall|i: int, j: int|
            0 <= i < j < self.sets().len() ==> !matching(
                #[trigger] self.sets()[i],
                (#[trigger] self.sets()[j]).0,
                self.sets()[j].1,
            )
        &&& forall|i: int|
            0 <= i < self.sets().len() ==> (#[trigger] self.sets()[i]).0.0 < self.names().len()
                && self.names()[self.sets()[i].0.0 as int] == self.sets()[i].1.name
        &&& forall|i: int|
            0 <= i < self.solvables().len() ==> (#[trigger] self.solvables()[i]).0.0
                < self.names().len() && self.names()[self.solvables()[i].0.0 as int]
                == self.solvables()[i].1.name
        &&& index_valid(
            self.names(),
            self.solvables().len(),
            self.provides_to_package,
            Map::empty(),
        )
    }

    /// A dependency has one id: two ids that stand for it are the same. Since ids keep their
    /// meaning, it is the id of the first dependency to be interned that counts as equal.
    pub proof fn one_id_each(self, a: VersionSetId, b: VersionSetId, r: RequirementText)
        requires
            self.wf(),
            stands_for(self, a, r),
            stands_for(self, b, r),
        ensures
            a == b,
    {
        let x = self.sets()[a.0 as int];
        let y = self.sets()[b.0 as int];
        assert(x.0 == y.0) by {
            assert(self.names()[x.0.0 as int] == self.names()[y.0.0 as int]);
        }
        if a.0 < b.0 {
            assert(matching(x, y.0, y.1));
        } else if b.0 < a.0 {
            assert(matching(y, x.0, x.1));
        }
    }

    /// Whether `n` more values of each kind can be told apart by ids.
    pub open spec fn room(self, n: int) -> bool {
        &&& self.names().len() + n <= ID_LIMIT
        &&& self.sets().len() + n <= ID_LIMIT
        &&& self@.packages.len() + n <= ID_LIMIT
    }

    /// Whether the provider holds the names and dependencies that `base` holds under the same
    /// ids, and at most `n` of each beside them.
    pub open spec fn extends(self, base: RPMProvider, n: int) -> bool {
        extended(base.names(), self.names(), n) && extended(base.sets(), self.sets(), n)
    }

    /// A provider without packages.
    pub fn new(disable_suggest: bool) -> (r: RPMProvider)
        ensures
            r.wf(),
            r.room(0x1_0000_0000),
            r.names() == Seq::<Seq<char>>::empty(),
            r.sets() == Seq::<(NameId, RequirementText)>::empty(),
            r@ == (TextModel {
                packages: Seq::empty(),
                providers: Map::empty(),
                disable_suggest,
            }),
    {
        let r = RPMProvider {
            pool: TextPool::new(),
            provides_to_package: ProvidesMap::new(),
            disable_suggest,
            name_count: 0,
            set_count: 0,
            solvable_count: 0,
        };
        proof {
            assert(r@.packages =~= Seq::empty());
            assert(r@.providers =~= Map::empty());
        }
        r
    }

    /// Whether `n` more values of each kind can be told apart by ids.
    pub fn has_room(&self, n: u64) -> (r: bool)
        requires
            self.wf(),
        ensures
            r == self.room(n as int),
    {
        n <= ID_LIMIT && self.name_count <= ID_LIMIT - n && self.set_count <= ID_LIMIT - n
            && self.solvable_count <= ID_LIMIT - n
    }

    /// Interns a name.
    fn intern_name(&mut self, name: &str) -> (r: NameId)
        requires
            old(self).wf(),
            old(self).room(1),
        ensures
            final(self).wf(),
            final(self)@ == old(self)@,
            final(self).extends(*old(self), 1),
            r.0 < final(self).names().len(),
            final(self).names()[r.0 as int] == name@,
            final(self).sets() == old(self).sets(),
            final(self).solvables() == old(self).solvables(),
    {
        let r = self.pool.intern_package_name(name);
        proof {
            let names = old(self).names();
            if !names.contains(name@) {
                assert(r.0 as u64 == self.name_count) by {
                    if r.0 < names.len() {
                        assert(names.push(name@)[r.0 as int] == names[r.0 as int]);
                        assert(names.contains(name@));
                    }
                }
                assert(names.push(name@).no_duplicates());
            }
        }
        if r.0 as u64 == self.name_count {
            self.name_count = self.name_count + 1;
        }
        proof {
            index_kept(
                old(self).names(),
                self.names(),
                1,
                self.solvables().len(),
                self.solvables().len(),
                self.provides_to_package,
                Map::empty(),
            );
            assert forall|i: int| 0 <= i < self.sets().len() implies (
            #[trigger] self.sets()[i]).0.0 < self.names().len()
                && self.names()[self.sets()[i].0.0 as int] == self.sets()[i].1.name by {
                assert(self.sets()[i] == old(self).sets()[i]);
            }
            assert forall|i: int| 0 <= i < self.solvables().len() implies (
            #[trigger] self.solvables()[i]).0.0 < self.names().len()
                && self.names()[self.solvables()[i].0.0 as int] == self.solvables()[i].1.name by {
                assert(self.solvables()[i] == old(self).solvables()[i]);
            }
        }
        r
    }

    /// Registers a package as a provider of a capability.
    fn register(&mut self, name: NameId, solvable: SolvableId)
        requires
            old(self).wf(),
            name.0 < old(self).names().len(),
            solvable.0 < old(self).solvables().len(),
        ensures
            final(self).wf(),
            final(self).pool == old(self).pool,
            final(self)@ == (TextModel {
                providers: with_provider(
                    old(self)@.providers,
                    old(self).names()[name.0 as int],
                    solvable,
                ),
                ..old(self)@
            }),
    {
        self.provides_to_package.push(name, solvable);
        proof {
            let ids = seq![solvable];
            let map = old(self).provides_to_package;
            let grown = self.provides_to_package;
            assert(map.of(name).push(solvable) =~= map.of(name) + ids);
            providers_registered(self.names(), map, grown, name, ids);
            let before = old(self)@.providers;
            let text = self.names()[name.0 as int];
            assert(providers_in(before, text).push(solvable) =~= providers_in(before, text)
                + ids);
            assert forall|id: NameId, i: int|
                0 <= i < grown.of(id).len() implies (#[trigger] grown.of(id)[i]).0
                < self.solvables().len() by {
                if i < map.of(id).len() {
                    assert(grown.of(id)[i] == map.of(id)[i]);
                }
            }
        }
    }

    /// Files a package under its name.
    fn file(&mut self, package: RPMPackageVersion) -> (r: SolvableId)
        requires
            old(self).wf(),
            old(self).room(2),
        ensures
            final(self).wf(),
            final(self).extends(*old(self), 1),
            final(self).sets() == old(self).sets(),
            r.0 == old(self)@.packages.len(),
            final(self).solvables().len() == old(self).solvables().len() + 1,
            final(self)@ == (TextModel {
                packages: old(self)@.packages.push(package@),
                ..old(self)@
            }),
    {
        let name = self.intern_name(package.name.as_str());
        let ghost mid = *self;
        let ghost text = package@;
        let r = self.pool.intern_solvable(name, package);
        self.solvable_count = self.solvable_count + 1;
        proof {
            index_kept(
                mid.names(),
                self.names(),
                0,
                mid.solvables().len(),
                self.solvables().len(),
                self.provides_to_package,
                Map::empty(),
            );
            assert forall|i: int| 0 <= i < self.sets().len() implies (
            #[trigger] self.sets()[i]).0.0 < self.names().len()
                && self.names()[self.sets()[i].0.0 as int] == self.sets()[i].1.name by {
                assert(self.sets()[i] == mid.sets()[i]);
            }
            assert forall|i: int| 0 <= i < self.solvables().len() implies (
            #[trigger] self.solvables()[i]).0.0 < self.names().len()
                && self.names()[self.solvables()[i].0.0 as int] == self.solvables()[i].1.name by {
                if i < mid.solvables().len() {
                    assert(self.solvables()[i] == mid.solvables()[i]);
                }
            }
            assert(self@.packages =~= old(self)@.packages.push(text));
        }
        r
    }

    /// Adds a package that provides the given capabilities.
    pub fn add_package(&mut self, package: RPMPackageVersion, provides: &Vec<String>) -> (r:
        SolvableId)
        requires
            old(self).wf(),
            old(self).room(provides@.len() + 2int),
        ensures
            final(self).wf(),
            final(self).extends(*old(self), provides@.len() + 1int),
            final(self).sets() == old(self).sets(),
            final(self)@ == old(self)@.with_package(package@, texts(provides@)),
            r == old(self)@.next_id(),
            r.0 == old(self)@.packages.len(),
    {
        let ghost names = texts(provides@);
        let ghost base = old(self)@;
        let ghost text = package@;
        let solvable = self.file(package);
        let ghost filed = *self;
        let mut i: usize = 0;
        assert(names.take(0) =~= Seq::empty());
        while i < provides.len()
            invariant
                i <= provides@.len(),
                old(self).room(provides@.len() + 2int),
                names == texts(provides@),
                self.wf(),
                self.extends(*old(self), i + 1),
                self.sets() == old(self).sets(),
                self.solvables().len() == old(self).solvables().len() + 1,
                solvable.0 == old(self).solvables().len(),
                filed@ == (TextModel { packages: base.packages.push(text), ..base }),
                self@ == (TextModel {
                    providers: with_providers(base.providers, names.take(i as int), solvable),
                    ..filed@
                }),
            decreases provides@.len() - i,
        {
            let ghost before = *self;
            let name = self.intern_name(provides[i].as_str());
            let ghost mid = *self;
            self.register(name, solvable);
            proof {
                assert(names.take(i + 1).drop_last() =~= names.take(i as int));
                assert(self.names() == mid.names() && self.sets() == mid.sets());
                assert forall|k: int| 0 <= k < old(self).names().len() implies self.names()[k]
                    == old(self).names()[k] by {
                    assert(before.names()[k] == old(self).names()[k]);
                }
            }
            i = i + 1;
        }
        assert(names.take(i as int) =~= names);
        solvable
    }

    /// How many packages the provider holds.
    pub fn package_count(&self) -> (r: u64)
        requires
            self.wf(),
        ensures
            r == self@.packages.len(),
    {
        self.solvable_count
    }

    /// The package with the given id.
    fn package(&self, id: SolvableId) -> (r: &RPMPackageVersion)
        requires
            self.wf(),
            id.0 < self@.packages.len(),
        ensures
            r@ == self@.packages[id.0 as int],
    {
        self.pool.resolve_solvable(id).1
    }

    /// The name of a package and its version, as text.
    pub fn display_solvable(&self, id: SolvableId) -> (r: String)
        requires
            self.wf(),
            id.0 < self@.packages.len(),
        ensures
            r@ == self@.packages[id.0 as int].name + " "@ + evr_text(
                self@.packages[id.0 as int].evr,
            ),
    {
        let entry = self.pool.resolve_solvable(id);
        assert(self.solvables()[id.0 as int] == (entry.0, entry.1@));
        let mut s: String = concat(self.pool.resolve_package_name(entry.0), " ");
        s.append(entry.1.display().as_str());
        s
    }

    /// The name with the given id.
    pub fn display_name(&self, id: NameId) -> (r: &str)
        requires
            self.wf(),
            id.0 < self.names().len(),
        ensures
            r@ == self.names()[id.0 as int],
    {
        self.pool.resolve_package_name(id)
    }

    /// The dependency with the given id, as text.
    pub fn display_version_set(&self, id: VersionSetId) -> (r: String)
        requires
            self.wf(),
            id.0 < self.sets().len(),
        ensures
            r@ == requirement_display(self.sets()[id.0 as int].1),
    {
        self.pool.resolve_version_set(id).display()
    }

    /// The name that the dependency with the given id is about.
    pub fn version_set_name(&self, id: VersionSetId) -> (r: NameId)
        requires
            self.wf(),
            id.0 < self.sets().len(),
        ensures
            r == self.sets()[id.0 as int].0,
            r.0 < self.names().len(),
    {
        assert(self.sets()[id.0 as int].0.0 < self.names().len());
        self.pool.resolve_version_set_package_name(id)
    }

    /// The name id of the package with the given id.
    pub fn solvable_name(&self, id: SolvableId) -> (r: NameId)
        requires
            self.wf(),
            id.0 < self@.packages.len(),
        ensures
            r.0 < self.names().len(),
            self.names()[r.0 as int] == self@.packages[id.0 as int].name,
    {
        let entry = self.pool.resolve_solvable(id);
        assert(self.solvables()[id.0 as int] == (entry.0, entry.1@));
        entry.0
    }

    /// Whether a package's version meets a dependency.
    pub fn version_set_contains(&self, set: VersionSetId, id: SolvableId) -> (r: bool)
        requires
            self.wf(),
            set.0 < self.sets().len(),
            id.0 < self@.packages.len(),
        ensures
            r == self.sets()[set.0 as int].1.accepts(self@.packages[id.0 as int].evr),
    {
        let requirement: &RPMRequirement = self.pool.resolve_version_set(set);
        check_version_constraint(
            borrowed(&requirement.0.flags),
            borrowed(&requirement.0.epoch),
            borrowed(&requirement.0.version),
            borrowed(&requirement.0.release),
            self.package(id),
        )
    }
}

impl Default for RPMProvider {
    fn default() -> (r: Self)
        ensures
            r.wf(),
            r.room(0x1_0000_0000),
            r.names() == Seq::<Seq<char>>::empty(),
            r.sets() == Seq::<(NameId, RequirementText)>::empty(),
            r@ == (TextModel {
                packages: Seq::empty(),
                providers: Map::empty(),
                disable_suggest: false,
            }),
    {
        RPMProvider::new(false)
    }
}

/// How many values of one kind adding the packages interns at most.
pub open spec fn repodata_size(packages: Seq<RepoPackage>) -> nat
    decreases packages.len(),
{
    if packages.len() == 0 {
        0
    } else {
        repodata_size(packages.drop_last()) + packages.last().provides@.len() + 2
    }
}

/// The provider with the packages of a repository added, one after the other.
pub open spec fn with_repodata(m: TextModel, packages: Seq<RepoPackage>) -> TextModel
    decreases packages.len(),
{
    if packages.len() == 0 {
        m
    } else {
        with_repodata(m, packages.drop_last()).with_package(
            packages.last().package@,
            texts(packages.last().provides@),
        )
    }
}

/// The packages of the first elements and the next one.
proof fn repodata_step(m: TextModel, packages: Seq<RepoPackage>, i: int)
    requires
        0 <= i < packages.len(),
    ensures
        repodata_size(packages.take(i + 1)) == repodata_size(packages.take(i))
            + packages[i].provides@.len() + 2,
        with_repodata(m, packages.take(i + 1)) == with_repodata(
            m,
            packages.take(i),
        ).with_package(packages[i].package@, texts(packages[i].provides@)),
{
    assert(packages.take(i + 1).drop_last() =~= packages.take(i));
}

/// The first packages need no more room than all of them.
proof fn repodata_prefix(packages: Seq<RepoPackage>, i: int)
    requires
        0 <= i <= packages.len(),
    ensures
        repodata_size(packages.take(i)) <= repodata_size(packages),
    decreases packages.len() - i,
{
    if i < packages.len() {
        assert(packages.take(i + 1).drop_last() =~= packages.take(i));
        repodata_prefix(packages, i + 1);
    } else {
        assert(packages.take(i) =~= packages);
    }
}

/// Whether a dependency is one that the provider hands to the solver: files and conditional
/// dependencies are passed over.
pub open spec fn handed_on(r: RequirementText) -> bool {
    !begins_with(r.name, '/') && !occurs_in(r.name, " if "@)
}

/// The dependencies of a list that are handed to the solver.
pub open spec fn handed_on_of(list: Seq<RequirementText>) -> Seq<RequirementText> {
    list.filter(|r: RequirementText| handed_on(r))
}

/// Whether an id stands for the dependency: for one about its name that counts as equal.
pub open spec fn stands_for(
    provider: RPMProvider,
    id: VersionSetId,
    r: RequirementText,
) -> bool {
    id.0 < provider.sets().len() && similar(provider.sets()[id.0 as int].1, r)
        && provider.sets()[id.0 as int].0.0 < provider.names().len()
        && provider.names()[provider.sets()[id.0 as int].0.0 as int] == r.name
}

/// The dependencies that are interned, in the order of their ids.
pub open spec fn set_texts(sets: Seq<(NameId, RequirementText)>) -> Seq<RequirementText> {
    sets.map_values(|s: (NameId, RequirementText)| s.1)
}

/// Whether a list holds a dependency that counts as equal.
pub open spec fn holds_similar(list: Seq<RequirementText>, r: RequirementText) -> bool {
    exists|i: int| 0 <= i < list.len() && similar(#[trigger] list[i], r)
}

/// The interned dependencies, with one more: it is appended with all its texts, unless one
/// that counts as equal is there already, which then stays as it is.
pub open spec fn with_dependency(list: Seq<RequirementText>, r: RequirementText) -> Seq<
    RequirementText,
> {
    if holds_similar(list, r) {
        list
    } else {
        list.push(r)
    }
}

/// The interned dependencies, with several more in turn.
pub open spec fn with_dependencies(
    list: Seq<RequirementText>,
    added: Seq<RequirementText>,
) -> Seq<RequirementText>
    decreases added.len(),
{
    if added.len() == 0 {
        list
    } else {
        with_dependency(with_dependencies(list, added.drop_last()), added.last())
    }
}

/// Interning two lists one after the other is interning their concatenation.
proof fn dependencies_concat(
    list: Seq<RequirementText>,
    a: Seq<RequirementText>,
    b: Seq<RequirementText>,
)
    ensures
        with_dependencies(list, a + b) == with_dependencies(with_dependencies(list, a), b),
    decreases b.len(),
{
    if b.len() == 0 {
        assert(a + b =~= a);
    } else {
        dependencies_concat(list, a, b.drop_last());
        assert((a + b).drop_last() =~= a + b.drop_last());
    }
}

/// Whether the ids of a list stand for the dependencies of another, one for one.
pub open spec fn all_stand_for(
    provider: RPMProvider,
    ids: Seq<VersionSetId>,
    list: Seq<RequirementText>,
) -> bool {
    ids.len() == list.len() && forall|i: int|
        0 <= i < ids.len() ==> stands_for(provider, #[trigger] ids[i], list[i])
}

impl TextModel {
    /// What the solver is told that a package needs: its requirements, and what it suggests
    /// unless that is switched off.
    pub open spec fn needs(self, id: SolvableId) -> Seq<RequirementText> {
        let p = self.packages[id.0 as int];
        handed_on_of(p.requires) + (if self.disable_suggest {
            Seq::empty()
        } else {
            handed_on_of(p.suggests)
        })
    }
}

/// The order of candidates by version, the oldest in front.
pub open spec fn by_version(m: TextModel) -> spec_fn(SolvableId, SolvableId) -> bool {
    |a: SolvableId, b: SolvableId|
        not_older(m.packages[b.0 as int].evr, m.packages[a.0 as int].evr)
}

/// Whether all ids of a list are those of packages.
pub open spec fn all_known(m: TextModel, ids: Seq<SolvableId>) -> bool {
    forall|i: int| 0 <= i < ids.len() ==> (#[trigger] ids[i]).0 < m.packages.len()
}

impl RPMProvider {
    /// A provider over the packages of a repository.
    pub fn from_repodata(packages: &Vec<RepoPackage>, disable_suggest: bool) -> (r: RPMProvider)
        requires
            repodata_size(packages@) <= ID_LIMIT,
        ensures
            r.wf(),
            r.sets() == Seq::<(NameId, RequirementText)>::empty(),
            r@ == with_repodata(
                TextModel { packages: Seq::empty(), providers: Map::empty(), disable_suggest },
                packages@,
            ),
    {
        let ghost m = TextModel {
            packages: Seq::empty(),
            providers: Map::empty(),
            disable_suggest,
        };
        let mut provider = RPMProvider::new(disable_suggest);
        let ghost all = packages@;
        let ghost mut used: int = 0;
        let mut i: usize = 0;
        assert(all.take(0) =~= Seq::empty());
        while i < packages.len()
            invariant
                i <= packages@.len(),
                all == packages@,
                repodata_size(all) <= ID_LIMIT,
                used == repodata_size(all.take(i as int)),
                provider.wf(),
                provider.room(ID_LIMIT - used),
                provider.sets() == Seq::<(NameId, RequirementText)>::empty(),
                provider@ == with_repodata(m, all.take(i as int)),
            decreases packages@.len() - i,
        {
            proof {
                repodata_step(m, all, i as int);
                repodata_prefix(all, i + 1);
            }
            let next: &RepoPackage = &packages[i];
            provider.add_package(next.package.copy(), &next.provides);
            proof {
                used = used + next.provides@.len() + 2;
                assert(provider.solvables().len() == provider@.packages.len());
            }
            i = i + 1;
        }
        assert(all.take(i as int) =~= all);
        provider
    }

    /// The candidates that meet a dependency or, with `inverse`, those that do not.
    pub fn filter_candidates(
        &self,
        candidates: &[SolvableId],
        set: VersionSetId,
        inverse: bool,
    ) -> (r: Vec<SolvableId>)
        requires
            self.wf(),
            set.0 < self.sets().len(),
            all_known(self@, candidates@),
        ensures
            r@ == candidates@.filter(
                |s: SolvableId|
                    self.sets()[set.0 as int].1.accepts(self@.packages[s.0 as int].evr) != inverse,
            ),
    {
        let ghost keep = |s: SolvableId|
            self.sets()[set.0 as int].1.accepts(self@.packages[s.0 as int].evr) != inverse;
        let mut kept: Vec<SolvableId> = Vec::new();
        let mut i: usize = 0;
        proof {
            reveal(Seq::filter);
            assert(candidates@.take(0).filter(keep) =~= Seq::empty());
        }
        while i < candidates.len()
            invariant
                i <= candidates@.len(),
                self.wf(),
                set.0 < self.sets().len(),
                all_known(self@, candidates@),
                keep == (|s: SolvableId|
                    self.sets()[set.0 as int].1.accepts(self@.packages[s.0 as int].evr)
                        != inverse),
                kept@ == candidates@.take(i as int).filter(keep),
            decreases candidates@.len() - i,
        {
            let s: SolvableId = candidates[i];
            proof {
                reveal(Seq::filter);
                assert(candidates@.take(i + 1).drop_last() =~= candidates@.take(i as int));
            }
            if self.version_set_contains(set, s) != inverse {
                kept.push(s);
            }
            i = i + 1;
        }
        assert(candidates@.take(i as int) =~= candidates@);
        kept
    }

    /// Sorts candidates by version, the oldest in front.
    pub fn sort_candidates(&self, solvables: &mut Vec<SolvableId>)
        requires
            self.wf(),
            all_known(self@, old(solvables)@),
        ensures
            stably_sorted(old(solvables)@, final(solvables)@, by_version(self@)),
    {
        let ghost list = solvables@;
        let ghost p = by_version(self@);
        let mut sorted: Vec<SolvableId> = Vec::new();
        let mut i: usize = 0;
        proof {
            nothing_is_sorted(p);
            assert(list.take(0) =~= Seq::<SolvableId>::empty());
        }
        while i < solvables.len()
            invariant
                i <= list.len(),
                solvables@ == list,
                p == by_version(self@),
                self.wf(),
                all_known(self@, list),
                all_known(self@, sorted@),
                stably_sorted(list.take(i as int), sorted@, p),
            decreases list.len() - i,
        {
            let x: SolvableId = solvables[i];
            let mut at: usize = sorted.len();
            let mut done: bool = false;
            while at > 0 && !done
                invariant
                    at <= sorted@.len(),
                    self.wf(),
                    p == by_version(self@),
                    x.0 < self@.packages.len(),
                    all_known(self@, sorted@),
                    in_order(sorted@, p),
                    done ==> at > 0 && forall|k: int| 0 <= k < at ==> p(#[trigger] sorted@[k], x),
                    forall|k: int| at <= k < sorted@.len() ==> p(x, #[trigger] sorted@[k]),
                    forall|k: int, y: SolvableId|
                        at <= k < sorted@.len() && p(#[trigger] sorted@[k], y) ==> !(#[trigger]
                        p(y, x)),
                decreases at, !done as int,
            {
                let last: SolvableId = sorted[at - 1];
                let found = compare_versions(self.package(x).evr(), self.package(last).evr());
                match found {
                    VersionOrder::Less => {
                        at = at - 1;
                    },
                    _ => {
                        proof {
                            assert forall|k: int| 0 <= k < at implies p(
                                #[trigger] sorted@[k],
                                x,
                            ) by {
                                if k < at - 1 {
                                    assert(p(sorted@[k], sorted@[at - 1]));
                                }
                            }
                        }
                        done = true;
                    },
                }
            }
            proof {
                insertion_keeps_sorted(list.take(i as int), sorted@, p, x, at as int);
                assert(list.take(i + 1) =~= list.take(i as int).push(x));
            }
            sorted.insert(at, x);
            i = i + 1;
        }
        assert(list.take(i as int) =~= list);
        *solvables = sorted;
    }

    /// The packages that provide a capability, or `None` where there are none.
    pub fn get_candidates(&self, name: NameId) -> (r: Option<&Vec<SolvableId>>)
        requires
            self.wf(),
            name.0 < self.names().len(),
        ensures
            match r {
                Some(list) => list@ == self@.providers_of(self.names()[name.0 as int])
                    && list@.len() > 0,
                None => self@.providers_of(self.names()[name.0 as int]).len() == 0,
            },
    {
        proof {
            named_by_id(self.names(), name);
        }
        self.provides_to_package.get(name)
    }

    /// Interns a dependency.
    fn intern_requirement(&mut self, requirement: Requirement) -> (r: VersionSetId)
        requires
            old(self).wf(),
            old(self).room(2),
        ensures
            final(self).wf(),
            final(self)@ == old(self)@,
            final(self).extends(*old(self), 1),
            final(self).solvables() == old(self).solvables(),
            stands_for(*final(self), r, requirement@),
            set_texts(final(self).sets()) == with_dependency(
                set_texts(old(self).sets()),
                requirement@,
            ),
    {
        let ghost text = requirement@;
        let name = self.intern_name(requirement.name.as_str());
        let ghost mid = *self;
        let r = self.pool.intern_version_set(name, RPMRequirement(requirement));
        proof {
            let sets = mid.sets();
            if !holds_matching(sets, name, text) && r.0 < sets.len() {
                assert(sets.push((name, text))[r.0 as int] == sets[r.0 as int]);
            }
        }
        if r.0 as u64 == self.set_count {
            self.set_count = self.set_count + 1;
        }
        proof {
            assert forall|i: int, j: int| 0 <= i < j < self.sets().len() implies !matching(
                #[trigger] self.sets()[i],
                (#[trigger] self.sets()[j]).0,
                self.sets()[j].1,
            ) by {
                assert(self.sets()[i] == mid.sets()[i]);
                if j < mid.sets().len() {
                    assert(self.sets()[j] == mid.sets()[j]);
                }
            }
            assert forall|i: int| 0 <= i < self.sets().len() implies (
            #[trigger] self.sets()[i]).0.0 < self.names().len()
                && self.names()[self.sets()[i].0.0 as int] == self.sets()[i].1.name by {
                if i < mid.sets().len() {
                    assert(self.sets()[i] == mid.sets()[i]);
                }
            }
            assert forall|i: int| 0 <= i < self.solvables().len() implies (
            #[trigger] self.solvables()[i]).0.0 < self.names().len()
                && self.names()[self.solvables()[i].0.0 as int] == self.solvables()[i].1.name by {
                assert(self.solvables()[i] == mid.solvables()[i]);
            }
            let held = set_texts(mid.sets());
            assert(holds_matching(mid.sets(), name, text) == holds_similar(held, text)) by {
                if holds_matching(mid.sets(), name, text) {
                    let i = choose|i: int|
                        0 <= i < mid.sets().len() && matching(
                            #[trigger] mid.sets()[i],
                            name,
                            text,
                        );
                    assert(similar(held[i], text));
                }
                if holds_similar(held, text) {
                    let i = choose|i: int|
                        0 <= i < held.len() && similar(#[trigger] held[i], text);
                    assert(mid.names()[mid.sets()[i].0.0 as int] == mid.names()[name.0 as int]);
                    assert(matching(mid.sets()[i], name, text));
                }
            }
            assert(set_texts(mid.sets().push((name, text))) =~= held.push(text));
        }
        r
    }

    /// Interns the dependencies of a list that are handed to the solver.
    fn intern_handed_on(&mut self, list: &Vec<Requirement>, ids: &mut Vec<VersionSetId>)
        requires
            old(self).wf(),
            old(self).room(list@.len() + 1int),
        ensures
            final(self).wf(),
            final(self)@ == old(self)@,
            final(self).extends(*old(self), list@.len() as int),
            final(self).solvables() == old(self).solvables(),
            final(ids)@.len() >= old(ids)@.len(),
            final(ids)@.take(old(ids)@.len() as int) == old(ids)@,
            all_stand_for(
                *final(self),
                final(ids)@.skip(old(ids)@.len() as int),
                handed_on_of(requirement_texts(list@)),
            ),
            set_texts(final(self).sets()) == with_dependencies(
                set_texts(old(self).sets()),
                handed_on_of(requirement_texts(list@)),
            ),
    {
        let ghost all = requirement_texts(list@);
        let ghost keep = |r: RequirementText| handed_on(r);
        let ghost front = ids@;
        let mut i: usize = 0;
        proof {
            reveal(Seq::filter);
            assert(all.take(0).filter(keep) =~= Seq::empty());
            assert(ids@.take(front.len() as int) =~= front);
        }
        while i < list.len()
            invariant
                i <= list@.len(),
                old(self).wf(),
                old(self).room(list@.len() + 1int),
                all == requirement_texts(list@),
                keep == (|r: RequirementText| handed_on(r)),
                self.wf(),
                self@ == old(self)@,
                self.extends(*old(self), i as int),
                self.solvables() == old(self).solvables(),
                front == old(ids)@,
                ids@.len() >= front.len(),
                ids@.take(front.len() as int) == front,
                all_stand_for(
                    *self,
                    ids@.skip(front.len() as int),
                    all.take(i as int).filter(keep),
                ),
                set_texts(self.sets()) == with_dependencies(
                    set_texts(old(self).sets()),
                    all.take(i as int).filter(keep),
                ),
            decreases list@.len() - i,
        {
            let requirement: &Requirement = &list[i];
            proof {
                reveal(Seq::filter);
                assert(all.take(i + 1).drop_last() =~= all.take(i as int));
            }
            if !starts_with_char(requirement.name.as_str(), '/') && !contains(
                requirement.name.as_str(),
                " if ",
            ) {
                let ghost before = *self;
                let ghost done = ids@.skip(front.len() as int);
                let ghost known = all.take(i as int).filter(keep);
                let id = self.intern_requirement(requirement.copy());
                ids.push(id);
                proof {
                    assert(ids@.take(front.len() as int) =~= front);
                    assert(ids@.skip(front.len() as int) =~= done.push(id));
                    assert(known.push(all[i as int]).drop_last() =~= known);
                    assert forall|k: int| 0 <= k < done.push(id).len() implies stands_for(
                        *self,
                        #[trigger] done.push(id)[k],
                        known.push(all[i as int])[k],
                    ) by {
                        if k < done.len() {
                            assert(done.push(id)[k] == done[k]);
                            assert(stands_for(before, done[k], known[k]));
                            assert(self.sets()[done[k].0 as int] == before.sets()[done[k].0 as int]);
                        }
                    }
                    assert forall|k: int| 0 <= k < old(self).names().len() implies self.names()[k]
                        == old(self).names()[k] by {
                        assert(before.names()[k] == old(self).names()[k]);
                    }
                    assert forall|k: int| 0 <= k < old(self).sets().len() implies self.sets()[k]
                        == old(self).sets()[k] by {
                        assert(before.sets()[k] == old(self).sets()[k]);
                    }
                }
            }
            i = i + 1;
        }
        assert(all.take(i as int) =~= all);
    }

    /// Whether the pool can hold the dependencies of a package.
    pub fn has_room_for_dependencies(&self, id: SolvableId) -> (r: bool)
        requires
            self.wf(),
            id.0 < self@.packages.len(),
        ensures
            r == self.room(
                self@.packages[id.0 as int].requires.len()
                    + self@.packages[id.0 as int].suggests.len() + 1int,
            ),
    {
        let p: &RPMPackageVersion = self.package(id);
        let size: u128 = p.requires.len() as u128 + p.suggests.len() as u128 + 1;
        size <= ID_LIMIT as u128 && self.has_room(size as u64)
    }

    /// What the solver is told that a package needs, as interned dependencies. Of
    /// dependencies that count as equal the one that was interned first stands for all.
    pub fn get_dependencies(&mut self, id: SolvableId) -> (r: Vec<VersionSetId>)
        requires
            old(self).wf(),
            id.0 < old(self)@.packages.len(),
            old(self).room(
                old(self)@.packages[id.0 as int].requires.len()
                    + old(self)@.packages[id.0 as int].suggests.len() + 1int,
            ),
        ensures
            final(self).wf(),
            final(self)@ == old(self)@,
            final(self).extends(
                *old(self),
                old(self)@.packages[id.0 as int].requires.len()
                    + old(self)@.packages[id.0 as int].suggests.len() as int,
            ),
            all_stand_for(*final(self), r@, old(self)@.needs(id)),
            set_texts(final(self).sets()) == with_dependencies(
                set_texts(old(self).sets()),
                old(self)@.needs(id),
            ),
    {
        let ghost pm = self@.packages[id.0 as int];
        let required: Vec<Requirement> = copy_requirements(&self.package(id).requires);
        let mut ids: Vec<VersionSetId> = Vec::new();
        self.intern_handed_on(&required, &mut ids);
        let ghost mid = *self;
        let ghost first = handed_on_of(pm.requires);
        proof {
            assert(ids@.skip(0) =~= ids@);
        }
        let ghost done = ids@;
        if !self.disable_suggest {
            let suggested: Vec<Requirement> = copy_requirements(&self.package(id).suggests);
            self.intern_handed_on(&suggested, &mut ids);
            proof {
                let second = handed_on_of(pm.suggests);
                dependencies_concat(set_texts(old(self).sets()), first, second);
                let added = ids@.skip(done.len() as int);
                assert(ids@ =~= done + added) by {
                    assert(ids@.take(done.len() as int) == done);
                }
                assert forall|k: int| 0 <= k < ids@.len() implies stands_for(
                    *self,
                    #[trigger] ids@[k],
                    (first + second)[k],
                ) by {
                    if k < done.len() {
                        assert(ids@[k] == done[k]);
                        assert(stands_for(mid, done[k], first[k]));
                        assert(self.sets()[done[k].0 as int] == mid.sets()[done[k].0 as int]);
                    } else {
                        assert(ids@[k] == added[k - done.len()]);
                        assert(stands_for(*self, added[k - done.len()], second[k - done.len()]));
                    }
                }
                assert forall|k: int| 0 <= k < old(self).names().len() implies self.names()[k]
                    == old(self).names()[k] by {
                    assert(mid.names()[k] == old(self).names()[k]);
                }
                assert forall|k: int| 0 <= k < old(self).sets().len() implies self.sets()[k]
                    == old(self).sets()[k] by {
                    assert(mid.sets()[k] == old(self).sets()[k]);
                }
            }
        } else {
            assert(first + Seq::<RequirementText>::empty() =~= first);
        }
        ids
    }
}

/// A copy of a list of dependencies.
fn copy_requirements(list: &Vec<Requirement>) -> (r: Vec<Requirement>)
    ensures
        requirement_texts(r@) == requirement_texts(list@),
        r@.len() == list@.len(),
{
    let mut copies: Vec<Requirement> = Vec::new();
    let mut i: usize = 0;
    while i < list.len()
        invariant
            i <= list@.len(),
            copies@.len() == i,
            forall|k: int| 0 <= k < i ==> (#[trigger] copies@[k])@ == list@[k]@,
        decreases list@.len() - i,
    {
        copies.push(list[i].copy());
        i = i + 1;
    }
    assert(requirement_texts(copies@) =~= requirement_texts(list@));
    copies
}

} // verus!
