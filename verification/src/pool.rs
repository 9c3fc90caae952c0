//! The pool of interned names, strings, requirements and packages.
//!
//! The storage is `resolvo::utils::Pool`. [`SolverPool`] holds it and says in its
//! contracts what each of its methods does; [`PackagePool`] builds on those contracts and
//! counts what has been interned, so that ids never run out unnoticed.
use vstd::prelude::*;
use core::fmt::Display;
use resolvo::utils::{Pool, VersionSet};
use crate::package::{
    dependencies, inverted_all, invert_flags, DependencySpec, NameId, PackageModel, PackageRecord,
    RequirementModel, RpmPackageVersion, RpmRequirement, SolvableId, StringId, VersionRelation,
    VersionSetId,
};
use crate::text::opt_str_view;

verus! {

/// The formatter of the standard library, as `Display` takes it.
#[verifier::external_type_specification]
#[verifier::external_body]
pub struct ExFormatter<'a>(core::fmt::Formatter<'a>);

/// The error of the standard library's formatting traits.
#[verifier::external_type_specification]
#[verifier::external_body]
pub struct ExFmtError(core::fmt::Error);

impl Display for RpmPackageVersion {
    /// Writes the version as `rpm_version::Evr` displays it. Nothing is claimed of it: no
    /// function of the library calls it, `resolvo::utils::Pool` asks that it is there.
    #[verifier::external_body]
    fn fmt(&self, f: &mut core::fmt::Formatter<'_>) -> core::fmt::Result {
        let evr = rpm_version::Evr::new(
            self.epoch.as_str(),
            self.version.as_str(),
            self.release.as_str(),
        );
        write!(f, "{}", evr)
    }
}

impl VersionSet for RpmRequirement {
    type V = RpmPackageVersion;
}

/// `resolvo::utils::Pool` over the requirements and packages of this library.
#[verifier::external_body]
pub struct SolverPool {
    pool: Pool<RpmRequirement>,
}

/// The package names that the pool holds, in the order of their ids.
pub uninterp spec fn pool_names(pool: SolverPool) -> Seq<Seq<char>>;

/// The strings that the pool holds, in the order of their ids.
pub uninterp spec fn pool_strings(pool: SolverPool) -> Seq<Seq<char>>;

/// The requirements that the pool holds with the names they are about, in the order of
/// their ids.
pub uninterp spec fn pool_version_sets(pool: SolverPool) -> Seq<(NameId, RpmRequirement)>;

/// The packages that the pool holds with the names they are filed under, in the order of
/// their ids.
pub uninterp spec fn pool_solvables(pool: SolverPool) -> Seq<(NameId, PackageRecord)>;

/// How many values of one kind an id can tell apart.
pub const ID_LIMIT: u64 = 0x1_0000_0000;

/// `seq`, with `value` appended where it is not there yet.
pub open spec fn with_value<T>(seq: Seq<T>, value: T) -> Seq<T> {
    if seq.contains(value) {
        seq
    } else {
        seq.push(value)
    }
}

impl SolverPool {
    /// `Pool::new`: a pool that holds nothing.
    #[verifier::external_body]
    pub(crate) fn new() -> (r: SolverPool)
        ensures
            pool_names(r) == Seq::<Seq<char>>::empty(),
            pool_strings(r) == Seq::<Seq<char>>::empty(),
            pool_version_sets(r) == Seq::<(NameId, RpmRequirement)>::empty(),
            pool_solvables(r) == Seq::<(NameId, PackageRecord)>::empty(),
    {
        SolverPool { pool: Pool::new() }
    }

    /// `Pool::intern_package_name`: the id of a name that the pool holds, or of the name
    /// appended to it. Names are not stored twice. Nothing else changes.
    #[verifier::external_body]
    pub(crate) fn intern_package_name(&mut self, name: &str) -> (r: NameId)
        requires
            pool_names(*old(self)).len() < ID_LIMIT,
        ensures
            pool_names(*final(self)) == with_value(pool_names(*old(self)), name@),
            r.0 < pool_names(*final(self)).len(),
            pool_names(*final(self))[r.0 as int] == name@,
            pool_strings(*final(self)) == pool_strings(*old(self)),
            pool_version_sets(*final(self)) == pool_version_sets(*old(self)),
            pool_solvables(*final(self)) == pool_solvables(*old(self)),
    {
        NameId(self.pool.intern_package_name(name).0)
    }

    /// `Pool::resolve_package_name`: the name with the given id. It panics on an id that
    /// the pool has not given out.
    #[verifier::external_body]
    pub(crate) fn resolve_package_name(&self, id: NameId) -> (r: &str)
        requires
            id.0 < pool_names(*self).len(),
        ensures
            r@ == pool_names(*self)[id.0 as int],
    {
        self.pool.resolve_package_name(resolvo::NameId(id.0))
    }

    /// `Pool::intern_string`: the id of a string that the pool holds, or of the string
    /// appended to it. Strings are not stored twice. Nothing else changes.
    #[verifier::external_body]
    pub(crate) fn intern_string(&mut self, s: &str) -> (r: StringId)
        requires
            pool_strings(*old(self)).len() < ID_LIMIT,
        ensures
            pool_strings(*final(self)) == with_value(pool_strings(*old(self)), s@),
            r.0 < pool_strings(*final(self)).len(),
            pool_strings(*final(self))[r.0 as int] == s@,
            pool_names(*final(self)) == pool_names(*old(self)),
            pool_version_sets(*final(self)) == pool_version_sets(*old(self)),
            pool_solvables(*final(self)) == pool_solvables(*old(self)),
    {
        StringId(self.pool.intern_string(s).0)
    }

    /// `Pool::resolve_string`: the string with the given id. It panics on an id that the
    /// pool has not given out.
    #[verifier::external_body]
    pub(crate) fn resolve_string(&self, id: StringId) -> (r: &str)
        requires
            id.0 < pool_strings(*self).len(),
        ensures
            r@ == pool_strings(*self)[id.0 as int],
    {
        self.pool.resolve_string(resolvo::StringId(id.0))
    }

    /// `Pool::intern_version_set`: the id of a requirement that the pool holds for the
    /// name, or of the requirement appended to it. Requirements are not stored twice.
    /// Nothing else changes.
    #[verifier::external_body]
    pub(crate) fn intern_version_set(&mut self, name: NameId, set: RpmRequirement) -> (r:
        VersionSetId)
        requires
            pool_version_sets(*old(self)).len() < ID_LIMIT,
        ensures
            pool_version_sets(*final(self)) == with_value(
                pool_version_sets(*old(self)),
                (name, set),
            ),
            r.0 < pool_version_sets(*final(self)).len(),
            pool_version_sets(*final(self))[r.0 as int] == (name, set),
            pool_names(*final(self)) == pool_names(*old(self)),
            pool_strings(*final(self)) == pool_strings(*old(self)),
            pool_solvables(*final(self)) == pool_solvables(*old(self)),
    {
        VersionSetId(self.pool.intern_version_set(resolvo::NameId(name.0), set).0)
    }

    /// `Pool::resolve_version_set`: the requirement with the given id. It panics on an id
    /// that the pool has not given out.
    #[verifier::external_body]
    pub(crate) fn resolve_version_set(&self, id: VersionSetId) -> (r: RpmRequirement)
        requires
            id.0 < pool_version_sets(*self).len(),
        ensures
            r == pool_version_sets(*self)[id.0 as int].1,
    {
        *self.pool.resolve_version_set(resolvo::VersionSetId(id.0))
    }

    /// `Pool::resolve_version_set_package_name`: the name that the requirement with the
    /// given id is about. It panics on an id that the pool has not given out.
    #[verifier::external_body]
    pub(crate) fn resolve_version_set_package_name(&self, id: VersionSetId) -> (r: NameId)
        requires
            id.0 < pool_version_sets(*self).len(),
        ensures
            r == pool_version_sets(*self)[id.0 as int].0,
    {
        NameId(self.pool.resolve_version_set_package_name(resolvo::VersionSetId(id.0)).0)
    }

    /// `Pool::intern_solvable`: appends a package and gives its id; packages are stored as
    /// often as they are added. Nothing else changes.
    #[verifier::external_body]
    pub(crate) fn intern_solvable(&mut self, name: NameId, record: RpmPackageVersion) -> (r:
        SolvableId)
        requires
            pool_solvables(*old(self)).len() < ID_LIMIT,
        ensures
            r.0 == pool_solvables(*old(self)).len(),
            pool_solvables(*final(self)) == pool_solvables(*old(self)).push((name, record@)),
            pool_names(*final(self)) == pool_names(*old(self)),
            pool_strings(*final(self)) == pool_strings(*old(self)),
            pool_version_sets(*final(self)) == pool_version_sets(*old(self)),
    {
        SolvableId(self.pool.intern_solvable(resolvo::NameId(name.0), record).0)
    }

    /// `Pool::resolve_solvable`: the package with the given id and the name it is filed
    /// under. It panics on an id that the pool has not given out.
    #[verifier::external_body]
    pub(crate) fn resolve_solvable(&self, id: SolvableId) -> (r: (NameId, &RpmPackageVersion))
        requires
            id.0 < pool_solvables(*self).len(),
        ensures
            (r.0, r.1@) == pool_solvables(*self)[id.0 as int],
    {
        let solvable = self.pool.resolve_solvable(resolvo::SolvableId(id.0));
        (NameId(solvable.name.0), &solvable.record)
    }
}

/// A solver pool that keeps count of what it holds.
pub struct PackagePool {
    pool: SolverPool,
    name_count: u64,
    string_count: u64,
    set_count: u64,
    solvable_count: u64,
}

impl PackagePool {
    /// The interned names, in the order of their ids.
    pub closed spec fn names(self) -> Seq<Seq<char>> {
        pool_names(self.pool)
    }

    /// The interned strings, in the order of their ids.
    pub closed spec fn strings(self) -> Seq<Seq<char>> {
        pool_strings(self.pool)
    }

    /// The interned requirements with the names they are about, in the order of their ids.
    pub closed spec fn sets(self) -> Seq<(NameId, RpmRequirement)> {
        pool_version_sets(self.pool)
    }

    /// The packages with the names they are filed under, in the order of their ids.
    pub closed spec fn solvables(self) -> Seq<(NameId, PackageRecord)> {
        pool_solvables(self.pool)
    }

    /// Whether the pool has given out the name id.
    pub open spec fn valid_name(self, id: NameId) -> bool {
        id.0 < self.names().len()
    }

    /// Whether the pool has given out the string id, where there is one.
    pub open spec fn valid_string(self, id: Option<StringId>) -> bool {
        id matches Some(i) ==> i.0 < self.strings().len()
    }

    /// Whether the pool has given out the requirement id.
    pub open spec fn valid_set(self, id: VersionSetId) -> bool {
        id.0 < self.sets().len()
    }

    /// Whether the pool has given out every requirement id of a list.
    pub open spec fn valid_sets(self, ids: Seq<VersionSetId>) -> bool {
        forall|i: int| 0 <= i < ids.len() ==> self.valid_set(#[trigger] ids[i])
    }

    /// Whether the pool has given out the package id.
    pub open spec fn valid_solvable(self, id: SolvableId) -> bool {
        id.0 < self.solvables().len()
    }

    /// The name with the given id.
    pub open spec fn name_text(self, id: NameId) -> Seq<char> {
        self.names()[id.0 as int]
    }

    /// The string with the given id, where there is one.
    pub open spec fn string_text(self, id: Option<StringId>) -> Option<Seq<char>> {
        match id {
            Some(i) => Some(self.strings()[i.0 as int]),
            None => None,
        }
    }

    /// An interned requirement on a name, with its texts.
    pub open spec fn resolved(self, name: NameId, set: RpmRequirement) -> RequirementModel {
        RequirementModel {
            name: self.name_text(name),
            flags: set.flags,
            epoch: self.string_text(set.epoch),
            version: self.string_text(set.version),
            release: self.string_text(set.release),
            preinstall: set.preinstall,
        }
    }

    /// The requirement with the given id, with its texts.
    pub open spec fn requirement(self, id: VersionSetId) -> RequirementModel {
        self.resolved(self.sets()[id.0 as int].0, self.sets()[id.0 as int].1)
    }

    /// The requirements with the given ids, with their texts.
    pub open spec fn requirements(self, ids: Seq<VersionSetId>) -> Seq<RequirementModel> {
        ids.map_values(|id: VersionSetId| self.requirement(id))
    }

    /// A package record with its dependencies written out.
    pub open spec fn resolved_package(self, record: PackageRecord) -> PackageModel {
        PackageModel {
            name: record.name,
            evr: record.evr,
            arch: record.arch,
            repo_id: record.repo_id,
            requires: self.requirements(record.requires),
            conflicts: self.requirements(record.conflicts),
            obsoletes: self.requirements(record.obsoletes),
            recommends: self.requirements(record.recommends),
            suggests: self.requirements(record.suggests),
            supplements: self.requirements(record.supplements),
            enhances: self.requirements(record.enhances),
        }
    }

    /// The packages, with their dependencies written out.
    pub open spec fn packages(self) -> Seq<PackageModel> {
        Seq::new(self.solvables().len(), |i: int| self.resolved_package(self.solvables()[i].1))
    }

    /// Whether every requirement id of the record was given out by the pool.
    pub open spec fn valid_record(self, record: PackageRecord) -> bool {
        &&& self.valid_sets(record.requires)
        &&& self.valid_sets(record.conflicts)
        &&& self.valid_sets(record.obsoletes)
        &&& self.valid_sets(record.recommends)
        &&& self.valid_sets(record.suggests)
        &&& self.valid_sets(record.supplements)
        &&& self.valid_sets(record.enhances)
    }

    /// Whether the requirement and the name it is about were given out by the pool.
    pub open spec fn valid_entry(self, entry: (NameId, RpmRequirement)) -> bool {
        &&& self.valid_name(entry.0)
        &&& self.valid_string(entry.1.epoch)
        &&& self.valid_string(entry.1.version)
        &&& self.valid_string(entry.1.release)
    }

    /// Whether the counts are those of what the pool holds.
    pub closed spec fn counted(self) -> bool {
        &&& self.name_count == self.names().len()
        &&& self.string_count == self.strings().len()
        &&& self.set_count == self.sets().len()
        &&& self.solvable_count == self.solvables().len()
    }

    /// The pool's invariant: names, strings and requirements are held once, what the pool
    /// holds can be told apart by its ids, and every id in it was given out by it.
    pub open spec fn wf(self) -> bool {
        &&& self.counted()
        &&& self.room(0)
        &&& self.names().no_duplicates()
        &&& self.strings().no_duplicates()
        &&& self.sets().no_duplicates()
        &&& forall|i: int|
            0 <= i < self.sets().len() ==> self.valid_entry(#[trigger] self.sets()[i])
        &&& forall|i: int|
            0 <= i < self.solvables().len() ==> {
                let entry = #[trigger] self.solvables()[i];
                self.valid_name(entry.0) && self.name_text(entry.0) == entry.1.name
                    && self.valid_record(entry.1)
            }
    }

    /// Whether `n` more values of each kind can be told apart by ids.
    pub open spec fn room(self, n: int) -> bool {
        &&& self.names().len() + n <= ID_LIMIT
        &&& self.strings().len() + n <= ID_LIMIT
        &&& self.sets().len() + n <= ID_LIMIT
        &&& self.solvables().len() + n <= ID_LIMIT
    }

    /// Whether the pool holds everything that `base` holds under the same ids, and at most
    /// `n` values of each kind beside it.
    pub open spec fn extends(self, base: PackagePool, n: int) -> bool {
        &&& extended(base.names(), self.names(), n)
        &&& extended(base.strings(), self.strings(), n)
        &&& extended(base.sets(), self.sets(), n)
        &&& extended(base.solvables(), self.solvables(), n)
    }
}

/// Whether `long` begins with `short` and has at most `n` elements more.
pub open spec fn extended<T>(short: Seq<T>, long: Seq<T>, n: int) -> bool {
    &&& short.len() <= long.len() <= short.len() + n
    &&& forall|i: int| 0 <= i < short.len() ==> #[trigger] long[i] == short[i]
}

/// Growing twice is growing once by the sum.
pub(crate) proof fn extends_in_steps(
    a: PackagePool,
    b: PackagePool,
    c: PackagePool,
    n: int,
    m: int,
)
    requires
        b.extends(a, n),
        c.extends(b, m),
    ensures
        c.extends(a, n + m),
{
    assert forall|i: int| 0 <= i < a.names().len() implies c.names()[i] == a.names()[i] by {
        assert(b.names()[i] == a.names()[i]);
    }
    assert forall|i: int| 0 <= i < a.strings().len() implies c.strings()[i] == a.strings()[i] by {
        assert(b.strings()[i] == a.strings()[i]);
    }
    assert forall|i: int| 0 <= i < a.sets().len() implies c.sets()[i] == a.sets()[i] by {
        assert(b.sets()[i] == a.sets()[i]);
    }
    assert forall|i: int| 0 <= i < a.solvables().len() implies c.solvables()[i]
        == a.solvables()[i] by {
        assert(b.solvables()[i] == a.solvables()[i]);
    }
}

/// A string id, where there is one, is told by its text.
proof fn string_told_by_text(pool: PackagePool, a: Option<StringId>, b: Option<StringId>)
    requires
        pool.wf(),
        pool.valid_string(a),
        pool.valid_string(b),
        pool.string_text(a) == pool.string_text(b),
    ensures
        a == b,
{
    if let (Some(x), Some(y)) = (a, b) {
        assert(pool.strings()[x.0 as int] == pool.strings()[y.0 as int]);
    }
}

/// Equal requirements share an id: two ids that mean the same requirement are the same.
pub proof fn equal_requirements_share_an_id(pool: PackagePool, a: VersionSetId, b: VersionSetId)
    requires
        pool.wf(),
        pool.valid_set(a),
        pool.valid_set(b),
        pool.requirement(a) == pool.requirement(b),
    ensures
        a == b,
{
    let x = pool.sets()[a.0 as int];
    let y = pool.sets()[b.0 as int];
    assert(pool.valid_entry(x) && pool.valid_entry(y));
    assert(pool.names()[x.0.0 as int] == pool.names()[y.0.0 as int]);
    string_told_by_text(pool, x.1.epoch, y.1.epoch);
    string_told_by_text(pool, x.1.version, y.1.version);
    string_told_by_text(pool, x.1.release, y.1.release);
    assert(x == y);
}

/// A requirement id means the same in a pool that has grown.
pub proof fn requirement_kept(base: PackagePool, pool: PackagePool, n: int, id: VersionSetId)
    requires
        base.wf(),
        pool.extends(base, n),
        base.valid_set(id),
    ensures
        pool.valid_set(id),
        pool.requirement(id) == base.requirement(id),
{
    assert(base.valid_entry(base.sets()[id.0 as int]));
    assert(pool.sets()[id.0 as int] == base.sets()[id.0 as int]);
}

/// A list of requirement ids means the same in a pool that has grown.
pub(crate) proof fn requirements_kept(
    base: PackagePool,
    pool: PackagePool,
    n: int,
    ids: Seq<VersionSetId>,
)
    requires
        base.wf(),
        pool.extends(base, n),
        base.valid_sets(ids),
    ensures
        pool.valid_sets(ids),
        pool.requirements(ids) == base.requirements(ids),
{
    assert forall|i: int| 0 <= i < ids.len() implies pool.valid_set(#[trigger] ids[i])
        && pool.requirement(ids[i]) == base.requirement(ids[i]) by {
        assert(base.valid_set(ids[i]));
        requirement_kept(base, pool, n, ids[i]);
    }
    assert(pool.requirements(ids) =~= base.requirements(ids));
}

/// A record means the same in a pool that has grown.
pub(crate) proof fn record_kept(base: PackagePool, pool: PackagePool, n: int, record: PackageRecord)
    requires
        base.wf(),
        pool.extends(base, n),
        base.valid_record(record),
    ensures
        pool.valid_record(record),
        pool.resolved_package(record) == base.resolved_package(record),
{
    requirements_kept(base, pool, n, record.requires);
    requirements_kept(base, pool, n, record.conflicts);
    requirements_kept(base, pool, n, record.obsoletes);
    requirements_kept(base, pool, n, record.recommends);
    requirements_kept(base, pool, n, record.suggests);
    requirements_kept(base, pool, n, record.supplements);
    requirements_kept(base, pool, n, record.enhances);
}

/// The packages of a pool stay what they are while names, strings and requirements are
/// interned.
pub(crate) proof fn packages_kept(base: PackagePool, pool: PackagePool, n: int)
    requires
        base.wf(),
        pool.extends(base, n),
        pool.solvables() == base.solvables(),
    ensures
        pool.packages() == base.packages(),
{
    assert forall|i: int| 0 <= i < base.solvables().len() implies pool.packages()[i]
        == base.packages()[i] by {
        let entry = base.solvables()[i];
        assert(base.valid_record(entry.1));
        record_kept(base, pool, n, entry.1);
    }
    assert(pool.packages() =~= base.packages());
}

/// What interning keeps: the packages, the invariant and the meaning of all ids.
pub open spec fn interned(base: PackagePool, pool: PackagePool, n: int) -> bool {
    &&& pool.wf()
    &&& pool.extends(base, n)
    &&& pool.solvables() == base.solvables()
}

impl PackagePool {
    /// A pool that holds nothing.
    pub fn new() -> (r: PackagePool)
        ensures
            r.wf(),
            r.names().len() == 0,
            r.strings().len() == 0,
            r.sets().len() == 0,
            r.solvables().len() == 0,
    {
        PackagePool {
            pool: SolverPool::new(),
            name_count: 0,
            string_count: 0,
            set_count: 0,
            solvable_count: 0,
        }
    }

    /// Whether `n` more values of each kind can be told apart by ids.
    pub fn has_room(&self, n: u64) -> (r: bool)
        requires
            self.wf(),
        ensures
            r == self.room(n as int),
    {
        n <= ID_LIMIT && self.name_count <= ID_LIMIT - n && self.string_count <= ID_LIMIT - n
            && self.set_count <= ID_LIMIT - n && self.solvable_count <= ID_LIMIT - n
    }

    /// How many packages the pool holds.
    pub fn solvable_count(&self) -> (r: u64)
        requires
            self.wf(),
        ensures
            r == self.solvables().len(),
    {
        self.solvable_count
    }

    /// Interns a name.
    pub fn intern_package_name(&mut self, name: &str) -> (r: NameId)
        requires
            old(self).wf(),
            old(self).room(1),
        ensures
            interned(*old(self), *final(self), 1),
            final(self).valid_name(r),
            final(self).name_text(r) == name@,
            final(self).names() == with_value(old(self).names(), name@),
            final(self).strings() == old(self).strings(),
            final(self).sets() == old(self).sets(),
    {
        let r = self.pool.intern_package_name(name);
        proof {
            let names = old(self).names();
            if !names.contains(name@) {
                assert(r.0 as u64 == self.name_count) by {
                    if r.0 < names.len() {
                        assert(names.push(name@)[r.0 as int] == names[r.0 as int]);
                        assert(names.contains(name@));
                    }
                }
                assert(names.push(name@).no_duplicates());
            }
        }
        if r.0 as u64 == self.name_count {
            self.name_count = self.name_count + 1;
        }
        r
    }

    /// Interns a string.
    pub fn intern_string(&mut self, s: &str) -> (r: StringId)
        requires
            old(self).wf(),
            old(self).room(1),
        ensures
            interned(*old(self), *final(self), 1),
            final(self).valid_string(Some(r)),
            final(self).string_text(Some(r)) == Some(s@),
            final(self).names() == old(self).names(),
            final(self).strings() == with_value(old(self).strings(), s@),
            final(self).sets() == old(self).sets(),
    {
        let r = self.pool.intern_string(s);
        proof {
            let strings = old(self).strings();
            if !strings.contains(s@) {
                if r.0 < strings.len() {
                    assert(strings.push(s@)[r.0 as int] == strings[r.0 as int]);
                    assert(strings.contains(s@));
                }
                assert(strings.push(s@).no_duplicates());
            }
        }
        if r.0 as u64 == self.string_count {
            self.string_count = self.string_count + 1;
        }
        r
    }

    /// Interns a string, where there is one.
    pub fn intern_optional(&mut self, s: Option<&str>) -> (r: Option<StringId>)
        requires
            old(self).wf(),
            old(self).room(1),
        ensures
            interned(*old(self), *final(self), 1),
            final(self).valid_string(r),
            final(self).string_text(r) == opt_str_view(s),
            final(self).names() == old(self).names(),
            final(self).sets() == old(self).sets(),
    {
        match s {
            Some(t) => Some(self.intern_string(t)),
            None => None,
        }
    }

    /// Interns a requirement on a name.
    pub fn intern_version_set(&mut self, name: NameId, set: RpmRequirement) -> (r: VersionSetId)
        requires
            old(self).wf(),
            old(self).room(1),
            old(self).valid_entry((name, set)),
        ensures
            interned(*old(self), *final(self), 1),
            final(self).valid_set(r),
            final(self).requirement(r) == old(self).resolved(name, set),
            final(self).names() == old(self).names(),
            final(self).strings() == old(self).strings(),
            final(self).sets() == with_value(old(self).sets(), (name, set)),
    {
        let r = self.pool.intern_version_set(name, set);
        proof {
            let sets = old(self).sets();
            if !sets.contains((name, set)) {
                if r.0 < sets.len() {
                    assert(sets.push((name, set))[r.0 as int] == sets[r.0 as int]);
                    assert(sets.contains((name, set)));
                }
                assert(sets.push((name, set)).no_duplicates());
            }
        }
        if r.0 as u64 == self.set_count {
            self.set_count = self.set_count + 1;
        }
        proof {
            assert forall|i: int| 0 <= i < self.sets().len() implies self.valid_entry(
                #[trigger] self.sets()[i],
            ) by {
                if i < old(self).sets().len() {
                    assert(old(self).valid_entry(old(self).sets()[i]));
                }
            }
        }
        r
    }

    /// Adds a package under the name with the given id.
    pub fn intern_solvable(&mut self, name: NameId, record: RpmPackageVersion) -> (r: SolvableId)
        requires
            old(self).wf(),
            old(self).room(1),
            old(self).valid_name(name),
            old(self).name_text(name) == record@.name,
            old(self).valid_record(record@),
        ensures
            final(self).wf(),
            final(self).extends(*old(self), 1),
            r.0 == old(self).solvables().len(),
            final(self).solvables() == old(self).solvables().push((name, record@)),
            final(self).packages() == old(self).packages().push(
                old(self).resolved_package(record@),
            ),
            final(self).names() == old(self).names(),
            final(self).strings() == old(self).strings(),
            final(self).sets() == old(self).sets(),
    {
        let ghost view = record@;
        let r = self.pool.intern_solvable(name, record);
        self.solvable_count = self.solvable_count + 1;
        proof {
            assert forall|i: int| 0 <= i < self.solvables().len() implies {
                let entry = #[trigger] self.solvables()[i];
                self.valid_name(entry.0) && self.name_text(entry.0) == entry.1.name
                    && self.valid_record(entry.1)
            } by {
                if i < old(self).solvables().len() {
                    let entry = old(self).solvables()[i];
                    assert(old(self).valid_record(entry.1));
                }
            }
            assert forall|i: int| 0 <= i < self.solvables().len() implies self.packages()[i]
                == old(self).packages().push(old(self).resolved_package(view))[i] by {
                let entry = self.solvables()[i];
                if i < old(self).solvables().len() {
                    assert(entry == old(self).solvables()[i]);
                }
                assert(old(self).valid_record(entry.1));
                record_kept(*old(self), *self, 1, entry.1);
            }
            assert(self.packages() =~= old(self).packages().push(
                old(self).resolved_package(view),
            ));
        }
        r
    }

    /// The name with the given id.
    pub fn resolve_package_name(&self, id: NameId) -> (r: &str)
        requires
            self.valid_name(id),
        ensures
            r@ == self.name_text(id),
    {
        self.pool.resolve_package_name(id)
    }

    /// The string with the given id, where there is one.
    pub fn resolve_optional(&self, id: Option<StringId>) -> (r: Option<&str>)
        requires
            self.valid_string(id),
        ensures
            opt_str_view(r) == self.string_text(id),
    {
        match id {
            Some(i) => Some(self.pool.resolve_string(i)),
            None => None,
        }
    }

    /// The requirement with the given id.
    pub fn resolve_version_set(&self, id: VersionSetId) -> (r: RpmRequirement)
        requires
            self.valid_set(id),
        ensures
            r == self.sets()[id.0 as int].1,
    {
        self.pool.resolve_version_set(id)
    }

    /// The name that the requirement with the given id is about.
    pub fn resolve_version_set_package_name(&self, id: VersionSetId) -> (r: NameId)
        requires
            self.valid_set(id),
        ensures
            r == self.sets()[id.0 as int].0,
    {
        self.pool.resolve_version_set_package_name(id)
    }

    /// The package with the given id.
    pub fn resolve_solvable(&self, id: SolvableId) -> (r: &RpmPackageVersion)
        requires
            self.valid_solvable(id),
        ensures
            r@ == self.solvables()[id.0 as int].1,
    {
        self.pool.resolve_solvable(id).1
    }

    /// The name that the package with the given id is filed under.
    pub fn solvable_name(&self, id: SolvableId) -> (r: NameId)
        requires
            self.valid_solvable(id),
        ensures
            r == self.solvables()[id.0 as int].0,
    {
        self.pool.resolve_solvable(id).0
    }

    /// Interns a dependency with its name and its texts.
    pub fn intern_requirement(&mut self, data: &DependencySpec<'_>) -> (r: VersionSetId)
        requires
            old(self).wf(),
            old(self).room(4),
        ensures
            interned(*old(self), *final(self), 4),
            final(self).valid_set(r),
            final(self).requirement(r) == data@,
    {
        let name = self.intern_package_name(data.name);
        let epoch = self.intern_optional(data.epoch);
        let version = self.intern_optional(data.version);
        let release = self.intern_optional(data.release);
        let flags: Option<VersionRelation> = match data.flags {
            Some(f) => Some(f.relation()),
            None => None,
        };
        self.intern_version_set(
            name,
            RpmRequirement { flags, epoch, version, release, preinstall: data.preinstall },
        )
    }

    /// Interns what a conflict or an obsoletes entry asks of the other package: the
    /// entry's version constraint inverted.
    pub fn intern_inverted_requirement(&mut self, data: &DependencySpec<'_>) -> (r: VersionSetId)
        requires
            old(self).wf(),
            old(self).room(4),
        ensures
            interned(*old(self), *final(self), 4),
            final(self).valid_set(r),
            final(self).requirement(r) == data@.inverted(),
    {
        let name = self.intern_package_name(data.name);
        let set: RpmRequirement = match data.flags {
            None => {
                let epoch = self.intern_string("0");
                let version = self.intern_string("0");
                RpmRequirement {
                    flags: Some(VersionRelation::LT),
                    epoch: Some(epoch),
                    version: Some(version),
                    release: None,
                    preinstall: false,
                }
            },
            Some(f) => {
                let epoch = self.intern_optional(data.epoch);
                let version = self.intern_optional(data.version);
                let release = self.intern_optional(data.release);
                RpmRequirement {
                    flags: Some(invert_flags(f.relation())),
                    epoch,
                    version,
                    release,
                    preinstall: data.preinstall,
                }
            },
        };
        self.intern_version_set(name, set)
    }

    /// Interns a requirement on a name alone.
    pub fn intern_unversioned(&mut self, name: &str) -> (r: VersionSetId)
        requires
            old(self).wf(),
            old(self).room(2),
        ensures
            interned(*old(self), *final(self), 1),
            final(self).valid_set(r),
            final(self).requirement(r) == RequirementModel::unversioned(name@),
    {
        let id = self.intern_package_name(name);
        self.intern_version_set(
            id,
            RpmRequirement {
                flags: None,
                epoch: None,
                version: None,
                release: None,
                preinstall: false,
            },
        )
    }

    /// Interns the dependencies of a list.
    pub fn intern_requirements(&mut self, list: &[DependencySpec<'_>]) -> (r: Vec<VersionSetId>)
        requires
            old(self).wf(),
            old(self).room(4int * list@.len()),
        ensures
            interned(*old(self), *final(self), 4int * list@.len()),
            final(self).valid_sets(r@),
            final(self).requirements(r@) == dependencies(list@),
    {
        let mut ids: Vec<VersionSetId> = Vec::new();
        let mut i: usize = 0;
        while i < list.len()
            invariant
                i <= list@.len(),
                old(self).wf(),
                old(self).room(4int * list@.len()),
                interned(*old(self), *self, 4 * i),
                self.valid_sets(ids@),
                self.requirements(ids@) == dependencies(list@.take(i as int)),
            decreases list@.len() - i,
        {
            let ghost before = *self;
            let id = self.intern_requirement(&list[i]);
            proof {
                extends_in_steps(*old(self), before, *self, 4 * i, 4);
                requirements_kept(before, *self, 4, ids@);
                assert(list@.take(i + 1) =~= list@.take(i as int).push(list@[i as int]));
                assert(dependencies(list@.take(i + 1)) =~= dependencies(
                    list@.take(i as int),
                ).push(list@[i as int]@));
                assert(self.requirements(ids@.push(id)) =~= self.requirements(ids@).push(
                    self.requirement(id),
                ));
            }
            ids.push(id);
            i = i + 1;
        }
        assert(list@.take(i as int) =~= list@);
        ids
    }

    /// Interns the inverses of the dependencies of a list.
    pub fn intern_inverted_requirements(&mut self, list: &[DependencySpec<'_>]) -> (r: Vec<
        VersionSetId,
    >)
        requires
            old(self).wf(),
            old(self).room(4int * list@.len()),
        ensures
            interned(*old(self), *final(self), 4int * list@.len()),
            final(self).valid_sets(r@),
            final(self).requirements(r@) == inverted_all(dependencies(list@)),
    {
        let mut ids: Vec<VersionSetId> = Vec::new();
        let mut i: usize = 0;
        while i < list.len()
            invariant
                i <= list@.len(),
                old(self).wf(),
                old(self).room(4int * list@.len()),
                interned(*old(self), *self, 4 * i),
                self.valid_sets(ids@),
                self.requirements(ids@) == inverted_all(dependencies(list@.take(i as int))),
            decreases list@.len() - i,
        {
            let ghost before = *self;
            let id = self.intern_inverted_requirement(&list[i]);
            proof {
                extends_in_steps(*old(self), before, *self, 4 * i, 4);
                requirements_kept(before, *self, 4, ids@);
                assert(inverted_all(dependencies(list@.take(i + 1))) =~= inverted_all(
                    dependencies(list@.take(i as int)),
                ).push(list@[i as int]@.inverted()));
                assert(self.requirements(ids@.push(id)) =~= self.requirements(ids@).push(
                    self.requirement(id),
                ));
            }
            ids.push(id);
            i = i + 1;
        }
        assert(list@.take(i as int) =~= list@);
        ids
    }
}

} // verus!
