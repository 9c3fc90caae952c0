//! The provider: all packages of all repositories, with an index of who provides what.
use vstd::prelude::*;
use std::collections::HashMap;
use std::path::PathBuf;
use crate::draft::{
    draft_kept, empty_draft, intern_names, intern_provides, name_texts, provide_models, valid_names,
    valid_provides, PackageInProgress, ProvideInProgress,
};
use crate::evr::{evr_string, evr_text, EvrModel, EvrRef};
use crate::index::{
    index_kept, index_valid, named, named_by_id, providers_by_name, providers_registered,
    version_key, version_key_injective, version_recorded, versions_by_name,
};
use crate::model::{
    own_names_kept, own_names_kept_by_list, providers_in, with_provider, with_provider_list,
    with_providers, with_versions, ProviderModel,
};
use crate::package::{
    DependencySpec, NameId, PackageModel, PackageSpec, ProvideModel, ProvidesVersion,
    RequirementModel, RequirementRef, RpmPackageVersion, SolvableId, VersionSetId,
};
use crate::pool::{extends_in_steps, interned, packages_kept, PackagePool, ID_LIMIT};
use crate::provides::ProvidesMap;
use crate::text::{opt_str_view, opt_view, or_empty, owned, texts};

verus! {

/// All packages of all repositories, with an index of who provides what.
pub struct RpmProvider {
    pool: PackagePool,
    provides_to_package: ProvidesMap,
    /// The versions that packages state for what they provide, by package and capability.
    provides_versions: HashMap<u64, ProvidesVersion>,
    repo_labels: Vec<String>,
    target_arch: Option<String>,
    filelists_paths: Vec<PathBuf>,
    filelists_loaded: bool,
}

/// The text of an optional string, empty where there is none.
fn text_or_empty(s: &Option<String>) -> (r: String)
    ensures
        r@ == or_empty(opt_view(*s)),
{
    match s {
        Some(t) => t.clone(),
        None => String::new(),
    }
}

impl View for RpmProvider {
    type V = ProviderModel;

    closed spec fn view(&self) -> ProviderModel {
        ProviderModel {
            packages: self.pool.packages(),
            providers: providers_by_name(self.pool.names(), self.provides_to_package),
            provided: versions_by_name(self.pool.names(), self.provides_versions@),
            repo_labels: texts(self.repo_labels@),
            target_arch: opt_view(self.target_arch),
            filelists: self.filelists_paths@,
            filelists_loaded: self.filelists_loaded,
        }
    }
}

impl RpmProvider {
    /// The pool of interned values. Ids are given out by it and keep their meaning while it
    /// grows.
    pub closed spec fn pool(self) -> PackagePool {
        self.pool
    }

    /// Whether every id in the provider was given out by its pool.
    spec fn indexed(self) -> bool {
        &&& self.pool.wf()
        &&& index_valid(
            self.pool.names(),
            self.pool.solvables().len(),
            self.provides_to_package,
            self.provides_versions@,
        )
    }

    /// The provider's invariant: every id in it was given out by its pool, every package
    /// provides its own name, and no file list waits once all have been handed out.
    pub closed spec fn wf(self) -> bool {
        &&& self.indexed()
        &&& self@.own_names()
        &&& self.filelists_loaded ==> self.filelists_paths@.len() == 0
    }

    /// The index means the same in a pool that has grown.
    proof fn index_grown(self, base: PackagePool, pool: PackagePool, n: int)
        requires
            base.wf(),
            pool.wf(),
            pool.extends(base, n),
            index_valid(
                base.names(),
                base.solvables().len(),
                self.provides_to_package,
                self.provides_versions@,
            ),
        ensures
            index_valid(
                pool.names(),
                pool.solvables().len(),
                self.provides_to_package,
                self.provides_versions@,
            ),
            providers_by_name(pool.names(), self.provides_to_package) == providers_by_name(
                base.names(),
                self.provides_to_package,
            ),
            versions_by_name(pool.names(), self.provides_versions@) == versions_by_name(
                base.names(),
                self.provides_versions@,
            ),
    {
        index_kept(
            base.names(),
            pool.names(),
            n,
            base.solvables().len(),
            pool.solvables().len(),
            self.provides_to_package,
            self.provides_versions@,
        );
    }

    /// What the invariant promises of a provider: packages are numbered, every package
    /// provides its own name, whatever is registered or stated is so of a known package, and
    /// no file list waits once all have been handed out.
    pub proof fn valid_ids(self)
        requires
            self.wf(),
        ensures
            self.pool().wf(),
            self@.packages == self.pool().packages(),
            self@.packages.len() <= ID_LIMIT,
            self@.own_names(),
            forall|name: Seq<char>, i: int|
                0 <= i < self@.providers_of(name).len() ==> (#[trigger] self@.providers_of(
                    name,
                )[i]).0 < self@.packages.len(),
            forall|id: SolvableId, name: Seq<char>| #[trigger]
                self@.provided.dom().contains((id, name)) ==> id.0 < self@.packages.len(),
            self@.filelists_loaded ==> self@.filelists.len() == 0,
    {
        assert forall|name: Seq<char>, i: int|
            0 <= i < self@.providers_of(name).len() implies (#[trigger] self@.providers_of(
            name,
        )[i]).0 < self@.packages.len() by {
            let id = named(self.pool.names(), name);
            assert(self@.providers_of(name) == self.provides_to_package.of(id));
            assert(self.pool.valid_solvable(self.provides_to_package.of(id)[i]));
        }
        assert forall|id: SolvableId, name: Seq<char>| #[trigger]
            self@.provided.dom().contains((id, name)) implies id.0 < self@.packages.len() by {
            let key = version_key(id, named(self.pool.names(), name));
            assert(self.provides_versions@.dom().contains(key));
        }
    }

    /// Registers a package as a provider of a capability.
    fn register(&mut self, name: NameId, solvable: SolvableId)
        requires
            old(self).indexed(),
            old(self).pool.valid_name(name),
            old(self).pool.valid_solvable(solvable),
        ensures
            final(self).indexed(),
            final(self).pool == old(self).pool,
            final(self)@ == (ProviderModel {
                providers: with_provider(
                    old(self)@.providers,
                    old(self).pool.name_text(name),
                    solvable,
                ),
                ..old(self)@
            }),
    {
        self.provides_to_package.push(name, solvable);
        proof {
            let ids = seq![solvable];
            let map = old(self).provides_to_package;
            assert(map.of(name).push(solvable) =~= map.of(name) + ids);
            providers_registered(self.pool.names(), map, self.provides_to_package, name, ids);
            let before = old(self)@.providers;
            let text = self.pool.name_text(name);
            assert(providers_in(before, text).push(solvable) =~= providers_in(before, text)
                + ids);
            assert forall|id: NameId, i: int|
                0 <= i < self.provides_to_package.of(id).len() implies self.pool.valid_solvable(
                #[trigger] self.provides_to_package.of(id)[i],
            ) by {
                if i < map.of(id).len() {
                    assert(self.provides_to_package.of(id)[i] == map.of(id)[i]);
                }
            }
        }
    }

    /// Records the version under which a package provides a capability.
    fn record_version(&mut self, solvable: SolvableId, name: NameId, version: ProvidesVersion)
        requires
            old(self).indexed(),
            old(self).pool.valid_name(name),
            old(self).pool.valid_solvable(solvable),
        ensures
            final(self).indexed(),
            final(self).pool == old(self).pool,
            final(self)@ == (ProviderModel {
                provided: old(self)@.provided.insert(
                    (solvable, old(self).pool.name_text(name)),
                    version@,
                ),
                ..old(self)@
            }),
    {
        broadcast use vstd::std_specs::hash::group_hash_axioms;

        let key: u64 = solvable.0 as u64 * 0x1_0000_0000 + name.0 as u64;
        self.provides_versions.insert(key, version);
        proof {
            assert(key == version_key(solvable, name));
            version_recorded(
                self.pool.names(),
                old(self).provides_versions@,
                solvable,
                name,
                version,
            );
            assert forall|s: SolvableId, n: NameId|
                self.provides_versions@.dom().contains(#[trigger] version_key(s, n)) implies
            self.pool.valid_solvable(s) && self.pool.valid_name(n) by {
                version_key_injective(s, n, solvable, name);
            }
        }
    }
}

/// Registering one capability more of a list.
proof fn providers_step(
    m: Map<Seq<char>, Seq<SolvableId>>,
    names: Seq<Seq<char>>,
    k: int,
    id: SolvableId,
)
    requires
        0 <= k < names.len(),
    ensures
        with_providers(m, names.take(k + 1), id) == with_provider(
            with_providers(m, names.take(k), id),
            names[k],
            id,
        ),
{
    assert(names.take(k + 1).drop_last() =~= names.take(k));
}

/// Recording the version of one entry more of a list.
proof fn versions_step(
    m: Map<(SolvableId, Seq<char>), EvrModel>,
    id: SolvableId,
    provides: Seq<ProvideModel>,
    k: int,
)
    requires
        0 <= k < provides.len(),
    ensures
        with_versions(m, id, provides.take(k + 1)) == (match provides[k].evr {
            Some(evr) => with_versions(m, id, provides.take(k)).insert(
                (id, provides[k].name),
                evr,
            ),
            None => with_versions(m, id, provides.take(k)),
        }),
{
    assert(provides.take(k + 1).drop_last() =~= provides.take(k));
}

impl RpmProvider {
    /// Registers a package for its `Provides` entries.
    fn register_provides(&mut self, solvable: SolvableId, provides: &Vec<ProvideInProgress>)
        requires
            old(self).indexed(),
            valid_provides(old(self).pool, provides@),
            old(self).pool.valid_solvable(solvable),
        ensures
            final(self).indexed(),
            final(self).pool == old(self).pool,
            final(self)@ == (ProviderModel {
                providers: with_providers(
                    old(self)@.providers,
                    provide_models(old(self).pool, provides@).map_values(|p: ProvideModel| p.name),
                    solvable,
                ),
                provided: with_versions(
                    old(self)@.provided,
                    solvable,
                    provide_models(old(self).pool, provides@),
                ),
                ..old(self)@
            }),
    {
        let ghost models = provide_models(self.pool, provides@);
        let ghost names = models.map_values(|p: ProvideModel| p.name);
        let mut i: usize = 0;
        proof {
            assert(names.take(0) =~= Seq::<Seq<char>>::empty());
            assert(models.take(0) =~= Seq::<ProvideModel>::empty());
        }
        while i < provides.len()
            invariant
                i <= provides@.len(),
                self.indexed(),
                self.pool == old(self).pool,
                valid_provides(self.pool, provides@),
                self.pool.valid_solvable(solvable),
                models == provide_models(self.pool, provides@),
                names == models.map_values(|p: ProvideModel| p.name),
                self@ == (ProviderModel {
                    providers: with_providers(
                        old(self)@.providers,
                        names.take(i as int),
                        solvable,
                    ),
                    provided: with_versions(
                        old(self)@.provided,
                        solvable,
                        models.take(i as int),
                    ),
                    ..old(self)@
                }),
            decreases provides@.len() - i,
        {
            let entry: &ProvideInProgress = &provides[i];
            proof {
                assert(names[i as int] == self.pool.name_text(entry.name));
                providers_step(old(self)@.providers, names, i as int, solvable);
                versions_step(old(self)@.provided, solvable, models, i as int);
            }
            self.register(entry.name, solvable);
            if entry.version.is_some() || entry.epoch.is_some() || entry.release.is_some() {
                let version = ProvidesVersion {
                    epoch: text_or_empty(&entry.epoch),
                    version: text_or_empty(&entry.version),
                    release: text_or_empty(&entry.release),
                };
                self.record_version(solvable, entry.name, version);
            }
            i = i + 1;
        }
        proof {
            assert(names.take(i as int) =~= names);
            assert(models.take(i as int) =~= models);
        }
    }

    /// Registers a package for a list of names.
    fn register_names(&mut self, solvable: SolvableId, ids: &Vec<NameId>)
        requires
            old(self).indexed(),
            valid_names(old(self).pool, ids@),
            old(self).pool.valid_solvable(solvable),
        ensures
            final(self).indexed(),
            final(self).pool == old(self).pool,
            final(self)@ == (ProviderModel {
                providers: with_providers(
                    old(self)@.providers,
                    name_texts(old(self).pool, ids@),
                    solvable,
                ),
                ..old(self)@
            }),
    {
        let ghost names = name_texts(self.pool, ids@);
        let mut i: usize = 0;
        assert(names.take(0) =~= Seq::<Seq<char>>::empty());
        while i < ids.len()
            invariant
                i <= ids@.len(),
                self.indexed(),
                self.pool == old(self).pool,
                valid_names(self.pool, ids@),
                self.pool.valid_solvable(solvable),
                names == name_texts(self.pool, ids@),
                self@ == (ProviderModel {
                    providers: with_providers(
                        old(self)@.providers,
                        names.take(i as int),
                        solvable,
                    ),
                    ..old(self)@
                }),
            decreases ids@.len() - i,
        {
            proof {
                assert(names[i as int] == self.pool.name_text(ids@[i as int]));
                providers_step(old(self)@.providers, names, i as int, solvable);
            }
            self.register(ids[i], solvable);
            i = i + 1;
        }
        assert(names.take(i as int) =~= names);
    }

    /// Adds a collected package: files it under its name and registers it for its own name,
    /// for its `Provides` entries and for its files.
    pub fn commit_package(&mut self, repo_id: usize, pkg: PackageInProgress) -> (r: SolvableId)
        requires
            old(self).wf(),
            old(self).pool().room(2),
            pkg.valid(old(self).pool()),
        ensures
            final(self).wf(),
            final(self).pool().extends(old(self).pool(), 2),
            final(self)@ == old(self)@.with_draft(pkg.draft(old(self).pool(), repo_id)),
            r == old(self)@.next_id(),
            r.0 == old(self)@.packages.len(),
    {
        let ghost draft = pkg.draft(self.pool, repo_id);
        let ghost base = self.pool;
        let name_id = self.pool.intern_package_name(pkg.name.as_str());
        let ghost mid = self.pool;
        proof {
            draft_kept(base, mid, 1, pkg, repo_id);
            packages_kept(base, mid, 1);
            self.index_grown(base, mid, 1);
        }
        let ghost record = pkg.record(repo_id);
        let PackageInProgress {
            name,
            epoch,
            version,
            release,
            arch,
            requires: required,
            conflicts,
            obsoletes,
            recommends: recommended,
            suggests,
            supplements,
            enhances,
            provides,
            file_name_ids,
        } = pkg;
        let pack = RpmPackageVersion {
            name,
            epoch,
            version,
            release,
            arch,
            repo_id,
            requires: required,
            conflicts,
            obsoletes,
            recommends: recommended,
            suggests,
            supplements,
            enhances,
        };
        assert(pack@ == record);
        let solvable = self.pool.intern_solvable(name_id, pack);
        proof {
            extends_in_steps(base, mid, self.pool, 1, 1);
            self.index_grown(mid, self.pool, 1);
            draft_kept(base, self.pool, 2, pkg, repo_id);
        }
        let ghost p0 = old(self)@.providers;
        self.register(name_id, solvable);
        self.register_provides(solvable, &provides);
        self.register_names(solvable, &file_name_ids);
        proof {
            let own = seq![draft.package.name];
            let caps = draft.provides.map_values(|p: ProvideModel| p.name);
            assert(own.drop_last() =~= Seq::<Seq<char>>::empty());
            assert(with_providers(p0, own, solvable) == with_provider(
                p0,
                draft.package.name,
                solvable,
            )) by {
                reveal_with_fuel(with_providers, 2);
            }
            providers_concat(p0, own, caps, solvable);
            providers_concat(p0, own + caps, draft.files, solvable);
            assert(draft.capabilities() =~= own + caps + draft.files);
            assert(self@ == old(self)@.with_draft(draft));
            own_names_kept(old(self)@, draft);
        }
        solvable
    }
}

/// Registering two lists one after the other is registering their concatenation.
proof fn providers_concat(
    m: Map<Seq<char>, Seq<SolvableId>>,
    a: Seq<Seq<char>>,
    b: Seq<Seq<char>>,
    id: SolvableId,
)
    ensures
        with_providers(m, a + b, id) == with_providers(with_providers(m, a, id), b, id),
    decreases b.len(),
{
    if b.len() == 0 {
        assert(a + b =~= a);
    } else {
        providers_concat(m, a, b.drop_last(), id);
        assert((a + b).drop_last() =~= a + b.drop_last());
    }
}

/// How many values of one kind adding the package interns at most.
fn package_size(spec: &PackageSpec<'_>) -> (r: u128)
    ensures
        r == spec.size(),
{
    let dependencies: u128 = spec.requires.len() as u128 + spec.conflicts.len() as u128
        + spec.obsoletes.len() as u128 + spec.recommends.len() as u128 + spec.suggests.len() as u128
        + spec.supplements.len() as u128 + spec.enhances.len() as u128;
    4 * dependencies + spec.provides.len() as u128 + spec.files.len() as u128 + 2
}

impl RpmProvider {
    /// A provider that knows no package. Loading a repository into it leaves out packages
    /// of other architectures than the target, where one is given.
    pub fn new(target_arch: Option<&str>) -> (r: RpmProvider)
        ensures
            r.wf(),
            r.pool().room(0x1_0000_0000),
            r@ == ProviderModel::empty(opt_str_view(target_arch)),
    {
        broadcast use vstd::std_specs::hash::group_hash_axioms;

        let r = RpmProvider {
            pool: PackagePool::new(),
            provides_to_package: ProvidesMap::new(),
            provides_versions: HashMap::new(),
            repo_labels: Vec::new(),
            target_arch: owned(target_arch),
            filelists_paths: Vec::new(),
            filelists_loaded: false,
        };
        proof {
            assert(r@.packages =~= Seq::<PackageModel>::empty());
            assert(r@.providers =~= Map::<Seq<char>, Seq<SolvableId>>::empty());
            assert(r@.provided =~= Map::<(SolvableId, Seq<char>), EvrModel>::empty());
            assert(r@.repo_labels =~= Seq::<Seq<char>>::empty());
            assert(r@.filelists =~= Seq::<PathBuf>::empty());
        }
        r
    }

    /// Whether the pool can tell `n` more values of each kind apart by ids.
    pub fn has_room(&self, n: u64) -> (r: bool)
        requires
            self.wf(),
        ensures
            r == self.pool().room(n as int),
    {
        self.pool.has_room(n)
    }

    /// Whether the pool can hold the package beside what it holds already.
    pub fn has_room_for(&self, spec: &PackageSpec<'_>) -> (r: bool)
        requires
            self.wf(),
        ensures
            r == self.pool().room(spec.size() as int),
    {
        let size: u128 = package_size(spec);
        size <= ID_LIMIT as u128 && self.pool.has_room(size as u64)
    }

    /// Adds a package. Unlike loading, this does not look at the target architecture.
    pub fn add_package(&mut self, repo_id: usize, spec: &PackageSpec<'_>) -> (r: SolvableId)
        requires
            old(self).wf(),
            old(self).pool().room(spec.size() as int),
        ensures
            final(self).wf(),
            final(self).pool().extends(old(self).pool(), spec.size() as int),
            final(self)@ == old(self)@.with_draft(spec.draft(repo_id)),
            r == old(self)@.next_id(),
            r.0 == old(self)@.packages.len(),
    {
        let ghost base = self.pool;
        let mut pkg = PackageInProgress::new();
        assert(pkg.valid(base) && pkg.draft(base, repo_id) == empty_draft(repo_id));
        pkg.name = spec.name.to_owned();
        pkg.epoch = spec.epoch.to_owned();
        pkg.version = spec.version.to_owned();
        pkg.release = spec.release.to_owned();
        pkg.arch = spec.arch.to_owned();
        let ghost want = spec.draft(repo_id);
        let ghost mut used: int = 0;

        let ids = self.pool.intern_requirements(spec.requires);
        proof {
            draft_kept(base, self.pool, 4int * spec.requires@.len(), pkg, repo_id);
            used = 4int * spec.requires@.len();
        }
        pkg.requires = ids;

        let ghost before = self.pool;
        let ids = self.pool.intern_inverted_requirements(spec.conflicts);
        proof {
            let n = 4int * spec.conflicts@.len();
            draft_kept(before, self.pool, n, pkg, repo_id);
            extends_in_steps(base, before, self.pool, used, n);
            used = used + n;
        }
        pkg.conflicts = ids;

        let ghost before = self.pool;
        let ids = self.pool.intern_inverted_requirements(spec.obsoletes);
        proof {
            let n = 4int * spec.obsoletes@.len();
            draft_kept(before, self.pool, n, pkg, repo_id);
            extends_in_steps(base, before, self.pool, used, n);
            used = used + n;
        }
        pkg.obsoletes = ids;

        let ghost before = self.pool;
        let ids = self.pool.intern_requirements(spec.recommends);
        proof {
            let n = 4int * spec.recommends@.len();
            draft_kept(before, self.pool, n, pkg, repo_id);
            extends_in_steps(base, before, self.pool, used, n);
            used = used + n;
        }
        pkg.recommends = ids;

        let ghost before = self.pool;
        let ids = self.pool.intern_requirements(spec.suggests);
        proof {
            let n = 4int * spec.suggests@.len();
            draft_kept(before, self.pool, n, pkg, repo_id);
            extends_in_steps(base, before, self.pool, used, n);
            used = used + n;
        }
        pkg.suggests = ids;

        let ghost before = self.pool;
        let ids = self.pool.intern_requirements(spec.supplements);
        proof {
            let n = 4int * spec.supplements@.len();
            draft_kept(before, self.pool, n, pkg, repo_id);
            extends_in_steps(base, before, self.pool, used, n);
            used = used + n;
        }
        pkg.supplements = ids;

        let ghost before = self.pool;
        let ids = self.pool.intern_requirements(spec.enhances);
        proof {
            let n = 4int * spec.enhances@.len();
            draft_kept(before, self.pool, n, pkg, repo_id);
            extends_in_steps(base, before, self.pool, used, n);
            used = used + n;
        }
        pkg.enhances = ids;

        let ghost before = self.pool;
        let entries = intern_provides(&mut self.pool, spec.provides);
        proof {
            let n = spec.provides@.len() as int;
            draft_kept(before, self.pool, n, pkg, repo_id);
            extends_in_steps(base, before, self.pool, used, n);
            used = used + n;
        }
        pkg.provides = entries;

        let ghost before = self.pool;
        let files = intern_names(&mut self.pool, spec.files);
        proof {
            let n = spec.files@.len() as int;
            draft_kept(before, self.pool, n, pkg, repo_id);
            extends_in_steps(base, before, self.pool, used, n);
            used = used + n;
        }
        pkg.file_name_ids = files;

        proof {
            assert(pkg.draft(self.pool, repo_id) == want);
            packages_kept(base, self.pool, used);
            self.index_grown(base, self.pool, used);
        }
        let ghost mid = *self;
        assert(mid@ == old(self)@);
        let r = self.commit_package(repo_id, pkg);
        proof {
            extends_in_steps(base, mid.pool, self.pool, used, 2);
        }
        r
    }
}

impl RpmProvider {
    /// Interns a name.
    pub fn intern_name(&mut self, name: &str) -> (r: NameId)
        requires
            old(self).wf(),
            old(self).pool().room(1),
        ensures
            final(self).wf(),
            final(self)@ == old(self)@,
            interned(old(self).pool(), final(self).pool(), 1),
            final(self).pool().valid_name(r),
            final(self).pool().name_text(r) == name@,
    {
        let r = self.pool.intern_package_name(name);
        proof {
            packages_kept(old(self).pool, self.pool, 1);
            self.index_grown(old(self).pool, self.pool, 1);
        }
        r
    }

    /// Interns a dependency.
    pub fn intern_requirement(&mut self, data: &DependencySpec<'_>) -> (r: VersionSetId)
        requires
            old(self).wf(),
            old(self).pool().room(4),
        ensures
            final(self).wf(),
            final(self)@ == old(self)@,
            interned(old(self).pool(), final(self).pool(), 4),
            final(self).pool().valid_set(r),
            final(self).pool().requirement(r) == data@,
    {
        let r = self.pool.intern_requirement(data);
        proof {
            packages_kept(old(self).pool, self.pool, 4);
            self.index_grown(old(self).pool, self.pool, 4);
        }
        r
    }

    /// Interns what a conflict or an obsoletes entry asks of the other package.
    pub fn intern_inverted_requirement(&mut self, data: &DependencySpec<'_>) -> (r: VersionSetId)
        requires
            old(self).wf(),
            old(self).pool().room(4),
        ensures
            final(self).wf(),
            final(self)@ == old(self)@,
            interned(old(self).pool(), final(self).pool(), 4),
            final(self).pool().valid_set(r),
            final(self).pool().requirement(r) == data@.inverted(),
    {
        let r = self.pool.intern_inverted_requirement(data);
        proof {
            packages_kept(old(self).pool, self.pool, 4);
            self.index_grown(old(self).pool, self.pool, 4);
        }
        r
    }

    /// Interns a requirement on a name alone.
    pub fn intern_unversioned(&mut self, name: &str) -> (r: VersionSetId)
        requires
            old(self).wf(),
            old(self).pool().room(2),
        ensures
            final(self).wf(),
            final(self)@ == old(self)@,
            interned(old(self).pool(), final(self).pool(), 1),
            final(self).pool().valid_set(r),
            final(self).pool().requirement(r) == RequirementModel::unversioned(name@),
    {
        let r = self.pool.intern_unversioned(name);
        proof {
            packages_kept(old(self).pool, self.pool, 1);
            self.index_grown(old(self).pool, self.pool, 1);
        }
        r
    }
}

impl RpmProvider {
    /// Registers a repository; the result is the id of the repository.
    pub fn add_repo(&mut self, label: &str) -> (r: usize)
        requires
            old(self).wf(),
        ensures
            final(self).wf(),
            final(self).pool() == old(self).pool(),
            final(self)@ == old(self)@.with_repo(label@),
            r == old(self)@.repo_labels.len(),
    {
        let r: usize = self.repo_labels.len();
        self.repo_labels.push(label.to_owned());
        assert(self@.repo_labels =~= old(self)@.repo_labels.push(label@));
        r
    }

    /// Notes a file list that is to be read once a file dependency asks for it.
    pub(crate) fn defer_filelists(&mut self, path: PathBuf)
        requires
            old(self).wf(),
        ensures
            final(self).wf(),
            final(self).pool() == old(self).pool(),
            final(self)@ == (ProviderModel {
                filelists: old(self)@.filelists.push(path),
                filelists_loaded: false,
                ..old(self)@
            }),
    {
        self.filelists_paths.push(path);
        self.filelists_loaded = false;
    }

    /// Hands out all file lists that were put off, for reading. Each is handed out once: a
    /// second call gives only those that were put off after the first.
    pub fn load_filelists(&mut self) -> (r: Vec<PathBuf>)
        requires
            old(self).wf(),
        ensures
            final(self).wf(),
            final(self).pool() == old(self).pool(),
            r@ == old(self)@.filelists,
            final(self)@ == (ProviderModel {
                filelists: Seq::empty(),
                filelists_loaded: true,
                ..old(self)@
            }),
    {
        let mut paths: Vec<PathBuf> = Vec::new();
        self.filelists_loaded = true;
        std::mem::swap(&mut paths, &mut self.filelists_paths);
        paths
    }

    /// The packages that provide the capability with the given id, or `None` where there
    /// are none.
    pub fn providers(&self, name: NameId) -> (r: Option<&Vec<SolvableId>>)
        requires
            self.wf(),
            self.pool().valid_name(name),
        ensures
            match r {
                Some(list) => list@ == self@.providers_of(self.pool().name_text(name))
                    && list@.len() > 0,
                None => self@.providers_of(self.pool().name_text(name)).len() == 0,
            },
    {
        proof {
            named_by_id(self.pool.names(), name);
        }
        self.provides_to_package.get(name)
    }

    /// Registers each of the packages as a provider of a capability.
    pub(crate) fn register_list(&mut self, name: NameId, solvables: &Vec<SolvableId>)
        requires
            old(self).wf(),
            old(self).pool().valid_name(name),
            solvables@.len() > 0,
            forall|i: int|
                0 <= i < solvables@.len() ==> (#[trigger] solvables@[i]).0 < old(
                    self,
                )@.packages.len(),
        ensures
            final(self).wf(),
            final(self).pool() == old(self).pool(),
            final(self)@ == (ProviderModel {
                providers: with_provider_list(
                    old(self)@.providers,
                    old(self).pool().name_text(name),
                    solvables@,
                ),
                ..old(self)@
            }),
    {
        self.provides_to_package.extend(name, solvables);
        proof {
            let map = old(self).provides_to_package;
            let grown = self.provides_to_package;
            providers_registered(self.pool.names(), map, grown, name, solvables@);
            own_names_kept_by_list(old(self)@, self.pool.name_text(name), solvables@);
            assert forall|id: NameId, i: int|
                0 <= i < grown.of(id).len() implies self.pool.valid_solvable(
                #[trigger] grown.of(id)[i],
            ) by {
                if i < map.of(id).len() {
                    assert(grown.of(id)[i] == map.of(id)[i]);
                } else {
                    assert(id == name);
                    assert(grown.of(id)[i] == solvables@[i - map.of(id).len()]);
                }
            }
        }
    }

    /// The target architecture, if there is one.
    pub fn target_arch(&self) -> (r: Option<&str>)
        ensures
            opt_str_view(r) == self@.target_arch,
    {
        match &self.target_arch {
            Some(arch) => Some(arch.as_str()),
            None => None,
        }
    }
}

impl RpmProvider {
    /// How many packages the provider holds.
    pub fn package_count(&self) -> (r: u64)
        requires
            self.wf(),
        ensures
            r == self@.packages.len(),
    {
        self.pool.solvable_count()
    }

    /// The package with the given id, with its dependencies as interned requirements.
    pub fn package(&self, id: SolvableId) -> (r: &RpmPackageVersion)
        requires
            self.wf(),
            id.0 < self@.packages.len(),
        ensures
            self.pool().valid_record(r@),
            self.pool().resolved_package(r@) == self@.packages[id.0 as int],
    {
        let r = self.pool.resolve_solvable(id);
        assert(self.pool.valid_record(self.pool.solvables()[id.0 as int].1));
        r
    }

    /// The name of the package with the given id.
    pub fn package_name(&self, id: SolvableId) -> (r: &str)
        requires
            self.wf(),
            id.0 < self@.packages.len(),
        ensures
            r@ == self@.packages[id.0 as int].name,
    {
        self.package(id).name.as_str()
    }

    /// The name id of the package with the given id.
    pub fn solvable_name(&self, id: SolvableId) -> (r: NameId)
        requires
            self.wf(),
            id.0 < self@.packages.len(),
        ensures
            self.pool().valid_name(r),
            self.pool().name_text(r) == self@.packages[id.0 as int].name,
    {
        let entry = self.pool.solvable_name(id);
        assert(self.pool.valid_name(self.pool.solvables()[id.0 as int].0));
        entry
    }

    /// The version of the package with the given id, as text.
    pub fn package_version(&self, id: SolvableId) -> (r: String)
        requires
            self.wf(),
            id.0 < self@.packages.len(),
        ensures
            r@ == evr_text(self@.packages[id.0 as int].evr),
    {
        evr_string(self.package(id).evr())
    }

    /// The label of the repository that the package with the given id stands in.
    pub fn repo_label(&self, id: SolvableId) -> (r: &str)
        requires
            self.wf(),
            id.0 < self@.packages.len(),
            self@.packages[id.0 as int].repo_id < self@.repo_labels.len(),
        ensures
            r@ == self@.repo_labels[self@.packages[id.0 as int].repo_id as int],
    {
        self.repo_labels[self.package(id).repo_id].as_str()
    }

    /// Whether all file lists that were put off have been handed out for reading.
    pub fn filelists_loaded(&self) -> (r: bool)
        ensures
            r == self@.filelists_loaded,
    {
        self.filelists_loaded
    }

    /// How many repositories are registered.
    pub fn repo_count(&self) -> (r: usize)
        ensures
            r == self@.repo_labels.len(),
    {
        self.repo_labels.len()
    }

    /// The name with the given id.
    pub fn name(&self, id: NameId) -> (r: &str)
        requires
            self.wf(),
            self.pool().valid_name(id),
        ensures
            r@ == self.pool().name_text(id),
    {
        self.pool.resolve_package_name(id)
    }

    /// The name that the requirement with the given id is about.
    pub fn version_set_name(&self, id: VersionSetId) -> (r: NameId)
        requires
            self.wf(),
            self.pool().valid_set(id),
        ensures
            self.pool().valid_name(r),
            self.pool().name_text(r) == self.pool().requirement(id).name,
    {
        assert(self.pool.valid_entry(self.pool.sets()[id.0 as int]));
        self.pool.resolve_version_set_package_name(id)
    }

    /// The requirement with the given id: its comparison and the version it compares with.
    pub fn version_set(&self, id: VersionSetId) -> (r: RequirementRef<'_>)
        requires
            self.wf(),
            self.pool().valid_set(id),
        ensures
            r@ == self.pool().requirement(id),
    {
        assert(self.pool.valid_entry(self.pool.sets()[id.0 as int]));
        let set = self.pool.resolve_version_set(id);
        RequirementRef {
            name: self.name(self.version_set_name(id)),
            flags: set.flags,
            epoch: self.pool.resolve_optional(set.epoch),
            version: self.pool.resolve_optional(set.version),
            release: self.pool.resolve_optional(set.release),
            preinstall: set.preinstall,
        }
    }

    /// The version under which the package provides the capability: the one it states for
    /// it, else its own.
    fn version_for(&self, id: SolvableId, name: NameId) -> (r: EvrRef<'_>)
        requires
            self.wf(),
            id.0 < self@.packages.len(),
            self.pool().valid_name(name),
        ensures
            r@ == self@.version_of(id, self.pool().name_text(name)),
    {
        broadcast use vstd::std_specs::hash::group_hash_axioms;

        proof {
            named_by_id(self.pool.names(), name);
        }
        let key: u64 = id.0 as u64 * 0x1_0000_0000 + name.0 as u64;
        assert(key == version_key(id, name));
        match self.provides_versions.get(&key) {
            Some(version) => version.evr(),
            None => self.package(id).evr(),
        }
    }

    /// Whether the package's version of what the requirement names meets the requirement.
    pub fn version_set_contains(&self, set: VersionSetId, id: SolvableId) -> (r: bool)
        requires
            self.wf(),
            self.pool().valid_set(set),
            id.0 < self@.packages.len(),
        ensures
            r == self@.meets(id, self.pool().requirement(set)),
    {
        let requirement = self.version_set(set);
        let evr = self.version_for(id, self.version_set_name(set));
        requirement.accepts(evr)
    }
}

} // verus!
