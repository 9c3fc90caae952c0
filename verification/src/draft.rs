//! A package while its metadata is being collected.
use vstd::prelude::*;
use crate::evr::EvrModel;
use crate::model::DraftModel;
use crate::package::{
    provide_model, provides_of, DependencySpec, NameId, PackageModel, PackageRecord, ProvideModel,
    RequirementModel, VersionSetId,
};
use crate::pool::{extends_in_steps, interned, record_kept, PackagePool};
use crate::text::{opt_view, owned, str_texts};

verus! {

/// A `Provides` entry of a package that is being collected. The version may differ from
/// that of the package.
#[derive(Debug)]
pub struct ProvideInProgress {
    pub name: NameId,
    pub epoch: Option<String>,
    pub version: Option<String>,
    pub release: Option<String>,
}

/// A package that is being collected: its texts, its dependencies as interned
/// requirements, and what it provides as interned names.
#[derive(Debug)]
pub struct PackageInProgress {
    pub name: String,
    pub epoch: String,
    pub version: String,
    pub release: String,
    pub arch: String,
    pub requires: Vec<VersionSetId>,
    pub conflicts: Vec<VersionSetId>,
    pub obsoletes: Vec<VersionSetId>,
    pub recommends: Vec<VersionSetId>,
    pub suggests: Vec<VersionSetId>,
    pub supplements: Vec<VersionSetId>,
    pub enhances: Vec<VersionSetId>,
    pub provides: Vec<ProvideInProgress>,
    /// The files that the package ships, as far as they are known so far.
    pub file_name_ids: Vec<NameId>,
}

impl ProvideInProgress {
    /// What the entry states.
    pub open spec fn model(self, pool: PackagePool) -> ProvideModel {
        provide_model(
            pool.name_text(self.name),
            opt_view(self.epoch),
            opt_view(self.version),
            opt_view(self.release),
        )
    }
}

/// What the entries of a list state.
pub open spec fn provide_models(pool: PackagePool, list: Seq<ProvideInProgress>) -> Seq<
    ProvideModel,
> {
    list.map_values(|p: ProvideInProgress| p.model(pool))
}

/// The names with the given ids.
pub open spec fn name_texts(pool: PackagePool, ids: Seq<NameId>) -> Seq<Seq<char>> {
    ids.map_values(|id: NameId| pool.name_text(id))
}

/// Whether the pool has given out the names of all entries.
pub open spec fn valid_provides(pool: PackagePool, list: Seq<ProvideInProgress>) -> bool {
    forall|i: int| 0 <= i < list.len() ==> pool.valid_name((#[trigger] list[i]).name)
}

/// Whether the pool has given out all names.
pub open spec fn valid_names(pool: PackagePool, ids: Seq<NameId>) -> bool {
    forall|i: int| 0 <= i < ids.len() ==> pool.valid_name(#[trigger] ids[i])
}

impl PackageInProgress {
    /// The package's texts and requirement ids, as it stands in repository `repo_id`.
    pub open spec fn record(self, repo_id: usize) -> PackageRecord {
        PackageRecord {
            name: self.name@,
            evr: EvrModel { epoch: self.epoch@, version: self.version@, release: self.release@ },
            arch: self.arch@,
            repo_id,
            requires: self.requires@,
            conflicts: self.conflicts@,
            obsoletes: self.obsoletes@,
            recommends: self.recommends@,
            suggests: self.suggests@,
            supplements: self.supplements@,
            enhances: self.enhances@,
        }
    }

    /// Whether every id in the package was given out by the pool.
    pub open spec fn valid(self, pool: PackagePool) -> bool {
        &&& pool.valid_record(self.record(0))
        &&& valid_provides(pool, self.provides@)
        &&& valid_names(pool, self.file_name_ids@)
    }

    /// The package and what it provides, written out.
    pub open spec fn draft(self, pool: PackagePool, repo_id: usize) -> DraftModel {
        DraftModel {
            package: pool.resolved_package(self.record(repo_id)),
            provides: provide_models(pool, self.provides@),
            files: name_texts(pool, self.file_name_ids@),
        }
    }

    /// A package of which nothing is known.
    pub fn new() -> (r: Self)
        ensures
            forall|pool: PackagePool| #[trigger] r.valid(pool),
            forall|pool: PackagePool, repo_id: usize| #[trigger]
                r.draft(pool, repo_id) == empty_draft(repo_id),
    {
        let r = PackageInProgress {
            name: String::new(),
            epoch: String::new(),
            version: String::new(),
            release: String::new(),
            arch: String::new(),
            requires: Vec::new(),
            conflicts: Vec::new(),
            obsoletes: Vec::new(),
            recommends: Vec::new(),
            suggests: Vec::new(),
            supplements: Vec::new(),
            enhances: Vec::new(),
            provides: Vec::new(),
            file_name_ids: Vec::new(),
        };
        assert forall|pool: PackagePool, repo_id: usize| #[trigger]
            r.draft(pool, repo_id) == empty_draft(repo_id) by {
            let d = r.draft(pool, repo_id);
            let none = Seq::<VersionSetId>::empty();
            assert(pool.requirements(none) =~= Seq::<RequirementModel>::empty());
            assert(r.record(repo_id).requires =~= none);
            assert(d.package =~= empty_draft(repo_id).package);
            assert(d.provides =~= Seq::<ProvideModel>::empty());
            assert(d.files =~= Seq::<Seq<char>>::empty());
        }
        r
    }

    /// Forgets all that was collected.
    pub fn reset(&mut self)
        ensures
            forall|pool: PackagePool| #[trigger] final(self).valid(pool),
            forall|pool: PackagePool, repo_id: usize| #[trigger]
                final(self).draft(pool, repo_id) == empty_draft(repo_id),
    {
        *self = PackageInProgress::new();
    }
}

/// A package of which nothing is known but its repository.
pub open spec fn empty_draft(repo_id: usize) -> DraftModel {
    DraftModel {
        package: PackageModel {
            name: Seq::empty(),
            evr: EvrModel { epoch: Seq::empty(), version: Seq::empty(), release: Seq::empty() },
            arch: Seq::empty(),
            repo_id,
            requires: Seq::empty(),
            conflicts: Seq::empty(),
            obsoletes: Seq::empty(),
            recommends: Seq::empty(),
            suggests: Seq::empty(),
            supplements: Seq::empty(),
            enhances: Seq::empty(),
        },
        provides: Seq::empty(),
        files: Seq::empty(),
    }
}

/// What was collected means the same in a pool that has grown.
pub(crate) proof fn draft_kept(
    base: PackagePool,
    pool: PackagePool,
    n: int,
    pkg: PackageInProgress,
    repo_id: usize,
)
    requires
        base.wf(),
        pool.extends(base, n),
        pkg.valid(base),
    ensures
        pkg.valid(pool),
        pkg.draft(pool, repo_id) == pkg.draft(base, repo_id),
{
    record_kept(base, pool, n, pkg.record(repo_id));
    provides_kept(base, pool, n, pkg.provides@);
    names_kept(base, pool, n, pkg.file_name_ids@);
}

/// `Provides` entries mean the same in a pool that has grown.
pub(crate) proof fn provides_kept(
    base: PackagePool,
    pool: PackagePool,
    n: int,
    list: Seq<ProvideInProgress>,
)
    requires
        pool.extends(base, n),
        valid_provides(base, list),
    ensures
        valid_provides(pool, list),
        provide_models(pool, list) == provide_models(base, list),
{
    assert forall|i: int| 0 <= i < list.len() implies pool.valid_name((#[trigger] list[i]).name)
        && list[i].model(pool) == list[i].model(base) by {
        assert(base.valid_name(list[i].name));
        assert(pool.names()[list[i].name.0 as int] == base.names()[list[i].name.0 as int]);
    }
    assert(provide_models(pool, list) =~= provide_models(base, list));
}

/// Name ids mean the same in a pool that has grown.
pub(crate) proof fn names_kept(base: PackagePool, pool: PackagePool, n: int, ids: Seq<NameId>)
    requires
        pool.extends(base, n),
        valid_names(base, ids),
    ensures
        valid_names(pool, ids),
        name_texts(pool, ids) == name_texts(base, ids),
{
    assert forall|i: int| 0 <= i < ids.len() implies pool.valid_name(#[trigger] ids[i])
        && pool.name_text(ids[i]) == base.name_text(ids[i]) by {
        assert(base.valid_name(ids[i]));
        assert(pool.names()[ids[i].0 as int] == base.names()[ids[i].0 as int]);
    }
    assert(name_texts(pool, ids) =~= name_texts(base, ids));
}

/// Interns the capabilities that the entries of a list name.
pub(crate) fn intern_provides(pool: &mut PackagePool, list: &[DependencySpec<'_>]) -> (r: Vec<
    ProvideInProgress,
>)
    requires
        old(pool).wf(),
        old(pool).room(list@.len() as int),
    ensures
        interned(*old(pool), *final(pool), list@.len() as int),
        valid_provides(*final(pool), r@),
        provide_models(*final(pool), r@) == provides_of(list@),
{
    let mut entries: Vec<ProvideInProgress> = Vec::new();
    let mut i: usize = 0;
    while i < list.len()
        invariant
            i <= list@.len(),
            old(pool).wf(),
            old(pool).room(list@.len() as int),
            interned(*old(pool), *pool, i as int),
            valid_provides(*pool, entries@),
            provide_models(*pool, entries@) == provides_of(list@.take(i as int)),
        decreases list@.len() - i,
    {
        let ghost before = *pool;
        let name = pool.intern_package_name(list[i].name);
        let entry = ProvideInProgress {
            name,
            epoch: owned(list[i].epoch),
            version: owned(list[i].version),
            release: owned(list[i].release),
        };
        proof {
            extends_in_steps(*old(pool), before, *pool, i as int, 1);
            provides_kept(before, *pool, 1, entries@);
            assert(provides_of(list@.take(i + 1)) =~= provides_of(list@.take(i as int)).push(
                entry.model(*pool),
            ));
            assert(provide_models(*pool, entries@.push(entry)) =~= provide_models(
                *pool,
                entries@,
            ).push(entry.model(*pool)));
        }
        entries.push(entry);
        i = i + 1;
    }
    assert(list@.take(i as int) =~= list@);
    entries
}

/// Interns the names of a list.
pub(crate) fn intern_names(pool: &mut PackagePool, list: &[&str]) -> (r: Vec<NameId>)
    requires
        old(pool).wf(),
        old(pool).room(list@.len() as int),
    ensures
        interned(*old(pool), *final(pool), list@.len() as int),
        valid_names(*final(pool), r@),
        name_texts(*final(pool), r@) == str_texts(list@),
{
    let mut ids: Vec<NameId> = Vec::new();
    let mut i: usize = 0;
    while i < list.len()
        invariant
            i <= list@.len(),
            old(pool).wf(),
            old(pool).room(list@.len() as int),
            interned(*old(pool), *pool, i as int),
            valid_names(*pool, ids@),
            name_texts(*pool, ids@) == str_texts(list@.take(i as int)),
        decreases list@.len() - i,
    {
        let ghost before = *pool;
        let id = pool.intern_package_name(list[i]);
        proof {
            extends_in_steps(*old(pool), before, *pool, i as int, 1);
            names_kept(before, *pool, 1, ids@);
            assert(str_texts(list@.take(i + 1)) =~= str_texts(list@.take(i as int)).push(
                list@[i as int]@,
            ));
            assert(name_texts(*pool, ids@.push(id)) =~= name_texts(*pool, ids@).push(
                pool.name_text(id),
            ));
        }
        ids.push(id);
        i = i + 1;
    }
    assert(list@.take(i as int) =~= list@);
    ids
}

} // verus!
