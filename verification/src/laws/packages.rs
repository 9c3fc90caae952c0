//! What adding a package does to a provider.
use vstd::prelude::*;
use crate::draft::PackageInProgress;
use crate::laws::requirements::stated;
use crate::laws::{last_stated, stated_version_counts};
use crate::model::{registered_where_named, DraftModel, ProviderModel};
use crate::package::{
    provide_model, DependencySpec, PackageSpec, ProvideModel, RequirementModel, RpmPackageVersion,
    SolvableId, VersionSetId,
};
use crate::pool::PackagePool;

verus! {

/// Whether an entry states a part of a version.
pub open spec fn states_version(d: DependencySpec<'_>) -> bool {
    d.epoch is Some || d.version is Some || d.release is Some
}

/// Whether the `k`th `Provides` entry of a package is the last to state a version for a
/// capability.
pub open spec fn last_to_state(spec: PackageSpec<'_>, k: int, name: Seq<char>) -> bool {
    &&& 0 <= k < spec.provides@.len()
    &&& spec.provides@[k].name@ == name
    &&& states_version(spec.provides@[k])
    &&& forall|j: int|
        k < j < spec.provides@.len() && (#[trigger] spec.provides@[j]).name@ == name
            ==> !states_version(spec.provides@[j])
}

/// Whether no `Provides` entry of a package states a version for a capability.
pub open spec fn none_states(spec: PackageSpec<'_>, name: Seq<char>) -> bool {
    forall|j: int|
        0 <= j < spec.provides@.len() && (#[trigger] spec.provides@[j]).name@ == name
            ==> !states_version(spec.provides@[j])
}

/// An entry for a capability is the last to state a version among models where it is so among
/// the entries they were made of.
proof fn last_stated_is_the_last(models: Seq<ProvideModel>, k: int, name: Seq<char>)
    requires
        0 <= k < models.len(),
        models[k].name == name,
        models[k].evr is Some,
        forall|j: int|
            k < j < models.len() && (#[trigger] models[j]).name == name ==> models[j].evr is None,
    ensures
        last_stated(models, name) == models[k].evr,
    decreases models.len(),
{
    if k < models.len() - 1 {
        let rest = models.drop_last();
        assert(models.last() == models[models.len() - 1]);
        assert forall|j: int| k < j < rest.len() && (#[trigger] rest[j]).name == name implies
            rest[j].evr is None by {
            assert(rest[j] == models[j]);
        }
        last_stated_is_the_last(rest, k, name);
    }
}

/// Nothing is stated where no entry states a version.
proof fn nothing_stated(models: Seq<ProvideModel>, name: Seq<char>)
    requires
        forall|j: int|
            0 <= j < models.len() && (#[trigger] models[j]).name == name ==> models[j].evr is None,
    ensures
        last_stated(models, name) is None,
    decreases models.len(),
{
    if models.len() > 0 {
        let rest = models.drop_last();
        assert(models.last() == models[models.len() - 1]);
        assert forall|j: int| 0 <= j < rest.len() && (#[trigger] rest[j]).name == name implies
            rest[j].evr is None by {
            assert(rest[j] == models[j]);
        }
        nothing_stated(rest, name);
    }
}

/// The version under which a package provides a capability is the one that its last `Provides`
/// entry with a version states for it, part by part; a part that is not stated is empty. Where
/// no entry states one it is the package's own version.
pub proof fn provided_as_stated(
    p: ProviderModel,
    repo_id: usize,
    spec: PackageSpec<'_>,
    k: int,
    name: Seq<char>,
)
    requires
        p.packages.len() < 0x1_0000_0000,
        !p.provided.dom().contains((p.next_id(), name)),
    ensures
        last_to_state(spec, k, name) ==> {
            let v = p.with_draft(spec.draft(repo_id)).version_of(p.next_id(), name);
            &&& v.epoch == stated(spec.provides@[k].epoch)
            &&& v.version == stated(spec.provides@[k].version)
            &&& v.release == stated(spec.provides@[k].release)
        },
        none_states(spec, name) ==> {
            let v = p.with_draft(spec.draft(repo_id)).version_of(p.next_id(), name);
            v.epoch == spec.epoch@ && v.version == spec.version@ && v.release == spec.release@
        },
{
    let models = spec.provided();
    stated_version_counts(p, spec.draft(repo_id), name);
    assert(forall|j: int| 0 <= j < models.len() ==> (#[trigger] models[j]).name
        == spec.provides@[j].name@);
    assert(forall|j: int| 0 <= j < models.len() ==> (#[trigger] models[j]).evr is Some
        == states_version(spec.provides@[j]));
    if last_to_state(spec, k, name) {
        assert forall|j: int| k < j < models.len() && (#[trigger] models[j]).name == name implies
            models[j].evr is None by {
            assert(spec.provides@[j].name@ == name);
        }
        last_stated_is_the_last(models, k, name);
    }
    if none_states(spec, name) {
        assert forall|j: int| 0 <= j < models.len() && (#[trigger] models[j]).name == name implies
            models[j].evr is None by {
            assert(spec.provides@[j].name@ == name);
        }
        nothing_stated(models, name);
    }
}

/// A `Provides` entry keeps what it states, part by part.
pub proof fn provide_keeps_its_texts(
    name: Seq<char>,
    epoch: Option<Seq<char>>,
    version: Option<Seq<char>>,
    release: Option<Seq<char>>,
)
    ensures
        provide_model(name, epoch, version, release).name == name,
        provide_model(name, epoch, version, release).evr is Some <==> epoch is Some || version
            is Some || release is Some,
        epoch matches Some(t) ==> provide_model(name, epoch, version, release).evr->0.epoch == t,
        version matches Some(t) ==> provide_model(name, epoch, version, release).evr->0.version
            == t,
        release matches Some(t) ==> provide_model(name, epoch, version, release).evr->0.release
            == t,
        provide_model(name, epoch, version, release).evr matches Some(v) ==> (epoch is None
            ==> v.epoch.len() == 0) && (version is None ==> v.version.len() == 0) && (release
            is None ==> v.release.len() == 0),
{
}

/// A package's version of a capability decides whether it meets a requirement: the stated one
/// where there is one, else the package's own.
pub proof fn meets_by_its_version(p: ProviderModel, id: SolvableId, r: RequirementModel)
    ensures
        p.provided.dom().contains((id, r.name)) ==> p.meets(id, r) == r.accepts(
            p.provided[(id, r.name)],
        ),
        !p.provided.dom().contains((id, r.name)) ==> p.meets(id, r) == r.accepts(
            p.packages[id.0 as int].evr,
        ),
{
}

/// A requirement is satisfied where one of the packages that are registered for its name meets
/// it, and only there.
pub proof fn satisfied_by_a_provider(p: ProviderModel, r: RequirementModel, i: int)
    ensures
        p.providers.dom().contains(r.name) && 0 <= i < p.providers[r.name].len() && p.meets(
            p.providers[r.name][i],
            r,
        ) ==> p.satisfied(r),
        p.satisfied(r) ==> p.providers.dom().contains(r.name) && exists|k: int|
            0 <= k < p.providers[r.name].len() && p.meets(#[trigger] p.providers[r.name][k], r),
        !p.providers.dom().contains(r.name) ==> p.providers_of(r.name).len() == 0,
        p.providers.dom().contains(r.name) ==> p.providers_of(r.name) == p.providers[r.name],
{
    if p.providers.dom().contains(r.name) && 0 <= i < p.providers[r.name].len() && p.meets(
        p.providers[r.name][i],
        r,
    ) {
        assert(p.meets(p.providers_of(r.name)[i], r));
    }
}

/// A package that is added by hand keeps what the caller wrote: its texts, and each list entry
/// by entry. Conflicts and obsoletes entries are held as what they ask of the other package.
pub proof fn added_package_keeps_its_fields(spec: PackageSpec<'_>, repo_id: usize, i: int)
    ensures
        spec.draft(repo_id).package.name == spec.name@,
        spec.draft(repo_id).package.evr.epoch == spec.epoch@,
        spec.draft(repo_id).package.evr.version == spec.version@,
        spec.draft(repo_id).package.evr.release == spec.release@,
        spec.draft(repo_id).package.arch == spec.arch@,
        spec.draft(repo_id).package.repo_id == repo_id,
        spec.draft(repo_id).package.requires.len() == spec.requires@.len(),
        spec.draft(repo_id).package.conflicts.len() == spec.conflicts@.len(),
        spec.draft(repo_id).package.obsoletes.len() == spec.obsoletes@.len(),
        spec.draft(repo_id).package.recommends.len() == spec.recommends@.len(),
        spec.draft(repo_id).package.suggests.len() == spec.suggests@.len(),
        spec.draft(repo_id).package.supplements.len() == spec.supplements@.len(),
        spec.draft(repo_id).package.enhances.len() == spec.enhances@.len(),
        spec.draft(repo_id).provides.len() == spec.provides@.len(),
        spec.draft(repo_id).files.len() == spec.files@.len(),
        0 <= i < spec.requires@.len() ==> spec.draft(repo_id).package.requires[i]
            == spec.requires@[i]@,
        0 <= i < spec.conflicts@.len() ==> spec.draft(repo_id).package.conflicts[i]
            == spec.conflicts@[i]@.inverted(),
        0 <= i < spec.obsoletes@.len() ==> spec.draft(repo_id).package.obsoletes[i]
            == spec.obsoletes@[i]@.inverted(),
        0 <= i < spec.recommends@.len() ==> spec.draft(repo_id).package.recommends[i]
            == spec.recommends@[i]@,
        0 <= i < spec.suggests@.len() ==> spec.draft(repo_id).package.suggests[i]
            == spec.suggests@[i]@,
        0 <= i < spec.supplements@.len() ==> spec.draft(repo_id).package.supplements[i]
            == spec.supplements@[i]@,
        0 <= i < spec.enhances@.len() ==> spec.draft(repo_id).package.enhances[i]
            == spec.enhances@[i]@,
        0 <= i < spec.provides@.len() ==> spec.draft(repo_id).provides[i].name
            == spec.provides@[i].name@,
        0 <= i < spec.files@.len() ==> spec.draft(repo_id).files[i] == spec.files@[i]@,
{
}

/// What a package is registered for, in this order: its own name, its `Provides` entries, its
/// files.
pub proof fn registered_in_order(draft: DraftModel, i: int)
    ensures
        draft.capabilities().len() == 1 + draft.provides.len() + draft.files.len(),
        draft.capabilities()[0] == draft.package.name,
        0 <= i < draft.provides.len() ==> draft.capabilities()[1 + i] == draft.provides[i].name,
        0 <= i < draft.files.len() ==> draft.capabilities()[1 + draft.provides.len() + i]
            == draft.files[i],
{
}

/// After a package was added it is a provider of exactly its name, of what its `Provides`
/// entries name and of its files. Whoever provided a capability before still does, in the same
/// order and before it.
pub proof fn provides_what_it_says(
    p: ProviderModel,
    repo_id: usize,
    spec: PackageSpec<'_>,
    name: Seq<char>,
)
    requires
        forall|n: Seq<char>| !(#[trigger] p.providers_of(n)).contains(p.next_id()),
    ensures
        p.with_draft(spec.draft(repo_id)).providers_of(name).contains(p.next_id()) <==> {
            ||| name == spec.name@
            ||| exists|k: int|
                0 <= k < spec.provides@.len() && (#[trigger] spec.provides@[k]).name@ == name
            ||| exists|k: int| 0 <= k < spec.files@.len() && (#[trigger] spec.files@[k])@ == name
        },
        p.with_draft(spec.draft(repo_id)).providers_of(name).len() >= p.providers_of(name).len(),
        forall|i: int|
            0 <= i < p.providers_of(name).len() ==> p.with_draft(
                spec.draft(repo_id),
            ).providers_of(name)[i] == #[trigger] p.providers_of(name)[i],
        forall|i: int|
            p.providers_of(name).len() <= i < p.with_draft(spec.draft(repo_id)).providers_of(
                name,
            ).len() ==> #[trigger] p.with_draft(spec.draft(repo_id)).providers_of(name)[i]
                == p.next_id(),
{
    broadcast use vstd::seq_lib::group_to_multiset_ensures;

    let draft = spec.draft(repo_id);
    let names = draft.capabilities();
    let id = p.next_id();
    let before = p.providers_of(name);
    let after = p.with_draft(draft).providers_of(name);
    registered_where_named(p.providers, names, id, name);
    assert(!before.contains(id));
    if names.contains(name) {
        assert(names.to_multiset().count(name) > 0);
        assert(after[before.len() as int] == id);
        let k = names.index_of(name);
        let n = spec.provides@.len() as int;
        if 1 <= k < 1 + n {
            assert(spec.provides@[k - 1].name@ == name);
        } else if k >= 1 + n {
            assert(spec.files@[k - 1 - n]@ == name);
        }
    } else {
        assert(names.to_multiset().count(name) == 0);
        assert(after =~= before);
        assert(names[0] == spec.name@);
        if exists|k: int|
            0 <= k < spec.provides@.len() && (#[trigger] spec.provides@[k]).name@ == name {
            let k = choose|k: int|
                0 <= k < spec.provides@.len() && (#[trigger] spec.provides@[k]).name@ == name;
            assert(names[1 + k] == name);
        }
        if exists|k: int| 0 <= k < spec.files@.len() && (#[trigger] spec.files@[k])@ == name {
            let k = choose|k: int|
                0 <= k < spec.files@.len() && (#[trigger] spec.files@[k])@ == name;
            assert(names[1 + spec.provides@.len() + k] == name);
        }
    }
}

/// Adding a package puts it behind those that are there and leaves repositories, architecture
/// and file lists as they are.
pub proof fn adding_leaves_the_rest(p: ProviderModel, draft: DraftModel, i: int)
    ensures
        p.with_draft(draft).packages.len() == p.packages.len() + 1,
        p.with_draft(draft).packages.last() == draft.package,
        0 <= i < p.packages.len() ==> p.with_draft(draft).packages[i] == p.packages[i],
        p.with_draft(draft).repo_labels == p.repo_labels,
        p.with_draft(draft).target_arch == p.target_arch,
        p.with_draft(draft).filelists == p.filelists,
        p.with_draft(draft).filelists_loaded == p.filelists_loaded,
        p.packages.len() < 0x1_0000_0000 ==> p.next_id().0 == p.packages.len(),
{
}

/// Adding two lists of packages one after the other is adding their concatenation, and adding
/// a list of one is adding it.
pub proof fn adding_lists(p: ProviderModel, a: Seq<DraftModel>, b: Seq<DraftModel>, d: DraftModel)
    ensures
        p.with_drafts(a + b) == p.with_drafts(a).with_drafts(b),
        p.with_drafts(seq![d]) == p.with_draft(d),
        p.with_drafts(Seq::empty()) == p,
    decreases b.len(),
{
    assert(seq![d].drop_last() =~= Seq::empty());
    reveal_with_fuel(ProviderModel::with_drafts, 2);
    if b.len() == 0 {
        assert(a + b =~= a);
    } else {
        adding_lists(p, a, b.drop_last(), d);
        assert((a + b).drop_last() =~= a + b.drop_last());
    }
}

/// Registering a repository gives it the next id and keeps the labels of those before it.
pub proof fn repositories_count_up(p: ProviderModel, label: Seq<char>, i: int)
    ensures
        p.with_repo(label).repo_labels.len() == p.repo_labels.len() + 1,
        p.with_repo(label).repo_labels.last() == label,
        0 <= i < p.repo_labels.len() ==> p.with_repo(label).repo_labels[i] == p.repo_labels[i],
        p.with_repo(label).packages == p.packages,
        p.with_repo(label).providers == p.providers,
        p.with_repo(label).provided == p.provided,
        p.with_repo(label).target_arch == p.target_arch,
        p.with_repo(label).filelists == p.filelists,
        p.with_repo(label).filelists_loaded == p.filelists_loaded,
{
}

/// A fresh provider knows nothing but its target architecture.
pub proof fn fresh_provider_is_empty(target: Option<Seq<char>>, name: Seq<char>)
    ensures
        ProviderModel::empty(target).packages.len() == 0,
        ProviderModel::empty(target).providers_of(name).len() == 0,
        ProviderModel::empty(target).repo_labels.len() == 0,
        ProviderModel::empty(target).filelists.len() == 0,
        ProviderModel::empty(target).target_arch == target,
        !ProviderModel::empty(target).filelists_loaded,
        forall|id: SolvableId, n: Seq<char>|
            !(#[trigger] ProviderModel::empty(target).provided.dom().contains((id, n))),
{
}

/// A package is read back from the pool with the texts and lists it was filed with, each list
/// under its own name.
pub proof fn filed_package_keeps_its_fields(pool: PackagePool, i: int, k: int)
    requires
        0 <= i < pool.solvables().len(),
    ensures
        pool.packages().len() == pool.solvables().len(),
        ({
            let record = pool.solvables()[i].1;
            let p = pool.packages()[i];
            &&& p.name == record.name
            &&& p.evr == record.evr
            &&& p.arch == record.arch
            &&& p.repo_id == record.repo_id
            &&& p.requires.len() == record.requires.len()
            &&& p.conflicts.len() == record.conflicts.len()
            &&& p.obsoletes.len() == record.obsoletes.len()
            &&& p.recommends.len() == record.recommends.len()
            &&& p.suggests.len() == record.suggests.len()
            &&& p.supplements.len() == record.supplements.len()
            &&& p.enhances.len() == record.enhances.len()
            &&& 0 <= k < p.requires.len() ==> p.requires[k] == pool.requirement(record.requires[k])
            &&& 0 <= k < p.conflicts.len() ==> p.conflicts[k] == pool.requirement(
                record.conflicts[k],
            )
            &&& 0 <= k < p.obsoletes.len() ==> p.obsoletes[k] == pool.requirement(
                record.obsoletes[k],
            )
            &&& 0 <= k < p.recommends.len() ==> p.recommends[k] == pool.requirement(
                record.recommends[k],
            )
            &&& 0 <= k < p.suggests.len() ==> p.suggests[k] == pool.requirement(
                record.suggests[k],
            )
            &&& 0 <= k < p.supplements.len() ==> p.supplements[k] == pool.requirement(
                record.supplements[k],
            )
            &&& 0 <= k < p.enhances.len() ==> p.enhances[k] == pool.requirement(
                record.enhances[k],
            )
        }),
{
}

/// A requirement is read back from the pool with what it was interned with: the name it is
/// about, its comparison, and the text of each part of its version that it has.
pub proof fn interned_requirement_keeps_its_texts(pool: PackagePool, id: VersionSetId)
    ensures
        ({
            let (name, set) = pool.sets()[id.0 as int];
            let r = pool.requirement(id);
            &&& r.name == pool.names()[name.0 as int]
            &&& r.flags == set.flags
            &&& r.preinstall == set.preinstall
            &&& r.epoch is Some == set.epoch is Some
            &&& r.version is Some == set.version is Some
            &&& r.release is Some == set.release is Some
            &&& set.epoch matches Some(s) ==> r.epoch == Some(pool.strings()[s.0 as int])
            &&& set.version matches Some(s) ==> r.version == Some(pool.strings()[s.0 as int])
            &&& set.release matches Some(s) ==> r.release == Some(pool.strings()[s.0 as int])
        }),
{
}

/// There is room for more values where those of each kind, with them, are not more than an id
/// can tell apart. Adding a package takes four values for each of its dependencies, one for each
/// capability and file, and two for itself.
pub proof fn room_for_a_package(pool: PackagePool, n: int, spec: PackageSpec<'_>)
    ensures
        pool.room(n) <==> pool.names().len() + n <= 0x1_0000_0000 && pool.strings().len() + n
            <= 0x1_0000_0000 && pool.sets().len() + n <= 0x1_0000_0000 && pool.solvables().len()
            + n <= 0x1_0000_0000,
        spec.size() == 4 * (spec.requires@.len() + spec.conflicts@.len() + spec.obsoletes@.len()
            + spec.recommends@.len() + spec.suggests@.len() + spec.supplements@.len()
            + spec.enhances@.len()) + spec.provides@.len() + spec.files@.len() + 2,
{
}

/// A package version keeps its texts and lists, each under its own name.
pub proof fn package_version_keeps_its_fields(p: RpmPackageVersion)
    ensures
        p@.name == p.name@,
        p@.evr.epoch == p.epoch@,
        p@.evr.version == p.version@,
        p@.evr.release == p.release@,
        p@.arch == p.arch@,
        p@.repo_id == p.repo_id,
        p@.requires == p.requires@,
        p@.conflicts == p.conflicts@,
        p@.obsoletes == p.obsoletes@,
        p@.recommends == p.recommends@,
        p@.suggests == p.suggests@,
        p@.supplements == p.supplements@,
        p@.enhances == p.enhances@,
{
}

/// A package that is being collected keeps its texts, its dependencies and what it provides,
/// each list in its order.
pub proof fn collected_package_keeps_its_fields(
    pkg: PackageInProgress,
    pool: PackagePool,
    repo_id: usize,
    i: int,
)
    ensures
        ({
            let d = pkg.draft(pool, repo_id);
            &&& d.package.name == pkg.name@
            &&& d.package.evr.epoch == pkg.epoch@
            &&& d.package.evr.version == pkg.version@
            &&& d.package.evr.release == pkg.release@
            &&& d.package.arch == pkg.arch@
            &&& d.package.repo_id == repo_id
            &&& d.package.requires.len() == pkg.requires@.len()
            &&& d.package.conflicts.len() == pkg.conflicts@.len()
            &&& d.package.obsoletes.len() == pkg.obsoletes@.len()
            &&& d.package.recommends.len() == pkg.recommends@.len()
            &&& d.package.suggests.len() == pkg.suggests@.len()
            &&& d.package.supplements.len() == pkg.supplements@.len()
            &&& d.package.enhances.len() == pkg.enhances@.len()
            &&& d.provides.len() == pkg.provides@.len()
            &&& d.files.len() == pkg.file_name_ids@.len()
            &&& 0 <= i < pkg.requires@.len() ==> d.package.requires[i] == pool.requirement(
                pkg.requires@[i],
            )
            &&& 0 <= i < pkg.conflicts@.len() ==> d.package.conflicts[i] == pool.requirement(
                pkg.conflicts@[i],
            )
            &&& 0 <= i < pkg.obsoletes@.len() ==> d.package.obsoletes[i] == pool.requirement(
                pkg.obsoletes@[i],
            )
            &&& 0 <= i < pkg.recommends@.len() ==> d.package.recommends[i] == pool.requirement(
                pkg.recommends@[i],
            )
            &&& 0 <= i < pkg.suggests@.len() ==> d.package.suggests[i] == pool.requirement(
                pkg.suggests@[i],
            )
            &&& 0 <= i < pkg.supplements@.len() ==> d.package.supplements[i] == pool.requirement(
                pkg.supplements@[i],
            )
            &&& 0 <= i < pkg.enhances@.len() ==> d.package.enhances[i] == pool.requirement(
                pkg.enhances@[i],
            )
            &&& 0 <= i < pkg.provides@.len() ==> d.provides[i].name == pool.names()[
                pkg.provides@[i].name.0 as int]
            &&& 0 <= i < pkg.provides@.len() ==> (d.provides[i].evr is Some <==> (
            pkg.provides@[i].epoch is Some || pkg.provides@[i].version is Some
                || pkg.provides@[i].release is Some))
            &&& 0 <= i < pkg.provides@.len() ==> (pkg.provides@[i].epoch matches Some(t)
                ==> d.provides[i].evr->0.epoch == t@)
            &&& 0 <= i < pkg.provides@.len() ==> (pkg.provides@[i].version matches Some(t)
                ==> d.provides[i].evr->0.version == t@)
            &&& 0 <= i < pkg.provides@.len() ==> (pkg.provides@[i].release matches Some(t)
                ==> d.provides[i].evr->0.release == t@)
            &&& 0 <= i < pkg.file_name_ids@.len() ==> d.files[i] == pool.names()[
                pkg.file_name_ids@[i].0 as int]
        }),
{
}

/// What was interned keeps its id and its meaning while the pool grows, and the pool grows by no
/// more than the stated number of values of each kind.
pub proof fn ids_keep_their_meaning(base: PackagePool, pool: PackagePool, n: int, i: int)
    requires
        pool.extends(base, n),
    ensures
        0 <= i < base.names().len() ==> i < pool.names().len() && pool.names()[i]
            == base.names()[i],
        0 <= i < base.strings().len() ==> i < pool.strings().len() && pool.strings()[i]
            == base.strings()[i],
        0 <= i < base.sets().len() ==> i < pool.sets().len() && pool.sets()[i] == base.sets()[i],
        0 <= i < base.solvables().len() ==> i < pool.solvables().len() && pool.solvables()[i]
            == base.solvables()[i],
        pool.names().len() <= base.names().len() + n,
        pool.strings().len() <= base.strings().len() + n,
        pool.sets().len() <= base.sets().len() + n,
        pool.solvables().len() <= base.solvables().len() + n,
{
}

} // verus!
