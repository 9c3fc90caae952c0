//! What holds of the library as a whole: laws that relate several of its functions.
use vstd::prelude::*;
use std::path::PathBuf;
use crate::evr::{order, EvrModel, VersionOrder};
use crate::metadata::{CompsGroup, CompsPackageReq, UpdateCollectionPackage, UpdateRecord};
use crate::model::{one_package_each, with_versions, DraftModel, ProviderModel};
use crate::options::{GroupInstallOptions, LoadOptions};
use crate::package::{
    inverted_accepts_the_rest, inverted_unversioned_accepts_below_zero, ProvideModel,
    RequirementModel, SolvableId,
};
use crate::rpm_provider::{holds_similar, similar, with_dependencies, RequirementText};
use crate::solving::preferred;
use crate::virtuals::{
    advisory_draft, advisory_drafts, constrains, constraint, constraints, group_draft, group_drafts,
    group_requirements, selected,
};

pub mod advisories;
pub mod checking;
pub mod choosing;
pub mod fetching;
pub mod loading;
pub mod packages;
pub mod requirements;
pub mod showing;
pub mod text_provider;

verus! {

/// A group requires exactly the packages of its selected entries, for any version.
pub proof fn group_requires_selected(
    list: Seq<CompsPackageReq>,
    options: GroupInstallOptions,
    r: RequirementModel,
)
    ensures
        group_requirements(list, options).contains(r) <==> exists|i: int|
            0 <= i < list.len() && selected(#[trigger] list[i], options) && r
                == RequirementModel::unversioned(list[i].name@),
{
    let keep = |p: CompsPackageReq| selected(p, options);
    let kept = list.filter(keep);
    let all = group_requirements(list, options);
    if all.contains(r) {
        let k = all.index_of(r);
        assert(all[k] == RequirementModel::unversioned(kept[k].name@));
        list.lemma_filter_pred(keep, k);
        assert(kept.contains(kept[k]));
        list.lemma_filter_contains_rev(keep, kept[k]);
        let i = list.index_of(kept[k]);
        assert(list[i] == kept[k]);
    }
    if exists|i: int|
        0 <= i < list.len() && selected(#[trigger] list[i], options) && r
            == RequirementModel::unversioned(list[i].name@) {
        let i = choose|i: int|
            0 <= i < list.len() && selected(#[trigger] list[i], options) && r
                == RequirementModel::unversioned(list[i].name@);
        list.lemma_filter_contains(keep, i);
        let k = kept.index_of(list[i]);
        assert(all[k] == r);
    }
}

/// Each group of a document becomes one package behind those that are there, named `@id`, in
/// the order of the groups, and nothing else becomes one.
pub proof fn one_package_per_group(
    p: ProviderModel,
    groups: Seq<CompsGroup>,
    options: GroupInstallOptions,
    repo_id: usize,
)
    ensures
        p.with_drafts(group_drafts(groups, options, repo_id)).packages.len() == p.packages.len()
            + groups.len(),
        forall|i: int|
            0 <= i < groups.len() ==> p.with_drafts(
                group_drafts(groups, options, repo_id),
            ).packages[p.packages.len() + i] == group_draft(
                #[trigger] groups[i],
                options,
                repo_id,
            ).package,
        p.packages.is_prefix_of(
            p.with_drafts(group_drafts(groups, options, repo_id)).packages,
        ),
{
    one_package_each(p, group_drafts(groups, options, repo_id));
}

/// Each advisory of a document becomes one package behind those that are there, named
/// `patch:id`, in the order of the advisories, and nothing else becomes one.
pub proof fn one_package_per_advisory(
    p: ProviderModel,
    advisories: Seq<UpdateRecord>,
    repo_id: usize,
)
    ensures
        p.with_drafts(advisory_drafts(advisories, repo_id)).packages.len() == p.packages.len()
            + advisories.len(),
        forall|i: int|
            0 <= i < advisories.len() ==> p.with_drafts(
                advisory_drafts(advisories, repo_id),
            ).packages[p.packages.len() + i] == advisory_draft(
                #[trigger] advisories[i],
                repo_id,
            ).package,
        p.packages.is_prefix_of(p.with_drafts(advisory_drafts(advisories, repo_id)).packages),
{
    one_package_each(p, advisory_drafts(advisories, repo_id));
}

/// A file list that is put off waits for the next hand-out, whatever was handed out before:
/// it stands behind those that wait already, and file lists are then to be read.
pub proof fn put_off_until_handed_out(
    p: ProviderModel,
    label: Seq<char>,
    path: PathBuf,
    options: LoadOptions,
)
    requires
        !options.load_filelists,
    ensures
        p.with_repo_begun(label, Some(path), options).filelists == p.filelists.push(path),
        !p.with_repo_begun(label, Some(path), options).filelists_loaded,
{
}

/// An entry that depends on another package is never selected, whatever the options.
pub proof fn conditional_never_selected(p: CompsPackageReq, options: GroupInstallOptions)
    requires
        p.requires is Some,
    ensures
        !selected(p, options),
{
}

/// By default mandatory and default entries are selected and optional ones are not.
pub proof fn selected_by_default(p: CompsPackageReq)
    requires
        p.requires is None,
    ensures
        selected(p, GroupInstallOptions::defaults()) == (p.reqtype@ == "mandatory"@ || p.reqtype@
            == "default"@),
{
    reveal_strlit("mandatory");
    reveal_strlit("default");
    reveal_strlit("optional");
    assert("mandatory"@ != "optional"@) by {
        assert("mandatory"@.len() != "optional"@.len());
    }
    assert("default"@ != "optional"@) by {
        assert("default"@.len() != "optional"@.len());
    }
}

/// An advisory's entry is met by exactly the versions that are not older than the fixed one.
pub proof fn fix_or_newer(p: UpdateCollectionPackage, evr: EvrModel)
    ensures
        constraint(p).accepts(evr) <==> order(evr, constraint(p).bound()) != VersionOrder::Less,
        constraint(p).bound().version == p.version@,
        constraint(p).bound().release == p.release@,
        p.epoch@.len() > 0 ==> constraint(p).bound().epoch == p.epoch@,
        p.epoch@.len() == 0 ==> constraint(p).bound().epoch == "0"@,
{
    if p.release@.len() == 0 {
        assert(p.release@ =~= Seq::<char>::empty());
    }
}

/// An advisory constrains exactly the packages that its entries name, source packages aside.
pub proof fn advisory_constrains_named(
    list: Seq<UpdateCollectionPackage>,
    r: RequirementModel,
)
    ensures
        constraints(list).contains(r) <==> exists|i: int|
            0 <= i < list.len() && constrains(#[trigger] list[i]) && r == constraint(list[i]),
{
    let keep = |p: UpdateCollectionPackage| constrains(p);
    let kept = list.filter(keep);
    let all = constraints(list);
    if all.contains(r) {
        let k = all.index_of(r);
        assert(all[k] == constraint(kept[k]));
        list.lemma_filter_pred(keep, k);
        assert(kept.contains(kept[k]));
        list.lemma_filter_contains_rev(keep, kept[k]);
        let i = list.index_of(kept[k]);
        assert(list[i] == kept[k]);
    }
    if exists|i: int|
        0 <= i < list.len() && constrains(#[trigger] list[i]) && r == constraint(list[i]) {
        let i = choose|i: int|
            0 <= i < list.len() && constrains(#[trigger] list[i]) && r == constraint(list[i]);
        list.lemma_filter_contains(keep, i);
        let k = kept.index_of(list[i]);
        assert(all[k] == r);
    }
}

/// Candidates are parted by a requirement: each is among those that meet it or among those
/// that do not, and never among both.
pub proof fn filters_part_candidates(
    p: ProviderModel,
    candidates: Seq<SolvableId>,
    r: RequirementModel,
    id: SolvableId,
)
    requires
        candidates.contains(id),
    ensures
        candidates.filter(|s: SolvableId| p.meets(s, r) != false).contains(id)
            != candidates.filter(|s: SolvableId| p.meets(s, r) != true).contains(id),
{
    let yes = |s: SolvableId| p.meets(s, r) != false;
    let no = |s: SolvableId| p.meets(s, r) != true;
    let i = candidates.index_of(id);
    if p.meets(id, r) {
        candidates.lemma_filter_contains(yes, i);
        if candidates.filter(no).contains(id) {
            let k = candidates.filter(no).index_of(id);
            candidates.lemma_filter_pred(no, k);
        }
    } else {
        candidates.lemma_filter_contains(no, i);
        if candidates.filter(yes).contains(id) {
            let k = candidates.filter(yes).index_of(id);
            candidates.lemma_filter_pred(yes, k);
        }
    }
}

/// A conflict excludes exactly what it names: with a comparison and a version, a candidate
/// fails what the conflict asks of it where it is one of the versions that the conflict
/// names, and only there.
pub proof fn conflict_excludes_what_it_names(
    p: ProviderModel,
    id: SolvableId,
    r: RequirementModel,
)
    requires
        r.flags is Some,
        r.version is Some,
    ensures
        r.inverted().name == r.name,
        p.meets(id, r.inverted()) == !p.meets(id, r),
{
    inverted_accepts_the_rest(r, p.version_of(id, r.name));
}

/// A conflict without a comparison excludes every version that is not older than `0:0`.
pub proof fn plain_conflict_excludes_all(
    p: ProviderModel,
    id: SolvableId,
    r: RequirementModel,
)
    requires
        r.flags is None,
        order(
            p.version_of(id, r.name),
            EvrModel { epoch: "0"@, version: "0"@, release: Seq::empty() },
        ) != VersionOrder::Less,
    ensures
        !p.meets(id, r.inverted()),
{
    inverted_unversioned_accepts_below_zero(r, p.version_of(id, r.name));
}

/// A package of a repository that was loaded earlier is tried before one of a repository
/// that was loaded later, whatever their versions.
pub proof fn earlier_repository_first(p: ProviderModel, a: SolvableId, b: SolvableId)
    requires
        p.packages[a.0 as int].repo_id < p.packages[b.0 as int].repo_id,
    ensures
        preferred(p, a, b),
        !preferred(p, b, a),
{
}

/// The version that a package states for a capability is the one that counts: of several
/// entries for it the last that states one, else the package's own version.
pub proof fn stated_version_counts(p: ProviderModel, draft: DraftModel, name: Seq<char>)
    requires
        p.packages.len() < 0x1_0000_0000,
        !p.provided.dom().contains((p.next_id(), name)),
    ensures
        p.with_draft(draft).version_of(p.next_id(), name) == (match last_stated(
            draft.provides,
            name,
        ) {
            Some(evr) => evr,
            None => draft.package.evr,
        }),
{
    last_stated_recorded(p.provided, p.next_id(), draft.provides, name);
}

/// The version that the last entry for a capability which states one states.
pub open spec fn last_stated(provides: Seq<ProvideModel>, name: Seq<char>) -> Option<EvrModel>
    decreases provides.len(),
{
    if provides.len() == 0 {
        None
    } else if provides.last().name == name && provides.last().evr is Some {
        provides.last().evr
    } else {
        last_stated(provides.drop_last(), name)
    }
}

/// The recorded version is the one that was stated last.
proof fn last_stated_recorded(
    m: Map<(SolvableId, Seq<char>), EvrModel>,
    id: SolvableId,
    provides: Seq<ProvideModel>,
    name: Seq<char>,
)
    requires
        !m.dom().contains((id, name)),
    ensures
        match last_stated(provides, name) {
            Some(evr) => with_versions(m, id, provides).dom().contains((id, name))
                && with_versions(m, id, provides)[(id, name)] == evr,
            None => !with_versions(m, id, provides).dom().contains((id, name)),
        },
    decreases provides.len(),
{
    if provides.len() > 0 {
        last_stated_recorded(m, id, provides.drop_last(), name);
    }
}

/// Counting as equal is an equivalence of dependencies.
pub proof fn similar_is_equivalence(a: RequirementText, b: RequirementText, c: RequirementText)
    ensures
        similar(a, a),
        similar(a, b) == similar(b, a),
        similar(a, b) && similar(b, c) ==> similar(a, c),
{
}

/// Of dependencies that count as equal the one that was interned first is the one that is
/// held, with all its texts: no other stands before it, neither among those that were held
/// nor among those that were added.
pub proof fn first_interned_is_held(
    list: Seq<RequirementText>,
    added: Seq<RequirementText>,
    i: int,
)
    requires
        forall|j: int, k: int|
            0 <= j < k < list.len() ==> !similar(#[trigger] list[j], #[trigger] list[k]),
        0 <= i < with_dependencies(list, added).len(),
    ensures
        exists|k: int|
            0 <= k < list.len() + added.len() && #[trigger] (list + added)[k]
                == with_dependencies(list, added)[i] && forall|j: int|
                0 <= j < k ==> !similar(
                    #[trigger] (list + added)[j],
                    with_dependencies(list, added)[i],
                ),
    decreases added.len(),
{
    let all = list + added;
    let held = with_dependencies(list, added);
    if added.len() == 0 {
        assert(all =~= list);
        assert(all[i] == held[i]);
    } else {
        let rest = added.drop_last();
        let before = with_dependencies(list, rest);
        assert(forall|j: int| 0 <= j < all.len() - 1 ==> #[trigger] (list + rest)[j] == all[j]);
        if i < before.len() {
            first_interned_is_held(list, rest, i);
            let k = choose|k: int|
                0 <= k < list.len() + rest.len() && #[trigger] (list + rest)[k] == before[i]
                    && forall|j: int|
                    0 <= j < k ==> !similar(#[trigger] (list + rest)[j], before[i]);
            assert(all[k] == held[i]);
            assert forall|j: int| 0 <= j < k implies !similar(#[trigger] all[j], held[i]) by {
                assert((list + rest)[j] == all[j]);
            }
        } else {
            let k = all.len() - 1;
            assert(all[k] == held[i]);
            assert forall|j: int| 0 <= j < k implies !similar(#[trigger] all[j], held[i]) by {
                assert((list + rest)[j] == all[j]);
                held_once_named(list, rest, j);
                let m = choose|m: int|
                    0 <= m < before.len() && similar(#[trigger] before[m], (list + rest)[j]);
                assert(!similar(before[m], added.last()));
            }
        }
    }
}

/// Whatever was held or added is held in one that counts as equal.
proof fn held_once_named(list: Seq<RequirementText>, added: Seq<RequirementText>, j: int)
    requires
        0 <= j < list.len() + added.len(),
    ensures
        holds_similar(with_dependencies(list, added), (list + added)[j]),
    decreases added.len(),
{
    let all = list + added;
    let held = with_dependencies(list, added);
    if added.len() == 0 {
        assert(similar(held[j], all[j]));
    } else {
        let rest = added.drop_last();
        let before = with_dependencies(list, rest);
        if j < all.len() - 1 {
            assert((list + rest)[j] == all[j]);
            held_once_named(list, rest, j);
            let m = choose|m: int|
                0 <= m < before.len() && similar(#[trigger] before[m], (list + rest)[j]);
            assert(held[m] == before[m]);
        } else if !holds_similar(before, added.last()) {
            assert(similar(held[before.len() as int], all[j]));
        }
    }
}

} // verus!
