//! What holds of the provider whose dependencies compare by the texts of the metadata.
use vstd::prelude::*;
use vstd::std_specs::cmp::{PartialEqSpec, PartialOrdSpec};
use core::cmp::Ordering;
use crate::evr::{order, EvrModel, VersionOrder};
use crate::laws::loading::{is_conditional, occurs_where_conditional};
use crate::laws::requirements::epoch_or_zero;
use crate::model::registered_where_named;
use crate::package::{NameId, SolvableId, VersionSetId};
use crate::rpm_provider::{
    all_stand_for, by_version, handed_on, handed_on_of, holds_similar, repodata_size,
    requirement_display, set_texts, similar, stands_for, with_dependencies, with_dependency,
    with_repodata, PackageText, RPMPackageVersion, RPMProvider, RPMRequirement, RepoPackage,
    Requirement, RequirementText, TextModel,
};
use crate::sorting::{stably_sorted, ties_with};
use crate::text::texts;

verus! {

/// The version that a dependency states, part by part; a part that is not stated is empty.
pub open spec fn stated_bound(r: RequirementText) -> EvrModel {
    EvrModel {
        epoch: if r.epoch is Some {
            r.epoch->0
        } else {
            Seq::empty()
        },
        version: if r.version is Some {
            r.version->0
        } else {
            Seq::empty()
        },
        release: if r.release is Some {
            r.release->0
        } else {
            Seq::empty()
        },
    }
}

/// A dependency with a version and one of the texts `EQ`, `LT`, `GT`, `LE` and `GE` is met by
/// exactly the versions that stand to the stated one as the text says. One without a version,
/// without a text or with any other text is met by every version.
pub proof fn text_decides(r: RequirementText, evr: EvrModel)
    ensures
        r.flags is None || r.version is None ==> r.accepts(evr),
        r.flags is Some && r.version is Some ==> {
            let flags = r.flags->0;
            let o = order(evr, stated_bound(r));
            &&& flags == seq!['E', 'Q'] ==> (r.accepts(evr) <==> o == VersionOrder::Equal)
            &&& flags == seq!['L', 'T'] ==> (r.accepts(evr) <==> o == VersionOrder::Less)
            &&& flags == seq!['G', 'T'] ==> (r.accepts(evr) <==> o == VersionOrder::Greater)
            &&& flags == seq!['L', 'E'] ==> (r.accepts(evr) <==> o == VersionOrder::Less || o
                == VersionOrder::Equal)
            &&& flags == seq!['G', 'E'] ==> (r.accepts(evr) <==> o == VersionOrder::Greater || o
                == VersionOrder::Equal)
            &&& flags != seq!['E', 'Q'] && flags != seq!['L', 'T'] && flags != seq!['G', 'T']
                && flags != seq!['L', 'E'] && flags != seq!['G', 'E'] ==> r.accepts(evr)
        },
{
    reveal_strlit("EQ");
    reveal_strlit("LT");
    reveal_strlit("GT");
    reveal_strlit("LE");
    reveal_strlit("GE");
    assert("EQ"@ =~= seq!['E', 'Q']);
    assert("LT"@ =~= seq!['L', 'T']);
    assert("GT"@ =~= seq!['G', 'T']);
    assert("LE"@ =~= seq!['L', 'E']);
    assert("GE"@ =~= seq!['G', 'E']);
    assert(seq!['E', 'Q'][0] == 'E');
    assert(seq!['L', 'T'][0] == 'L' && seq!['L', 'T'][1] == 'T');
    assert(seq!['L', 'E'][0] == 'L' && seq!['L', 'E'][1] == 'E');
    assert(seq!['G', 'T'][0] == 'G' && seq!['G', 'T'][1] == 'T');
    assert(seq!['G', 'E'][0] == 'G' && seq!['G', 'E'][1] == 'E');
}

/// Two dependencies count as equal where name, version and comparison agree. Epoch, release and
/// whether they are needed before the installation make no difference, each of the three texts
/// does.
pub proof fn equal_by_three_texts(a: RequirementText, b: RequirementText)
    ensures
        similar(a, b) <==> a.name == b.name && a.version == b.version && a.flags == b.flags,
        similar(a, RequirementText { epoch: b.epoch, ..a }),
        similar(a, RequirementText { release: b.release, ..a }),
        similar(a, RequirementText { preinstall: b.preinstall, ..a }),
        a.name != b.name || a.version != b.version || a.flags != b.flags ==> !similar(a, b),
{
}

/// A dependency keeps the texts that were written down.
pub proof fn text_dependency_keeps_its_texts(r: Requirement)
    ensures
        r@.name == r.name@,
        r@.flags is Some == r.flags is Some,
        r@.epoch is Some == r.epoch is Some,
        r@.version is Some == r.version is Some,
        r@.release is Some == r.release is Some,
        r.flags matches Some(t) ==> r@.flags == Some(t@),
        r.epoch matches Some(t) ==> r@.epoch == Some(t@),
        r.version matches Some(t) ==> r@.version == Some(t@),
        r.release matches Some(t) ==> r@.release == Some(t@),
        r@.preinstall == r.preinstall,
{
}

/// A package keeps the texts and dependencies that were written down, the latter in their order.
pub proof fn text_package_keeps_its_fields(p: RPMPackageVersion, i: int)
    ensures
        p@.name == p.name@,
        p@.evr.epoch == p.epoch@,
        p@.evr.version == p.version@,
        p@.evr.release == p.release@,
        p@.requires.len() == p.requires@.len(),
        p@.suggests.len() == p.suggests@.len(),
        0 <= i < p.requires@.len() ==> p@.requires[i] == p.requires@[i]@,
        0 <= i < p.suggests@.len() ==> p@.suggests[i] == p.suggests@[i]@,
{
}

/// `==` on interned dependencies asks for the same three texts.
pub proof fn interned_equal_by_three_texts(a: RPMRequirement, b: RPMRequirement)
    ensures
        RPMRequirement::obeys_eq_spec(),
        a.eq_spec(&b) <==> a.0@.name == b.0@.name && a.0@.version == b.0@.version && a.0@.flags
            == b.0@.flags,
{
}

/// Packages are equal where name, version and release agree and so do the epochs, an empty one
/// read as `0`; they are ordered by their versions alone.
pub proof fn packages_compare_by_version(a: RPMPackageVersion, b: RPMPackageVersion)
    ensures
        RPMPackageVersion::obeys_eq_spec(),
        RPMPackageVersion::obeys_partial_cmp_spec(),
        a.eq_spec(&b) <==> a.name@ == b.name@ && a.version@
            == b.version@ && a.release@ == b.release@ && epoch_or_zero(a.epoch@) == epoch_or_zero(
            b.epoch@,
        ),
        a.partial_cmp_spec(&b) == Some(Ordering::Less)
            <==> order(a@.evr, b@.evr) == VersionOrder::Less,
        a.partial_cmp_spec(&b) == Some(Ordering::Equal)
            <==> order(a@.evr, b@.evr) == VersionOrder::Equal,
        a.partial_cmp_spec(&b) == Some(Ordering::Greater)
            <==> order(a@.evr, b@.evr) == VersionOrder::Greater,
{
    crate::laws::requirements::written_alike(a@.evr, b@.evr);
}

/// A dependency is shown as comparison, dash and version, with `UNDEF` for what is missing.
pub proof fn shown_by_texts(r: RequirementText)
    ensures
        ({
            let missing = seq!['U', 'N', 'D', 'E', 'F'];
            let flags = if r.flags is Some {
                r.flags->0
            } else {
                missing
            };
            let version = if r.version is Some {
                r.version->0
            } else {
                missing
            };
            let n = flags.len() as int;
            &&& requirement_display(r).len() == n + 1 + version.len()
            &&& requirement_display(r).take(n) == flags
            &&& requirement_display(r)[n] == '-'
            &&& requirement_display(r).skip(n + 1) == version
        }),
{
    reveal_strlit("UNDEF");
    reveal_strlit("-");
    assert("UNDEF"@ =~= seq!['U', 'N', 'D', 'E', 'F']);
    assert("-"@ =~= seq!['-']);
    let flags = if r.flags is Some {
        r.flags->0
    } else {
        "UNDEF"@
    };
    let version = if r.version is Some {
        r.version->0
    } else {
        "UNDEF"@
    };
    let n = flags.len() as int;
    assert(requirement_display(r).take(n) =~= flags);
    assert(requirement_display(r).skip(n + 1) =~= version);
}

/// A dependency is handed to the solver unless it is a file, with a slash in front, or holds
/// ` if `.
pub proof fn handed_on_unless_file_or_conditional(r: RequirementText)
    ensures
        handed_on(r) <==> !(r.name.len() > 0 && r.name[0] == '/') && !is_conditional(r.name),
{
    occurs_where_conditional(r.name);
}

/// What a package needs are its requirements, then what it suggests unless that is switched
/// off, each list in its order and without what is not handed on.
pub proof fn needs_in_order(m: TextModel, id: SolvableId, r: RequirementText)
    ensures
        ({
            let p = m.packages[id.0 as int];
            let keep = |x: RequirementText|
                !(x.name.len() > 0 && x.name[0] == '/') && !is_conditional(x.name);
            &&& m.disable_suggest ==> m.needs(id) == p.requires.filter(keep)
            &&& !m.disable_suggest ==> m.needs(id) == p.requires.filter(keep) + p.suggests.filter(
                keep,
            )
        }),
        m.needs(id).contains(r) <==> handed_on(r) && (m.packages[id.0 as int].requires.contains(r)
            || (!m.disable_suggest && m.packages[id.0 as int].suggests.contains(r))),
{
    let p = m.packages[id.0 as int];
    let keep = |x: RequirementText|
        !(x.name.len() > 0 && x.name[0] == '/') && !is_conditional(x.name);
    let handed = |x: RequirementText| handed_on(x);
    assert(keep =~= handed) by {
        assert forall|x: RequirementText| #[trigger] keep(x) == handed(x) by {
            handed_on_unless_file_or_conditional(x);
        }
    }
    assert(p.requires.filter(keep) + Seq::<RequirementText>::empty() =~= p.requires.filter(keep));
    kept_where_listed(p.requires, handed, r);
    kept_where_listed(p.suggests, handed, r);
    let first = handed_on_of(p.requires);
    let second = handed_on_of(p.suggests);
    let needs = m.needs(id);
    if first.contains(r) {
        assert(needs[first.index_of(r)] == r);
    }
    if !m.disable_suggest && second.contains(r) {
        assert(needs[first.len() + second.index_of(r)] == r);
    }
    if needs.contains(r) {
        let k = needs.index_of(r);
        if k < first.len() {
            assert(first[k] == r);
        } else {
            assert(second[k - first.len()] == r);
        }
    }
}

/// A filter keeps exactly the elements that pass.
proof fn kept_where_listed(
    list: Seq<RequirementText>,
    keep: spec_fn(RequirementText) -> bool,
    r: RequirementText,
)
    ensures
        list.filter(keep).contains(r) <==> list.contains(r) && keep(r),
{
    let kept = list.filter(keep);
    if kept.contains(r) {
        let k = kept.index_of(r);
        list.lemma_filter_pred(keep, k);
        list.lemma_filter_contains_rev(keep, r);
    }
    if list.contains(r) && keep(r) {
        let k = list.index_of(r);
        list.lemma_filter_contains(keep, k);
    }
}

/// Adding a package puts it behind those that are there and registers it for exactly what it
/// provides, as often as it does; its own name is not among that unless it says so. Whether
/// suggestions count stays as it is.
pub proof fn registered_for_what_it_says(
    m: TextModel,
    package: PackageText,
    provides: Seq<Seq<char>>,
    name: Seq<char>,
    i: int,
)
    requires
        !m.providers_of(name).contains(m.next_id()),
    ensures
        m.with_package(package, provides).packages.len() == m.packages.len() + 1,
        m.with_package(package, provides).packages.last() == package,
        0 <= i < m.packages.len() ==> m.with_package(package, provides).packages[i]
            == m.packages[i],
        m.with_package(package, provides).disable_suggest == m.disable_suggest,
        m.packages.len() < 0x1_0000_0000 ==> m.next_id().0 == m.packages.len(),
        m.with_package(package, provides).providers_of(name).contains(m.next_id())
            <==> provides.contains(name),
        !provides.contains(name) ==> m.with_package(package, provides).providers_of(name)
            == m.providers_of(name),
        m.with_package(package, provides).providers_of(name).len() == m.providers_of(name).len()
            + provides.to_multiset().count(name),
        0 <= i < m.providers_of(name).len() ==> m.with_package(package, provides).providers_of(
            name,
        )[i] == m.providers_of(name)[i],
{
    broadcast use vstd::seq_lib::group_to_multiset_ensures;

    registered_where_named(m.providers, provides, m.next_id(), name);
    let before = m.providers_of(name);
    let after = m.with_package(package, provides).providers_of(name);
    if provides.contains(name) {
        assert(provides.to_multiset().count(name) > 0);
        assert(after[before.len() as int] == m.next_id());
    } else {
        assert(provides.to_multiset().count(name) == 0);
        assert(after =~= before);
    }
}

/// The packages of a repository are added one after the other, in their order, each with what
/// it provides.
pub proof fn repository_package_by_package(
    m: TextModel,
    a: Seq<RepoPackage>,
    b: Seq<RepoPackage>,
    p: RepoPackage,
)
    ensures
        with_repodata(m, Seq::empty()) == m,
        with_repodata(m, a + b) == with_repodata(with_repodata(m, a), b),
        with_repodata(m, seq![p]) == m.with_package(p.package@, texts(p.provides@)),
        repodata_size(a + b) == repodata_size(a) + repodata_size(b),
        repodata_size(seq![p]) == p.provides@.len() + 2,
    decreases b.len(),
{
    reveal_with_fuel(with_repodata, 2);
    reveal_with_fuel(repodata_size, 2);
    assert(seq![p].drop_last() =~= Seq::empty());
    if b.len() == 0 {
        assert(a + b =~= a);
    } else {
        repository_package_by_package(m, a, b.drop_last(), p);
        assert((a + b).drop_last() =~= a + b.drop_last());
    }
}

/// Sorted candidates are the same packages, each as often as before, the oldest in front: none
/// is newer than one that follows. Packages of which neither is newer keep their order.
pub proof fn candidates_oldest_first(
    m: TextModel,
    candidates: Seq<SolvableId>,
    sorted: Seq<SolvableId>,
    i: int,
    j: int,
    id: SolvableId,
)
    requires
        stably_sorted(candidates, sorted, by_version(m)),
    ensures
        sorted.to_multiset() == candidates.to_multiset(),
        sorted.len() == candidates.len(),
        sorted.contains(id) <==> candidates.contains(id),
        0 <= i < j < sorted.len() ==> order(
            m.packages[sorted[i].0 as int].evr,
            m.packages[sorted[j].0 as int].evr,
        ) != VersionOrder::Greater,
        0 <= i < j < sorted.len() ==> order(
            m.packages[sorted[j].0 as int].evr,
            m.packages[sorted[i].0 as int].evr,
        ) != VersionOrder::Less,
        sorted.filter(|s: SolvableId| neither_newer(m, id, s)) == candidates.filter(
            |s: SolvableId| neither_newer(m, id, s),
        ),
{
    broadcast use vstd::seq_lib::group_to_multiset_ensures;

    let level = |s: SolvableId| neither_newer(m, id, s);
    assert(sorted.to_multiset().len() == sorted.len());
    assert(sorted.to_multiset().count(id) == candidates.to_multiset().count(id));
    assert(ties_with(by_version(m), id) =~= level);
    if 0 <= i < j < sorted.len() {
        assert(by_version(m)(sorted[i], sorted[j]));
    }
}

/// Whether of two packages neither is newer, seen from both sides.
pub open spec fn neither_newer(m: TextModel, a: SolvableId, b: SolvableId) -> bool {
    let x = m.packages[a.0 as int].evr;
    let y = m.packages[b.0 as int].evr;
    order(x, y) == VersionOrder::Equal && order(y, x) == VersionOrder::Equal
}

/// Interning a dependency keeps those that are held; it is appended, with all its texts, where
/// none that counts as equal is held, and nothing changes where one is. Interning lists one
/// after the other is interning their concatenation.
pub proof fn interned_once(
    list: Seq<RequirementText>,
    r: RequirementText,
    a: Seq<RequirementText>,
    b: Seq<RequirementText>,
)
    ensures
        with_dependency(list, r) == list || with_dependency(list, r) == list.push(r),
        with_dependency(list, r) == list <==> exists|i: int|
            0 <= i < list.len() && (#[trigger] list[i]).name == r.name && list[i].version
                == r.version && list[i].flags == r.flags,
        with_dependencies(list, Seq::empty()) == list,
        with_dependencies(list, seq![r]) == with_dependency(list, r),
        with_dependencies(list, a + b) == with_dependencies(with_dependencies(list, a), b),
    decreases b.len(),
{
    reveal_with_fuel(with_dependencies, 2);
    assert(seq![r].drop_last() =~= Seq::empty());
    assert(list.push(r) != list) by {
        assert(list.push(r).len() != list.len());
    }
    if holds_similar(list, r) {
        let i = choose|i: int| 0 <= i < list.len() && similar(#[trigger] list[i], r);
        assert(list[i].name == r.name);
    }
    if exists|i: int|
        0 <= i < list.len() && (#[trigger] list[i]).name == r.name && list[i].version == r.version
            && list[i].flags == r.flags {
        let i = choose|i: int|
            0 <= i < list.len() && (#[trigger] list[i]).name == r.name && list[i].version
                == r.version && list[i].flags == r.flags;
        assert(similar(list[i], r));
    }
    if b.len() == 0 {
        assert(a + b =~= a);
    } else {
        interned_once(list, r, a, b.drop_last());
        assert((a + b).drop_last() =~= a + b.drop_last());
    }
}

/// An id stands for a dependency where what is interned under it is about the same name and has
/// the same version and comparison; a list of ids stands for a list of dependencies where each
/// does, one for one.
pub proof fn ids_stand_one_for_one(
    provider: RPMProvider,
    ids: Seq<VersionSetId>,
    list: Seq<RequirementText>,
    sets: Seq<(NameId, RequirementText)>,
    i: int,
)
    ensures
        set_texts(sets).len() == sets.len(),
        0 <= i < sets.len() ==> set_texts(sets)[i] == sets[i].1,
        all_stand_for(provider, ids, list) ==> ids.len() == list.len(),
        all_stand_for(provider, ids, list) && 0 <= i < ids.len() ==> {
            let (name, held) = provider.sets()[ids[i].0 as int];
            &&& ids[i].0 < provider.sets().len()
            &&& provider.names()[name.0 as int] == list[i].name
            &&& held.name == list[i].name
            &&& held.version == list[i].version
            &&& held.flags == list[i].flags
        },
{
    if all_stand_for(provider, ids, list) && 0 <= i < ids.len() {
        assert(stands_for(provider, ids[i], list[i]));
    }
}

} // verus!
