//! Which package is taken where several would do.
use vstd::prelude::*;
use crate::evr::{order, VersionOrder};
use crate::model::ProviderModel;
use crate::options::ResolveOptions;
use crate::package::{RequirementModel, SolvableId};
use crate::report::labelled;
use crate::rpm_provider::{all_known, TextModel};
use crate::solving::{best_for, known, preference, preferred};
use crate::sorting::{stably_sorted, ties_with};

verus! {

/// Whether a version of a package answers a requirement: the version that the package states
/// for the name, else its own, is one that the requirement accepts.
pub open spec fn version_answers(p: ProviderModel, id: SolvableId, r: RequirementModel) -> bool {
    if p.provided.dom().contains((id, r.name)) {
        r.accepts(p.provided[(id, r.name)])
    } else {
        r.accepts(p.packages[id.0 as int].evr)
    }
}

/// Whether a package stands at the given place among those that are registered for a
/// requirement's name, and its version answers the requirement.
pub open spec fn answers_at(
    p: ProviderModel,
    r: RequirementModel,
    at: int,
    id: SolvableId,
) -> bool {
    &&& p.providers.dom().contains(r.name)
    &&& 0 <= at < p.providers[r.name].len()
    &&& p.providers[r.name][at] == id
    &&& version_answers(p, id, r)
}

/// Whether no package of a list answers a requirement.
pub open spec fn left_open(p: ProviderModel, list: Seq<SolvableId>, r: RequirementModel) -> bool {
    forall|i: int, at: int|
        0 <= i < list.len() ==> !(#[trigger] answers_at(p, r, at, #[trigger] list[i]))
}

/// Whether a package stands in an earlier repository than another.
pub open spec fn earlier(p: ProviderModel, a: SolvableId, b: SolvableId) -> bool {
    p.packages[a.0 as int].repo_id < p.packages[b.0 as int].repo_id
}

/// Whether two packages stand in one repository and the first is not the older one.
pub open spec fn level_and_not_older(p: ProviderModel, a: SolvableId, b: SolvableId) -> bool {
    &&& p.packages[a.0 as int].repo_id == p.packages[b.0 as int].repo_id
    &&& order(p.packages[a.0 as int].evr, p.packages[b.0 as int].evr) != VersionOrder::Less
    &&& order(p.packages[b.0 as int].evr, p.packages[a.0 as int].evr) != VersionOrder::Greater
}

/// Whether the package at a place answers a requirement better than all others: every other
/// that answers it stands in a later repository, or in the same one and is not newer; and
/// none that is registered before it does as well.
pub open spec fn best_at(p: ProviderModel, r: RequirementModel, at: int, id: SolvableId) -> bool {
    &&& answers_at(p, r, at, id)
    &&& forall|k: int, other: SolvableId|
        k != at && #[trigger] answers_at(p, r, k, other) ==> {
            &&& earlier(p, id, other) || level_and_not_older(p, id, other)
            &&& k < at ==> !earlier(p, other, id) && !level_and_not_older(p, other, id)
        }
}

/// A package may be tried before another where it stands in an earlier repository, or in the
/// same one and is not the older of the two; there is no other reason.
pub proof fn tried_first(p: ProviderModel, a: SolvableId, b: SolvableId)
    ensures
        preferred(p, a, b) <==> earlier(p, a, b) || level_and_not_older(p, a, b),
{
}

/// The package that is taken for a requirement is one that answers it better than all others.
pub proof fn taken_is_best(p: ProviderModel, r: RequirementModel, id: SolvableId)
    ensures
        best_for(p, r, id) <==> exists|at: int| #[trigger] best_at(p, r, at, id),
{
    let list = p.providers_of(r.name);
    if best_for(p, r, id) {
        let i = choose|i: int|
            0 <= i < list.len() && #[trigger] list[i] == id && p.meets(list[i], r) && forall|j: int|
                0 <= j < list.len() && j != i && p.meets(#[trigger] list[j], r) ==> preferred(
                    p,
                    list[i],
                    list[j],
                ) && (j < i ==> !preferred(p, list[j], list[i]));
        assert(answers_at(p, r, i, id));
        assert forall|k: int, other: SolvableId|
            k != i && #[trigger] answers_at(p, r, k, other) implies (earlier(p, id, other)
            || level_and_not_older(p, id, other)) && (k < i ==> !earlier(p, other, id)
            && !level_and_not_older(p, other, id)) by {
            assert(list[k] == other);
            assert(p.meets(list[k], r));
        }
        assert(best_at(p, r, i, id));
    }
    if exists|at: int| #[trigger] best_at(p, r, at, id) {
        let i = choose|at: int| #[trigger] best_at(p, r, at, id);
        assert(list[i] == id && p.meets(list[i], r));
        assert forall|j: int|
            0 <= j < list.len() && j != i && p.meets(#[trigger] list[j], r) implies preferred(
            p,
            list[i],
            list[j],
        ) && (j < i ==> !preferred(p, list[j], list[i])) by {
            assert(answers_at(p, r, j, list[j]));
        }
    }
}

/// A requirement is satisfied where a package that is registered for its name answers it, and
/// only there.
pub proof fn satisfied_where_answered(p: ProviderModel, r: RequirementModel)
    ensures
        p.satisfied(r) <==> exists|at: int, id: SolvableId| #[trigger] answers_at(p, r, at, id),
{
    let list = p.providers_of(r.name);
    if p.satisfied(r) {
        let i = choose|i: int| 0 <= i < list.len() && p.meets(#[trigger] list[i], r);
        assert(answers_at(p, r, i, list[i]));
    }
    if exists|at: int, id: SolvableId| #[trigger] answers_at(p, r, at, id) {
        let (at, id) = choose|at: int, id: SolvableId| #[trigger] answers_at(p, r, at, id);
        assert(p.meets(list[at], r));
    }
}

/// A solution meets a requirement where one of its packages answers it, and only there.
proof fn met_where_answered(p: ProviderModel, solution: Seq<SolvableId>, r: RequirementModel)
    ensures
        p.met_by(solution, r) <==> !left_open(p, solution, r),
{
    let list = p.providers_of(r.name);
    if p.met_by(solution, r) {
        let i = choose|i: int|
            0 <= i < solution.len() && list.contains(#[trigger] solution[i]) && p.meets(
                solution[i],
                r,
            );
        let at = list.index_of(solution[i]);
        assert(answers_at(p, r, at, solution[i]));
    }
    if !left_open(p, solution, r) {
        let (i, at) = choose|i: int, at: int|
            0 <= i < solution.len() && #[trigger] answers_at(p, r, at, #[trigger] solution[i]);
        assert(list[at] == solution[i]);
        assert(list.contains(solution[i]));
        assert(p.meets(solution[i], r));
    }
}

/// Whether a requirement stands at a place among the weak dependencies of a package that the
/// options ask for.
pub open spec fn weak_at(
    p: ProviderModel,
    options: ResolveOptions,
    id: SolvableId,
    k: int,
    r: RequirementModel,
) -> bool {
    let package = p.packages[id.0 as int];
    ||| options.enable_recommends && 0 <= k < package.recommends.len() && package.recommends[k] == r
    ||| options.enable_suggests && 0 <= k < package.suggests.len() && package.suggests[k] == r
}

/// The weak dependencies of a solution are those of its packages, whatever their place.
proof fn weak_of_all_packages(
    p: ProviderModel,
    options: ResolveOptions,
    solution: Seq<SolvableId>,
    r: RequirementModel,
)
    ensures
        p.weak_of_all(options, solution).contains(r) <==> exists|i: int, k: int|
            0 <= i < solution.len() && #[trigger] weak_at(p, options, solution[i], k, r),
    decreases solution.len(),
{
    let all = p.weak_of_all(options, solution);
    if solution.len() > 0 {
        let rest = solution.drop_last();
        let last = solution.last();
        let front = p.weak_of_all(options, rest);
        let own = p.weak_of(options, last);
        let package = p.packages[last.0 as int];
        let wanted: Seq<RequirementModel> = if options.enable_recommends {
            package.recommends
        } else {
            Seq::empty()
        };
        weak_of_all_packages(p, options, rest, r);
        if all.contains(r) {
            let m = all.index_of(r);
            if m < front.len() {
                assert(front[m] == r);
                let (i, k) = choose|i: int, k: int|
                    0 <= i < rest.len() && #[trigger] weak_at(p, options, rest[i], k, r);
                assert(weak_at(p, options, solution[i], k, r));
            } else {
                let n = m - front.len();
                assert(own[n] == r);
                let k = if n < wanted.len() {
                    n
                } else {
                    n - wanted.len()
                };
                assert(weak_at(p, options, solution[solution.len() - 1], k, r));
            }
        }
        if exists|i: int, k: int|
            0 <= i < solution.len() && #[trigger] weak_at(p, options, solution[i], k, r) {
            let (i, k) = choose|i: int, k: int|
                0 <= i < solution.len() && #[trigger] weak_at(p, options, solution[i], k, r);
            if i < rest.len() {
                assert(weak_at(p, options, rest[i], k, r));
                let m = front.index_of(r);
                assert(all[m] == r);
            } else if options.enable_recommends && 0 <= k < package.recommends.len()
                && package.recommends[k] == r {
                assert(all[front.len() + k] == r);
            } else {
                assert(all[front.len() + wanted.len() + k] == r);
            }
        }
    }
}

/// Whether a package is best for some weak dependency of a package of the solution that no
/// package of the solution answers.
pub open spec fn best_for_left_open(
    p: ProviderModel,
    options: ResolveOptions,
    solution: Seq<SolvableId>,
    id: SolvableId,
) -> bool {
    exists|i: int, k: int, r: RequirementModel, place: int|
        0 <= i < solution.len() && #[trigger] weak_at(p, options, solution[i], k, r) && left_open(
            p,
            solution,
            r,
        ) && #[trigger] best_at(p, r, place, id)
}

/// What is pulled in for a solution. For every package of the solution, whatever its place, and
/// every weak dependency of it that the options ask for: where no package of the solution
/// answers it and some package does, the result holds one that answers it best. And every
/// package of the result is there for such a dependency.
pub proof fn pulled_in_where_left_open(
    p: ProviderModel,
    options: ResolveOptions,
    solution: Seq<SolvableId>,
    result: Seq<SolvableId>,
)
    requires
        result.len() == p.pulled_in(options, solution).len(),
        forall|i: int|
            0 <= i < result.len() ==> best_for(
                p,
                p.pulled_in(options, solution)[i],
                #[trigger] result[i],
            ),
    ensures
        forall|i: int, k: int, r: RequirementModel, at: int, id: SolvableId|
            0 <= i < solution.len() && #[trigger] weak_at(p, options, solution[i], k, r)
                && left_open(p, solution, r) && #[trigger] answers_at(p, r, at, id) ==> exists|
                m: int,
                place: int,
            |
                0 <= m < result.len() && #[trigger] best_at(p, r, place, result[m]),
        forall|m: int|
            0 <= m < result.len() ==> best_for_left_open(
                p,
                options,
                solution,
                #[trigger] result[m],
            ),
{
    let all = p.weak_of_all(options, solution);
    let pick = |r: RequirementModel| p.to_pull_in(solution, r);
    let picked = p.pulled_in(options, solution);
    assert forall|i: int, k: int, r: RequirementModel, at: int, id: SolvableId|
        0 <= i < solution.len() && #[trigger] weak_at(p, options, solution[i], k, r) && left_open(
            p,
            solution,
            r,
        ) && #[trigger] answers_at(p, r, at, id) implies exists|m: int, place: int|
        0 <= m < result.len() && #[trigger] best_at(p, r, place, result[m]) by {
        weak_of_all_packages(p, options, solution, r);
        met_where_answered(p, solution, r);
        satisfied_where_answered(p, r);
        let n = all.index_of(r);
        all.lemma_filter_contains(pick, n);
        let m = picked.index_of(r);
        assert(best_for(p, picked[m], result[m]));
        taken_is_best(p, r, result[m]);
        let place = choose|place: int| #[trigger] best_at(p, r, place, result[m]);
        assert(best_at(p, r, place, result[m]));
    }
    assert forall|m: int| 0 <= m < result.len() implies best_for_left_open(
        p,
        options,
        solution,
        #[trigger] result[m],
    ) by {
        let r = picked[m];
        all.lemma_filter_pred(pick, m);
        assert(picked.contains(r));
        all.lemma_filter_contains_rev(pick, r);
        weak_of_all_packages(p, options, solution, r);
        met_where_answered(p, solution, r);
        let (i, k) = choose|i: int, k: int|
            0 <= i < solution.len() && #[trigger] weak_at(p, options, solution[i], k, r);
        taken_is_best(p, r, result[m]);
        let place = choose|place: int| #[trigger] best_at(p, r, place, result[m]);
        assert(best_at(p, r, place, result[m]));
    }
}

/// The weak dependencies of a solution come package by package, of each first what it
/// recommends and then what it suggests, as far as the options ask for them.
pub proof fn weak_package_by_package(
    p: ProviderModel,
    options: ResolveOptions,
    first: Seq<SolvableId>,
    second: Seq<SolvableId>,
    id: SolvableId,
)
    ensures
        p.weak_of_all(options, first + second) == p.weak_of_all(options, first) + p.weak_of_all(
            options,
            second,
        ),
        options.enable_recommends && options.enable_suggests ==> p.weak_of_all(options, seq![id])
            == p.packages[id.0 as int].recommends + p.packages[id.0 as int].suggests,
        options.enable_recommends && !options.enable_suggests ==> p.weak_of_all(options, seq![id])
            == p.packages[id.0 as int].recommends,
        !options.enable_recommends && options.enable_suggests ==> p.weak_of_all(options, seq![id])
            == p.packages[id.0 as int].suggests,
    decreases second.len(),
{
    reveal_with_fuel(ProviderModel::weak_of_all, 2);
    assert(seq![id].drop_last() =~= Seq::empty());
    if second.len() == 0 {
        assert(first + second =~= first);
        assert(p.weak_of_all(options, first) + p.weak_of_all(options, second) =~= p.weak_of_all(
            options,
            first,
        ));
    } else {
        weak_package_by_package(p, options, first, second.drop_last(), id);
        assert((first + second).drop_last() =~= first + second.drop_last());
        assert((p.weak_of_all(options, first) + p.weak_of_all(options, second.drop_last()))
            + p.weak_of(options, second.last()) =~= p.weak_of_all(options, first) + (p.weak_of_all(
            options,
            second.drop_last(),
        ) + p.weak_of(options, second.last())));
    }
}

/// Sorted candidates are the same packages, each as often as before. Of two of them the first
/// stands in a repository that is not later, and in the same repository it is not the older
/// one. Packages of one repository of which neither is older keep their order.
pub proof fn candidates_by_repository_and_version(
    p: ProviderModel,
    candidates: Seq<SolvableId>,
    sorted: Seq<SolvableId>,
    i: int,
    j: int,
    id: SolvableId,
)
    requires
        stably_sorted(candidates, sorted, preference(p)),
    ensures
        sorted.to_multiset() == candidates.to_multiset(),
        sorted.len() == candidates.len(),
        sorted.contains(id) <==> candidates.contains(id),
        0 <= i < j < sorted.len() ==> p.packages[sorted[i].0 as int].repo_id
            <= p.packages[sorted[j].0 as int].repo_id,
        0 <= i < j < sorted.len() && p.packages[sorted[i].0 as int].repo_id
            == p.packages[sorted[j].0 as int].repo_id ==> order(
            p.packages[sorted[i].0 as int].evr,
            p.packages[sorted[j].0 as int].evr,
        ) != VersionOrder::Less,
        sorted.filter(
            |s: SolvableId| level_and_not_older(p, id, s) && level_and_not_older(p, s, id),
        ) == candidates.filter(
            |s: SolvableId| level_and_not_older(p, id, s) && level_and_not_older(p, s, id),
        ),
{
    broadcast use vstd::seq_lib::group_to_multiset_ensures;

    let level = |s: SolvableId| level_and_not_older(p, id, s) && level_and_not_older(p, s, id);
    assert(sorted.to_multiset().len() == sorted.len());
    assert(sorted.to_multiset().count(id) == candidates.to_multiset().count(id));
    assert(ties_with(preference(p), id) =~= level);
    if 0 <= i < j < sorted.len() {
        assert(preference(p)(sorted[i], sorted[j]));
    }
}

/// Ids are known where they are those of packages; nothing else is asked of them.
pub proof fn known_where_there_is_a_package(
    p: ProviderModel,
    m: TextModel,
    ids: Seq<SolvableId>,
)
    ensures
        known(p, ids) <==> forall|i: int|
            0 <= i < ids.len() ==> (#[trigger] ids[i]).0 < p.packages.len(),
        all_known(m, ids) <==> forall|i: int|
            0 <= i < ids.len() ==> (#[trigger] ids[i]).0 < m.packages.len(),
        labelled(p, ids) <==> forall|i: int|
            0 <= i < ids.len() ==> p.packages[(#[trigger] ids[i]).0 as int].repo_id
                < p.repo_labels.len(),
{
}

} // verus!
