//! What the closure check reports.
use vstd::prelude::*;
use crate::closure::{reported_exactly, valid_pairs, written_out};
use crate::evr::{order, VersionOrder};
use crate::laws::choosing::{answers_at, satisfied_where_answered};
use crate::model::ProviderModel;
use crate::package::{RequirementModel, SolvableId, VersionSetId};
use crate::provider::RpmProvider;

verus! {

/// Whether a package with the same name and architecture as another, and a higher version,
/// stands at a place.
pub open spec fn newer_at(p: ProviderModel, id: SolvableId, k: int) -> bool {
    &&& 0 <= k < p.packages.len()
    &&& p.packages[k].name == p.packages[id.0 as int].name
    &&& p.packages[k].arch == p.packages[id.0 as int].arch
    &&& order(p.packages[k].evr, p.packages[id.0 as int].evr) == VersionOrder::Greater
}

/// Whether no package answers a requirement.
pub open spec fn unanswered(p: ProviderModel, r: RequirementModel) -> bool {
    forall|at: int, id: SolvableId| !(#[trigger] answers_at(p, r, at, id))
}

/// Whether a list of repositories names that of a package: it is empty, or the repository
/// stands in it, at whatever place.
pub open spec fn repository_named(p: ProviderModel, repos: Seq<usize>, id: SolvableId) -> bool {
    ||| repos.len() == 0
    ||| exists|k: int|
        0 <= k < repos.len() && #[trigger] repos[k] == p.packages[id.0 as int].repo_id
}

/// Whether the check looks at a package: the list of repositories is empty or names that of the
/// package and, if only the newest are asked for, no newer one is known.
pub open spec fn is_looked_at(
    p: ProviderModel,
    repos: Seq<usize>,
    newest_only: bool,
    id: SolvableId,
) -> bool {
    &&& repository_named(p, repos, id)
    &&& newest_only ==> forall|k: int| !(#[trigger] newer_at(p, id, k))
}

/// A package is outdated where some package of the same name and architecture has a higher
/// version, and only there.
pub proof fn outdated_where_newer(p: ProviderModel, id: SolvableId)
    ensures
        p.outdated(id) <==> exists|k: int| #[trigger] newer_at(p, id, k),
{
    if p.outdated(id) {
        let own = p.packages[id.0 as int];
        let j = choose|j: int|
            0 <= j < p.packages.len() && {
                let q = #[trigger] p.packages[j];
                q.name == own.name && q.arch == own.arch && order(q.evr, own.evr)
                    == VersionOrder::Greater
            };
        assert(newer_at(p, id, j));
    }
    if exists|k: int| #[trigger] newer_at(p, id, k) {
        let k = choose|k: int| #[trigger] newer_at(p, id, k);
        assert(p.packages[k].name == p.packages[id.0 as int].name);
    }
}

/// The check looks at a package where the list of repositories is empty or names its
/// repository, at whatever place, and, if only the newest are asked for, where no newer one is
/// known.
pub proof fn looked_at(p: ProviderModel, repos: Seq<usize>, newest_only: bool, id: SolvableId)
    ensures
        p.checked(repos, newest_only, id) <==> is_looked_at(p, repos, newest_only, id),
{
    outdated_where_newer(p, id);
    let repo = p.packages[id.0 as int].repo_id;
    if repos.contains(repo) {
        let k = repos.index_of(repo);
        assert(repos[k] == repo);
    }
}

/// A package and a requirement are reported exactly where the requirement is one of the
/// package's, no package answers it, the list of repositories is empty or names the package's
/// at whatever place, and, if only the newest are asked for, no newer one is known.
pub proof fn reported_where_unanswered(
    p: ProviderModel,
    repos: Seq<usize>,
    newest_only: bool,
    id: SolvableId,
    r: RequirementModel,
)
    requires
        p.packages.len() <= 0x1_0000_0000,
    ensures
        p.problems(repos, newest_only, p.packages.len()).contains((id, r)) <==> {
            &&& id.0 < p.packages.len()
            &&& exists|i: int|
                0 <= i < p.packages[id.0 as int].requires.len()
                    && #[trigger] p.packages[id.0 as int].requires[i] == r
            &&& unanswered(p, r)
            &&& repository_named(p, repos, id)
            &&& newest_only ==> forall|k: int| !(#[trigger] newer_at(p, id, k))
        },
{
    reported_exactly(p, repos, newest_only, p.packages.len(), id, r);
    looked_at(p, repos, newest_only, id);
    satisfied_where_answered(p, r);
    let list = p.packages[id.0 as int].requires;
    if list.contains(r) {
        let i = list.index_of(r);
        assert(list[i] == r);
    }
}

/// The packages that are reported have ids below the bound, which do not fall from one report to
/// the next.
proof fn reported_by_rising_ids(p: ProviderModel, repos: Seq<usize>, newest_only: bool, n: nat)
    requires
        n <= 0x1_0000_0000,
    ensures
        forall|i: int|
            0 <= i < p.problems(repos, newest_only, n).len() ==> (#[trigger] p.problems(
                repos,
                newest_only,
                n,
            )[i]).0.0 < n,
        forall|i: int, j: int|
            0 <= i < j < p.problems(repos, newest_only, n).len() ==> (#[trigger] p.problems(
                repos,
                newest_only,
                n,
            )[i]).0.0 <= (#[trigger] p.problems(repos, newest_only, n)[j]).0.0,
    decreases n,
{
    if n > 0 {
        let m = (n - 1) as nat;
        let last = SolvableId(m as u32);
        let before = p.problems(repos, newest_only, m);
        let of_last = p.problems_of(last);
        let all = p.problems(repos, newest_only, n);
        reported_by_rising_ids(p, repos, newest_only, m);
        if p.checked(repos, newest_only, last) {
            assert(all == before + of_last);
            assert(forall|i: int| 0 <= i < before.len() ==> #[trigger] all[i] == before[i]);
            assert(forall|i: int| before.len() <= i < all.len() ==> (#[trigger] all[i]).0 == last);
        }
    }
}

/// Of a package that is looked at exactly its broken requirements are reported, in their order;
/// of another none.
proof fn reported_of_one(
    p: ProviderModel,
    repos: Seq<usize>,
    newest_only: bool,
    n: nat,
    id: SolvableId,
)
    requires
        n <= 0x1_0000_0000,
    ensures
        p.problems(repos, newest_only, n).filter(|x: (SolvableId, RequirementModel)| x.0 == id)
            == (if id.0 < n && p.checked(repos, newest_only, id) {
            p.problems_of(id)
        } else {
            Seq::empty()
        }),
    decreases n,
{
    let own = |x: (SolvableId, RequirementModel)| x.0 == id;
    if n == 0 {
        nothing_kept(p.problems(repos, newest_only, n), own);
    } else {
        let m = (n - 1) as nat;
        let last = SolvableId(m as u32);
        let before = p.problems(repos, newest_only, m);
        let of_last = p.problems_of(last);
        reported_of_one(p, repos, newest_only, m, id);
        if p.checked(repos, newest_only, last) {
            Seq::filter_distributes_over_add(before, of_last, own);
            if id == last {
                all_kept(of_last, own);
                assert(before.filter(own) + of_last =~= of_last);
            } else {
                nothing_kept(of_last, own);
                assert(before.filter(own) + of_last.filter(own) =~= before.filter(own));
            }
        }
    }
}

/// Of a package the check reports its unanswered requirements as often and in the order in
/// which the package lists them, and nothing of a package that it does not look at. Packages
/// are reported in the order of their ids.
pub proof fn reported_in_order(
    p: ProviderModel,
    repos: Seq<usize>,
    newest_only: bool,
    id: SolvableId,
    i: int,
    j: int,
)
    requires
        p.packages.len() <= 0x1_0000_0000,
    ensures
        0 <= i < j < p.problems(repos, newest_only, p.packages.len()).len() ==> p.problems(
            repos,
            newest_only,
            p.packages.len(),
        )[i].0.0 <= p.problems(repos, newest_only, p.packages.len())[j].0.0,
        id.0 < p.packages.len() && is_looked_at(p, repos, newest_only, id) ==> p.problems(
            repos,
            newest_only,
            p.packages.len(),
        ).filter(|x: (SolvableId, RequirementModel)| x.0 == id)
            == p.packages[id.0 as int].requires.filter(
            |r: RequirementModel| unanswered(p, r),
        ).map_values(|r: RequirementModel| (id, r)),
        id.0 >= p.packages.len() || !is_looked_at(p, repos, newest_only, id) ==> p.problems(
            repos,
            newest_only,
            p.packages.len(),
        ).filter(|x: (SolvableId, RequirementModel)| x.0 == id).len() == 0,
{
    reported_by_rising_ids(p, repos, newest_only, p.packages.len());
    reported_of_one(p, repos, newest_only, p.packages.len(), id);
    looked_at(p, repos, newest_only, id);
    let open = |r: RequirementModel| unanswered(p, r);
    let broken = |r: RequirementModel| !p.satisfied(r);
    assert(broken =~= open) by {
        assert forall|r: RequirementModel| #[trigger] broken(r) == open(r) by {
            satisfied_where_answered(p, r);
        }
    }
}

/// What is reported is written out pair by pair: the package, and the requirement that the id
/// stands for.
pub proof fn written_out_one_for_one(
    provider: RpmProvider,
    list: Seq<(SolvableId, VersionSetId)>,
    i: int,
)
    ensures
        written_out(provider, list).len() == list.len(),
        0 <= i < list.len() ==> written_out(provider, list)[i] == (
            list[i].0,
            provider.pool().requirement(list[i].1),
        ),
{
}

/// A filter that keeps no element leaves none.
proof fn nothing_kept<A>(list: Seq<A>, keep: spec_fn(A) -> bool)
    requires
        forall|i: int| 0 <= i < list.len() ==> !keep(#[trigger] list[i]),
    ensures
        list.filter(keep) == Seq::<A>::empty(),
    decreases list.len(),
{
    reveal(Seq::filter);
    if list.len() > 0 {
        nothing_kept(list.drop_last(), keep);
        assert(!keep(list[list.len() - 1]));
    }
}

/// A filter that keeps every element leaves all.
proof fn all_kept<A>(list: Seq<A>, keep: spec_fn(A) -> bool)
    requires
        forall|i: int| 0 <= i < list.len() ==> keep(#[trigger] list[i]),
    ensures
        list.filter(keep) == list,
    decreases list.len(),
{
    reveal(Seq::filter);
    if list.len() > 0 {
        all_kept(list.drop_last(), keep);
        assert(keep(list[list.len() - 1]));
        assert(list =~= list.drop_last().push(list.last()));
    }
}

/// Pairs are valid where each is of a package and a requirement that was interned; nothing else
/// is asked of them.
pub proof fn valid_where_given_out(
    provider: RpmProvider,
    list: Seq<(SolvableId, VersionSetId)>,
)
    ensures
        valid_pairs(provider, list) <==> forall|i: int|
            0 <= i < list.len() ==> (#[trigger] list[i]).0.0 < provider@.packages.len()
                && list[i].1.0 < provider.pool().sets().len(),
{
}

} // verus!
