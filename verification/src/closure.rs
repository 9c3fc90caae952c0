//! The closure check: which requirements of which packages nothing satisfies.
use vstd::prelude::*;
use crate::evr::{compare_versions, order, VersionOrder};
use crate::model::{registered_where_named, versions_of_others_stay, DraftModel, ProviderModel};
use crate::options::ClosureOptions;
use crate::package::{RequirementModel, RpmPackageVersion, SolvableId, VersionSetId};
use crate::provider::RpmProvider;
use crate::solving::known;
use crate::text::{begins_with, starts_with_char, str_eq};

verus! {

impl ProviderModel {
    /// Whether the closure check looks at a package: it stands in one of the repositories
    /// that are checked (an empty list stands for all) and, where only the newest are asked
    /// for, no newer package of its name and architecture is known.
    pub open spec fn checked(self, repos: Seq<usize>, newest_only: bool, id: SolvableId) -> bool {
        &&& repos.len() == 0 || repos.contains(self.packages[id.0 as int].repo_id)
        &&& newest_only ==> !self.outdated(id)
    }

    /// The requirements of a list that nothing satisfies.
    pub open spec fn unsatisfied_in(self, list: Seq<RequirementModel>) -> Seq<RequirementModel> {
        list.filter(|r: RequirementModel| !self.satisfied(r))
    }

    /// The broken requirements of a package, each with the package.
    pub open spec fn problems_of(self, id: SolvableId) -> Seq<(SolvableId, RequirementModel)> {
        self.unsatisfied_in(self.packages[id.0 as int].requires).map_values(
            |r: RequirementModel| (id, r),
        )
    }

    /// The broken requirements of the first `n` packages that are checked, package by
    /// package.
    pub open spec fn problems(self, repos: Seq<usize>, newest_only: bool, n: nat) -> Seq<
        (SolvableId, RequirementModel),
    >
        decreases n,
    {
        if n == 0 {
            Seq::empty()
        } else {
            let before = self.problems(repos, newest_only, (n - 1) as nat);
            let id = SolvableId((n - 1) as u32);
            if self.checked(repos, newest_only, id) {
                before + self.problems_of(id)
            } else {
                before
            }
        }
    }
}

/// Pairs of a package and a requirement id, with the requirement written out.
pub open spec fn written_out(provider: RpmProvider, list: Seq<(SolvableId, VersionSetId)>) -> Seq<
    (SolvableId, RequirementModel),
> {
    list.map_values(
        |p: (SolvableId, VersionSetId)| (p.0, provider.pool().requirement(p.1)),
    )
}

/// Whether the ids of all pairs are valid.
pub open spec fn valid_pairs(
    provider: RpmProvider,
    list: Seq<(SolvableId, VersionSetId)>,
) -> bool {
    forall|i: int|
        0 <= i < list.len() ==> (#[trigger] list[i]).0.0 < provider@.packages.len()
            && provider.pool().valid_set(list[i].1)
}

/// Whether a list of repository ids holds an id.
fn holds(list: &Vec<usize>, id: usize) -> (r: bool)
    ensures
        r == list@.contains(id),
{
    let mut i: usize = 0;
    while i < list.len()
        invariant
            i <= list@.len(),
            forall|k: int| 0 <= k < i ==> list@[k] != id,
        decreases list@.len() - i,
    {
        if list[i] == id {
            return true;
        }
        i = i + 1;
    }
    false
}

impl RpmProvider {
    /// Whether a newer package with the same name and architecture is known.
    pub fn is_outdated(&self, id: SolvableId) -> (r: bool)
        requires
            self.wf(),
            id.0 < self@.packages.len(),
        ensures
            r == self@.outdated(id),
    {
        let ghost pm = self@.packages[id.0 as int];
        let p: &RpmPackageVersion = self.package(id);
        let name = self.solvable_name(id);
        proof {
            self.valid_ids();
        }
        match self.providers(name) {
            None => {
                proof {
                    if self@.outdated(id) {
                        let j = choose|j: int|
                            0 <= j < self@.packages.len() && {
                                let q = #[trigger] self@.packages[j];
                                q.name == pm.name && q.arch == pm.arch && order(q.evr, pm.evr)
                                    == VersionOrder::Greater
                            };
                        assert(self@.providers_of(self@.packages[j].name).contains(
                            SolvableId(j as u32),
                        ));
                    }
                }
                false
            },
            Some(list) => {
                let mut i: usize = 0;
                while i < list.len()
                    invariant
                        i <= list@.len(),
                        self.wf(),
                        id.0 < self@.packages.len(),
                        pm == self@.packages[id.0 as int],
                        self.pool().resolved_package(p@) == pm,
                        list@ == self@.providers_of(pm.name),
                        known(self@, list@),
                        forall|k: int|
                            0 <= k < i ==> {
                                let q = self@.packages[(#[trigger] list@[k]).0 as int];
                                !(q.name == pm.name && q.arch == pm.arch && order(q.evr, pm.evr)
                                    == VersionOrder::Greater)
                            },
                    decreases list@.len() - i,
                {
                    let q: &RpmPackageVersion = self.package(list[i]);
                    if str_eq(q.name.as_str(), p.name.as_str()) && str_eq(
                        q.arch.as_str(),
                        p.arch.as_str(),
                    ) {
                        if let VersionOrder::Greater = compare_versions(q.evr(), p.evr()) {
                            assert(self@.packages[list@[i as int].0 as int].name == pm.name);
                            return true;
                        }
                    }
                    i = i + 1;
                }
                proof {
                    if self@.outdated(id) {
                        let j = choose|j: int|
                            0 <= j < self@.packages.len() && {
                                let q = #[trigger] self@.packages[j];
                                q.name == pm.name && q.arch == pm.arch && order(q.evr, pm.evr)
                                    == VersionOrder::Greater
                            };
                        self.valid_ids();
                        assert(list@.contains(SolvableId(j as u32)));
                        let k = list@.index_of(SolvableId(j as u32));
                        assert(self@.packages[list@[k].0 as int] == self@.packages[j]);
                    }
                }
                false
            },
        }
    }

    /// Appends the broken requirements of a package.
    fn add_problems(&self, id: SolvableId, problems: &mut Vec<(SolvableId, VersionSetId)>)
        requires
            self.wf(),
            id.0 < self@.packages.len(),
            valid_pairs(*self, old(problems)@),
        ensures
            valid_pairs(*self, final(problems)@),
            written_out(*self, final(problems)@) == written_out(*self, old(problems)@)
                + self@.problems_of(id),
    {
        let p: &RpmPackageVersion = self.package(id);
        let ghost list = self@.packages[id.0 as int].requires;
        let ghost broken = |r: RequirementModel| !self@.satisfied(r);
        let ghost tag = |r: RequirementModel| (id, r);
        let mut i: usize = 0;
        proof {
            reveal(Seq::filter);
            assert(list.take(0).filter(broken).map_values(tag) =~= Seq::empty());
            assert(written_out(*self, problems@) + Seq::empty() =~= written_out(
                *self,
                problems@,
            ));
        }
        while i < p.requires.len()
            invariant
                i <= p.requires@.len(),
                self.wf(),
                id.0 < self@.packages.len(),
                self.pool().valid_record(p@),
                list == self.pool().requirements(p.requires@),
                broken == (|r: RequirementModel| !self@.satisfied(r)),
                tag == (|r: RequirementModel| (id, r)),
                valid_pairs(*self, problems@),
                written_out(*self, problems@) == written_out(*self, old(problems)@)
                    + list.take(i as int).filter(broken).map_values(tag),
            decreases p.requires@.len() - i,
        {
            let set: VersionSetId = p.requires[i];
            proof {
                assert(self.pool().valid_set(p@.requires[i as int]));
                reveal(Seq::filter);
                assert(list.take(i + 1).drop_last() =~= list.take(i as int));
                let kept = list.take(i as int).filter(broken);
                assert(kept.push(list[i as int]).map_values(tag) =~= kept.map_values(tag).push(
                    (id, list[i as int]),
                ));
            }
            if !self.is_satisfied(set) {
                let ghost before = problems@;
                problems.push((id, set));
                proof {
                    assert(written_out(*self, problems@) =~= written_out(*self, before).push(
                        (id, list[i as int]),
                    ));
                    assert(written_out(*self, problems@) =~= written_out(*self, old(problems)@)
                        + list.take(i + 1).filter(broken).map_values(tag));
                }
            }
            i = i + 1;
        }
        assert(list.take(i as int) =~= list);
    }

    /// Checks that every requirement of every package that is looked at is met by some
    /// package of any repository. The result names the packages and the requirements for
    /// which that is not so, in the order of packages and their requirements.
    ///
    /// The check is shallow: whether a provider could be installed itself is not asked.
    pub fn check_closure(&self, options: &ClosureOptions) -> (r: Vec<(SolvableId, VersionSetId)>)
        requires
            self.wf(),
        ensures
            valid_pairs(*self, r@),
            written_out(*self, r@) == self@.problems(
                options.check_repos@,
                options.newest_only,
                self@.packages.len(),
            ),
    {
        let mut problems: Vec<(SolvableId, VersionSetId)> = Vec::new();
        let count: u64 = self.package_count();
        let mut n: u64 = 0;
        proof {
            self.valid_ids();
            assert(written_out(*self, problems@) =~= Seq::empty());
        }
        while n < count
            invariant
                n <= count,
                count == self@.packages.len(),
                count <= 0x1_0000_0000,
                self.wf(),
                valid_pairs(*self, problems@),
                written_out(*self, problems@) == self@.problems(
                    options.check_repos@,
                    options.newest_only,
                    n as nat,
                ),
            decreases count - n,
        {
            let id = SolvableId(n as u32);
            let wanted: bool = (options.check_repos.len() == 0 || holds(
                &options.check_repos,
                self.package(id).repo_id,
            )) && (!options.newest_only || !self.is_outdated(id));
            if wanted {
                self.add_problems(id, &mut problems);
            }
            n = n + 1;
        }
        problems
    }
}

impl RpmProvider {
    /// Whether a check missed a file while file lists are still to be read: it is then to be
    /// made again once they are.
    pub fn misses_file(&self, problems: &Vec<(SolvableId, VersionSetId)>) -> (r: bool)
        requires
            self.wf(),
            valid_pairs(*self, problems@),
        ensures
            r == (!self@.filelists_loaded && exists|i: int|
                0 <= i < problems@.len() && begins_with(
                    self.pool().requirement((#[trigger] problems@[i]).1).name,
                    '/',
                )),
    {
        if self.filelists_loaded() {
            return false;
        }
        let mut i: usize = 0;
        while i < problems.len()
            invariant
                i <= problems@.len(),
                self.wf(),
                !self@.filelists_loaded,
                valid_pairs(*self, problems@),
                forall|k: int|
                    0 <= k < i ==> !begins_with(
                        self.pool().requirement((#[trigger] problems@[k]).1).name,
                        '/',
                    ),
            decreases problems@.len() - i,
        {
            let set: VersionSetId = problems[i].1;
            assert(self.pool().valid_set(problems@[i as int].1));
            if starts_with_char(self.name(self.version_set_name(set)), '/') {
                return true;
            }
            i = i + 1;
        }
        false
    }
}

/// A broken requirement is reported for exactly those packages that are checked and that
/// have it: there are no others, and none is missing.
pub proof fn reported_exactly(
    p: ProviderModel,
    repos: Seq<usize>,
    newest_only: bool,
    n: nat,
    id: SolvableId,
    r: RequirementModel,
)
    requires
        n <= 0x1_0000_0000,
    ensures
        p.problems(repos, newest_only, n).contains((id, r)) <==> id.0 < n && p.checked(
            repos,
            newest_only,
            id,
        ) && p.packages[id.0 as int].requires.contains(r) && !p.satisfied(r),
    decreases n,
{
    if n > 0 {
        let before = p.problems(repos, newest_only, (n - 1) as nat);
        let last = SolvableId((n - 1) as u32);
        let of_last = p.problems_of(last);
        reported_exactly(p, repos, newest_only, (n - 1) as nat, id, r);
        let list = p.packages[last.0 as int].requires;
        let kept = p.unsatisfied_in(list);
        let broken = |r: RequirementModel| !p.satisfied(r);
        assert(of_last.contains((id, r)) <==> id == last && list.contains(r) && !p.satisfied(r))
            by {
            if of_last.contains((id, r)) {
                let k = of_last.index_of((id, r));
                assert(of_last[k] == (last, kept[k]));
                list.lemma_filter_pred(broken, k);
                assert(kept.contains(r));
                list.lemma_filter_contains_rev(broken, r);
            }
            if id == last && list.contains(r) && !p.satisfied(r) {
                let k = list.index_of(r);
                list.lemma_filter_contains(broken, k);
                assert(kept.contains(r));
                let m = kept.index_of(r);
                assert(of_last[m] == (id, r));
            }
        }
        if p.checked(repos, newest_only, last) {
            let all = before + of_last;
            if before.contains((id, r)) {
                let k = before.index_of((id, r));
                assert(all[k] == (id, r));
            }
            if of_last.contains((id, r)) {
                let k = of_last.index_of((id, r));
                assert(all[before.len() + k] == (id, r));
            }
            if all.contains((id, r)) {
                let k = all.index_of((id, r));
                if k < before.len() {
                    assert(before[k] == (id, r));
                } else {
                    assert(of_last[k - before.len()] == (id, r));
                }
            }
        }
    }
}

/// Checking only the newest packages, or only some repositories, reports nothing that the
/// full check does not report.
pub proof fn narrower_checks_report_less(
    p: ProviderModel,
    repos: Seq<usize>,
    newest_only: bool,
    id: SolvableId,
    r: RequirementModel,
)
    requires
        p.packages.len() <= 0x1_0000_0000,
        p.problems(repos, newest_only, p.packages.len()).contains((id, r)),
    ensures
        p.problems(repos, false, p.packages.len()).contains((id, r)),
        p.problems(Seq::empty(), newest_only, p.packages.len()).contains((id, r)),
        p.problems(Seq::empty(), false, p.packages.len()).contains((id, r)),
{
    let n = p.packages.len();
    reported_exactly(p, repos, newest_only, n, id, r);
    reported_exactly(p, repos, false, n, id, r);
    reported_exactly(p, Seq::empty(), newest_only, n, id, r);
    reported_exactly(p, Seq::empty(), false, n, id, r);
}

/// Nothing is broken in a provider without packages.
pub proof fn nothing_broken_without_packages(
    p: ProviderModel,
    repos: Seq<usize>,
    newest_only: bool,
)
    requires
        p.packages.len() == 0,
    ensures
        p.problems(repos, newest_only, p.packages.len()).len() == 0,
{
}

/// A requirement that is satisfied stays satisfied when a package is added.
pub proof fn satisfied_stays_satisfied(p: ProviderModel, draft: DraftModel, r: RequirementModel)
    requires
        p.satisfied(r),
        p.packages.len() < 0x1_0000_0000,
        known(p, p.providers_of(r.name)),
    ensures
        p.with_draft(draft).satisfied(r),
{
    let q = p.with_draft(draft);
    let list = p.providers_of(r.name);
    let i = choose|i: int| 0 <= i < list.len() && p.meets(#[trigger] list[i], r);
    let s = list[i];
    registered_where_named(p.providers, draft.capabilities(), p.next_id(), r.name);
    assert(q.providers_of(r.name)[i] == s);
    versions_of_others_stay(p.provided, p.next_id(), draft.provides, s, r.name);
    assert(q.version_of(s, r.name) == p.version_of(s, r.name));
    assert(q.meets(q.providers_of(r.name)[i], r));
}

/// Adding a package breaks no requirement: what a full check reports afterwards of packages
/// that were there before, it reported before.
pub proof fn adding_breaks_nothing(
    p: ProviderModel,
    draft: DraftModel,
    id: SolvableId,
    r: RequirementModel,
)
    requires
        p.packages.len() < 0x1_0000_0000,
        known(p, p.providers_of(r.name)),
        id.0 < p.packages.len(),
        p.with_draft(draft).problems(Seq::empty(), false, p.packages.len() + 1).contains((id, r)),
    ensures
        p.problems(Seq::empty(), false, p.packages.len()).contains((id, r)),
{
    let q = p.with_draft(draft);
    reported_exactly(q, Seq::empty(), false, p.packages.len() + 1, id, r);
    reported_exactly(p, Seq::empty(), false, p.packages.len(), id, r);
    assert(q.packages[id.0 as int] == p.packages[id.0 as int]);
    if p.satisfied(r) {
        satisfied_stays_satisfied(p, draft, r);
    }
}

} // verus!
