//! What the solver asks of the provider: candidates, their order, and dependencies.
use vstd::prelude::*;
use crate::evr::{compare_versions, not_older, VersionOrder};
use crate::model::ProviderModel;
use crate::package::{NameId, RequirementModel, RpmPackageVersion, SolvableId, VersionSetId};
use crate::pool::{extends_in_steps, interned, requirements_kept};
use crate::provider::RpmProvider;
use crate::sorting::{insertion_keeps_sorted, nothing_is_sorted, stably_sorted};
use crate::text::{begins_with, starts_with_char, str_texts};

verus! {

/// Whether all ids of a list are those of packages.
pub open spec fn known(p: ProviderModel, ids: Seq<SolvableId>) -> bool {
    forall|i: int| 0 <= i < ids.len() ==> (#[trigger] ids[i]).0 < p.packages.len()
}

/// Whether the first package may be tried before the second: it stands in a repository that
/// was loaded earlier, or in the same repository with a version that is not older.
pub open spec fn preferred(p: ProviderModel, a: SolvableId, b: SolvableId) -> bool {
    let x = p.packages[a.0 as int];
    let y = p.packages[b.0 as int];
    x.repo_id < y.repo_id || (x.repo_id == y.repo_id && not_older(x.evr, y.evr))
}

/// The order in which packages are tried.
pub open spec fn preference(p: ProviderModel) -> spec_fn(SolvableId, SolvableId) -> bool {
    |a: SolvableId, b: SolvableId| preferred(p, a, b)
}

/// Whether a package is the one to try first for a requirement: of the providers that meet
/// it, the first to be registered of those that may stand before all others.
pub open spec fn best_for(p: ProviderModel, r: RequirementModel, id: SolvableId) -> bool {
    let list = p.providers_of(r.name);
    exists|i: int|
        0 <= i < list.len() && #[trigger] list[i] == id && p.meets(list[i], r) && forall|j: int|
            0 <= j < list.len() && j != i && p.meets(#[trigger] list[j], r) ==> preferred(
                p,
                list[i],
                list[j],
            ) && (j < i ==> !preferred(p, list[j], list[i]))
}

/// The candidates for a capability.
#[derive(Debug)]
pub enum Candidates {
    /// The packages that provide it, in the order in which they were registered.
    Found(Vec<SolvableId>),
    /// No package is known to provide it, but it is a file, and file lists are still to be
    /// read.
    NeedsFilelists,
    /// No package provides it.
    Missing,
}

/// The hard dependencies of a package.
#[derive(Debug)]
pub struct KnownDependencies {
    /// What must be installed beside the package.
    pub requirements: Vec<VersionSetId>,
    /// What must hold of other packages if they are installed beside it.
    pub constrains: Vec<VersionSetId>,
}

/// A copy of a list of ids.
fn copied(list: &Vec<VersionSetId>) -> (r: Vec<VersionSetId>)
    ensures
        r@ == list@,
{
    let mut r: Vec<VersionSetId> = Vec::new();
    append(&mut r, list);
    r
}

/// Appends a list of ids to another.
pub(crate) fn append(target: &mut Vec<VersionSetId>, list: &Vec<VersionSetId>)
    ensures
        final(target)@ == old(target)@ + list@,
{
    let mut i: usize = 0;
    while i < list.len()
        invariant
            i <= list@.len(),
            target@ == old(target)@ + list@.take(i as int),
        decreases list@.len() - i,
    {
        target.push(list[i]);
        i = i + 1;
        assert(target@ =~= old(target)@ + list@.take(i as int));
    }
    assert(list@.take(i as int) =~= list@);
}

impl RpmProvider {
    /// The candidates for a capability. Where a file is asked for that no package is known
    /// to ship, the file lists that were put off have to be read first.
    pub fn get_candidates(&self, name: NameId) -> (r: Candidates)
        requires
            self.wf(),
            self.pool().valid_name(name),
        ensures
            match r {
                Candidates::Found(list) => list@ == self@.providers_of(
                    self.pool().name_text(name),
                ) && list@.len() > 0,
                Candidates::NeedsFilelists => self@.providers_of(
                    self.pool().name_text(name),
                ).len() == 0 && begins_with(self.pool().name_text(name), '/')
                    && !self@.filelists_loaded,
                Candidates::Missing => self@.providers_of(self.pool().name_text(name)).len() == 0
                    && (!begins_with(self.pool().name_text(name), '/') || self@.filelists_loaded),
            },
    {
        match self.providers(name) {
            Some(list) => {
                let mut found: Vec<SolvableId> = Vec::new();
                let mut i: usize = 0;
                while i < list.len()
                    invariant
                        i <= list@.len(),
                        found@ == list@.take(i as int),
                    decreases list@.len() - i,
                {
                    found.push(list[i]);
                    i = i + 1;
                    assert(found@ =~= list@.take(i as int));
                }
                assert(list@.take(i as int) =~= list@);
                Candidates::Found(found)
            },
            None => if starts_with_char(self.name(name), '/') && !self.filelists_loaded() {
                Candidates::NeedsFilelists
            } else {
                Candidates::Missing
            },
        }
    }

    /// The candidates that meet a requirement or, with `inverse`, those that do not.
    pub fn filter_candidates(
        &self,
        candidates: &[SolvableId],
        set: VersionSetId,
        inverse: bool,
    ) -> (r: Vec<SolvableId>)
        requires
            self.wf(),
            self.pool().valid_set(set),
            known(self@, candidates@),
        ensures
            r@ == candidates@.filter(
                |s: SolvableId| self@.meets(s, self.pool().requirement(set)) != inverse,
            ),
    {
        let ghost keep = |s: SolvableId| self@.meets(s, self.pool().requirement(set)) != inverse;
        let mut kept: Vec<SolvableId> = Vec::new();
        let mut i: usize = 0;
        proof {
            reveal(Seq::filter);
            assert(candidates@.take(0).filter(keep) =~= Seq::<SolvableId>::empty());
        }
        while i < candidates.len()
            invariant
                i <= candidates@.len(),
                self.wf(),
                self.pool().valid_set(set),
                known(self@, candidates@),
                keep == (|s: SolvableId|
                    self@.meets(s, self.pool().requirement(set)) != inverse),
                kept@ == candidates@.take(i as int).filter(keep),
            decreases candidates@.len() - i,
        {
            let s: SolvableId = candidates[i];
            proof {
                reveal(Seq::filter);
                assert(candidates@.take(i + 1).drop_last() =~= candidates@.take(i as int));
            }
            if self.version_set_contains(set, s) != inverse {
                kept.push(s);
            }
            i = i + 1;
        }
        assert(candidates@.take(i as int) =~= candidates@);
        kept
    }

    /// Whether the first package may be tried before the second.
    fn prefers(&self, a: SolvableId, b: SolvableId) -> (r: bool)
        requires
            self.wf(),
            a.0 < self@.packages.len(),
            b.0 < self@.packages.len(),
        ensures
            r == preferred(self@, a, b),
            !r ==> preferred(self@, b, a),
            r ==> forall|c: SolvableId| #[trigger]
                preferred(self@, c, a) ==> preferred(self@, c, b),
            !r ==> forall|c: SolvableId| #[trigger]
                preferred(self@, a, c) ==> preferred(self@, b, c),
            r ==> forall|c: SolvableId| #[trigger]
                preferred(self@, b, c) ==> preferred(self@, a, c),
            forall|c: SolvableId| #[trigger]
                preferred(self@, a, c) && #[trigger] preferred(self@, c, b) ==> r,
    {
        let x: &RpmPackageVersion = self.package(a);
        let y: &RpmPackageVersion = self.package(b);
        let versions = compare_versions(x.evr(), y.evr());
        x.repo_id < y.repo_id || (x.repo_id == y.repo_id && match versions {
            VersionOrder::Less => false,
            _ => true,
        })
    }

    /// Sorts candidates in the order in which they are tried: by repository, the one that
    /// was loaded first in front, then by version, the newest in front.
    pub fn sort_candidates(&self, solvables: &mut Vec<SolvableId>)
        requires
            self.wf(),
            known(self@, old(solvables)@),
        ensures
            stably_sorted(old(solvables)@, final(solvables)@, preference(self@)),
    {
        let ghost list = solvables@;
        let mut sorted: Vec<SolvableId> = Vec::new();
        let mut i: usize = 0;
        proof {
            nothing_is_sorted(preference(self@));
            assert(list.take(0) =~= Seq::<SolvableId>::empty());
        }
        while i < solvables.len()
            invariant
                i <= list.len(),
                solvables@ == list,
                self.wf(),
                known(self@, list),
                known(self@, sorted@),
                stably_sorted(list.take(i as int), sorted@, preference(self@)),
            decreases list.len() - i,
        {
            let x: SolvableId = solvables[i];
            let mut at: usize = sorted.len();
            while at > 0 && !self.prefers(sorted[at - 1], x)
                invariant
                    at <= sorted@.len(),
                    self.wf(),
                    x.0 < self@.packages.len(),
                    known(self@, sorted@),
                    forall|k: int|
                        at <= k < sorted@.len() ==> preferred(self@, x, #[trigger] sorted@[k]),
                    forall|k: int, y: SolvableId|
                        at <= k < sorted@.len() && preferred(self@, #[trigger] sorted@[k], y)
                            ==> !(#[trigger] preferred(self@, y, x)),
                decreases at,
            {
                at = at - 1;
            }
            proof {
                let p = preference(self@);
                if at > 0 {
                    let last = sorted@[at - 1];
                    assert(preferred(self@, last, x));
                    assert forall|k: int| 0 <= k < at implies p(#[trigger] sorted@[k], x) by {
                        if k < at - 1 {
                            assert(p(sorted@[k], sorted@[at - 1]));
                        }
                    }
                }
                assert forall|k: int, y: SolvableId|
                    at <= k < sorted@.len() && p(#[trigger] sorted@[k], y) implies !(#[trigger]
                p(y, x)) by {
                    assert(preferred(self@, sorted@[k], y));
                }
                insertion_keeps_sorted(list.take(i as int), sorted@, p, x, at as int);
                assert(list.take(i + 1) =~= list.take(i as int).push(x));
            }
            sorted.insert(at, x);
            i = i + 1;
        }
        assert(list.take(i as int) =~= list);
        *solvables = sorted;
    }

    /// The hard dependencies of a package: its requirements, and what its conflicts and
    /// obsoletes entries ask of other packages.
    pub fn get_dependencies(&self, id: SolvableId) -> (r: KnownDependencies)
        requires
            self.wf(),
            id.0 < self@.packages.len(),
        ensures
            self.pool().valid_sets(r.requirements@),
            self.pool().valid_sets(r.constrains@),
            self.pool().requirements(r.requirements@) == self@.packages[id.0 as int].requires,
            self.pool().requirements(r.constrains@) == self@.packages[id.0 as int].conflicts
                + self@.packages[id.0 as int].obsoletes,
    {
        let pack: &RpmPackageVersion = self.package(id);
        let requirements = copied(&pack.requires);
        let mut constrains = copied(&pack.conflicts);
        append(&mut constrains, &pack.obsoletes);
        assert(self.pool().requirements(constrains@) =~= self.pool().requirements(
            pack.conflicts@,
        ) + self.pool().requirements(pack.obsoletes@));
        KnownDependencies { requirements, constrains }
    }

    /// Interns a requirement for each of the names, for any version.
    pub fn make_install_requirements(&mut self, names: &[&str]) -> (r: Vec<VersionSetId>)
        requires
            old(self).wf(),
            old(self).pool().room(names@.len() + 1int),
        ensures
            final(self).wf(),
            final(self)@ == old(self)@,
            interned(old(self).pool(), final(self).pool(), names@.len() as int),
            final(self).pool().valid_sets(r@),
            final(self).pool().requirements(r@) == str_texts(names@).map_values(
                |name: Seq<char>| RequirementModel::unversioned(name),
            ),
    {
        let ghost base = self.pool();
        let ghost want = str_texts(names@).map_values(
            |name: Seq<char>| RequirementModel::unversioned(name),
        );
        let mut ids: Vec<VersionSetId> = Vec::new();
        let mut i: usize = 0;
        proof {
            self.valid_ids();
            assert(self.pool().requirements(ids@) =~= want.take(0));
        }
        while i < names.len()
            invariant
                i <= names@.len(),
                base == old(self).pool(),
                base.room(names@.len() + 1int),
                self.wf(),
                self@ == old(self)@,
                interned(base, self.pool(), i as int),
                want == str_texts(names@).map_values(
                    |name: Seq<char>| RequirementModel::unversioned(name),
                ),
                self.pool().valid_sets(ids@),
                self.pool().requirements(ids@) == want.take(i as int),
            decreases names@.len() - i,
        {
            let ghost before = self.pool();
            let id = self.intern_unversioned(names[i]);
            proof {
                extends_in_steps(base, before, self.pool(), i as int, 1);
                requirements_kept(before, self.pool(), 1, ids@);
                assert(self.pool().requirements(ids@.push(id)) =~= self.pool().requirements(
                    ids@,
                ).push(self.pool().requirement(id)));
                assert(want.take(i + 1) =~= want.take(i as int).push(
                    RequirementModel::unversioned(names@[i as int]@),
                ));
            }
            ids.push(id);
            i = i + 1;
        }
        assert(want.take(i as int) =~= want);
        ids
    }

    /// Whether some provider of what the requirement names meets the requirement.
    pub fn is_satisfied(&self, set: VersionSetId) -> (r: bool)
        requires
            self.wf(),
            self.pool().valid_set(set),
        ensures
            r == self@.satisfied(self.pool().requirement(set)),
    {
        self.best_candidate(set).is_some()
    }

    /// The package to try first for a requirement, or `None` where no provider meets it.
    pub fn best_candidate(&self, set: VersionSetId) -> (r: Option<SolvableId>)
        requires
            self.wf(),
            self.pool().valid_set(set),
        ensures
            match r {
                Some(id) => best_for(self@, self.pool().requirement(set), id) && id.0
                    < self@.packages.len(),
                None => !self@.satisfied(self.pool().requirement(set)),
            },
            r is Some ==> self@.satisfied(self.pool().requirement(set)),
    {
        let ghost req = self.pool().requirement(set);
        let name = self.version_set_name(set);
        proof {
            self.valid_ids();
        }
        match self.providers(name) {
            None => None,
            Some(list) => {
                let mut best: Option<SolvableId> = None;
                let ghost mut at: int = 0;
                let mut i: usize = 0;
                while i < list.len()
                    invariant
                        i <= list@.len(),
                        self.wf(),
                        self.pool().valid_set(set),
                        req == self.pool().requirement(set),
                        list@ == self@.providers_of(req.name),
                        known(self@, list@),
                        match best {
                            Some(id) => {
                                &&& 0 <= at < i
                                &&& list@[at] == id
                                &&& self@.meets(id, req)
                                &&& forall|j: int|
                                    0 <= j < i && j != at && self@.meets(
                                        #[trigger] list@[j],
                                        req,
                                    ) ==> preferred(self@, id, list@[j]) && (j < at
                                        ==> !preferred(self@, list@[j], id))
                            },
                            None => forall|j: int|
                                0 <= j < i ==> !self@.meets(#[trigger] list@[j], req),
                        },
                    decreases list@.len() - i,
                {
                    let s: SolvableId = list[i];
                    if self.version_set_contains(set, s) {
                        match best {
                            None => {
                                best = Some(s);
                                proof {
                                    at = i as int;
                                }
                            },
                            Some(id) => {
                                if !self.prefers(id, s) {
                                    proof {
                                        assert forall|j: int|
                                            0 <= j < i && self@.meets(
                                                #[trigger] list@[j],
                                                req,
                                            ) implies preferred(self@, s, list@[j]) && !preferred(
                                            self@,
                                            list@[j],
                                            s,
                                        ) by {
                                            if j != at {
                                                assert(preferred(self@, id, list@[j]));
                                            }
                                        }
                                        at = i as int;
                                    }
                                    best = Some(s);
                                }
                            },
                        }
                    }
                    i = i + 1;
                }
                best
            },
        }
    }
}

} // verus!
