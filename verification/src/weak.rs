//! Weak dependencies: which packages to pull in beside a solution.
use vstd::prelude::*;
use crate::model::ProviderModel;
use crate::options::ResolveOptions;
use crate::package::{RequirementModel, RpmPackageVersion, SolvableId, VersionSetId};
use crate::provider::RpmProvider;
use crate::solving::{append, best_for, known};

verus! {

impl ProviderModel {
    /// The weak dependencies of a package that the options ask for: what it recommends, then
    /// what it suggests.
    pub open spec fn weak_of(self, options: ResolveOptions, id: SolvableId) -> Seq<
        RequirementModel,
    > {
        let p = self.packages[id.0 as int];
        (if options.enable_recommends {
            p.recommends
        } else {
            Seq::empty()
        }) + (if options.enable_suggests {
            p.suggests
        } else {
            Seq::empty()
        })
    }

    /// The weak dependencies of the packages of a solution, package by package.
    pub open spec fn weak_of_all(self, options: ResolveOptions, solution: Seq<SolvableId>) -> Seq<
        RequirementModel,
    >
        decreases solution.len(),
    {
        if solution.len() == 0 {
            Seq::empty()
        } else {
            self.weak_of_all(options, solution.drop_last()) + self.weak_of(
                options,
                solution.last(),
            )
        }
    }

    /// Whether a package of the solution meets the requirement.
    pub open spec fn met_by(self, solution: Seq<SolvableId>, r: RequirementModel) -> bool {
        exists|i: int|
            0 <= i < solution.len() && self.providers_of(r.name).contains(
                #[trigger] solution[i],
            ) && self.meets(solution[i], r)
    }

    /// Whether something is to be pulled in for a weak dependency: the solution does not meet
    /// it, and some package does.
    pub open spec fn to_pull_in(self, solution: Seq<SolvableId>, r: RequirementModel) -> bool {
        !self.met_by(solution, r) && self.satisfied(r)
    }

    /// The weak dependencies for which something is to be pulled in.
    pub open spec fn pulled_in(self, options: ResolveOptions, solution: Seq<SolvableId>) -> Seq<
        RequirementModel,
    > {
        self.weak_of_all(options, solution).filter(
            |r: RequirementModel| self.to_pull_in(solution, r),
        )
    }
}

impl RpmProvider {
    /// Whether a package of the solution provides what the requirement names and meets it.
    fn solution_meets(&self, solution: &[SolvableId], set: VersionSetId) -> (r: bool)
        requires
            self.wf(),
            self.pool().valid_set(set),
            known(self@, solution@),
        ensures
            r == self@.met_by(solution@, self.pool().requirement(set)),
    {
        let ghost req = self.pool().requirement(set);
        match self.providers(self.version_set_name(set)) {
            None => false,
            Some(list) => {
                let mut i: usize = 0;
                while i < solution.len()
                    invariant
                        i <= solution@.len(),
                        self.wf(),
                        self.pool().valid_set(set),
                        req == self.pool().requirement(set),
                        known(self@, solution@),
                        list@ == self@.providers_of(req.name),
                        forall|k: int|
                            0 <= k < i ==> !(self@.providers_of(req.name).contains(
                                #[trigger] solution@[k],
                            ) && self@.meets(solution@[k], req)),
                    decreases solution@.len() - i,
                {
                    let s: SolvableId = solution[i];
                    let mut k: usize = 0;
                    while k < list.len() && list[k] != s
                        invariant
                            k <= list@.len(),
                            forall|m: int| 0 <= m < k ==> list@[m] != s,
                        decreases list@.len() - k,
                    {
                        k = k + 1;
                    }
                    if k < list.len() && self.version_set_contains(set, s) {
                        assert(list@.contains(solution@[i as int]));
                        return true;
                    }
                    i = i + 1;
                }
                false
            },
        }
    }

    /// The weak dependencies of the packages of a solution.
    fn weak_requirements(&self, solution: &[SolvableId], options: &ResolveOptions) -> (r: Vec<
        VersionSetId,
    >)
        requires
            self.wf(),
            known(self@, solution@),
        ensures
            self.pool().valid_sets(r@),
            self.pool().requirements(r@) == self@.weak_of_all(*options, solution@),
    {
        let mut sets: Vec<VersionSetId> = Vec::new();
        let mut i: usize = 0;
        assert(self.pool().requirements(sets@) =~= Seq::empty());
        assert(solution@.take(0) =~= Seq::empty());
        while i < solution.len()
            invariant
                i <= solution@.len(),
                self.wf(),
                known(self@, solution@),
                self.pool().valid_sets(sets@),
                self.pool().requirements(sets@) == self@.weak_of_all(
                    *options,
                    solution@.take(i as int),
                ),
            decreases solution@.len() - i,
        {
            let p: &RpmPackageVersion = self.package(solution[i]);
            let ghost before = sets@;
            if options.enable_recommends {
                append(&mut sets, &p.recommends);
            }
            if options.enable_suggests {
                append(&mut sets, &p.suggests);
            }
            proof {
                assert(solution@.take(i + 1).drop_last() =~= solution@.take(i as int));
                assert(self.pool().requirements(sets@) =~= self.pool().requirements(before)
                    + self@.weak_of(*options, solution@[i as int]));
            }
            i = i + 1;
        }
        assert(solution@.take(i as int) =~= solution@);
        sets
    }

    /// The packages to pull in beside a solution for the weak dependencies of its packages:
    /// for each that the solution does not meet, the package to try first, if there is one.
    pub fn collect_recommended_solvables(
        &self,
        solution: &[SolvableId],
        options: &ResolveOptions,
    ) -> (r: Vec<SolvableId>)
        requires
            self.wf(),
            known(self@, solution@),
        ensures
            known(self@, r@),
            r@.len() == self@.pulled_in(*options, solution@).len(),
            forall|i: int|
                0 <= i < r@.len() ==> best_for(
                    self@,
                    self@.pulled_in(*options, solution@)[i],
                    #[trigger] r@[i],
                ),
    {
        let sets = self.weak_requirements(solution, options);
        let ghost list = self@.weak_of_all(*options, solution@);
        let ghost pick = |r: RequirementModel| self@.to_pull_in(solution@, r);
        let mut picks: Vec<SolvableId> = Vec::new();
        let mut i: usize = 0;
        proof {
            reveal(Seq::filter);
            assert(list.take(0).filter(pick) =~= Seq::empty());
        }
        while i < sets.len()
            invariant
                i <= sets@.len(),
                self.wf(),
                known(self@, solution@),
                self.pool().valid_sets(sets@),
                list == self.pool().requirements(sets@),
                pick == (|r: RequirementModel| self@.to_pull_in(solution@, r)),
                known(self@, picks@),
                picks@.len() == list.take(i as int).filter(pick).len(),
                forall|k: int|
                    0 <= k < picks@.len() ==> best_for(
                        self@,
                        list.take(i as int).filter(pick)[k],
                        #[trigger] picks@[k],
                    ),
            decreases sets@.len() - i,
        {
            let set: VersionSetId = sets[i];
            proof {
                assert(self.pool().valid_set(sets@[i as int]));
                reveal(Seq::filter);
                assert(list.take(i + 1).drop_last() =~= list.take(i as int));
            }
            if !self.solution_meets(solution, set) {
                if let Some(s) = self.best_candidate(set) {
                    picks.push(s);
                }
            }
            i = i + 1;
        }
        assert(list.take(i as int) =~= list);
        picks
    }
}

/// Nothing is pulled in where the options ask for no weak dependencies.
pub proof fn nothing_pulled_in_unasked(
    p: ProviderModel,
    options: ResolveOptions,
    solution: Seq<SolvableId>,
)
    requires
        !options.enable_recommends,
        !options.enable_suggests,
    ensures
        p.pulled_in(options, solution).len() == 0,
{
    no_weak_unasked(p, options, solution);
    p.weak_of_all(options, solution).lemma_filter_len(
        |r: RequirementModel| p.to_pull_in(solution, r),
    );
}

/// There are no weak dependencies where the options ask for none.
proof fn no_weak_unasked(p: ProviderModel, options: ResolveOptions, solution: Seq<SolvableId>)
    requires
        !options.enable_recommends,
        !options.enable_suggests,
    ensures
        p.weak_of_all(options, solution).len() == 0,
    decreases solution.len(),
{
    if solution.len() > 0 {
        no_weak_unasked(p, options, solution.drop_last());
    }
}

} // verus!
