//! Groups and advisories as packages: what adding one of them adds.
use vstd::prelude::*;
use crate::draft::{empty_draft, PackageInProgress};
use crate::evr::EvrModel;
use crate::metadata::{
    all_packages, CompsGroup, CompsPackageReq, UpdateCollection, UpdateCollectionPackage,
    UpdateRecord,
};
use crate::model::{drafts_step, DraftModel};
use crate::options::GroupInstallOptions;
use crate::package::{
    DependencySpec, PackageModel, RequirementModel, RequirementType, SolvableId, VersionRelation,
    VersionSetId,
};
use crate::pool::{extends_in_steps, interned, requirements_kept, ID_LIMIT};
use crate::provider::RpmProvider;
use crate::text::{concat, str_eq};

verus! {

/// Whether a group's entry becomes a requirement of the group: it does where its kind is
/// asked for and it does not depend on another package.
pub open spec fn selected(p: CompsPackageReq, options: GroupInstallOptions) -> bool {
    p.requires is None && (if p.reqtype@ == "mandatory"@ {
        options.include_mandatory
    } else if p.reqtype@ == "default"@ {
        options.include_default
    } else if p.reqtype@ == "optional"@ {
        options.include_optional
    } else {
        false
    })
}

/// The requirements of a group, in the order of its entries.
pub open spec fn group_requirements(
    list: Seq<CompsPackageReq>,
    options: GroupInstallOptions,
) -> Seq<RequirementModel> {
    list.filter(|p: CompsPackageReq| selected(p, options)).map_values(
        |p: CompsPackageReq| RequirementModel::unversioned(p.name@),
    )
}

/// The package that stands for a group: `@id`, version `0:1.0-1`, for all architectures.
pub open spec fn group_draft(
    group: CompsGroup,
    options: GroupInstallOptions,
    repo_id: usize,
) -> DraftModel {
    DraftModel {
        package: PackageModel {
            name: seq!['@'] + group.id@,
            evr: EvrModel { epoch: "0"@, version: "1.0"@, release: "1"@ },
            arch: "noarch"@,
            requires: group_requirements(group.packages@, options),
            ..empty_draft(repo_id).package
        },
        ..empty_draft(repo_id)
    }
}

/// Whether an advisory's entry constrains a package: entries without a name and source
/// packages do not.
pub open spec fn constrains(p: UpdateCollectionPackage) -> bool {
    p.name@.len() > 0 && p.arch@ != "src"@
}

/// What an advisory's entry asks of the package it names: at least the fixed version. An
/// empty epoch counts as `0`, an empty release is left out.
pub open spec fn constraint(p: UpdateCollectionPackage) -> RequirementModel {
    RequirementModel {
        name: p.name@,
        flags: Some(VersionRelation::GE),
        epoch: Some(
            if p.epoch@.len() == 0 {
                "0"@
            } else {
                p.epoch@
            },
        ),
        version: Some(p.version@),
        release: if p.release@.len() == 0 {
            None
        } else {
            Some(p.release@)
        },
        preinstall: false,
    }
}

/// What the entries of an advisory ask, in their order.
pub open spec fn constraints(list: Seq<UpdateCollectionPackage>) -> Seq<RequirementModel> {
    list.filter(|p: UpdateCollectionPackage| constrains(p)).map_values(
        |p: UpdateCollectionPackage| constraint(p),
    )
}

/// The package that stands for an advisory: `patch:id`, with the advisory's own version
/// (`0` where it has none), for all architectures. Whatever package the advisory names must
/// have at least the fixed version beside it.
pub open spec fn advisory_draft(advisory: UpdateRecord, repo_id: usize) -> DraftModel {
    DraftModel {
        package: PackageModel {
            name: "patch:"@ + advisory.id@,
            evr: EvrModel {
                epoch: "0"@,
                version: if advisory.version@.len() == 0 {
                    "0"@
                } else {
                    advisory.version@
                },
                release: "1"@,
            },
            arch: "noarch"@,
            conflicts: constraints(all_packages(advisory.pkglist@)),
            ..empty_draft(repo_id).package
        },
        ..empty_draft(repo_id)
    }
}

/// A group's requirements with one entry more.
pub(crate) proof fn group_requirements_step(
    list: Seq<CompsPackageReq>,
    options: GroupInstallOptions,
    i: int,
)
    requires
        0 <= i < list.len(),
    ensures
        group_requirements(list.take(i + 1), options) == (if selected(list[i], options) {
            group_requirements(list.take(i), options).push(
                RequirementModel::unversioned(list[i].name@),
            )
        } else {
            group_requirements(list.take(i), options)
        }),
{
    reveal(Seq::filter);
    assert(list.take(i + 1).drop_last() =~= list.take(i));
    let kept = list.take(i).filter(|p: CompsPackageReq| selected(p, options));
    let f = |p: CompsPackageReq| RequirementModel::unversioned(p.name@);
    assert(kept.push(list[i]).map_values(f) =~= kept.map_values(f).push(f(list[i])));
}

/// The constraints of a list with one entry more.
pub(crate) proof fn constraints_step(
    list: Seq<UpdateCollectionPackage>,
    p: UpdateCollectionPackage,
)
    ensures
        constraints(list.push(p)) == (if constrains(p) {
            constraints(list).push(constraint(p))
        } else {
            constraints(list)
        }),
{
    reveal(Seq::filter);
    assert(list.push(p).drop_last() =~= list);
    let kept = list.filter(|p: UpdateCollectionPackage| constrains(p));
    let f = |p: UpdateCollectionPackage| constraint(p);
    assert(kept.push(p).map_values(f) =~= kept.map_values(f).push(f(p)));
}

impl RpmProvider {
    /// Whether the pool can hold the group beside what it holds already.
    pub fn has_room_for_group(&self, group: &CompsGroup) -> (r: bool)
        requires
            self.wf(),
        ensures
            r == self.pool().room(group.packages@.len() + 2int),
    {
        let size: u128 = group.packages.len() as u128 + 2;
        size <= ID_LIMIT as u128 && self.has_room(size as u64)
    }

    /// Adds a group as a package named `@id` that requires the members which the options
    /// select. Members that depend on another package are left out.
    pub fn add_group(
        &mut self,
        repo_id: usize,
        group: &CompsGroup,
        options: &GroupInstallOptions,
    ) -> (r: SolvableId)
        requires
            old(self).wf(),
            old(self).pool().room(group.packages@.len() + 2int),
        ensures
            final(self).wf(),
            final(self).pool().extends(old(self).pool(), group.packages@.len() + 2int),
            final(self)@ == old(self)@.with_draft(group_draft(*group, *options, repo_id)),
            r == old(self)@.next_id(),
            r.0 == old(self)@.packages.len(),
    {
        let ghost base = self.pool();
        let mut ids: Vec<VersionSetId> = Vec::new();
        let mut i: usize = 0;
        proof {
            self.valid_ids();
            reveal(Seq::filter);
            assert(self.pool().requirements(ids@) =~= group_requirements(
                group.packages@.take(0),
                *options,
            ));
        }
        while i < group.packages.len()
            invariant
                i <= group.packages@.len(),
                base == old(self).pool(),
                base.wf(),
                base.room(group.packages@.len() + 2int),
                self.wf(),
                self@ == old(self)@,
                interned(base, self.pool(), i as int),
                self.pool().valid_sets(ids@),
                self.pool().requirements(ids@) == group_requirements(
                    group.packages@.take(i as int),
                    *options,
                ),
            decreases group.packages@.len() - i,
        {
            let p: &CompsPackageReq = &group.packages[i];
            let asked: bool = if str_eq(p.reqtype.as_str(), "mandatory") {
                options.include_mandatory
            } else if str_eq(p.reqtype.as_str(), "default") {
                options.include_default
            } else if str_eq(p.reqtype.as_str(), "optional") {
                options.include_optional
            } else {
                false
            };
            proof {
                group_requirements_step(group.packages@, *options, i as int);
            }
            if p.requires.is_none() && asked {
                let ghost before = self.pool();
                let id = self.intern_unversioned(p.name.as_str());
                proof {
                    extends_in_steps(base, before, self.pool(), i as int, 1);
                    requirements_kept(before, self.pool(), 1, ids@);
                    assert(self.pool().requirements(ids@.push(id)) =~= self.pool().requirements(
                        ids@,
                    ).push(self.pool().requirement(id)));
                }
                ids.push(id);
            }
            i = i + 1;
        }
        proof {
            assert(group.packages@.take(i as int) =~= group.packages@);
            reveal_strlit("@");
            assert("@"@ =~= seq!['@']);
        }
        let ghost grown = self.pool();
        let mut pkg = PackageInProgress::new();
        assert(pkg.valid(grown) && pkg.draft(grown, repo_id) == empty_draft(repo_id));
        pkg.name = concat("@", group.id.as_str());
        pkg.epoch = "0".to_owned();
        pkg.version = "1.0".to_owned();
        pkg.release = "1".to_owned();
        pkg.arch = "noarch".to_owned();
        pkg.requires = ids;
        assert(pkg.draft(grown, repo_id) == group_draft(*group, *options, repo_id));
        let r = self.commit_package(repo_id, pkg);
        proof {
            extends_in_steps(base, grown, self.pool(), group.packages@.len() as int, 2);
        }
        r
    }

    /// Whether the pool can hold the advisory beside what it holds already.
    pub fn has_room_for_advisory(&self, advisory: &UpdateRecord) -> (r: bool)
        requires
            self.wf(),
        ensures
            r == self.pool().room(4int * all_packages(advisory.pkglist@).len() + 2),
    {
        match package_count(advisory) {
            Some(count) => self.has_room(4 * count + 2),
            None => false,
        }
    }

    /// Adds an advisory as a package named `patch:id`. Beside it each package that the
    /// advisory names, source packages aside, must have at least the fixed version.
    pub fn add_advisory(&mut self, repo_id: usize, advisory: &UpdateRecord) -> (r: SolvableId)
        requires
            old(self).wf(),
            old(self).pool().room(4int * all_packages(advisory.pkglist@).len() + 2),
        ensures
            final(self).wf(),
            final(self).pool().extends(
                old(self).pool(),
                4int * all_packages(advisory.pkglist@).len() + 2,
            ),
            final(self)@ == old(self)@.with_draft(advisory_draft(*advisory, repo_id)),
            r == old(self)@.next_id(),
            r.0 == old(self)@.packages.len(),
    {
        let ghost base = self.pool();
        let ghost all = all_packages(advisory.pkglist@);
        let mut ids: Vec<VersionSetId> = Vec::new();
        let ghost mut seen: Seq<UpdateCollectionPackage> = Seq::empty();
        let mut i: usize = 0;
        proof {
            self.valid_ids();
            reveal(Seq::filter);
            assert(self.pool().requirements(ids@) =~= constraints(seen));
            assert(advisory.pkglist@.take(0) =~= Seq::<UpdateCollection>::empty());
        }
        while i < advisory.pkglist.len()
            invariant
                i <= advisory.pkglist@.len(),
                all == all_packages(advisory.pkglist@),
                seen == all_packages(advisory.pkglist@.take(i as int)),
                base == old(self).pool(),
                base.wf(),
                base.room(4int * all.len() + 2),
                self.wf(),
                self@ == old(self)@,
                interned(base, self.pool(), 4int * seen.len()),
                self.pool().valid_sets(ids@),
                self.pool().requirements(ids@) == constraints(seen),
            decreases advisory.pkglist@.len() - i,
        {
            let packages: &Vec<UpdateCollectionPackage> = &advisory.pkglist[i].packages;
            let ghost before_list = seen;
            let mut j: usize = 0;
            proof {
                all_packages_step(advisory.pkglist@, i as int);
                all_packages_prefix(advisory.pkglist@, i + 1);
                assert(before_list + packages@.take(0) =~= before_list);
            }
            while j < packages.len()
                invariant
                    j <= packages@.len(),
                    before_list.len() + packages@.len() <= all.len(),
                    seen == before_list + packages@.take(j as int),
                    base.wf(),
                    base.room(4int * all.len() + 2),
                    self.wf(),
                    self@ == old(self)@,
                    interned(base, self.pool(), 4int * seen.len()),
                    self.pool().valid_sets(ids@),
                    self.pool().requirements(ids@) == constraints(seen),
                decreases packages@.len() - j,
            {
                let p: &UpdateCollectionPackage = &packages[j];
                proof {
                    constraints_step(seen, *p);
                }
                let ghost before = self.pool();
                if !p.name.as_str().is_empty() && !str_eq(p.arch.as_str(), "src") {
                    let data = DependencySpec {
                        name: p.name.as_str(),
                        flags: Some(RequirementType::GE),
                        epoch: if p.epoch.as_str().is_empty() {
                            Some("0")
                        } else {
                            Some(p.epoch.as_str())
                        },
                        version: Some(p.version.as_str()),
                        release: if p.release.as_str().is_empty() {
                            None
                        } else {
                            Some(p.release.as_str())
                        },
                        preinstall: false,
                    };
                    let id = self.intern_requirement(&data);
                    proof {
                        requirements_kept(before, self.pool(), 4, ids@);
                        assert(self.pool().requirements(ids@.push(id))
                            =~= self.pool().requirements(ids@).push(self.pool().requirement(id)));
                    }
                    ids.push(id);
                }
                proof {
                    extends_in_steps(base, before, self.pool(), 4int * seen.len(), 4);
                    seen = seen.push(*p);
                    assert(seen =~= before_list + packages@.take(j + 1));
                }
                j = j + 1;
            }
            assert(packages@.take(j as int) =~= packages@);
            i = i + 1;
        }
        assert(advisory.pkglist@.take(i as int) =~= advisory.pkglist@);
        let ghost grown = self.pool();
        let mut pkg = PackageInProgress::new();
        assert(pkg.valid(grown) && pkg.draft(grown, repo_id) == empty_draft(repo_id));
        pkg.name = concat("patch:", advisory.id.as_str());
        pkg.epoch = "0".to_owned();
        pkg.version = if advisory.version.as_str().is_empty() {
            "0".to_owned()
        } else {
            advisory.version.clone()
        };
        pkg.release = "1".to_owned();
        pkg.arch = "noarch".to_owned();
        pkg.conflicts = ids;
        assert(pkg.draft(grown, repo_id) == advisory_draft(*advisory, repo_id));
        let r = self.commit_package(repo_id, pkg);
        proof {
            extends_in_steps(base, grown, self.pool(), 4int * all.len(), 2);
        }
        r
    }
}

/// How many values of one kind adding the groups interns at most.
pub open spec fn groups_size(groups: Seq<CompsGroup>) -> nat
    decreases groups.len(),
{
    if groups.len() == 0 {
        0
    } else {
        groups_size(groups.drop_last()) + groups.last().packages@.len() + 2
    }
}

/// The packages that stand for groups, in their order.
pub open spec fn group_drafts(
    groups: Seq<CompsGroup>,
    options: GroupInstallOptions,
    repo_id: usize,
) -> Seq<DraftModel> {
    groups.map_values(|g: CompsGroup| group_draft(g, options, repo_id))
}

/// How many values of one kind adding the advisories interns at most.
pub open spec fn advisories_size(advisories: Seq<UpdateRecord>) -> nat
    decreases advisories.len(),
{
    if advisories.len() == 0 {
        0
    } else {
        advisories_size(advisories.drop_last()) + 4 * all_packages(
            advisories.last().pkglist@,
        ).len() + 2
    }
}

/// The packages that stand for advisories, in their order.
pub open spec fn advisory_drafts(advisories: Seq<UpdateRecord>, repo_id: usize) -> Seq<
    DraftModel,
> {
    advisories.map_values(|a: UpdateRecord| advisory_draft(a, repo_id))
}

/// The first groups and the next one need no more room than all of them.
proof fn groups_size_step(groups: Seq<CompsGroup>, i: int)
    requires
        0 <= i < groups.len(),
    ensures
        groups_size(groups.take(i + 1)) == groups_size(groups.take(i)) + groups[i].packages@.len()
            + 2,
        groups_size(groups.take(i + 1)) <= groups_size(groups),
    decreases groups.len() - i,
{
    assert(groups.take(i + 1).drop_last() =~= groups.take(i));
    if i + 1 < groups.len() {
        groups_size_step(groups, i + 1);
    } else {
        assert(groups.take(i + 1) =~= groups);
    }
}

/// The first advisories and the next one need no more room than all of them.
proof fn advisories_size_step(advisories: Seq<UpdateRecord>, i: int)
    requires
        0 <= i < advisories.len(),
    ensures
        advisories_size(advisories.take(i + 1)) == advisories_size(advisories.take(i)) + 4
            * all_packages(advisories[i].pkglist@).len() + 2,
        advisories_size(advisories.take(i + 1)) <= advisories_size(advisories),
    decreases advisories.len() - i,
{
    assert(advisories.take(i + 1).drop_last() =~= advisories.take(i));
    if i + 1 < advisories.len() {
        advisories_size_step(advisories, i + 1);
    } else {
        assert(advisories.take(i + 1) =~= advisories);
    }
}

/// How many packages an advisory names, or `None` where they are more than there are ids.
fn package_count(advisory: &UpdateRecord) -> (r: Option<u64>)
    ensures
        match r {
            Some(n) => n == all_packages(advisory.pkglist@).len() && n <= ID_LIMIT,
            None => all_packages(advisory.pkglist@).len() > ID_LIMIT,
        },
{
    let mut count: u64 = 0;
    let mut i: usize = 0;
    while i < advisory.pkglist.len()
        invariant
            i <= advisory.pkglist@.len(),
            count <= ID_LIMIT,
            count == all_packages(advisory.pkglist@.take(i as int)).len(),
        decreases advisory.pkglist@.len() - i,
    {
        let more: usize = advisory.pkglist[i].packages.len();
        proof {
            all_packages_step(advisory.pkglist@, i as int);
            all_packages_prefix(advisory.pkglist@, i + 1);
        }
        if more as u64 > ID_LIMIT - count {
            return None;
        }
        count = count + more as u64;
        i = i + 1;
    }
    assert(advisory.pkglist@.take(i as int) =~= advisory.pkglist@);
    Some(count)
}

impl RpmProvider {
    /// Whether the pool can hold the groups beside what it holds already.
    pub fn has_room_for_groups(&self, groups: &Vec<CompsGroup>) -> (r: bool)
        requires
            self.wf(),
        ensures
            r == self.pool().room(groups_size(groups@) as int),
    {
        let mut size: u64 = 0;
        let mut i: usize = 0;
        while i < groups.len()
            invariant
                i <= groups@.len(),
                size <= ID_LIMIT,
                size == groups_size(groups@.take(i as int)),
            decreases groups@.len() - i,
        {
            let more: u128 = groups[i].packages.len() as u128 + 2;
            proof {
                groups_size_step(groups@, i as int);
            }
            if more > (ID_LIMIT - size) as u128 {
                return false;
            }
            size = size + more as u64;
            i = i + 1;
        }
        assert(groups@.take(i as int) =~= groups@);
        self.has_room(size)
    }

    /// Adds the groups of a document, one after the other, each as a package named `@id`.
    pub fn add_groups(
        &mut self,
        repo_id: usize,
        groups: &Vec<CompsGroup>,
        options: &GroupInstallOptions,
    )
        requires
            old(self).wf(),
            old(self).pool().room(groups_size(groups@) as int),
        ensures
            final(self).wf(),
            final(self).pool().extends(old(self).pool(), groups_size(groups@) as int),
            final(self)@ == old(self)@.with_drafts(group_drafts(groups@, *options, repo_id)),
    {
        let ghost base = self.pool();
        let ghost drafts = group_drafts(groups@, *options, repo_id);
        let mut i: usize = 0;
        assert(drafts.take(0) =~= Seq::empty());
        while i < groups.len()
            invariant
                i <= groups@.len(),
                base == old(self).pool(),
                base.room(groups_size(groups@) as int),
                drafts == group_drafts(groups@, *options, repo_id),
                self.wf(),
                self.pool().extends(base, groups_size(groups@.take(i as int)) as int),
                self@ == old(self)@.with_drafts(drafts.take(i as int)),
            decreases groups@.len() - i,
        {
            let ghost before = self.pool();
            proof {
                groups_size_step(groups@, i as int);
                drafts_step(old(self)@, drafts, i as int);
            }
            self.add_group(repo_id, &groups[i], options);
            proof {
                extends_in_steps(
                    base,
                    before,
                    self.pool(),
                    groups_size(groups@.take(i as int)) as int,
                    groups@[i as int].packages@.len() + 2int,
                );
            }
            i = i + 1;
        }
        proof {
            assert(groups@.take(i as int) =~= groups@);
            assert(drafts.take(i as int) =~= drafts);
        }
    }

    /// Whether the pool can hold the advisories beside what it holds already.
    pub fn has_room_for_advisories(&self, advisories: &Vec<UpdateRecord>) -> (r: bool)
        requires
            self.wf(),
        ensures
            r == self.pool().room(advisories_size(advisories@) as int),
    {
        let mut size: u64 = 0;
        let mut i: usize = 0;
        while i < advisories.len()
            invariant
                i <= advisories@.len(),
                size <= ID_LIMIT,
                size == advisories_size(advisories@.take(i as int)),
            decreases advisories@.len() - i,
        {
            proof {
                advisories_size_step(advisories@, i as int);
            }
            let more: u64 = match package_count(&advisories[i]) {
                Some(count) => 4 * count + 2,
                None => return false,
            };
            if more > ID_LIMIT - size {
                return false;
            }
            size = size + more;
            i = i + 1;
        }
        assert(advisories@.take(i as int) =~= advisories@);
        self.has_room(size)
    }

    /// Adds the advisories of a document, one after the other, each as a package named
    /// `patch:id`.
    pub fn add_advisories(&mut self, repo_id: usize, advisories: &Vec<UpdateRecord>)
        requires
            old(self).wf(),
            old(self).pool().room(advisories_size(advisories@) as int),
        ensures
            final(self).wf(),
            final(self).pool().extends(old(self).pool(), advisories_size(advisories@) as int),
            final(self)@ == old(self)@.with_drafts(advisory_drafts(advisories@, repo_id)),
    {
        let ghost base = self.pool();
        let ghost drafts = advisory_drafts(advisories@, repo_id);
        let mut i: usize = 0;
        assert(drafts.take(0) =~= Seq::empty());
        while i < advisories.len()
            invariant
                i <= advisories@.len(),
                base == old(self).pool(),
                base.room(advisories_size(advisories@) as int),
                drafts == advisory_drafts(advisories@, repo_id),
                self.wf(),
                self.pool().extends(base, advisories_size(advisories@.take(i as int)) as int),
                self@ == old(self)@.with_drafts(drafts.take(i as int)),
            decreases advisories@.len() - i,
        {
            let ghost before = self.pool();
            proof {
                advisories_size_step(advisories@, i as int);
                drafts_step(old(self)@, drafts, i as int);
            }
            self.add_advisory(repo_id, &advisories[i]);
            proof {
                extends_in_steps(
                    base,
                    before,
                    self.pool(),
                    advisories_size(advisories@.take(i as int)) as int,
                    4int * all_packages(advisories@[i as int].pkglist@).len() + 2,
                );
            }
            i = i + 1;
        }
        proof {
            assert(advisories@.take(i as int) =~= advisories@);
            assert(drafts.take(i as int) =~= drafts);
        }
    }
}

/// The packages of the first collections and of the next one.
proof fn all_packages_step(pkglist: Seq<UpdateCollection>, i: int)
    requires
        0 <= i < pkglist.len(),
    ensures
        all_packages(pkglist.take(i + 1)) == all_packages(pkglist.take(i)) + pkglist[i].packages@,
{
    assert(pkglist.take(i + 1).drop_last() =~= pkglist.take(i));
}

/// The first collections hold no more packages than all of them.
proof fn all_packages_prefix(pkglist: Seq<UpdateCollection>, i: int)
    requires
        0 <= i <= pkglist.len(),
    ensures
        all_packages(pkglist.take(i)).len() <= all_packages(pkglist).len(),
    decreases pkglist.len() - i,
{
    if i < pkglist.len() {
        all_packages_step(pkglist, i);
        all_packages_prefix(pkglist, i + 1);
    } else {
        assert(pkglist.take(i) =~= pkglist);
    }
}

} // verus!
