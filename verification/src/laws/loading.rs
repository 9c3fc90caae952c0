//! What reading the documents of a repository does.
use vstd::prelude::*;
use crate::comps::{GroupLoader, GroupLoaderModel};
use crate::draft::empty_draft;
use crate::evr::EvrModel;
use crate::loader::{
    arch_wanted, LoadPlan, PrimaryEntry, PrimaryLoader, PrimaryState, RepoDocuments,
};
use crate::metadata::{GroupModel, UpdateRecord};
use crate::model::{with_provider_list, DraftModel, ProviderModel};
use crate::options::{
    EnvironmentInstallOptions, GroupInstallOptions, LoadOptions, ResolveOptions,
};
use crate::package::{PackageModel, ProvideModel, RequirementModel, SolvableId};
use crate::provider::RpmProvider;
use crate::report::{names_advisory, names_group};
use crate::text::{occurs_at, occurs_in};
use crate::updateinfo::UpdateinfoLoader;

verus! {

/// By default mandatory and default members of groups are taken and optional ones are not; of
/// environments the groups that they mark as default; file lists, groups and advisories are not
/// loaded; recommended packages are pulled in and suggested ones are not.
pub proof fn default_choices()
    ensures
        GroupInstallOptions::defaults().include_mandatory,
        GroupInstallOptions::defaults().include_default,
        !GroupInstallOptions::defaults().include_optional,
        EnvironmentInstallOptions::defaults().include_default_options,
        !EnvironmentInstallOptions::defaults().include_all_options,
        !LoadOptions::defaults().load_filelists,
        !LoadOptions::defaults().load_groups,
        !LoadOptions::defaults().load_advisories,
        LoadOptions::defaults().group_options.include_mandatory,
        LoadOptions::defaults().group_options.include_default,
        !LoadOptions::defaults().group_options.include_optional,
        LoadOptions::defaults().environment_options.include_default_options,
        !LoadOptions::defaults().environment_options.include_all_options,
        ResolveOptions::defaults().enable_recommends,
        !ResolveOptions::defaults().enable_suggests,
{
}

/// Groups are loaded where some name, at whatever place, begins with `@`; advisories where some
/// name begins with `patch:`.
pub proof fn loaded_where_named(names: Seq<String>)
    ensures
        names_group(names) <==> exists|i: int|
            0 <= i < names.len() && (#[trigger] names[i])@.len() > 0 && names[i]@[0] == '@',
        names_advisory(names) <==> exists|i: int|
            0 <= i < names.len() && (#[trigger] names[i])@.len() >= 6 && names[i]@.take(6) == seq![
                'p',
                'a',
                't',
                'c',
                'h',
                ':',
            ],
{
    reveal_strlit("patch:");
    assert("patch:"@ =~= seq!['p', 'a', 't', 'c', 'h', ':']);
    assert(forall|i: int|
        0 <= i < names.len() && (#[trigger] names[i])@.len() >= 6 ==> names[i]@.take(6)
            =~= names[i]@.subrange(0, 6));
}

/// A document of a repository is read at once or not at all, but for the file list, which is
/// either read at once or put off: never both, and never neither where there is one.
pub proof fn documents_are_read_or_put_off(
    p: ProviderModel,
    label: Seq<char>,
    repo_id: usize,
    documents: RepoDocuments,
    options: LoadOptions,
)
    ensures
        LoadPlan::spec_plan(repo_id, documents, options).repo_id == repo_id,
        LoadPlan::spec_plan(repo_id, documents, options).primary == documents.primary,
        options.load_groups ==> LoadPlan::spec_plan(repo_id, documents, options).group
            == documents.group,
        !options.load_groups ==> LoadPlan::spec_plan(repo_id, documents, options).group is None,
        options.load_advisories ==> LoadPlan::spec_plan(repo_id, documents, options).updateinfo
            == documents.updateinfo,
        !options.load_advisories ==> LoadPlan::spec_plan(repo_id, documents, options).updateinfo
            is None,
        documents.filelists matches Some(path) ==> {
            let plan = LoadPlan::spec_plan(repo_id, documents, options);
            let after = p.with_repo_begun(label, documents.filelists, options);
            &&& options.load_filelists ==> plan.filelists == Some(path) && after.filelists
                == p.filelists && after.filelists_loaded == p.filelists_loaded
            &&& !options.load_filelists ==> plan.filelists is None && after.filelists.len()
                == p.filelists.len() + 1 && after.filelists.last() == path
                && !after.filelists_loaded
        },
        documents.filelists is None ==> LoadPlan::spec_plan(
            repo_id,
            documents,
            options,
        ).filelists is None && p.with_repo_begun(label, documents.filelists, options).filelists
            == p.filelists && p.with_repo_begun(
            label,
            documents.filelists,
            options,
        ).filelists_loaded == p.filelists_loaded,
        p.with_repo_begun(label, documents.filelists, options).repo_labels
            == p.repo_labels.push(label),
        p.with_repo_begun(label, documents.filelists, options).packages == p.packages,
        p.with_repo_begun(label, documents.filelists, options).providers == p.providers,
        p.with_repo_begun(label, documents.filelists, options).provided == p.provided,
        p.with_repo_begun(label, documents.filelists, options).target_arch == p.target_arch,
{
}

/// Packages of the target architecture and those for all architectures are wanted, no others;
/// without a target all are.
pub proof fn wanted_architectures(target: Seq<char>, arch: Seq<char>)
    ensures
        arch_wanted(None, arch),
        arch_wanted(Some(target), target),
        arch_wanted(Some(target), seq!['n', 'o', 'a', 'r', 'c', 'h']),
        arch_wanted(Some(target), arch) ==> arch == target || arch == seq![
            'n',
            'o',
            'a',
            'r',
            'c',
            'h',
        ],
{
    reveal_strlit("noarch");
    assert("noarch"@ =~= seq!['n', 'o', 'a', 'r', 'c', 'h']);
}

/// At its begin a package that is wanted has its name, architecture and repository and nothing
/// else; one that is not wanted is passed over.
pub proof fn begun_package(
    target: Option<Seq<char>>,
    repo_id: usize,
    name: Seq<char>,
    arch: Seq<char>,
)
    ensures
        PrimaryState::begun(target, repo_id, name, arch).skip == !arch_wanted(target, arch),
        arch_wanted(target, arch) ==> {
            let d = PrimaryState::begun(target, repo_id, name, arch).draft;
            &&& d.package.name == name
            &&& d.package.arch == arch
            &&& d.package.repo_id == repo_id
            &&& d.package.evr.epoch.len() == 0
            &&& d.package.evr.version.len() == 0
            &&& d.package.evr.release.len() == 0
            &&& d.package.requires.len() == 0
            &&& d.package.conflicts.len() == 0
            &&& d.package.obsoletes.len() == 0
            &&& d.package.recommends.len() == 0
            &&& d.package.suggests.len() == 0
            &&& d.package.supplements.len() == 0
            &&& d.package.enhances.len() == 0
            &&& d.provides.len() == 0
            &&& d.files.len() == 0
        },
        empty_draft(repo_id).package.repo_id == repo_id,
        empty_draft(repo_id).package.name.len() == 0,
{
}

/// Whether ` if ` stands somewhere in a text.
pub open spec fn is_conditional(name: Seq<char>) -> bool {
    exists|at: int|
        0 <= at && at + 4 <= name.len() && #[trigger] name[at] == ' ' && name[at + 1] == 'i'
            && name[at + 2] == 'f' && name[at + 3] == ' '
}

/// ` if ` occurs in a text where its four characters stand in it one behind the other.
pub(crate) proof fn occurs_where_conditional(name: Seq<char>)
    ensures
        occurs_in(name, " if "@) <==> is_conditional(name),
{
    reveal_strlit(" if ");
    let pattern = " if "@;
    assert(pattern =~= seq![' ', 'i', 'f', ' ']);
    if is_conditional(name) {
        let at = choose|at: int|
            0 <= at && at + 4 <= name.len() && #[trigger] name[at] == ' ' && name[at + 1] == 'i'
                && name[at + 2] == 'f' && name[at + 3] == ' ';
        assert(name.subrange(at, at + 4) =~= pattern);
        assert(occurs_at(name, pattern, at));
    }
    if occurs_in(name, pattern) {
        let at = choose|at: int| #[trigger] occurs_at(name, pattern, at);
        let part = name.subrange(at, at + 4);
        assert(part[0] == ' ' && part[1] == 'i' && part[2] == 'f' && part[3] == ' ');
        assert(name[at] == ' ');
    }
}

/// Whether a text begins with an opening bracket.
pub open spec fn is_boolean(name: Seq<char>) -> bool {
    name.len() > 0 && name[0] == '('
}

/// A requirement with ` if ` in its name is left out; any other is put behind those that were
/// read before. Nothing else changes.
pub proof fn requirement_is_read(s: PrimaryState, r: RequirementModel)
    ensures
        s.skip || is_conditional(r.name) ==> s.with_entry(PrimaryEntry::Require(r)) == s,
        !s.skip && !is_conditional(r.name) ==> s.with_entry(PrimaryEntry::Require(r)) == (
        PrimaryState {
            draft: DraftModel {
                package: PackageModel {
                    requires: s.draft.package.requires.push(r),
                    ..s.draft.package
                },
                ..s.draft
            },
            ..s
        }),
{
    occurs_where_conditional(r.name);
}

/// A conflict or an obsoletes entry that begins with a bracket is left out; any other is put
/// behind those that were read before, as what it asks of the other package. Nothing else
/// changes.
pub proof fn conflict_is_read(s: PrimaryState, r: RequirementModel)
    ensures
        s.skip || is_boolean(r.name) ==> s.with_entry(PrimaryEntry::Conflict(r)) == s
            && s.with_entry(PrimaryEntry::Obsolete(r)) == s,
        !s.skip && !is_boolean(r.name) ==> s.with_entry(PrimaryEntry::Conflict(r)) == (
        PrimaryState {
            draft: DraftModel {
                package: PackageModel {
                    conflicts: s.draft.package.conflicts.push(r.inverted()),
                    ..s.draft.package
                },
                ..s.draft
            },
            ..s
        }),
        !s.skip && !is_boolean(r.name) ==> s.with_entry(PrimaryEntry::Obsolete(r)) == (
        PrimaryState {
            draft: DraftModel {
                package: PackageModel {
                    obsoletes: s.draft.package.obsoletes.push(r.inverted()),
                    ..s.draft.package
                },
                ..s.draft
            },
            ..s
        }),
{
}

/// A weak dependency that begins with a bracket is left out; any other is put behind those of
/// its kind that were read before. Nothing else changes.
pub proof fn weak_dependency_is_read(s: PrimaryState, r: RequirementModel)
    ensures
        s.skip || is_boolean(r.name) ==> s.with_entry(PrimaryEntry::Recommend(r)) == s
            && s.with_entry(PrimaryEntry::Suggest(r)) == s && s.with_entry(
            PrimaryEntry::Supplement(r),
        ) == s && s.with_entry(PrimaryEntry::Enhance(r)) == s,
        !s.skip && !is_boolean(r.name) ==> s.with_entry(PrimaryEntry::Recommend(r)) == (
        PrimaryState {
            draft: DraftModel {
                package: PackageModel {
                    recommends: s.draft.package.recommends.push(r),
                    ..s.draft.package
                },
                ..s.draft
            },
            ..s
        }),
        !s.skip && !is_boolean(r.name) ==> s.with_entry(PrimaryEntry::Suggest(r)) == (
        PrimaryState {
            draft: DraftModel {
                package: PackageModel {
                    suggests: s.draft.package.suggests.push(r),
                    ..s.draft.package
                },
                ..s.draft
            },
            ..s
        }),
        !s.skip && !is_boolean(r.name) ==> s.with_entry(PrimaryEntry::Supplement(r)) == (
        PrimaryState {
            draft: DraftModel {
                package: PackageModel {
                    supplements: s.draft.package.supplements.push(r),
                    ..s.draft.package
                },
                ..s.draft
            },
            ..s
        }),
        !s.skip && !is_boolean(r.name) ==> s.with_entry(PrimaryEntry::Enhance(r)) == (
        PrimaryState {
            draft: DraftModel {
                package: PackageModel {
                    enhances: s.draft.package.enhances.push(r),
                    ..s.draft.package
                },
                ..s.draft
            },
            ..s
        }),
{
}

/// A version, a `Provides` entry or a file that is read of a package is collected, unless the
/// package is passed over. Nothing else changes.
pub proof fn other_entry_is_read(
    s: PrimaryState,
    evr: EvrModel,
    provide: ProvideModel,
    path: Seq<char>,
)
    ensures
        s.skip ==> s.with_entry(PrimaryEntry::Evr(evr)) == s && s.with_entry(
            PrimaryEntry::Provide(provide),
        ) == s && s.with_entry(PrimaryEntry::File(path)) == s,
        !s.skip ==> s.with_entry(PrimaryEntry::Evr(evr)) == (PrimaryState {
            draft: DraftModel {
                package: PackageModel {
                    evr: EvrModel {
                        epoch: s.draft.package.evr.epoch + evr.epoch,
                        version: s.draft.package.evr.version + evr.version,
                        release: s.draft.package.evr.release + evr.release,
                    },
                    ..s.draft.package
                },
                ..s.draft
            },
            ..s
        }),
        !s.skip ==> s.with_entry(PrimaryEntry::Provide(provide)) == (PrimaryState {
            draft: DraftModel { provides: s.draft.provides.push(provide), ..s.draft },
            ..s
        }),
        !s.skip ==> s.with_entry(PrimaryEntry::File(path)) == (PrimaryState {
            draft: DraftModel { files: s.draft.files.push(path), ..s.draft },
            ..s
        }),
{
}

/// A file of a file list is registered for the given packages, behind whoever provides it
/// already, and no other capability changes.
pub proof fn file_is_registered(
    p: ProviderModel,
    path: Seq<char>,
    ids: Seq<SolvableId>,
    name: Seq<char>,
)
    ensures
        ({
            let q = ProviderModel { providers: with_provider_list(p.providers, path, ids), ..p };
            &&& q.providers_of(path) == p.providers_of(path) + ids
            &&& name != path ==> q.providers_of(name) == p.providers_of(name)
        }),
{
}

/// A change of the group that is being read changes no group that was read, and nothing where
/// no group is being read.
pub proof fn only_the_current_group_changes(
    m: GroupLoaderModel,
    f: spec_fn(GroupModel) -> GroupModel,
)
    ensures
        m.changed(f).groups == m.groups,
        m.current is None ==> m.changed(f).current is None,
        m.current matches Some(g) ==> m.changed(f).current == Some(f(g)),
{
}

/// A record of which nothing was read states nothing.
pub proof fn blank_record_states_nothing(r: UpdateRecord)
    requires
        r.is_blank(),
    ensures
        r.from@.len() == 0 && r.update_type@.len() == 0 && r.status@.len() == 0,
        r.version@.len() == 0 && r.id@.len() == 0 && r.title@.len() == 0,
        r.issued_date is None && r.updated_date is None && r.rights is None && r.release is None,
        r.pushcount is None && r.severity is None && r.summary is None,
        r.description is None && r.solution is None,
        r.references@.len() == 0 && r.pkglist@.len() == 0,
{
}

/// What the loader of groups holds are the group that is being read, if any, and the groups that
/// were read, in their order.
pub proof fn groups_are_kept_in_order(loader: GroupLoader, i: int)
    ensures
        loader@.current is Some == loader.current_group is Some,
        loader.current_group matches Some(g) ==> loader@.current == Some(g@),
        loader@.groups.len() == loader.groups@.len(),
        0 <= i < loader.groups@.len() ==> loader@.groups[i] == loader.groups@[i]@,
{
}

/// What the loader of advisories holds of the advisory that is being read are its id and its
/// packages, in their order, and beside them the package that is being read.
pub proof fn advisory_is_kept_in_order(loader: UpdateinfoLoader, i: int)
    ensures
        loader.state().current is Some == loader.current is Some,
        loader.current matches Some(a) ==> {
            let model = loader.state().current->0;
            &&& model.id == a.id@
            &&& model.packages.len() == a.packages@.len()
            &&& 0 <= i < a.packages@.len() ==> {
                &&& model.packages[i].name == a.packages@[i].name@
                &&& model.packages[i].epoch == a.packages@[i].epoch@
                &&& model.packages[i].version == a.packages@[i].version@
                &&& model.packages[i].release == a.packages@[i].release@
                &&& model.packages[i].arch == a.packages@[i].arch@
            }
        },
        loader.state().package is Some == loader.current_pkg is Some,
        loader.current_pkg matches Some(p) ==> {
            let model = loader.state().package->0;
            &&& model.name == p.name@
            &&& model.epoch == p.epoch@
            &&& model.version == p.version@
            &&& model.release == p.release@
            &&& model.arch == p.arch@
        },
{
}

/// Where a loader stands shows the repository it reads, whether the package is passed over, and
/// what was collected of it.
pub proof fn loader_stands_at(loader: PrimaryLoader, provider: RpmProvider)
    ensures
        loader.state(provider).skip == loader.skip,
        loader.state(provider).draft == loader.pkg.draft(provider.pool(), loader.repo_id),
        loader.state(provider).draft.package.repo_id == loader.repo_id,
{
}

} // verus!
