//! Loading: the receivers of what is read from repository documents.
//!
//! A document is read element by element. Each element is handed to the loader of that
//! document, which collects the current package and adds it to the provider at its end.
use vstd::prelude::*;
use std::path::PathBuf;
use crate::draft::{
    draft_kept, empty_draft, name_texts, provide_models, PackageInProgress, ProvideInProgress,
};
use crate::evr::EvrModel;
use crate::model::{ascending, named_once_each, with_provider_list, DraftModel, ProviderModel};
use crate::options::LoadOptions;
use crate::package::{
    provide_model, DependencySpec, PackageModel, ProvideModel, RequirementModel, SolvableId,
};
use crate::pool::interned;
use crate::provider::RpmProvider;
use crate::text::{begins_with, contains, occurs_in, opt_str_view, owned, starts_with_char, str_eq};

verus! {

/// Whether packages of an architecture are loaded: all are where there is no target, else
/// those of the target and those for all architectures.
pub open spec fn arch_wanted(target: Option<Seq<char>>, arch: Seq<char>) -> bool {
    match target {
        Some(t) => arch == t || arch == "noarch"@,
        None => true,
    }
}

/// Where a primary document's loader stands: the package collected so far, and whether it
/// is one that is passed over.
#[verifier::ext_equal]
pub struct PrimaryState {
    pub skip: bool,
    pub draft: DraftModel,
}

impl PrimaryState {
    /// At the begin of a package.
    pub open spec fn begun(
        target: Option<Seq<char>>,
        repo_id: usize,
        name: Seq<char>,
        arch: Seq<char>,
    ) -> PrimaryState {
        if arch_wanted(target, arch) {
            PrimaryState {
                skip: false,
                draft: DraftModel {
                    package: PackageModel { name, arch, ..empty_draft(repo_id).package },
                    ..empty_draft(repo_id)
                },
            }
        } else {
            PrimaryState { skip: true, draft: empty_draft(repo_id) }
        }
    }

    /// With another package in the making.
    pub open spec fn with_package(self, package: PackageModel) -> PrimaryState {
        PrimaryState { draft: DraftModel { package, ..self.draft }, ..self }
    }

    /// After a version was read. Its parts are appended to what was read before.
    pub open spec fn with_evr(self, evr: EvrModel) -> PrimaryState {
        if self.skip {
            self
        } else {
            self.with_package(
                PackageModel {
                    evr: EvrModel {
                        epoch: self.draft.package.evr.epoch + evr.epoch,
                        version: self.draft.package.evr.version + evr.version,
                        release: self.draft.package.evr.release + evr.release,
                    },
                    ..self.draft.package
                },
            )
        }
    }

    /// After a `Provides` entry was read.
    pub open spec fn with_provide(self, provide: ProvideModel) -> PrimaryState {
        if self.skip {
            self
        } else {
            PrimaryState {
                draft: DraftModel { provides: self.draft.provides.push(provide), ..self.draft },
                ..self
            }
        }
    }

    /// After a file was read.
    pub open spec fn with_file(self, path: Seq<char>) -> PrimaryState {
        if self.skip {
            self
        } else {
            PrimaryState {
                draft: DraftModel { files: self.draft.files.push(path), ..self.draft },
                ..self
            }
        }
    }

    /// After a `Requires` entry was read.
    pub open spec fn with_require(self, req: RequirementModel) -> PrimaryState {
        if self.skip || occurs_in(req.name, " if "@) {
            self
        } else {
            self.with_package(
                PackageModel {
                    requires: self.draft.package.requires.push(req),
                    ..self.draft.package
                },
            )
        }
    }

    /// After a `Conflicts` entry was read.
    pub open spec fn with_conflict(self, req: RequirementModel) -> PrimaryState {
        if self.skip || begins_with(req.name, '(') {
            self
        } else {
            self.with_package(
                PackageModel {
                    conflicts: self.draft.package.conflicts.push(req.inverted()),
                    ..self.draft.package
                },
            )
        }
    }

    /// After an `Obsoletes` entry was read.
    pub open spec fn with_obsolete(self, req: RequirementModel) -> PrimaryState {
        if self.skip || begins_with(req.name, '(') {
            self
        } else {
            self.with_package(
                PackageModel {
                    obsoletes: self.draft.package.obsoletes.push(req.inverted()),
                    ..self.draft.package
                },
            )
        }
    }

    /// After a `Recommends` entry was read.
    pub open spec fn with_recommend(self, req: RequirementModel) -> PrimaryState {
        if self.skip || begins_with(req.name, '(') {
            self
        } else {
            self.with_package(
                PackageModel {
                    recommends: self.draft.package.recommends.push(req),
                    ..self.draft.package
                },
            )
        }
    }

    /// After a `Suggests` entry was read.
    pub open spec fn with_suggest(self, req: RequirementModel) -> PrimaryState {
        if self.skip || begins_with(req.name, '(') {
            self
        } else {
            self.with_package(
                PackageModel {
                    suggests: self.draft.package.suggests.push(req),
                    ..self.draft.package
                },
            )
        }
    }

    /// After a `Supplements` entry was read.
    pub open spec fn with_supplement(self, req: RequirementModel) -> PrimaryState {
        if self.skip || begins_with(req.name, '(') {
            self
        } else {
            self.with_package(
                PackageModel {
                    supplements: self.draft.package.supplements.push(req),
                    ..self.draft.package
                },
            )
        }
    }

    /// After an `Enhances` entry was read.
    pub open spec fn with_enhance(self, req: RequirementModel) -> PrimaryState {
        if self.skip || begins_with(req.name, '(') {
            self
        } else {
            self.with_package(
                PackageModel {
                    enhances: self.draft.package.enhances.push(req),
                    ..self.draft.package
                },
            )
        }
    }
}

/// An entry of a package in a primary document.
#[verifier::ext_equal]
pub enum PrimaryEntry {
    Evr(EvrModel),
    Provide(ProvideModel),
    Require(RequirementModel),
    Conflict(RequirementModel),
    Obsolete(RequirementModel),
    Recommend(RequirementModel),
    Suggest(RequirementModel),
    Supplement(RequirementModel),
    Enhance(RequirementModel),
    File(Seq<char>),
}

impl PrimaryState {
    /// After an entry was read.
    pub open spec fn with_entry(self, entry: PrimaryEntry) -> PrimaryState {
        match entry {
            PrimaryEntry::Evr(evr) => self.with_evr(evr),
            PrimaryEntry::Provide(provide) => self.with_provide(provide),
            PrimaryEntry::Require(req) => self.with_require(req),
            PrimaryEntry::Conflict(req) => self.with_conflict(req),
            PrimaryEntry::Obsolete(req) => self.with_obsolete(req),
            PrimaryEntry::Recommend(req) => self.with_recommend(req),
            PrimaryEntry::Suggest(req) => self.with_suggest(req),
            PrimaryEntry::Supplement(req) => self.with_supplement(req),
            PrimaryEntry::Enhance(req) => self.with_enhance(req),
            PrimaryEntry::File(path) => self.with_file(path),
        }
    }
}

/// Receives what is read from a primary document.
#[derive(Debug)]
pub struct PrimaryLoader {
    pub repo_id: usize,
    pub pkg: PackageInProgress,
    /// Whether the current package is passed over because of its architecture.
    pub skip: bool,
}

/// What beginning a package does to a loader. The provider stays as it is.
pub open spec fn package_begun(
    before: PrimaryLoader,
    after: PrimaryLoader,
    provider: RpmProvider,
    name: Seq<char>,
    arch: Seq<char>,
) -> bool {
    &&& after.repo_id == before.repo_id
    &&& after.valid(provider)
    &&& after.state(provider) == PrimaryState::begun(
        provider@.target_arch,
        before.repo_id,
        name,
        arch,
    )
}

/// What reading an entry does to a loader and its provider: the loader collects the entry,
/// the provider knows what it knew before, and where the package is passed over the provider
/// is untouched.
pub open spec fn entry_read(
    before: (PrimaryLoader, RpmProvider),
    after: (PrimaryLoader, RpmProvider),
    entry: PrimaryEntry,
) -> bool {
    &&& after.0.repo_id == before.0.repo_id
    &&& after.0.valid(after.1)
    &&& after.0.state(after.1) == before.0.state(before.1).with_entry(entry)
    &&& after.1@ == before.1@
    &&& before.0.skip ==> after.1 == before.1
}

/// What ending a package does to a loader and its provider: what was collected is added to
/// the provider, unless the package is passed over, in which case both are untouched.
pub open spec fn package_ended(
    before: (PrimaryLoader, RpmProvider),
    after: (PrimaryLoader, RpmProvider),
) -> bool {
    &&& after.0.repo_id == before.0.repo_id
    &&& after.0.valid(after.1)
    &&& before.0.skip ==> after == before
    &&& !before.0.skip ==> after.1@ == before.1@.with_draft(before.0.state(before.1).draft)
    &&& !before.0.skip ==> after.0.state(after.1) == (PrimaryState {
        skip: false,
        draft: empty_draft(before.0.repo_id),
    })
}

impl PrimaryLoader {
    /// Whether every id that the loader holds was given out by the provider.
    pub open spec fn valid(self, provider: RpmProvider) -> bool {
        self.pkg.valid(provider.pool())
    }

    /// Where the loader stands.
    pub open spec fn state(self, provider: RpmProvider) -> PrimaryState {
        PrimaryState { skip: self.skip, draft: self.pkg.draft(provider.pool(), self.repo_id) }
    }

    /// A loader for packages of the repository with the given id.
    pub fn new(repo_id: usize) -> (r: PrimaryLoader)
        ensures
            r.repo_id == repo_id,
            forall|provider: RpmProvider| #[trigger] r.valid(provider),
            forall|provider: RpmProvider| #[trigger]
                r.state(provider) == (PrimaryState { skip: false, draft: empty_draft(repo_id) }),
    {
        PrimaryLoader { repo_id, pkg: PackageInProgress::new(), skip: false }
    }

    /// Begins a package. One of an architecture that is not wanted is passed over: nothing
    /// that is read of it changes the provider.
    pub fn begin_package(&mut self, provider: &RpmProvider, name: &str, arch: &str)
        ensures
            package_begun(*old(self), *final(self), *provider, name@, arch@),
    {
        self.pkg.reset();
        assert(self.pkg.valid(provider.pool()));
        assert(self.pkg.draft(provider.pool(), self.repo_id) == empty_draft(self.repo_id));
        if let Some(target) = provider.target_arch() {
            if !str_eq(arch, target) && !str_eq(arch, "noarch") {
                self.skip = true;
                return ;
            }
        }
        self.skip = false;
        self.pkg.name.append(name);
        self.pkg.arch.append(arch);
        proof {
            assert(self.pkg.name@ =~= name@);
            assert(self.pkg.arch@ =~= arch@);
        }
    }

    /// Records the version of the package.
    pub fn set_evr(&mut self, provider: &RpmProvider, epoch: &str, version: &str, release: &str)
        requires
            old(self).valid(*provider),
        ensures
            entry_read(
                (*old(self), *provider),
                (*final(self), *provider),
                PrimaryEntry::Evr(
                    (EvrModel { epoch: epoch@, version: version@, release: release@ }),
                ),
            ),
    {
        if self.skip {
            return ;
        }
        self.pkg.epoch.append(epoch);
        self.pkg.version.append(version);
        self.pkg.release.append(release);
    }

    /// Records a `Provides` entry.
    pub fn add_provide(&mut self, provider: &mut RpmProvider, req: &DependencySpec<'_>)
        requires
            old(provider).wf(),
            old(provider).pool().room(1),
            old(self).valid(*old(provider)),
        ensures
            final(provider).wf(),
            interned(old(provider).pool(), final(provider).pool(), 1),
            entry_read(
                (*old(self), *old(provider)),
                (*final(self), *final(provider)),
                PrimaryEntry::Provide(
                    provide_model(
                        req.name@,
                        opt_str_view(req.epoch),
                        opt_str_view(req.version),
                        opt_str_view(req.release),
                    ),
                ),
            ),
    {
        proof {
            provider.valid_ids();
        }
        if self.skip {
            return ;
        }
        let ghost base = provider.pool();
        let ghost pkg = self.pkg;
        let name = provider.intern_name(req.name);
        let entry = ProvideInProgress {
            name,
            epoch: owned(req.epoch),
            version: owned(req.version),
            release: owned(req.release),
        };
        proof {
            draft_kept(base, provider.pool(), 1, pkg, self.repo_id);
            assert(provide_models(provider.pool(), pkg.provides@.push(entry)) =~= provide_models(
                provider.pool(),
                pkg.provides@,
            ).push(entry.model(provider.pool())));
        }
        self.pkg.provides.push(entry);
    }

    /// Records a `Requires` entry. Conditional dependencies (with ` if ` in their name) are
    /// left out.
    pub fn add_require(&mut self, provider: &mut RpmProvider, req: &DependencySpec<'_>)
        requires
            old(provider).wf(),
            old(provider).pool().room(4),
            old(self).valid(*old(provider)),
        ensures
            final(provider).wf(),
            interned(old(provider).pool(), final(provider).pool(), 4),
            entry_read(
                (*old(self), *old(provider)),
                (*final(self), *final(provider)),
                PrimaryEntry::Require(req@),
            ),
    {
        proof {
            provider.valid_ids();
        }
        if self.skip || contains(req.name, " if ") {
            return ;
        }
        let ghost base = provider.pool();
        let ghost pkg = self.pkg;
        let id = provider.intern_requirement(req);
        proof {
            draft_kept(base, provider.pool(), 4, pkg, self.repo_id);
            assert(provider.pool().requirements(pkg.requires@.push(id))
                =~= provider.pool().requirements(pkg.requires@).push(
                provider.pool().requirement(id),
            ));
        }
        self.pkg.requires.push(id);
    }

    /// Records a `Conflicts` entry, inverted: as what it asks of the other package. Boolean
    /// dependencies (beginning with `(`) are left out.
    pub fn add_conflict(&mut self, provider: &mut RpmProvider, req: &DependencySpec<'_>)
        requires
            old(provider).wf(),
            old(provider).pool().room(4),
            old(self).valid(*old(provider)),
        ensures
            final(provider).wf(),
            interned(old(provider).pool(), final(provider).pool(), 4),
            entry_read(
                (*old(self), *old(provider)),
                (*final(self), *final(provider)),
                PrimaryEntry::Conflict(req@),
            ),
    {
        proof {
            provider.valid_ids();
        }
        if self.skip || starts_with_char(req.name, '(') {
            return ;
        }
        let ghost base = provider.pool();
        let ghost pkg = self.pkg;
        let id = provider.intern_inverted_requirement(req);
        proof {
            draft_kept(base, provider.pool(), 4, pkg, self.repo_id);
            assert(provider.pool().requirements(pkg.conflicts@.push(id))
                =~= provider.pool().requirements(pkg.conflicts@).push(
                provider.pool().requirement(id),
            ));
        }
        self.pkg.conflicts.push(id);
    }

    /// Records an `Obsoletes` entry, inverted: as what it asks of the other package. Boolean
    /// dependencies (beginning with `(`) are left out.
    pub fn add_obsolete(&mut self, provider: &mut RpmProvider, req: &DependencySpec<'_>)
        requires
            old(provider).wf(),
            old(provider).pool().room(4),
            old(self).valid(*old(provider)),
        ensures
            final(provider).wf(),
            interned(old(provider).pool(), final(provider).pool(), 4),
            entry_read(
                (*old(self), *old(provider)),
                (*final(self), *final(provider)),
                PrimaryEntry::Obsolete(req@),
            ),
    {
        proof {
            provider.valid_ids();
        }
        if self.skip || starts_with_char(req.name, '(') {
            return ;
        }
        let ghost base = provider.pool();
        let ghost pkg = self.pkg;
        let id = provider.intern_inverted_requirement(req);
        proof {
            draft_kept(base, provider.pool(), 4, pkg, self.repo_id);
            assert(provider.pool().requirements(pkg.obsoletes@.push(id))
                =~= provider.pool().requirements(pkg.obsoletes@).push(
                provider.pool().requirement(id),
            ));
        }
        self.pkg.obsoletes.push(id);
    }

    /// Records a `Recommends` entry. Boolean dependencies (beginning with `(`) are left out.
    pub fn add_recommend(&mut self, provider: &mut RpmProvider, req: &DependencySpec<'_>)
        requires
            old(provider).wf(),
            old(provider).pool().room(4),
            old(self).valid(*old(provider)),
        ensures
            final(provider).wf(),
            interned(old(provider).pool(), final(provider).pool(), 4),
            entry_read(
                (*old(self), *old(provider)),
                (*final(self), *final(provider)),
                PrimaryEntry::Recommend(req@),
            ),
    {
        proof {
            provider.valid_ids();
        }
        if self.skip || starts_with_char(req.name, '(') {
            return ;
        }
        let ghost base = provider.pool();
        let ghost pkg = self.pkg;
        let id = provider.intern_requirement(req);
        proof {
            draft_kept(base, provider.pool(), 4, pkg, self.repo_id);
            assert(provider.pool().requirements(pkg.recommends@.push(id))
                =~= provider.pool().requirements(pkg.recommends@).push(
                provider.pool().requirement(id),
            ));
        }
        self.pkg.recommends.push(id);
    }

    /// Records a `Suggests` entry. Boolean dependencies (beginning with `(`) are left out.
    pub fn add_suggest(&mut self, provider: &mut RpmProvider, req: &DependencySpec<'_>)
        requires
            old(provider).wf(),
            old(provider).pool().room(4),
            old(self).valid(*old(provider)),
        ensures
            final(provider).wf(),
            interned(old(provider).pool(), final(provider).pool(), 4),
            entry_read(
                (*old(self), *old(provider)),
                (*final(self), *final(provider)),
                PrimaryEntry::Suggest(req@),
            ),
    {
        proof {
            provider.valid_ids();
        }
        if self.skip || starts_with_char(req.name, '(') {
            return ;
        }
        let ghost base = provider.pool();
        let ghost pkg = self.pkg;
        let id = provider.intern_requirement(req);
        proof {
            draft_kept(base, provider.pool(), 4, pkg, self.repo_id);
            assert(provider.pool().requirements(pkg.suggests@.push(id))
                =~= provider.pool().requirements(pkg.suggests@).push(
                provider.pool().requirement(id),
            ));
        }
        self.pkg.suggests.push(id);
    }

    /// Records a `Supplements` entry. Boolean dependencies (beginning with `(`) are left out.
    pub fn add_supplement(&mut self, provider: &mut RpmProvider, req: &DependencySpec<'_>)
        requires
            old(provider).wf(),
            old(provider).pool().room(4),
            old(self).valid(*old(provider)),
        ensures
            final(provider).wf(),
            interned(old(provider).pool(), final(provider).pool(), 4),
            entry_read(
                (*old(self), *old(provider)),
                (*final(self), *final(provider)),
                PrimaryEntry::Supplement(req@),
            ),
    {
        proof {
            provider.valid_ids();
        }
        if self.skip || starts_with_char(req.name, '(') {
            return ;
        }
        let ghost base = provider.pool();
        let ghost pkg = self.pkg;
        let id = provider.intern_requirement(req);
        proof {
            draft_kept(base, provider.pool(), 4, pkg, self.repo_id);
            assert(provider.pool().requirements(pkg.supplements@.push(id))
                =~= provider.pool().requirements(pkg.supplements@).push(
                provider.pool().requirement(id),
            ));
        }
        self.pkg.supplements.push(id);
    }

    /// Records an `Enhances` entry. Boolean dependencies (beginning with `(`) are left out.
    pub fn add_enhance(&mut self, provider: &mut RpmProvider, req: &DependencySpec<'_>)
        requires
            old(provider).wf(),
            old(provider).pool().room(4),
            old(self).valid(*old(provider)),
        ensures
            final(provider).wf(),
            interned(old(provider).pool(), final(provider).pool(), 4),
            entry_read(
                (*old(self), *old(provider)),
                (*final(self), *final(provider)),
                PrimaryEntry::Enhance(req@),
            ),
    {
        proof {
            provider.valid_ids();
        }
        if self.skip || starts_with_char(req.name, '(') {
            return ;
        }
        let ghost base = provider.pool();
        let ghost pkg = self.pkg;
        let id = provider.intern_requirement(req);
        proof {
            draft_kept(base, provider.pool(), 4, pkg, self.repo_id);
            assert(provider.pool().requirements(pkg.enhances@.push(id))
                =~= provider.pool().requirements(pkg.enhances@).push(
                provider.pool().requirement(id),
            ));
        }
        self.pkg.enhances.push(id);
    }

    /// Records a file that the package ships.
    pub fn add_file(&mut self, provider: &mut RpmProvider, path: &str)
        requires
            old(provider).wf(),
            old(provider).pool().room(1),
            old(self).valid(*old(provider)),
        ensures
            final(provider).wf(),
            interned(old(provider).pool(), final(provider).pool(), 1),
            entry_read(
                (*old(self), *old(provider)),
                (*final(self), *final(provider)),
                PrimaryEntry::File(path@),
            ),
    {
        proof {
            provider.valid_ids();
        }
        if self.skip {
            return ;
        }
        let ghost base = provider.pool();
        let ghost pkg = self.pkg;
        let id = provider.intern_name(path);
        proof {
            draft_kept(base, provider.pool(), 1, pkg, self.repo_id);
            assert(name_texts(provider.pool(), pkg.file_name_ids@.push(id)) =~= name_texts(
                provider.pool(),
                pkg.file_name_ids@,
            ).push(provider.pool().name_text(id)));
        }
        self.pkg.file_name_ids.push(id);
    }

    /// Ends a package: adds what was collected to the provider, unless the package is
    /// passed over.
    pub fn end_package(&mut self, provider: &mut RpmProvider)
        requires
            old(provider).wf(),
            old(provider).pool().room(2),
            old(self).valid(*old(provider)),
        ensures
            final(provider).wf(),
            final(provider).pool().extends(old(provider).pool(), 2),
            package_ended((*old(self), *old(provider)), (*final(self), *final(provider))),
    {
        if self.skip {
            return ;
        }
        let mut pkg = PackageInProgress::new();
        std::mem::swap(&mut pkg, &mut self.pkg);
        provider.commit_package(self.repo_id, pkg);
    }
}

/// Receives what is read from a file list document. The packages are there already; each
/// file is registered for all packages that have the name of the current one.
#[derive(Debug)]
pub struct FilelistsLoader {
    /// The packages that have the name of the current package.
    pub current_solvables: Vec<SolvableId>,
}

/// Puts an id into a list of rising ids, unless it is there already.
fn insert_id(list: &mut Vec<SolvableId>, id: SolvableId)
    requires
        ascending(old(list)@),
    ensures
        ascending(final(list)@),
        forall|s: SolvableId| #[trigger]
            final(list)@.contains(s) <==> s == id || old(list)@.contains(s),
{
    let ghost before = list@;
    let mut at: usize = list.len();
    while at > 0 && list[at - 1].0 > id.0
        invariant
            at <= list@.len(),
            list@ == before,
            forall|k: int| at <= k < before.len() ==> (#[trigger] before[k]).0 > id.0,
        decreases at,
    {
        at = at - 1;
    }
    if at > 0 && list[at - 1].0 == id.0 {
        assert(before[at - 1] == id);
        return ;
    }
    list.insert(at, id);
    proof {
        assert(list@ == before.insert(at as int, id));
        assert forall|s: SolvableId| #[trigger] list@.contains(s) <==> s == id || before.contains(s)
            by {
            assert(list@[at as int] == id);
            if before.contains(s) {
                let k = before.index_of(s);
                if k < at {
                    assert(list@[k] == s);
                } else {
                    assert(list@[k + 1] == s);
                }
            }
            if list@.contains(s) && s != id {
                let k = list@.index_of(s);
                if k < at {
                    assert(before[k] == s);
                } else {
                    assert(before[k - 1] == s);
                }
            }
        }
    }
}

impl FilelistsLoader {
    /// Whether every package that the loader holds is known to the provider.
    pub open spec fn valid(self, provider: RpmProvider) -> bool {
        forall|i: int|
            0 <= i < self.current_solvables@.len() ==> (#[trigger] self.current_solvables@[i]).0
                < provider@.packages.len()
    }

    /// A loader that is at no package yet.
    pub fn new() -> (r: FilelistsLoader)
        ensures
            r.current_solvables@ == Seq::<SolvableId>::empty(),
    {
        FilelistsLoader { current_solvables: Vec::new() }
    }

    /// Begins a package: looks up the packages with its name, each once. There are none where
    /// the package was passed over; packages that only provide the name do not count.
    pub fn begin_package(&mut self, provider: &mut RpmProvider, name: &str)
        requires
            old(provider).wf(),
            old(provider).pool().room(1),
        ensures
            final(provider).wf(),
            final(provider)@ == old(provider)@,
            interned(old(provider).pool(), final(provider).pool(), 1),
            final(self).valid(*final(provider)),
            final(self).current_solvables@ == old(provider)@.packages_named(name@),
    {
        let id = provider.intern_name(name);
        let ghost p = provider@;
        let ghost listed = p.providers_of(name@);
        let mut solvables: Vec<SolvableId> = Vec::new();
        proof {
            provider.valid_ids();
        }
        if let Some(list) = provider.providers(id) {
            let mut i: usize = 0;
            while i < list.len()
                invariant
                    i <= list@.len(),
                    provider.wf(),
                    p == provider@,
                    list@ == listed,
                    forall|k: int|
                        0 <= k < listed.len() ==> (#[trigger] listed[k]).0 < p.packages.len(),
                    ascending(solvables@),
                    forall|k: int|
                        0 <= k < i && p.packages[(#[trigger] listed[k]).0 as int].name == name@
                            ==> solvables@.contains(listed[k]),
                    forall|s: SolvableId| #[trigger]
                        solvables@.contains(s) ==> s.0 < p.packages.len()
                            && p.packages[s.0 as int].name == name@,
                decreases list@.len() - i,
            {
                let s: SolvableId = list[i];
                assert(s == listed[i as int]);
                if str_eq(provider.package_name(s), name) {
                    insert_id(&mut solvables, s);
                }
                i = i + 1;
            }
        }
        proof {
            assert forall|s: SolvableId| s.0 < p.packages.len() && p.packages[s.0 as int].name
                == name@ implies #[trigger] solvables@.contains(s) by {
                assert(listed.contains(SolvableId(s.0 as int as u32)));
                let k = listed.index_of(s);
                assert(listed[k] == s);
            }
            named_once_each(p, name@, solvables@);
            assert forall|k: int| 0 <= k < solvables@.len() implies (
            #[trigger] solvables@[k]).0 < p.packages.len() by {
                assert(solvables@.contains(solvables@[k]));
            }
        }
        self.current_solvables = solvables;
    }

    /// Registers a file for the packages of the current name.
    pub fn add_file(&self, provider: &mut RpmProvider, path: &str)
        requires
            old(provider).wf(),
            old(provider).pool().room(1),
            self.valid(*old(provider)),
        ensures
            final(provider).wf(),
            final(provider).pool().extends(old(provider).pool(), 1),
            self.valid(*final(provider)),
            self.current_solvables@.len() == 0 ==> *final(provider) == *old(provider),
            self.current_solvables@.len() > 0 ==> final(provider)@ == (ProviderModel {
                providers: with_provider_list(
                    old(provider)@.providers,
                    path@,
                    self.current_solvables@,
                ),
                ..old(provider)@
            }),
    {
        proof {
            provider.valid_ids();
        }
        if self.current_solvables.len() == 0 {
            return ;
        }
        let id = provider.intern_name(path);
        provider.register_list(id, &self.current_solvables);
    }
}

/// Where the documents of a repository lie. Only the primary document must be there.
pub struct RepoDocuments {
    pub primary: PathBuf,
    pub filelists: Option<PathBuf>,
    pub group: Option<PathBuf>,
    pub updateinfo: Option<PathBuf>,
}

/// What is to be read of a repository, in this order: the primary document, then as far as
/// they are asked for the file lists, the groups and the advisories.
pub struct LoadPlan {
    /// The id of the repository.
    pub repo_id: usize,
    pub primary: PathBuf,
    pub filelists: Option<PathBuf>,
    pub group: Option<PathBuf>,
    pub updateinfo: Option<PathBuf>,
}

impl LoadPlan {
    /// What the options ask to be read of the documents.
    pub open spec fn spec_plan(
        repo_id: usize,
        documents: RepoDocuments,
        options: LoadOptions,
    ) -> LoadPlan {
        LoadPlan {
            repo_id,
            primary: documents.primary,
            filelists: if options.load_filelists {
                documents.filelists
            } else {
                None
            },
            group: if options.load_groups {
                documents.group
            } else {
                None
            },
            updateinfo: if options.load_advisories {
                documents.updateinfo
            } else {
                None
            },
        }
    }
}

impl RpmProvider {
    /// Begins to load a repository with the default options.
    pub fn load_repo(&mut self, documents: RepoDocuments, label: &str) -> (r: LoadPlan)
        requires
            old(self).wf(),
        ensures
            final(self).wf(),
            final(self).pool() == old(self).pool(),
            final(self)@ == old(self)@.with_repo_begun(
                label@,
                documents.filelists,
                LoadOptions::defaults(),
            ),
            old(self)@.repo_labels.len() == r.repo_id,
            r == LoadPlan::spec_plan(r.repo_id, documents, LoadOptions::defaults()),
    {
        self.load_repo_with_options(documents, label, &LoadOptions::default())
    }

    /// Begins to load a repository: registers it, puts its file lists off unless they are
    /// asked for, and says what is to be read.
    pub fn load_repo_with_options(
        &mut self,
        documents: RepoDocuments,
        label: &str,
        options: &LoadOptions,
    ) -> (r: LoadPlan)
        requires
            old(self).wf(),
        ensures
            final(self).wf(),
            final(self).pool() == old(self).pool(),
            final(self)@ == old(self)@.with_repo_begun(label@, documents.filelists, *options),
            old(self)@.repo_labels.len() == r.repo_id,
            r == LoadPlan::spec_plan(r.repo_id, documents, *options),
    {
        let repo_id: usize = self.add_repo(label);
        let RepoDocuments { primary, filelists, group, updateinfo } = documents;
        let filelists: Option<PathBuf> = if options.load_filelists {
            filelists
        } else {
            if let Some(path) = filelists {
                self.defer_filelists(path);
            }
            None
        };
        let group: Option<PathBuf> = if options.load_groups {
            group
        } else {
            None
        };
        let updateinfo: Option<PathBuf> = if options.load_advisories {
            updateinfo
        } else {
            None
        };
        LoadPlan { repo_id, primary, filelists, group, updateinfo }
    }
}

} // verus!
