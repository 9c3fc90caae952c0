//! Reading advisories from an updateinfo document.
use vstd::prelude::*;
use crate::metadata::{NevraModel, UpdateCollection, UpdateCollectionPackage, UpdateRecord};

verus! {

/// An advisory that is being read: its id and its packages.
#[derive(Debug)]
pub struct AdvisoryInProgress {
    pub id: String,
    pub packages: Vec<UpdateCollectionPackage>,
}

/// Receives what is read from an updateinfo document. Of an advisory only the id and the
/// packages are kept; that is all that its package needs.
#[derive(Debug)]
pub struct UpdateinfoLoader {
    pub current: Option<AdvisoryInProgress>,
    pub advisories: Vec<UpdateRecord>,
    /// The package that is being read.
    pub current_pkg: Option<UpdateCollectionPackage>,
}

/// An advisory's id and packages.
#[verifier::ext_equal]
pub struct AdvisoryModel {
    pub id: Seq<char>,
    pub packages: Seq<NevraModel>,
}

/// The names, versions and architectures of packages.
pub open spec fn nevras(list: Seq<UpdateCollectionPackage>) -> Seq<NevraModel> {
    list.map_values(|p: UpdateCollectionPackage| p.nevra())
}

/// Whether all entries state no more than name, version and architecture.
pub open spec fn all_nevra_only(list: Seq<UpdateCollectionPackage>) -> bool {
    forall|i: int| 0 <= i < list.len() ==> (#[trigger] list[i]).states_nevra_only()
}

impl AdvisoryInProgress {
    /// The advisory's id and packages.
    pub open spec fn model(self) -> AdvisoryModel {
        AdvisoryModel { id: self.id@, packages: nevras(self.packages@) }
    }
}

/// Where an updateinfo document's loader stands.
#[verifier::ext_equal]
pub struct UpdateinfoState {
    /// The advisory that is being read, if any.
    pub current: Option<AdvisoryModel>,
    /// The package that is being read, if any.
    pub package: Option<NevraModel>,
}

/// Whether a record holds the advisory and nothing else: its packages stand in one
/// collection.
pub open spec fn holds_advisory(record: UpdateRecord, a: AdvisoryModel) -> bool {
    &&& record.id@ == a.id
    &&& record.pkglist@.len() == 1
    &&& nevras(record.pkglist@[0].packages@) == a.packages
    &&& all_nevra_only(record.pkglist@[0].packages@)
    &&& record.pkglist@[0].name@.len() == 0
    &&& record.pkglist@[0].shortname@.len() == 0
    &&& record.pkglist@[0].module is None
    &&& record.from@.len() == 0
    &&& record.update_type@.len() == 0
    &&& record.status@.len() == 0
    &&& record.version@.len() == 0
    &&& record.title@.len() == 0
    &&& record.issued_date is None
    &&& record.updated_date is None
    &&& record.rights is None
    &&& record.release is None
    &&& record.pushcount is None
    &&& record.severity is None
    &&& record.summary is None
    &&& record.description is None
    &&& record.solution is None
    &&& record.references@.len() == 0
}

impl UpdateinfoLoader {
    /// The loader's invariant: what it holds of packages is name, version and architecture.
    pub open spec fn wf(self) -> bool {
        &&& self.current matches Some(c) ==> all_nevra_only(c.packages@)
        &&& self.current_pkg matches Some(p) ==> p.states_nevra_only()
    }

    /// Where the loader stands.
    pub open spec fn state(self) -> UpdateinfoState {
        UpdateinfoState {
            current: match self.current {
                Some(c) => Some(c.model()),
                None => None,
            },
            package: match self.current_pkg {
                Some(p) => Some(p.nevra()),
                None => None,
            },
        }
    }

    /// A loader that has read nothing.
    pub fn new() -> (r: UpdateinfoLoader)
        ensures
            r.wf(),
            r.state() == (UpdateinfoState { current: None, package: None }),
            r.advisories@ == Seq::<UpdateRecord>::empty(),
    {
        UpdateinfoLoader { current: None, advisories: Vec::new(), current_pkg: None }
    }

    /// Begins an advisory. Until its id is read the kind of the advisory stands in for it.
    pub fn begin_update(&mut self, update_type: &str)
        requires
            old(self).wf(),
        ensures
            final(self).wf(),
            final(self).state() == (UpdateinfoState {
                current: Some(AdvisoryModel { id: update_type@, packages: Seq::empty() }),
                ..old(self).state()
            }),
            final(self).advisories@ == old(self).advisories@,
    {
        let advisory = AdvisoryInProgress { id: update_type.to_owned(), packages: Vec::new() };
        assert(nevras(advisory.packages@) =~= Seq::<NevraModel>::empty());
        self.current = Some(advisory);
    }

    /// Records the id of the advisory.
    pub fn set_id(&mut self, id: &str)
        requires
            old(self).wf(),
        ensures
            final(self).wf(),
            final(self).state() == (UpdateinfoState {
                current: match old(self).state().current {
                    Some(a) => Some(AdvisoryModel { id: id@, ..a }),
                    None => None,
                },
                ..old(self).state()
            }),
            final(self).advisories@ == old(self).advisories@,
    {
        if let Some(c) = &mut self.current {
            c.id = id.to_owned();
        }
    }

    /// Begins a package of the advisory.
    pub fn begin_collection_package(
        &mut self,
        name: &str,
        epoch: &str,
        version: &str,
        release: &str,
        arch: &str,
    )
        requires
            old(self).wf(),
        ensures
            final(self).wf(),
            final(self).state() == (UpdateinfoState {
                package: Some(
                    NevraModel {
                        name: name@,
                        epoch: epoch@,
                        version: version@,
                        release: release@,
                        arch: arch@,
                    },
                ),
                ..old(self).state()
            }),
            final(self).advisories@ == old(self).advisories@,
    {
        self.current_pkg = Some(
            UpdateCollectionPackage {
                epoch: epoch.to_owned(),
                filename: String::new(),
                name: name.to_owned(),
                reboot_suggested: false,
                restart_suggested: false,
                relogin_suggested: false,
                release: release.to_owned(),
                src: None,
                arch: arch.to_owned(),
                checksum: None,
                version: version.to_owned(),
            },
        );
    }

    /// Ends a package: adds it to the advisory, if one is being read.
    pub fn end_collection_package(&mut self)
        requires
            old(self).wf(),
        ensures
            final(self).wf(),
            final(self).state() == (UpdateinfoState {
                current: match (old(self).state().current, old(self).state().package) {
                    (Some(a), Some(p)) => Some(
                        AdvisoryModel { packages: a.packages.push(p), ..a },
                    ),
                    (current, _) => current,
                },
                package: None,
            }),
            final(self).advisories@ == old(self).advisories@,
    {
        let taken: Option<UpdateCollectionPackage> = self.current_pkg.take();
        if let Some(pkg) = taken {
            if let Some(c) = &mut self.current {
                let ghost before = c.packages@;
                c.packages.push(pkg);
                assert(nevras(c.packages@) =~= nevras(before).push(pkg.nevra()));
            }
        }
    }

    /// Ends an advisory.
    pub fn end_update(&mut self)
        requires
            old(self).wf(),
        ensures
            final(self).wf(),
            final(self).state() == (UpdateinfoState { current: None, ..old(self).state() }),
            match old(self).state().current {
                Some(a) => {
                    &&& final(self).advisories@.len() == old(self).advisories@.len() + 1
                    &&& final(self).advisories@.drop_last() == old(self).advisories@
                    &&& holds_advisory(final(self).advisories@.last(), a)
                },
                None => final(self).advisories@ == old(self).advisories@,
            },
    {
        if let Some(c) = self.current.take() {
            let AdvisoryInProgress { id, packages } = c;
            let mut collection = UpdateCollection::default();
            collection.packages = packages;
            let mut record = UpdateRecord::default();
            record.id = id;
            record.pkglist.push(collection);
            self.advisories.push(record);
            assert(self.advisories@.drop_last() =~= old(self).advisories@);
        }
    }
}

} // verus!
