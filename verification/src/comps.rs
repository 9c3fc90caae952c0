//! Reading package groups from a comps document.
use vstd::prelude::*;
use crate::metadata::{text_pairs, CompsGroup, CompsPackageReq, GroupModel, MemberModel};
use crate::text::{opt_str_view, owned};

verus! {

/// Receives what is read from a comps document. Only groups are kept; categories,
/// environments and language packs are not.
#[derive(Debug)]
pub struct GroupLoader {
    pub current_group: Option<CompsGroup>,
    pub groups: Vec<CompsGroup>,
}

/// Where a comps document's loader stands.
#[verifier::ext_equal]
pub struct GroupLoaderModel {
    /// The group that is being read, if any.
    pub current: Option<GroupModel>,
    /// The groups that were read.
    pub groups: Seq<GroupModel>,
}

impl View for GroupLoader {
    type V = GroupLoaderModel;

    open spec fn view(&self) -> GroupLoaderModel {
        GroupLoaderModel {
            current: match self.current_group {
                Some(g) => Some(g@),
                None => None,
            },
            groups: self.groups@.map_values(|g: CompsGroup| g@),
        }
    }
}

impl GroupLoaderModel {
    /// With the current group, if there is one, changed.
    pub open spec fn changed(self, f: spec_fn(GroupModel) -> GroupModel) -> GroupLoaderModel {
        GroupLoaderModel {
            current: match self.current {
                Some(g) => Some(f(g)),
                None => None,
            },
            ..self
        }
    }
}

impl GroupLoader {
    /// A loader that has read nothing.
    pub fn new() -> (r: GroupLoader)
        ensures
            r@ == (GroupLoaderModel { current: None, groups: Seq::empty() }),
    {
        let r = GroupLoader { current_group: None, groups: Vec::new() };
        assert(r@.groups =~= Seq::<GroupModel>::empty());
        r
    }

    /// Begins a group.
    pub fn begin_group(&mut self)
        ensures
            final(self)@ == (GroupLoaderModel {
                current: Some(GroupModel::blank()),
                ..old(self)@
            }),
    {
        self.current_group = Some(CompsGroup::default());
    }

    /// Records the name of the group, or its name in another language.
    pub fn set_group_name(&mut self, name: &str, lang: Option<&str>)
        ensures
            final(self)@ == old(self)@.changed(
                |g: GroupModel|
                    match lang {
                        None => GroupModel { name: name@, ..g },
                        Some(l) => GroupModel {
                            name_by_lang: g.name_by_lang.push((l@, name@)),
                            ..g
                        },
                    },
            ),
    {
        if let Some(g) = &mut self.current_group {
            match lang {
                None => {
                    g.name = name.to_owned();
                },
                Some(l) => {
                    g.name_by_lang.push((l.to_owned(), name.to_owned()));
                    assert(text_pairs(g.name_by_lang@) =~= text_pairs(
                        old(self).current_group->0.name_by_lang@,
                    ).push((l@, name@)));
                },
            }
        }
    }

    /// Records the description of the group, or its description in another language.
    pub fn set_group_description(&mut self, desc: &str, lang: Option<&str>)
        ensures
            final(self)@ == old(self)@.changed(
                |g: GroupModel|
                    match lang {
                        None => GroupModel { description: desc@, ..g },
                        Some(l) => GroupModel {
                            desc_by_lang: g.desc_by_lang.push((l@, desc@)),
                            ..g
                        },
                    },
            ),
    {
        if let Some(g) = &mut self.current_group {
            match lang {
                None => {
                    g.description = desc.to_owned();
                },
                Some(l) => {
                    g.desc_by_lang.push((l.to_owned(), desc.to_owned()));
                    assert(text_pairs(g.desc_by_lang@) =~= text_pairs(
                        old(self).current_group->0.desc_by_lang@,
                    ).push((l@, desc@)));
                },
            }
        }
    }

    /// Records the id of the group.
    pub fn set_group_id(&mut self, id: &str)
        ensures
            final(self)@ == old(self)@.changed(|g: GroupModel| GroupModel { id: id@, ..g }),
    {
        if let Some(g) = &mut self.current_group {
            g.id = id.to_owned();
        }
    }

    /// Records whether the group is selected by default.
    pub fn set_group_default(&mut self, default: bool)
        ensures
            final(self)@ == old(self)@.changed(|g: GroupModel| GroupModel { default: default, ..g }),
    {
        if let Some(g) = &mut self.current_group {
            g.default = default;
        }
    }

    /// Records whether users see the group.
    pub fn set_group_uservisible(&mut self, visible: bool)
        ensures
            final(self)@ == old(self)@.changed(|g: GroupModel| GroupModel { uservisible: visible, ..g }),
    {
        if let Some(g) = &mut self.current_group {
            g.uservisible = visible;
        }
    }

    /// Records whether the group is for platforms of two architectures only.
    pub fn set_group_biarchonly(&mut self, biarchonly: bool)
        ensures
            final(self)@ == old(self)@.changed(|g: GroupModel| GroupModel { biarchonly: biarchonly, ..g }),
    {
        if let Some(g) = &mut self.current_group {
            g.biarchonly = biarchonly;
        }
    }

    /// Records the language that the group is limited to.
    pub fn set_group_langonly(&mut self, langonly: &str)
        ensures
            final(self)@ == old(self)@.changed(|g: GroupModel| GroupModel { langonly: Some(langonly@), ..g }),
    {
        if let Some(g) = &mut self.current_group {
            g.langonly = Some(langonly.to_owned());
        }
    }

    /// Records the group's place in listings.
    pub fn set_group_display_order(&mut self, order: u32)
        ensures
            final(self)@ == old(self)@.changed(|g: GroupModel| GroupModel { display_order: Some(order), ..g }),
    {
        if let Some(g) = &mut self.current_group {
            g.display_order = Some(order);
        }
    }

    /// Records a member of the group.
    pub fn add_group_package(
        &mut self,
        name: &str,
        reqtype: &str,
        condition: Option<&str>,
        basearchonly: bool,
    )
        ensures
            final(self)@ == old(self)@.changed(
                |g: GroupModel|
                    GroupModel {
                        packages: g.packages.push(
                            MemberModel {
                                name: name@,
                                reqtype: reqtype@,
                                requires: opt_str_view(condition),
                                basearchonly,
                            },
                        ),
                        ..g
                    },
            ),
    {
        if let Some(g) = &mut self.current_group {
            let member = CompsPackageReq {
                name: name.to_owned(),
                reqtype: reqtype.to_owned(),
                requires: owned(condition),
                basearchonly,
            };
            let ghost before = g.packages@;
            g.packages.push(member);
            assert(g.packages@.map_values(|p: CompsPackageReq| p@) =~= before.map_values(
                |p: CompsPackageReq| p@,
            ).push(member@));
        }
    }

    /// Ends a group.
    pub fn end_group(&mut self)
        ensures
            final(self)@ == (match old(self)@.current {
                Some(g) => GroupLoaderModel { current: None, groups: old(self)@.groups.push(g) },
                None => old(self)@,
            }),
    {
        if let Some(g) = self.current_group.take() {
            let ghost before = self.groups@;
            self.groups.push(g);
            assert(self.groups@.map_values(|g: CompsGroup| g@) =~= before.map_values(
                |g: CompsGroup| g@,
            ).push(g@));
        }
    }
}

} // verus!
