//! What a provider knows, as mathematical values: the packages, who provides what, and
//! under which version.
use vstd::prelude::*;
use std::path::PathBuf;
use crate::evr::{order, EvrModel, VersionOrder};
use crate::options::LoadOptions;
use crate::package::{PackageModel, PackageSpec, ProvideModel, RequirementModel, SolvableId};

verus! {

/// A path of the file system, carried through unread.
#[verifier::external_type_specification]
#[verifier::external_body]
pub struct ExPathBuf(std::path::PathBuf);

/// A package together with what it provides, before it is added to a provider.
#[verifier::ext_equal]
pub struct DraftModel {
    pub package: PackageModel,
    pub provides: Seq<ProvideModel>,
    pub files: Seq<Seq<char>>,
}

impl DraftModel {
    /// The names of all that the package provides, in the order in which it is registered:
    /// its own name, its `Provides` entries, its files.
    pub open spec fn capabilities(self) -> Seq<Seq<char>> {
        seq![self.package.name] + self.provides.map_values(|p: ProvideModel| p.name) + self.files
    }
}

impl<'a> PackageSpec<'a> {
    /// The package and what it provides, as it stands in repository `repo_id`.
    pub open spec fn draft(self, repo_id: usize) -> DraftModel {
        DraftModel {
            package: self.package(repo_id),
            provides: self.provided(),
            files: self.shipped(),
        }
    }
}

/// The packages that provide a capability, in the order in which they were registered.
pub open spec fn providers_in(m: Map<Seq<char>, Seq<SolvableId>>, name: Seq<char>) -> Seq<
    SolvableId,
> {
    if m.dom().contains(name) {
        m[name]
    } else {
        Seq::empty()
    }
}

/// The providers, with one more for a capability.
pub open spec fn with_provider(
    m: Map<Seq<char>, Seq<SolvableId>>,
    name: Seq<char>,
    id: SolvableId,
) -> Map<Seq<char>, Seq<SolvableId>> {
    m.insert(name, providers_in(m, name).push(id))
}

/// The providers, with one more for each of the capabilities in turn.
pub open spec fn with_providers(
    m: Map<Seq<char>, Seq<SolvableId>>,
    names: Seq<Seq<char>>,
    id: SolvableId,
) -> Map<Seq<char>, Seq<SolvableId>>
    decreases names.len(),
{
    if names.len() == 0 {
        m
    } else {
        with_provider(with_providers(m, names.drop_last(), id), names.last(), id)
    }
}

/// The providers, with several more for one capability.
pub open spec fn with_provider_list(
    m: Map<Seq<char>, Seq<SolvableId>>,
    name: Seq<char>,
    ids: Seq<SolvableId>,
) -> Map<Seq<char>, Seq<SolvableId>> {
    m.insert(name, providers_in(m, name) + ids)
}

/// The versions that packages state for what they provide, with those of one more
/// package. Of several entries for one capability the last counts.
pub open spec fn with_versions(
    m: Map<(SolvableId, Seq<char>), EvrModel>,
    id: SolvableId,
    provides: Seq<ProvideModel>,
) -> Map<(SolvableId, Seq<char>), EvrModel>
    decreases provides.len(),
{
    if provides.len() == 0 {
        m
    } else {
        let rest = with_versions(m, id, provides.drop_last());
        match provides.last().evr {
            Some(evr) => rest.insert((id, provides.last().name), evr),
            None => rest,
        }
    }
}

/// The first `n` ids of packages.
pub open spec fn ids_below(n: nat) -> Seq<SolvableId> {
    Seq::new(n, |i: int| SolvableId(i as u32))
}

/// Whether the ids of a list rise from one to the next.
pub open spec fn ascending(list: Seq<SolvableId>) -> bool {
    forall|i: int, j: int|
        0 <= i < j < list.len() ==> (#[trigger] list[i]).0 < (#[trigger] list[j]).0
}

/// What a provider knows.
#[verifier::ext_equal]
pub struct ProviderModel {
    /// The packages, in the order of their ids.
    pub packages: Seq<PackageModel>,
    /// The packages that provide each capability; names that nothing provides are left out.
    pub providers: Map<Seq<char>, Seq<SolvableId>>,
    /// The versions that packages state for what they provide.
    pub provided: Map<(SolvableId, Seq<char>), EvrModel>,
    /// The labels of the repositories, in the order of their ids.
    pub repo_labels: Seq<Seq<char>>,
    /// The architecture that loading is limited to, if any.
    pub target_arch: Option<Seq<char>>,
    /// The file lists that are to be read once a file dependency asks for them.
    pub filelists: Seq<PathBuf>,
    /// Whether file lists have been handed out for reading and none was put off since.
    pub filelists_loaded: bool,
}

impl ProviderModel {
    /// A provider that knows no package and no repository.
    pub open spec fn empty(target_arch: Option<Seq<char>>) -> ProviderModel {
        ProviderModel {
            packages: Seq::empty(),
            providers: Map::empty(),
            provided: Map::empty(),
            repo_labels: Seq::empty(),
            target_arch,
            filelists: Seq::empty(),
            filelists_loaded: false,
        }
    }

    /// The id that the next package will have.
    pub open spec fn next_id(self) -> SolvableId {
        SolvableId(self.packages.len() as u32)
    }

    /// The provider with one more package.
    pub open spec fn with_draft(self, draft: DraftModel) -> ProviderModel {
        ProviderModel {
            packages: self.packages.push(draft.package),
            providers: with_providers(self.providers, draft.capabilities(), self.next_id()),
            provided: with_versions(self.provided, self.next_id(), draft.provides),
            ..self
        }
    }

    /// The provider with several more packages, one after the other.
    pub open spec fn with_drafts(self, drafts: Seq<DraftModel>) -> ProviderModel
        decreases drafts.len(),
    {
        if drafts.len() == 0 {
            self
        } else {
            self.with_drafts(drafts.drop_last()).with_draft(drafts.last())
        }
    }

    /// The provider with one more repository.
    pub open spec fn with_repo(self, label: Seq<char>) -> ProviderModel {
        ProviderModel { repo_labels: self.repo_labels.push(label), ..self }
    }

    /// The provider at the begin of loading a repository: with the repository registered,
    /// and with its file lists, if any, put off unless the options ask for them at once.
    pub open spec fn with_repo_begun(
        self,
        label: Seq<char>,
        filelists: Option<PathBuf>,
        options: LoadOptions,
    ) -> ProviderModel {
        let registered = self.with_repo(label);
        match filelists {
            Some(path) if !options.load_filelists => ProviderModel {
                filelists: self.filelists.push(path),
                filelists_loaded: false,
                ..registered
            },
            _ => registered,
        }
    }

    /// The packages that provide a capability, in the order in which they were registered.
    pub open spec fn providers_of(self, name: Seq<char>) -> Seq<SolvableId> {
        providers_in(self.providers, name)
    }

    /// The packages with a name of their own, in the order of their ids. Packages that only
    /// provide the name are not among them.
    pub open spec fn packages_named(self, name: Seq<char>) -> Seq<SolvableId> {
        ids_below(self.packages.len()).filter(
            |s: SolvableId| self.packages[s.0 as int].name == name,
        )
    }

    /// The version under which a package provides a capability: the one it states for it,
    /// else its own.
    pub open spec fn version_of(self, id: SolvableId, name: Seq<char>) -> EvrModel {
        if self.provided.dom().contains((id, name)) {
            self.provided[(id, name)]
        } else {
            self.packages[id.0 as int].evr
        }
    }

    /// Whether a package's version of what the requirement names meets the requirement.
    pub open spec fn meets(self, id: SolvableId, r: RequirementModel) -> bool {
        r.accepts(self.version_of(id, r.name))
    }

    /// Whether some provider of what the requirement names meets the requirement.
    pub open spec fn satisfied(self, r: RequirementModel) -> bool {
        exists|i: int|
            0 <= i < self.providers_of(r.name).len() && self.meets(
                #[trigger] self.providers_of(r.name)[i],
                r,
            )
    }

    /// Whether every package provides its own name.
    pub open spec fn own_names(self) -> bool {
        forall|i: int|
            0 <= i < self.packages.len() ==> self.providers_of(
                (#[trigger] self.packages[i]).name,
            ).contains(SolvableId(i as u32))
    }

    /// Whether the provider holds a package with the same name and architecture and a
    /// higher version than the package with the given id.
    pub open spec fn outdated(self, id: SolvableId) -> bool {
        let p = self.packages[id.0 as int];
        exists|j: int|
            0 <= j < self.packages.len() && {
                let q = #[trigger] self.packages[j];
                q.name == p.name && q.arch == p.arch && order(q.evr, p.evr)
                    == VersionOrder::Greater
            }
    }
}

/// Registering a package for a list of capabilities adds it behind the providers that
/// are already there, as often as the list names the capability, and to no other.
pub proof fn registered_where_named(
    m: Map<Seq<char>, Seq<SolvableId>>,
    names: Seq<Seq<char>>,
    id: SolvableId,
    name: Seq<char>,
)
    ensures
        providers_in(with_providers(m, names, id), name) == providers_in(m, name) + Seq::new(
            names.to_multiset().count(name),
            |i: int| id,
        ),
    decreases names.len(),
{
    broadcast use vstd::seq_lib::group_to_multiset_ensures;

    if names.len() == 0 {
        assert(names =~= Seq::<Seq<char>>::empty());
        names.to_multiset_ensures();
        assert(names.to_multiset().count(name) == 0);
        assert(providers_in(m, name) + Seq::new(0, |i: int| id) =~= providers_in(m, name));
    } else {
        let rest = names.drop_last();
        let last = names.last();
        registered_where_named(m, rest, id, name);
        assert(rest.push(last) =~= names);
        assert(names.to_multiset() =~= rest.to_multiset().insert(last));
        let count = rest.to_multiset().count(name);
        if last == name {
            assert(Seq::new((count + 1) as nat, |i: int| id) =~= Seq::new(count, |i: int| id).push(
                id,
            ));
            assert(providers_in(m, name) + Seq::new((count + 1) as nat, |i: int| id) =~= (
            providers_in(m, name) + Seq::new(count, |i: int| id)).push(id));
        }
    }
}

/// Every package provides its own name.
pub proof fn provides_own_name(p: ProviderModel, draft: DraftModel)
    ensures
        p.with_draft(draft).providers_of(draft.package.name).contains(p.next_id()),
{
    let names = draft.capabilities();
    let name = draft.package.name;
    broadcast use vstd::seq_lib::group_to_multiset_ensures;

    registered_where_named(p.providers, names, p.next_id(), name);
    assert(names[0] == name);
    assert(names.contains(name));
    assert(names.to_multiset().count(name) > 0);
    let old_list = p.providers_of(name);
    let new_list = p.with_draft(draft).providers_of(name);
    assert(new_list[old_list.len() as int] == p.next_id());
}

/// Adding a package removes no provider: what was provided stays provided, by the same
/// packages in the same order.
pub proof fn providers_only_grow(p: ProviderModel, draft: DraftModel, name: Seq<char>)
    ensures
        p.providers_of(name).is_prefix_of(p.with_draft(draft).providers_of(name)),
{
    registered_where_named(p.providers, draft.capabilities(), p.next_id(), name);
    let list = p.providers_of(name);
    assert(p.with_draft(draft).providers_of(name).subrange(0, list.len() as int) =~= list);
}

/// Adding packages adds one package for each, in their order, and no other.
pub proof fn one_package_each(p: ProviderModel, drafts: Seq<DraftModel>)
    ensures
        p.with_drafts(drafts).packages == p.packages + drafts.map_values(
            |d: DraftModel| d.package,
        ),
    decreases drafts.len(),
{
    let packages = drafts.map_values(|d: DraftModel| d.package);
    if drafts.len() == 0 {
        assert(p.packages + packages =~= p.packages);
    } else {
        let rest = drafts.drop_last();
        one_package_each(p, rest);
        assert(p.packages + packages =~= (p.packages + rest.map_values(
            |d: DraftModel| d.package,
        )).push(drafts.last().package));
    }
}

/// The first packages of a list and the next one.
pub(crate) proof fn drafts_step(p: ProviderModel, drafts: Seq<DraftModel>, i: int)
    requires
        0 <= i < drafts.len(),
    ensures
        p.with_drafts(drafts.take(i + 1)) == p.with_drafts(drafts.take(i)).with_draft(drafts[i]),
{
    assert(drafts.take(i + 1).drop_last() =~= drafts.take(i));
}

/// Adding a package leaves the versions of all others as they are.
pub proof fn versions_of_others_stay(
    m: Map<(SolvableId, Seq<char>), EvrModel>,
    id: SolvableId,
    provides: Seq<ProvideModel>,
    other: SolvableId,
    name: Seq<char>,
)
    requires
        other != id,
    ensures
        with_versions(m, id, provides).dom().contains((other, name)) == m.dom().contains(
            (other, name),
        ),
        with_versions(m, id, provides)[(other, name)] == m[(other, name)],
    decreases provides.len(),
{
    if provides.len() > 0 {
        versions_of_others_stay(m, id, provides.drop_last(), other, name);
    }
}

/// The ids below a bound that pass a test rise, and are those that pass.
proof fn passing_ids(n: nat, pass: spec_fn(SolvableId) -> bool)
    requires
        n <= 0x1_0000_0000,
    ensures
        ascending(ids_below(n).filter(pass)),
        forall|s: SolvableId| #[trigger]
            ids_below(n).filter(pass).contains(s) <==> s.0 < n && pass(s),
    decreases n,
{
    reveal(Seq::filter);
    if n == 0 {
        assert(ids_below(0).filter(pass) =~= Seq::empty());
    } else {
        let m = (n - 1) as nat;
        passing_ids(m, pass);
        let rest = ids_below(m).filter(pass);
        let list = ids_below(n).filter(pass);
        assert(ids_below(n).drop_last() =~= ids_below(m));
        let last = SolvableId(m as u32);
        assert forall|i: int| 0 <= i < rest.len() implies (#[trigger] rest[i]).0 < m by {
            assert(rest.contains(rest[i]));
        }
        assert forall|s: SolvableId| #[trigger] list.contains(s) <==> s.0 < n && pass(s) by {
            assert(list == (if pass(last) {
                rest.push(last)
            } else {
                rest
            }));
            if pass(last) {
                if rest.contains(s) {
                    assert(list[rest.index_of(s)] == s);
                }
                assert(list[rest.len() as int] == last);
                if list.contains(s) && s != last {
                    assert(rest[list.index_of(s)] == s);
                }
            }
        }
    }
}

/// Two lists of rising ids that hold the same ids are the same.
proof fn ascending_lists_agree(a: Seq<SolvableId>, b: Seq<SolvableId>)
    requires
        ascending(a),
        ascending(b),
        forall|s: SolvableId|
            #![trigger a.contains(s)]
            #![trigger b.contains(s)]
            a.contains(s) <==> b.contains(s),
    ensures
        a == b,
    decreases a.len(),
{
    if a.len() == 0 {
        if b.len() > 0 {
            assert(b.contains(b[0]));
        }
    } else {
        assert(a.contains(a.last()));
        assert(b.contains(b.last()));
        assert(a.last() == b.last());
        let x = a.drop_last();
        let y = b.drop_last();
        assert forall|s: SolvableId|
            #![trigger x.contains(s)]
            #![trigger y.contains(s)]
            x.contains(s) <==> y.contains(s) by {
            if x.contains(s) {
                assert(a[x.index_of(s)] == s);
                assert(a.contains(s));
                let k = b.index_of(s);
                assert(y[k] == s);
            }
            if y.contains(s) {
                assert(b[y.index_of(s)] == s);
                assert(b.contains(s));
                let k = a.index_of(s);
                assert(x[k] == s);
            }
        }
        ascending_lists_agree(x, y);
        assert(a =~= x.push(a.last()));
        assert(b =~= y.push(b.last()));
    }
}

/// A package is among those with a name where it is its own name, and only there.
pub proof fn named_by_themselves(p: ProviderModel, name: Seq<char>, id: SolvableId)
    requires
        p.packages.len() <= 0x1_0000_0000,
    ensures
        p.packages_named(name).contains(id) <==> id.0 < p.packages.len()
            && p.packages[id.0 as int].name == name,
        ascending(p.packages_named(name)),
{
    passing_ids(p.packages.len(), |s: SolvableId| p.packages[s.0 as int].name == name);
}

/// A rising list of the packages with a name is the list of them.
pub(crate) proof fn named_once_each(p: ProviderModel, name: Seq<char>, list: Seq<SolvableId>)
    requires
        p.packages.len() <= 0x1_0000_0000,
        ascending(list),
        forall|s: SolvableId| #[trigger]
            list.contains(s) <==> s.0 < p.packages.len() && p.packages[s.0 as int].name == name,
    ensures
        list == p.packages_named(name),
{
    passing_ids(p.packages.len(), |s: SolvableId| p.packages[s.0 as int].name == name);
    ascending_lists_agree(list, p.packages_named(name));
}

/// Every package still provides its own name after one more was added.
pub(crate) proof fn own_names_kept(p: ProviderModel, draft: DraftModel)
    requires
        p.own_names(),
    ensures
        p.with_draft(draft).own_names(),
{
    let q = p.with_draft(draft);
    assert forall|i: int| 0 <= i < q.packages.len() implies q.providers_of(
        (#[trigger] q.packages[i]).name,
    ).contains(SolvableId(i as u32)) by {
        if i < p.packages.len() {
            let name = p.packages[i].name;
            assert(q.packages[i] == p.packages[i]);
            providers_only_grow(p, draft, name);
            let list = p.providers_of(name);
            let k = list.index_of(SolvableId(i as u32));
            assert(list.contains(SolvableId(i as u32)));
            assert(q.providers_of(name).subrange(0, list.len() as int)[k] == list[k]);
            assert(q.providers_of(name)[k] == SolvableId(i as u32));
        } else {
            provides_own_name(p, draft);
        }
    }
}

/// Every package still provides its own name after providers were added for a capability.
pub(crate) proof fn own_names_kept_by_list(
    p: ProviderModel,
    name: Seq<char>,
    ids: Seq<SolvableId>,
)
    requires
        p.own_names(),
    ensures
        (ProviderModel { providers: with_provider_list(p.providers, name, ids), ..p }).own_names(),
{
    let q = ProviderModel { providers: with_provider_list(p.providers, name, ids), ..p };
    assert forall|i: int| 0 <= i < q.packages.len() implies q.providers_of(
        (#[trigger] q.packages[i]).name,
    ).contains(SolvableId(i as u32)) by {
        let own = p.packages[i].name;
        let list = p.providers_of(own);
        assert(list.contains(SolvableId(i as u32)));
        let k = list.index_of(SolvableId(i as u32));
        assert(q.providers_of(own)[k] == list[k]);
    }
}

} // verus!
