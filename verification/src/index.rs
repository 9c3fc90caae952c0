//! The index of capabilities: from name ids, by which it is kept, to names, by which it is
//! understood.
use vstd::prelude::*;
use crate::evr::EvrModel;
use crate::model::with_provider_list;
use crate::package::{NameId, ProvidesVersion, SolvableId};
use crate::pool::extended;
use crate::provides::ProvidesMap;

verus! {

/// Whether the names hold one with the given id.
pub open spec fn holds(names: Seq<Seq<char>>, id: NameId) -> bool {
    id.0 < names.len()
}

/// The name with the given id.
pub open spec fn text_of(names: Seq<Seq<char>>, id: NameId) -> Seq<char> {
    names[id.0 as int]
}

/// One number for a package and a capability.
pub open spec fn version_key(solvable: SolvableId, name: NameId) -> u64 {
    (solvable.0 * 0x1_0000_0000 + name.0) as u64
}

/// Whether the name is among the names.
pub open spec fn is_named(names: Seq<Seq<char>>, name: Seq<char>) -> bool {
    exists|id: NameId| holds(names, id) && #[trigger] text_of(names, id) == name
}

/// The id of a name that is among the names.
pub open spec fn named(names: Seq<Seq<char>>, name: Seq<char>) -> NameId {
    choose|id: NameId| holds(names, id) && #[trigger] text_of(names, id) == name
}

/// The providers of each capability, by its name.
pub open spec fn providers_by_name(names: Seq<Seq<char>>, map: ProvidesMap) -> Map<
    Seq<char>,
    Seq<SolvableId>,
> {
    Map::new(
        |name: Seq<char>| is_named(names, name) && map.of(named(names, name)).len() > 0,
        |name: Seq<char>| map.of(named(names, name)),
    )
}

/// The stated versions, by package and capability name.
pub open spec fn versions_by_name(
    names: Seq<Seq<char>>,
    versions: Map<u64, ProvidesVersion>,
) -> Map<
    (SolvableId, Seq<char>),
    EvrModel,
> {
    Map::new(
        |k: (SolvableId, Seq<char>)|
            is_named(names, k.1) && versions.dom().contains(version_key(k.0, named(names, k.1))),
        |k: (SolvableId, Seq<char>)| versions[version_key(k.0, named(names, k.1))]@,
    )
}

/// Whether all that the index holds is about the given names and the first `count`
/// packages.
pub open spec fn index_valid(
    names: Seq<Seq<char>>,
    count: nat,
    map: ProvidesMap,
    versions: Map<u64, ProvidesVersion>,
) -> bool {
    &&& forall|id: NameId| !holds(names, id) ==> (#[trigger] map.of(id)).len() == 0
    &&& forall|id: NameId, i: int|
        0 <= i < map.of(id).len() ==> (#[trigger] map.of(id)[i]).0 < count
    &&& forall|s: SolvableId, n: NameId|
        versions.dom().contains(#[trigger] version_key(s, n)) ==> s.0 < count
            && holds(names, n)
}

/// A name id is the id of its name.
pub(crate) proof fn named_by_id(names: Seq<Seq<char>>, id: NameId)
    requires
        names.no_duplicates(),
        holds(names, id),
    ensures
        is_named(names, text_of(names, id)),
        named(names, text_of(names, id)) == id,
{
    let other = named(names, text_of(names, id));
    assert(holds(names, other) && text_of(names, other) == text_of(names, id));
    assert(names[other.0 as int] == names[id.0 as int]);
}

/// The number for a package and a capability tells both.
pub(crate) proof fn version_key_injective(s1: SolvableId, n1: NameId, s2: SolvableId, n2: NameId)
    ensures
        version_key(s1, n1) == version_key(s2, n2) ==> s1 == s2 && n1 == n2,
{
}

/// The index means the same when names and packages were added.
pub(crate) proof fn index_kept(
    base: Seq<Seq<char>>,
    names: Seq<Seq<char>>,
    n: int,
    count: nat,
    grown_count: nat,
    map: ProvidesMap,
    versions: Map<u64, ProvidesVersion>,
)
    requires
        base.no_duplicates(),
        names.no_duplicates(),
        extended(base, names, n),
        count <= grown_count,
        index_valid(base, count, map, versions),
    ensures
        index_valid(names, grown_count, map, versions),
        providers_by_name(names, map) == providers_by_name(base, map),
        versions_by_name(names, versions) == versions_by_name(base, versions),
{
    assert forall|name: Seq<char>|
        is_named(base, name) implies is_named(names, name) && #[trigger] named(names, name) == named(
        base,
        name,
    ) by {
        let id = named(base, name);
        assert(names[id.0 as int] == base[id.0 as int]);
        named_by_id(names, id);
    }
    assert forall|name: Seq<char>| !is_named(base, name) && is_named(names, name) implies !(
    #[trigger] holds(base, named(names, name))) by {
        let id = named(names, name);
        if holds(base, id) {
            assert(names[id.0 as int] == base[id.0 as int]);
            assert(text_of(base, id) == name);
        }
    }
    let p1 = providers_by_name(base, map);
    let p2 = providers_by_name(names, map);
    assert forall|name: Seq<char>| p1.dom().contains(name) == p2.dom().contains(name) by {
        if is_named(base, name) {
            assert(named(names, name) == named(base, name));
        } else if is_named(names, name) {
            assert(!holds(base, named(names, name)));
        }
    }
    assert(p1 =~= p2);
    let v1 = versions_by_name(base, versions);
    let v2 = versions_by_name(names, versions);
    assert forall|k: (SolvableId, Seq<char>)| v1.dom().contains(k) == v2.dom().contains(k) by {
        if is_named(base, k.1) {
            assert(named(names, k.1) == named(base, k.1));
        } else if is_named(names, k.1) {
            assert(!holds(base, named(names, k.1)));
            let key = version_key(k.0, named(names, k.1));
            assert(!versions.dom().contains(key));
        }
    }
    assert(v1 =~= v2);
}

/// Registering providers for a name id registers them for its name.
pub(crate) proof fn providers_registered(
    names: Seq<Seq<char>>,
    map: ProvidesMap,
    grown: ProvidesMap,
    id: NameId,
    ids: Seq<SolvableId>,
)
    requires
        names.no_duplicates(),
        holds(names, id),
        ids.len() > 0,
        grown.of(id) == map.of(id) + ids,
        forall|other: NameId| other != id ==> #[trigger] grown.of(other) == map.of(other),
    ensures
        providers_by_name(names, grown) == with_provider_list(
            providers_by_name(names, map),
            text_of(names, id),
            ids,
        ),
{
    let name = text_of(names, id);
    named_by_id(names, id);
    let p1 = with_provider_list(providers_by_name(names, map), name, ids);
    let p2 = providers_by_name(names, grown);
    assert forall|n: Seq<char>| is_named(names, n) && n != name implies #[trigger] grown.of(
        named(names, n),
    ) == map.of(named(names, n)) by {
        assert(text_of(names, named(names, n)) == n);
    }
    assert forall|n: Seq<char>| p1.dom().contains(n) == p2.dom().contains(n) by {
        if is_named(names, n) && n != name {
            assert(grown.of(named(names, n)) == map.of(named(names, n)));
        }
    }
    if map.of(id).len() == 0 {
        assert(map.of(id) + ids =~= ids);
        assert(Seq::<SolvableId>::empty() + ids =~= ids);
    }
    assert(p1[name] =~= p2[name]);
    assert(p1 =~= p2);
}

/// Recording a version for a name id records it for its name.
pub(crate) proof fn version_recorded(
    names: Seq<Seq<char>>,
    versions: Map<u64, ProvidesVersion>,
    solvable: SolvableId,
    id: NameId,
    version: ProvidesVersion,
)
    requires
        names.no_duplicates(),
        holds(names, id),
    ensures
        versions_by_name(names, versions.insert(version_key(solvable, id), version))
            == versions_by_name(names, versions).insert((solvable, text_of(names, id)), version@),
{
    let name = text_of(names, id);
    named_by_id(names, id);
    let grown = versions.insert(version_key(solvable, id), version);
    let v1 = versions_by_name(names, versions).insert((solvable, name), version@);
    let v2 = versions_by_name(names, grown);
    assert forall|k: (SolvableId, Seq<char>)|
        v1.dom().contains(k) == v2.dom().contains(k) && (v1.dom().contains(k) ==> v1[k]
            == v2[k]) by {
        if is_named(names, k.1) {
            let other = named(names, k.1);
            assert(text_of(names, other) == k.1);
            version_key_injective(solvable, id, k.0, other);
        }
    }
    assert(v1 =~= v2);
}

} // verus!
