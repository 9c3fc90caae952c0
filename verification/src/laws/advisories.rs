//! What groups and advisories become, and which advisories a query finds.
use vstd::prelude::*;
use crate::evr::{order, EvrModel, VersionOrder};
use crate::metadata::{
    all_packages, CompsGroup, CompsPackageReq, GroupModel, UpdateCollection,
    UpdateCollectionPackage, UpdateRecord,
};
use crate::options::GroupInstallOptions;
use crate::package::{RequirementModel, VersionRelation};
use crate::query::{affects, asked_for, behind, refers_to, AdvisoryQuery};
use crate::updateinfo::{holds_advisory, AdvisoryModel};
use crate::virtuals::{
    advisories_size, advisory_draft, advisory_drafts, constrains, constraint, constraints,
    group_draft, group_drafts, group_requirements, groups_size, selected,
};

verus! {

/// An entry of a group becomes a requirement where it depends on no other package and is
/// `mandatory`, `default` or `optional` while the options ask for entries of that kind, and
/// nowhere else.
pub proof fn selected_by_kind(p: CompsPackageReq, options: GroupInstallOptions)
    ensures
        selected(p, options) <==> p.requires is None && {
            ||| p.reqtype@ == seq!['m', 'a', 'n', 'd', 'a', 't', 'o', 'r', 'y']
                && options.include_mandatory
            ||| p.reqtype@ == seq!['d', 'e', 'f', 'a', 'u', 'l', 't'] && options.include_default
            ||| p.reqtype@ == seq!['o', 'p', 't', 'i', 'o', 'n', 'a', 'l']
                && options.include_optional
        },
{
    reveal_strlit("mandatory");
    reveal_strlit("default");
    reveal_strlit("optional");
    assert("mandatory"@ =~= seq!['m', 'a', 'n', 'd', 'a', 't', 'o', 'r', 'y']);
    assert("default"@ =~= seq!['d', 'e', 'f', 'a', 'u', 'l', 't']);
    assert("optional"@ =~= seq!['o', 'p', 't', 'i', 'o', 'n', 'a', 'l']);
    assert("mandatory"@.len() == 9 && "default"@.len() == 7 && "optional"@.len() == 8);
}

/// The requirements of a group come entry by entry, in the order of the entries: of a selected
/// entry its name for any version, of another nothing.
pub proof fn group_requires_in_order(
    a: Seq<CompsPackageReq>,
    b: Seq<CompsPackageReq>,
    p: CompsPackageReq,
    options: GroupInstallOptions,
)
    ensures
        group_requirements(a + b, options) == group_requirements(a, options) + group_requirements(
            b,
            options,
        ),
        !selected(p, options) ==> group_requirements(seq![p], options).len() == 0,
        selected(p, options) ==> group_requirements(seq![p], options).len() == 1
            && group_requirements(seq![p], options)[0].name == p.name@ && group_requirements(
            seq![p],
            options,
        )[0].flags is None,
{
    let keep = |x: CompsPackageReq| selected(x, options);
    let f = |x: CompsPackageReq| RequirementModel::unversioned(x.name@);
    Seq::filter_distributes_over_add(a, b, keep);
    assert((a.filter(keep) + b.filter(keep)).map_values(f) =~= a.filter(keep).map_values(f)
        + b.filter(keep).map_values(f));
    reveal_with_fuel(Seq::filter, 2);
    assert(seq![p].drop_last() =~= Seq::empty());
}

/// The package of a group is `@` and the group's id, version `0:1.0-1`, for all architectures,
/// in the group's repository. It requires what the group requires and has no other dependency;
/// it provides nothing but its name.
pub proof fn package_of_a_group(group: CompsGroup, options: GroupInstallOptions, repo_id: usize)
    ensures
        ({
            let d = group_draft(group, options, repo_id);
            &&& d.package.name.len() == group.id@.len() + 1
            &&& d.package.name[0] == '@'
            &&& d.package.name.skip(1) == group.id@
            &&& d.package.evr.epoch == seq!['0']
            &&& d.package.evr.version == seq!['1', '.', '0']
            &&& d.package.evr.release == seq!['1']
            &&& d.package.arch == seq!['n', 'o', 'a', 'r', 'c', 'h']
            &&& d.package.repo_id == repo_id
            &&& d.package.requires == group_requirements(group.packages@, options)
            &&& d.package.conflicts.len() == 0
            &&& d.package.obsoletes.len() == 0
            &&& d.package.recommends.len() == 0
            &&& d.package.suggests.len() == 0
            &&& d.package.supplements.len() == 0
            &&& d.package.enhances.len() == 0
            &&& d.provides.len() == 0
            &&& d.files.len() == 0
        }),
{
    reveal_strlit("0");
    reveal_strlit("1.0");
    reveal_strlit("1");
    reveal_strlit("noarch");
    let d = group_draft(group, options, repo_id);
    assert(d.package.name.skip(1) =~= group.id@);
    assert("0"@ =~= seq!['0']);
    assert("1.0"@ =~= seq!['1', '.', '0']);
    assert("1"@ =~= seq!['1']);
    assert("noarch"@ =~= seq!['n', 'o', 'a', 'r', 'c', 'h']);
}

/// The package of an advisory is `patch:` and the advisory's id, for all architectures, in the
/// advisory's repository. Its version is the advisory's, `0` where it has none, with epoch `0`
/// and release `1`. What it asks of other packages stands among its conflicts; it has no other
/// dependency, and provides nothing but its name.
pub proof fn package_of_an_advisory(a: UpdateRecord, repo_id: usize)
    ensures
        ({
            let d = advisory_draft(a, repo_id);
            &&& d.package.name.len() == a.id@.len() + 6
            &&& d.package.name.take(6) == seq!['p', 'a', 't', 'c', 'h', ':']
            &&& d.package.name.skip(6) == a.id@
            &&& d.package.evr.epoch == seq!['0']
            &&& a.version@.len() > 0 ==> d.package.evr.version == a.version@
            &&& a.version@.len() == 0 ==> d.package.evr.version == seq!['0']
            &&& d.package.evr.release == seq!['1']
            &&& d.package.arch == seq!['n', 'o', 'a', 'r', 'c', 'h']
            &&& d.package.repo_id == repo_id
            &&& d.package.conflicts == constraints(all_packages(a.pkglist@))
            &&& d.package.requires.len() == 0
            &&& d.package.obsoletes.len() == 0
            &&& d.package.recommends.len() == 0
            &&& d.package.suggests.len() == 0
            &&& d.package.supplements.len() == 0
            &&& d.package.enhances.len() == 0
            &&& d.provides.len() == 0
            &&& d.files.len() == 0
        }),
{
    reveal_strlit("patch:");
    reveal_strlit("0");
    reveal_strlit("1");
    reveal_strlit("noarch");
    let d = advisory_draft(a, repo_id);
    assert(d.package.name.take(6) =~= seq!['p', 'a', 't', 'c', 'h', ':']);
    assert(d.package.name.skip(6) =~= a.id@);
    assert("0"@ =~= seq!['0']);
    assert("1"@ =~= seq!['1']);
    assert("noarch"@ =~= seq!['n', 'o', 'a', 'r', 'c', 'h']);
}

/// An entry of an advisory asks something of other packages unless it has no name or is a
/// source package. It then asks of the package that it names a version that is not below the
/// fixed one, an empty epoch read as `0`.
pub proof fn entry_asks_for_the_fix(p: UpdateCollectionPackage, evr: EvrModel)
    ensures
        constrains(p) <==> p.name@.len() != 0 && p.arch@ != seq!['s', 'r', 'c'],
        constraint(p).name == p.name@,
        constraint(p).flags == Some(VersionRelation::GE),
        p.epoch@.len() == 0 ==> (constraint(p).accepts(evr) <==> order(
            evr,
            EvrModel { epoch: seq!['0'], version: p.version@, release: p.release@ },
        ) != VersionOrder::Less),
        p.epoch@.len() > 0 ==> (constraint(p).accepts(evr) <==> order(
            evr,
            EvrModel { epoch: p.epoch@, version: p.version@, release: p.release@ },
        ) != VersionOrder::Less),
        constraint(p).version == Some(p.version@),
        !constraint(p).preinstall,
{
    reveal_strlit("src");
    reveal_strlit("0");
    assert("src"@ =~= seq!['s', 'r', 'c']);
    assert("0"@ =~= seq!['0']);
    if p.release@.len() == 0 {
        assert(p.release@ =~= Seq::<char>::empty());
    }
}

/// What an advisory asks comes entry by entry, in the order of the entries; an entry that asks
/// nothing is passed over.
pub proof fn asked_in_order(
    a: Seq<UpdateCollectionPackage>,
    b: Seq<UpdateCollectionPackage>,
    p: UpdateCollectionPackage,
)
    ensures
        constraints(a + b) == constraints(a) + constraints(b),
        constrains(p) ==> constraints(seq![p]) == seq![constraint(p)],
        !constrains(p) ==> constraints(seq![p]).len() == 0,
{
    let keep = |x: UpdateCollectionPackage| constrains(x);
    let f = |x: UpdateCollectionPackage| constraint(x);
    Seq::filter_distributes_over_add(a, b, keep);
    assert((a.filter(keep) + b.filter(keep)).map_values(f) =~= a.filter(keep).map_values(f)
        + b.filter(keep).map_values(f));
    reveal_with_fuel(Seq::filter, 2);
    assert(seq![p].drop_last() =~= Seq::empty());
    if constrains(p) {
        assert(constraints(seq![p]) =~= seq![constraint(p)]);
    }
}

/// The packages of an advisory are those of its collections, collection by collection.
pub proof fn packages_collection_by_collection(
    a: Seq<UpdateCollection>,
    b: Seq<UpdateCollection>,
    c: UpdateCollection,
)
    ensures
        all_packages(a + b) == all_packages(a) + all_packages(b),
        all_packages(seq![c]) == c.packages@,
        all_packages(Seq::empty()).len() == 0,
    decreases b.len(),
{
    reveal_with_fuel(all_packages, 2);
    assert(seq![c].drop_last() =~= Seq::empty());
    if b.len() == 0 {
        assert(a + b =~= a);
        assert(all_packages(a) + all_packages(b) =~= all_packages(a));
    } else {
        packages_collection_by_collection(a, b.drop_last(), c);
        assert((a + b).drop_last() =~= a + b.drop_last());
        assert(all_packages(a) + all_packages(b.drop_last()) + b.last().packages@
            =~= all_packages(a) + (all_packages(b.drop_last()) + b.last().packages@));
    }
}

/// What is asked of a package that an advisory names holds wherever the entry stands: in any
/// collection and at any place.
pub proof fn every_collection_asks(a: UpdateRecord, i: int, j: int, repo_id: usize)
    requires
        0 <= i < a.pkglist@.len(),
        0 <= j < a.pkglist@[i].packages@.len(),
        a.pkglist@[i].packages@[j].name@.len() > 0,
        a.pkglist@[i].packages@[j].arch@ != seq!['s', 'r', 'c'],
    ensures
        advisory_draft(a, repo_id).package.conflicts.contains(
            constraint(a.pkglist@[i].packages@[j]),
        ),
{
    let p = a.pkglist@[i].packages@[j];
    let list = a.pkglist@;
    let all = all_packages(list);
    reveal_strlit("src");
    assert("src"@ =~= seq!['s', 'r', 'c']);
    let front = list.take(i);
    let back = list.skip(i + 1);
    assert(list =~= front + (seq![list[i]] + back));
    packages_collection_by_collection(front, seq![list[i]] + back, list[i]);
    packages_collection_by_collection(seq![list[i]], back, list[i]);
    let at = all_packages(front).len() + j;
    assert(all[at] == p);
    let keep = |x: UpdateCollectionPackage| constrains(x);
    all.lemma_filter_contains(keep, at);
    let k = all.filter(keep).index_of(p);
    assert(constraints(all)[k] == constraint(p));
}

/// Documents are taken entry by entry: each group and each advisory becomes its own package,
/// at its own place.
pub proof fn one_draft_each(
    groups: Seq<CompsGroup>,
    advisories: Seq<UpdateRecord>,
    options: GroupInstallOptions,
    repo_id: usize,
    i: int,
)
    ensures
        group_drafts(groups, options, repo_id).len() == groups.len(),
        0 <= i < groups.len() ==> group_drafts(groups, options, repo_id)[i] == group_draft(
            groups[i],
            options,
            repo_id,
        ),
        advisory_drafts(advisories, repo_id).len() == advisories.len(),
        0 <= i < advisories.len() ==> advisory_drafts(advisories, repo_id)[i] == advisory_draft(
            advisories[i],
            repo_id,
        ),
{
}

/// The room that groups and advisories need is the sum of what each needs: one value for each
/// member of a group and two for its package, four for each package of an advisory and two for
/// its own.
pub proof fn room_adds_up(
    a: Seq<CompsGroup>,
    b: Seq<CompsGroup>,
    g: CompsGroup,
    x: Seq<UpdateRecord>,
    y: Seq<UpdateRecord>,
    u: UpdateRecord,
)
    ensures
        groups_size(a + b) == groups_size(a) + groups_size(b),
        groups_size(seq![g]) == g.packages@.len() + 2,
        advisories_size(x + y) == advisories_size(x) + advisories_size(y),
        advisories_size(seq![u]) == 4 * all_packages(u.pkglist@).len() + 2,
    decreases b.len() + y.len(),
{
    reveal_with_fuel(groups_size, 2);
    reveal_with_fuel(advisories_size, 2);
    assert(seq![g].drop_last() =~= Seq::empty());
    assert(seq![u].drop_last() =~= Seq::empty());
    if b.len() > 0 {
        room_adds_up(a, b.drop_last(), g, x, y, u);
        assert((a + b).drop_last() =~= a + b.drop_last());
    } else {
        assert(a + b =~= a);
    }
    if y.len() > 0 {
        room_adds_up(a, b, g, x, y.drop_last(), u);
        assert((x + y).drop_last() =~= x + y.drop_last());
    } else {
        assert(x + y =~= x);
    }
}

/// Whether an advisory names a package at a place.
pub open spec fn named_at(a: UpdateRecord, i: int, j: int, name: Seq<char>) -> bool {
    &&& 0 <= i < a.pkglist@.len()
    &&& 0 <= j < a.pkglist@[i].packages@.len()
    &&& a.pkglist@[i].packages@[j].name@ == name
}

/// Whether an advisory refers to a CVE at a place.
pub open spec fn referred_at(a: UpdateRecord, i: int, cve: Seq<char>) -> bool {
    &&& 0 <= i < a.references@.len()
    &&& a.references@[i].reftype@ == seq!['c', 'v', 'e']
    &&& a.references@[i].id matches Some(t) && t@ == cve
}

/// Whether an advisory of a list with a given id names a package.
pub open spec fn named_under(records: Seq<UpdateRecord>, id: Seq<char>, name: Seq<char>) -> bool {
    exists|k: int, i: int, j: int|
        0 <= k < records.len() && records[k].id@ == id && #[trigger] named_at(
            records[k],
            i,
            j,
            name,
        )
}

/// Whether an advisory of a list with a given id refers to a CVE.
pub open spec fn referred_under(
    records: Seq<UpdateRecord>,
    id: Seq<char>,
    cve: Seq<char>,
) -> bool {
    exists|k: int, i: int|
        0 <= k < records.len() && records[k].id@ == id && #[trigger] referred_at(
            records[k],
            i,
            cve,
        )
}

/// An advisory affects a package where it names it in any collection at any place; it refers to
/// a CVE where one of its references, at any place, is of that kind and has that id.
proof fn affected_where_named(a: UpdateRecord, name: Seq<char>)
    ensures
        affects(a, name) <==> exists|i: int, j: int| #[trigger] named_at(a, i, j, name),
        refers_to(a, name) <==> exists|i: int| #[trigger] referred_at(a, i, name),
{
    reveal_strlit("cve");
    assert("cve"@ =~= seq!['c', 'v', 'e']);
    if affects(a, name) {
        let (i, j) = choose|i: int, j: int|
            0 <= i < a.pkglist@.len() && 0 <= j < a.pkglist@[i].packages@.len() && (
            #[trigger] a.pkglist@[i].packages@[j]).name@ == name;
        assert(named_at(a, i, j, name));
    }
    if exists|i: int, j: int| #[trigger] named_at(a, i, j, name) {
        let (i, j) = choose|i: int, j: int| #[trigger] named_at(a, i, j, name);
        assert(a.pkglist@[i].packages@[j].name@ == name);
    }
    if refers_to(a, name) {
        let i = choose|i: int|
            0 <= i < a.references@.len() && (#[trigger] a.references@[i]).reftype@ == "cve"@
                && crate::text::opt_view(a.references@[i].id) == Some(name);
        assert(referred_at(a, i, name));
    }
    if exists|i: int| #[trigger] referred_at(a, i, name) {
        let i = choose|i: int| #[trigger] referred_at(a, i, name);
        assert(a.references@[i].reftype@ == "cve"@);
    }
}

/// A query finds an advisory where all of its filters that are given hold, and only there: some
/// advisory with the same id names the package, some advisory with the same id refers to the
/// CVE, the kind is the one asked for, and so is the severity.
pub proof fn found_where_all_filters_hold(
    records: Seq<UpdateRecord>,
    query: AdvisoryQuery<'_>,
    a: UpdateRecord,
)
    ensures
        records.filter(|x: UpdateRecord| asked_for(records, query, x)).contains(a) <==> {
            &&& records.contains(a)
            &&& query.package matches Some(name) ==> named_under(records, a.id@, name@)
            &&& query.cve matches Some(cve) ==> referred_under(records, a.id@, cve@)
            &&& query.advisory_type matches Some(t) ==> a.update_type@ == t@
            &&& query.severity matches Some(s) ==> a.severity is Some && a.severity->0@ == s@
        },
{
    let keep = |x: UpdateRecord| asked_for(records, query, x);
    let found = records.filter(keep);
    if found.contains(a) {
        let k = found.index_of(a);
        records.lemma_filter_pred(keep, k);
        records.lemma_filter_contains_rev(keep, a);
    }
    if records.contains(a) && asked_for(records, query, a) {
        let k = records.index_of(a);
        records.lemma_filter_contains(keep, k);
    }
    if let Some(name) = query.package {
        under_the_same_id(records, a.id@, name@);
    }
    if let Some(cve) = query.cve {
        under_the_same_id(records, a.id@, cve@);
    }
}

/// Whether an id affects a package or refers to a CVE is asked of all advisories with that id.
proof fn under_the_same_id(records: Seq<UpdateRecord>, id: Seq<char>, name: Seq<char>)
    ensures
        crate::query::id_affects(records, id, name) <==> named_under(records, id, name),
        crate::query::id_refers_to(records, id, name) <==> referred_under(records, id, name),
{
    assert forall|k: int| 0 <= k < records.len() implies (affects(#[trigger] records[k], name)
        <==> exists|i: int, j: int| #[trigger] named_at(records[k], i, j, name)) && (refers_to(
        records[k],
        name,
    ) <==> exists|i: int| #[trigger] referred_at(records[k], i, name)) by {
        affected_where_named(records[k], name);
    }
}

/// What is found stands behind the references that are handed out, one for one.
pub proof fn found_one_for_one(list: Seq<&UpdateRecord>, i: int)
    ensures
        behind(list).len() == list.len(),
        0 <= i < list.len() ==> behind(list)[i] == *list[i],
{
}

/// Of an advisory that was read from a document id and packages are kept, in one collection:
/// for each package its name, epoch, version, release and architecture, in their order. Nothing
/// else is made up.
pub proof fn read_advisory_keeps(record: UpdateRecord, a: AdvisoryModel, i: int)
    requires
        holds_advisory(record, a),
    ensures
        record.id@ == a.id,
        record.pkglist@.len() == 1,
        record.pkglist@[0].packages@.len() == a.packages.len(),
        0 <= i < a.packages.len() ==> {
            let p = record.pkglist@[0].packages@[i];
            &&& p.name@ == a.packages[i].name
            &&& p.epoch@ == a.packages[i].epoch
            &&& p.version@ == a.packages[i].version
            &&& p.release@ == a.packages[i].release
            &&& p.arch@ == a.packages[i].arch
            &&& p.filename@.len() == 0
            &&& !p.reboot_suggested && !p.restart_suggested && !p.relogin_suggested
            &&& p.src is None && p.checksum is None
        },
        record.version@.len() == 0,
        record.update_type@.len() == 0,
        record.severity is None,
        record.references@.len() == 0,
        record.title@.len() == 0,
        record.issued_date is None && record.updated_date is None,
{
    assert(crate::updateinfo::nevras(record.pkglist@[0].packages@).len() == a.packages.len());
    if 0 <= i < a.packages.len() {
        let p = record.pkglist@[0].packages@[i];
        assert(crate::updateinfo::nevras(record.pkglist@[0].packages@)[i] == p.nevra());
        assert(p.states_nevra_only());
    }
}

/// A group of which nothing was read states nothing. A group is read back with the texts and
/// flags it was written with, its members in their order.
pub proof fn group_keeps_its_texts(g: CompsGroup, i: int)
    ensures
        GroupModel::blank().id.len() == 0,
        GroupModel::blank().name.len() == 0,
        GroupModel::blank().description.len() == 0,
        GroupModel::blank().packages.len() == 0,
        GroupModel::blank().name_by_lang.len() == 0,
        GroupModel::blank().desc_by_lang.len() == 0,
        !GroupModel::blank().default && !GroupModel::blank().uservisible
            && !GroupModel::blank().biarchonly,
        GroupModel::blank().langonly is None && GroupModel::blank().display_order is None,
        g@.id == g.id@,
        g@.name == g.name@,
        g@.description == g.description@,
        g@.default == g.default,
        g@.uservisible == g.uservisible,
        g@.biarchonly == g.biarchonly,
        g@.display_order == g.display_order,
        g@.langonly is Some == g.langonly is Some,
        g.langonly matches Some(t) ==> g@.langonly == Some(t@),
        g@.packages.len() == g.packages@.len(),
        0 <= i < g.packages@.len() ==> {
            let m = g@.packages[i];
            &&& m.name == g.packages@[i].name@
            &&& m.reqtype == g.packages@[i].reqtype@
            &&& m.basearchonly == g.packages@[i].basearchonly
            &&& m.requires is Some == g.packages@[i].requires is Some
            &&& g.packages@[i].requires matches Some(t) ==> m.requires == Some(t@)
        },
        g@.name_by_lang.len() == g.name_by_lang@.len(),
        0 <= i < g.name_by_lang@.len() ==> g@.name_by_lang[i] == (
            g.name_by_lang@[i].0@,
            g.name_by_lang@[i].1@,
        ),
        g@.desc_by_lang.len() == g.desc_by_lang@.len(),
        0 <= i < g.desc_by_lang@.len() ==> g@.desc_by_lang[i] == (
            g.desc_by_lang@[i].0@,
            g.desc_by_lang@[i].1@,
        ),
{
}

} // verus!
