//! Querying advisories.
use vstd::prelude::*;
use vstd::string::*;
use crate::metadata::{UpdateCollectionPackage, UpdateRecord, UpdateReference};
use crate::text::{opt_view, str_eq};

verus! {

/// Which advisories are asked for. Filters that are given must all hold.
#[derive(Clone, Copy, Debug)]
pub struct AdvisoryQuery<'a> {
    /// The name of a package that the advisory names.
    pub package: Option<&'a str>,
    /// The id of a CVE that the advisory refers to.
    pub cve: Option<&'a str>,
    /// The kind of the advisory.
    pub advisory_type: Option<&'a str>,
    pub severity: Option<&'a str>,
}

/// Whether the advisory names the package.
pub open spec fn affects(a: UpdateRecord, name: Seq<char>) -> bool {
    exists|i: int, j: int|
        0 <= i < a.pkglist@.len() && 0 <= j < a.pkglist@[i].packages@.len() && (
        #[trigger] a.pkglist@[i].packages@[j]).name@ == name
}

/// Whether the advisory refers to the CVE.
pub open spec fn refers_to(a: UpdateRecord, cve: Seq<char>) -> bool {
    exists|i: int|
        0 <= i < a.references@.len() && (#[trigger] a.references@[i]).reftype@ == "cve"@
            && opt_view(a.references@[i].id) == Some(cve)
}

/// Whether the advisory names the package.
fn is_affected(a: &UpdateRecord, name: &str) -> (r: bool)
    ensures
        r == affects(*a, name@),
{
    let mut i: usize = 0;
    while i < a.pkglist.len()
        invariant
            i <= a.pkglist@.len(),
            forall|m: int, n: int|
                0 <= m < i && 0 <= n < a.pkglist@[m].packages@.len() ==> (
                #[trigger] a.pkglist@[m].packages@[n]).name@ != name@,
        decreases a.pkglist@.len() - i,
    {
        let packages: &Vec<UpdateCollectionPackage> = &a.pkglist[i].packages;
        let mut j: usize = 0;
        while j < packages.len()
            invariant
                i < a.pkglist@.len(),
                *packages == a.pkglist@[i as int].packages,
                j <= packages@.len(),
                forall|n: int| 0 <= n < j ==> (#[trigger] packages@[n]).name@ != name@,
            decreases packages@.len() - j,
        {
            if str_eq(packages[j].name.as_str(), name) {
                assert(a.pkglist@[i as int].packages@[j as int].name@ == name@);
                return true;
            }
            j = j + 1;
        }
        i = i + 1;
    }
    false
}

/// Whether the advisory refers to the CVE.
fn is_referred(a: &UpdateRecord, cve: &str) -> (r: bool)
    ensures
        r == refers_to(*a, cve@),
{
    let mut i: usize = 0;
    while i < a.references.len()
        invariant
            i <= a.references@.len(),
            forall|m: int|
                0 <= m < i ==> !((#[trigger] a.references@[m]).reftype@ == "cve"@ && opt_view(
                    a.references@[m].id,
                ) == Some(cve@)),
        decreases a.references@.len() - i,
    {
        let r: &UpdateReference = &a.references[i];
        if str_eq(r.reftype.as_str(), "cve") {
            if let Some(id) = &r.id {
                if str_eq(id.as_str(), cve) {
                    assert(a.references@[i as int].reftype@ == "cve"@);
                    return true;
                }
            }
        }
        i = i + 1;
    }
    false
}

/// Whether an advisory with the same id names the package.
pub open spec fn id_affects(records: Seq<UpdateRecord>, id: Seq<char>, name: Seq<char>) -> bool {
    exists|i: int| 0 <= i < records.len() && (#[trigger] records[i]).id@ == id && affects(
        records[i],
        name,
    )
}

/// Whether an advisory with the same id refers to the CVE.
pub open spec fn id_refers_to(records: Seq<UpdateRecord>, id: Seq<char>, cve: Seq<char>) -> bool {
    exists|i: int| 0 <= i < records.len() && (#[trigger] records[i]).id@ == id && refers_to(
        records[i],
        cve,
    )
}

/// Whether an advisory is asked for.
pub open spec fn asked_for(
    records: Seq<UpdateRecord>,
    query: AdvisoryQuery<'_>,
    a: UpdateRecord,
) -> bool {
    &&& query.package matches Some(name) ==> id_affects(records, a.id@, name@)
    &&& query.cve matches Some(cve) ==> id_refers_to(records, a.id@, cve@)
    &&& query.advisory_type matches Some(t) ==> a.update_type@ == t@
    &&& query.severity matches Some(s) ==> opt_view(a.severity) == Some(s@)
}

/// Whether an advisory is asked for.
fn is_asked_for(records: &Vec<UpdateRecord>, query: &AdvisoryQuery<'_>, a: &UpdateRecord) -> (r:
    bool)
    ensures
        r == asked_for(records@, *query, *a),
{
    if let Some(name) = query.package {
        let mut found: bool = false;
        let mut i: usize = 0;
        while i < records.len()
            invariant
                i <= records@.len(),
                found == exists|k: int|
                    0 <= k < i && (#[trigger] records@[k]).id@ == a.id@ && affects(
                        records@[k],
                        name@,
                    ),
            decreases records@.len() - i,
        {
            if str_eq(records[i].id.as_str(), a.id.as_str()) && is_affected(&records[i], name) {
                found = true;
            }
            i = i + 1;
        }
        if !found {
            return false;
        }
    }
    if let Some(cve) = query.cve {
        let mut found: bool = false;
        let mut i: usize = 0;
        while i < records.len()
            invariant
                i <= records@.len(),
                found == exists|k: int|
                    0 <= k < i && (#[trigger] records@[k]).id@ == a.id@ && refers_to(
                        records@[k],
                        cve@,
                    ),
            decreases records@.len() - i,
        {
            if str_eq(records[i].id.as_str(), a.id.as_str()) && is_referred(&records[i], cve) {
                found = true;
            }
            i = i + 1;
        }
        if !found {
            return false;
        }
    }
    if let Some(t) = query.advisory_type {
        if !str_eq(a.update_type.as_str(), t) {
            return false;
        }
    }
    if let Some(s) = query.severity {
        match &a.severity {
            Some(severity) => {
                if !str_eq(severity.as_str(), s) {
                    return false;
                }
            },
            None => {
                return false;
            },
        }
    }
    true
}

/// The values behind references.
pub open spec fn behind<A>(list: Seq<&A>) -> Seq<A> {
    list.map_values(|a: &A| *a)
}

/// The advisories that are asked for, in their order.
pub fn query_advisories<'a>(records: &'a Vec<UpdateRecord>, query: &AdvisoryQuery<'_>) -> (r: Vec<
    &'a UpdateRecord,
>)
    ensures
        behind(r@) == records@.filter(|a: UpdateRecord| asked_for(records@, *query, a)),
{
    let ghost keep = |a: UpdateRecord| asked_for(records@, *query, a);
    let mut found: Vec<&'a UpdateRecord> = Vec::new();
    let mut i: usize = 0;
    proof {
        reveal(Seq::filter);
        assert(behind(found@) =~= records@.take(0).filter(keep));
    }
    while i < records.len()
        invariant
            i <= records@.len(),
            keep == (|a: UpdateRecord| asked_for(records@, *query, a)),
            behind(found@) == records@.take(i as int).filter(keep),
        decreases records@.len() - i,
    {
        let a: &'a UpdateRecord = &records[i];
        proof {
            reveal(Seq::filter);
            assert(records@.take(i + 1).drop_last() =~= records@.take(i as int));
            assert(behind(found@.push(a)) =~= behind(found@).push(*a));
        }
        if is_asked_for(records, query, a) {
            found.push(a);
        }
        i = i + 1;
    }
    assert(records@.take(i as int) =~= records@);
    found
}

/// The first advisory with the given id.
pub fn advisory_by_id<'a>(records: &'a Vec<UpdateRecord>, id: &str) -> (r: Option<
    &'a UpdateRecord,
>)
    ensures
        match r {
            Some(a) => exists|i: int|
                0 <= i < records@.len() && #[trigger] records@[i] == *a && a.id@ == id@
                    && forall|j: int| 0 <= j < i ==> (#[trigger] records@[j]).id@ != id@,
            None => forall|i: int|
                0 <= i < records@.len() ==> (#[trigger] records@[i]).id@ != id@,
        },
{
    let mut i: usize = 0;
    while i < records.len()
        invariant
            i <= records@.len(),
            forall|j: int| 0 <= j < i ==> (#[trigger] records@[j]).id@ != id@,
        decreases records@.len() - i,
    {
        if str_eq(records[i].id.as_str(), id) {
            return Some(&records[i]);
        }
        i = i + 1;
    }
    None
}

/// Without filters all advisories are found.
pub proof fn no_filter_finds_all(records: Seq<UpdateRecord>)
    ensures
        records.filter(
            |a: UpdateRecord|
                asked_for(
                    records,
                    AdvisoryQuery { package: None, cve: None, advisory_type: None, severity: None },
                    a,
                ),
        ) == records,
{
    let keep = |a: UpdateRecord|
        asked_for(
            records,
            AdvisoryQuery { package: None, cve: None, advisory_type: None, severity: None },
            a,
        );
    filter_of_all(records, keep);
}

/// A filter that holds of every element keeps the list.
proof fn filter_of_all<A>(list: Seq<A>, keep: spec_fn(A) -> bool)
    requires
        forall|i: int| 0 <= i < list.len() ==> keep(#[trigger] list[i]),
    ensures
        list.filter(keep) == list,
    decreases list.len(),
{
    reveal(Seq::filter);
    if list.len() > 0 {
        let rest = list.drop_last();
        assert forall|i: int| 0 <= i < rest.len() implies keep(#[trigger] rest[i]) by {
            assert(rest[i] == list[i]);
        }
        filter_of_all(rest, keep);
        assert(rest.push(list.last()) =~= list);
    } else {
        assert(list.filter(keep) =~= list);
    }
}

/// Each filter narrows the result: what is found with filters is found with any one of them
/// alone.
pub proof fn filters_narrow(
    records: Seq<UpdateRecord>,
    query: AdvisoryQuery<'_>,
    a: UpdateRecord,
)
    requires
        asked_for(records, query, a),
    ensures
        asked_for(
            records,
            AdvisoryQuery { cve: None, advisory_type: None, severity: None, ..query },
            a,
        ),
        asked_for(
            records,
            AdvisoryQuery { package: None, advisory_type: None, severity: None, ..query },
            a,
        ),
        asked_for(records, AdvisoryQuery { package: None, cve: None, severity: None, ..query }, a),
        asked_for(
            records,
            AdvisoryQuery { package: None, cve: None, advisory_type: None, ..query },
            a,
        ),
{
}

} // verus!
