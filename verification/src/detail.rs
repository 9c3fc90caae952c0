//! What is shown of advisories: a listing of several, or one in detail.
use vstd::prelude::*;
use vstd::string::*;
use crate::evr::{evr_string, evr_text, EvrModel, EvrRef};
use crate::metadata::{
    all_packages, UpdateCollection, UpdateCollectionPackage, UpdateRecord, UpdateReference,
};
use crate::query::behind;
use crate::table::{padded, push_padded, wider, widest, widest_step};
use crate::text::{concat, opt_view, or_empty, str_eq, texts};

verus! {

/// The severity of an advisory, empty where it has none.
pub open spec fn severity_text(a: UpdateRecord) -> Seq<char> {
    or_empty(opt_view(a.severity))
}

/// The ids of advisories.
pub open spec fn ids_of(list: Seq<UpdateRecord>) -> Seq<Seq<char>> {
    list.map_values(|a: UpdateRecord| a.id@)
}

/// The kinds of advisories.
pub open spec fn types_of(list: Seq<UpdateRecord>) -> Seq<Seq<char>> {
    list.map_values(|a: UpdateRecord| a.update_type@)
}

/// The severities of advisories.
pub open spec fn severities_of(list: Seq<UpdateRecord>) -> Seq<Seq<char>> {
    list.map_values(|a: UpdateRecord| severity_text(a))
}

/// An advisory as a line of a listing.
pub open spec fn listing_line(a: UpdateRecord, w1: nat, w2: nat, w3: nat) -> Seq<char> {
    padded(a.id@, w1 as int) + "  "@ + padded(a.update_type@, w2 as int) + "  "@ + padded(
        severity_text(a),
        w3 as int,
    ) + "  "@ + a.title@
}

/// A listing of advisories: id, kind and severity in columns, then the title.
pub open spec fn listing(list: Seq<UpdateRecord>) -> Seq<Seq<char>> {
    list.map_values(
        |a: UpdateRecord|
            listing_line(a, widest(ids_of(list)), widest(types_of(list)), widest(severities_of(list))),
    )
}

/// The text of an optional string, or another text where there is none.
fn text_or<'a>(s: &'a Option<String>, other: &'a str) -> (r: &'a str)
    ensures
        r@ == (match opt_view(*s) {
            Some(t) => t,
            None => other@,
        }),
{
    match s {
        Some(t) => t.as_str(),
        None => other,
    }
}

/// The lines of a listing of advisories.
pub fn advisory_lines(found: &Vec<&UpdateRecord>) -> (r: Vec<String>)
    ensures
        texts(r@) == listing(behind(found@)),
{
    let ghost list = behind(found@);
    let mut w1: usize = 0;
    let mut w2: usize = 0;
    let mut w3: usize = 0;
    let mut i: usize = 0;
    proof {
        reveal_strlit("");
        assert(""@ =~= Seq::<char>::empty());
        assert(ids_of(list).take(0) =~= Seq::empty());
        assert(types_of(list).take(0) =~= Seq::empty());
        assert(severities_of(list).take(0) =~= Seq::empty());
    }
    while i < found.len()
        invariant
            i <= found@.len(),
            list == behind(found@),
            ""@ == Seq::<char>::empty(),
            w1 == widest(ids_of(list).take(i as int)),
            w2 == widest(types_of(list).take(i as int)),
            w3 == widest(severities_of(list).take(i as int)),
        decreases found@.len() - i,
    {
        proof {
            widest_step(ids_of(list), i as int);
            widest_step(types_of(list), i as int);
            widest_step(severities_of(list), i as int);
        }
        let a: &UpdateRecord = found[i];
        assert(list[i as int] == *a);
        w1 = wider(w1, a.id.as_str());
        w2 = wider(w2, a.update_type.as_str());
        w3 = wider(w3, text_or(&a.severity, ""));
        i = i + 1;
    }
    proof {
        assert(ids_of(list).take(i as int) =~= ids_of(list));
        assert(types_of(list).take(i as int) =~= types_of(list));
        assert(severities_of(list).take(i as int) =~= severities_of(list));
    }
    let mut lines: Vec<String> = Vec::new();
    let mut k: usize = 0;
    assert(texts(lines@) =~= listing(list).take(0));
    while k < found.len()
        invariant
            k <= found@.len(),
            list == behind(found@),
            ""@ == Seq::<char>::empty(),
            w1 == widest(ids_of(list)),
            w2 == widest(types_of(list)),
            w3 == widest(severities_of(list)),
            texts(lines@) == listing(list).take(k as int),
        decreases found@.len() - k,
    {
        let a: &UpdateRecord = found[k];
        assert(list[k as int] == *a);
        let mut line: String = String::new();
        push_padded(&mut line, a.id.as_str(), w1);
        line.append("  ");
        push_padded(&mut line, a.update_type.as_str(), w2);
        line.append("  ");
        push_padded(&mut line, text_or(&a.severity, ""), w3);
        line.append("  ");
        line.append(a.title.as_str());
        proof {
            assert(line@ =~= listing_line(*a, w1 as nat, w2 as nat, w3 as nat));
            assert(texts(lines@.push(line)) =~= texts(lines@).push(line@));
            assert(listing(list).take(k + 1) =~= listing(list).take(k as int).push(
                listing(list)[k as int],
            ));
        }
        lines.push(line);
        k = k + 1;
    }
    assert(listing(list).take(k as int) =~= listing(list));
    lines
}

/// A line with a date, where there is one.
pub open spec fn dated(label: Seq<char>, date: Option<String>) -> Seq<Seq<char>> {
    match date {
        Some(d) => seq![label + d@],
        None => Seq::empty(),
    }
}

/// The references to CVEs.
pub open spec fn cves(list: Seq<UpdateReference>) -> Seq<UpdateReference> {
    list.filter(|r: UpdateReference| r.reftype@ == "cve"@)
}

/// The ids of references, empty where they have none.
pub open spec fn reference_ids(list: Seq<UpdateReference>) -> Seq<Seq<char>> {
    list.map_values(|r: UpdateReference| or_empty(opt_view(r.id)))
}

/// A reference as a line.
pub open spec fn reference_line(r: UpdateReference, width: nat) -> Seq<char> {
    "  "@ + padded(or_empty(opt_view(r.id)), width as int) + "  "@ + r.href@
}

/// The section on CVEs; there is none without references to them.
pub open spec fn reference_section(list: Seq<UpdateReference>) -> Seq<Seq<char>> {
    if list.len() == 0 {
        Seq::empty()
    } else {
        seq![Seq::empty(), "References:"@] + list.map_values(
            |r: UpdateReference| reference_line(r, widest(reference_ids(list))),
        )
    }
}

/// The names of packages.
pub open spec fn package_names(list: Seq<UpdateCollectionPackage>) -> Seq<Seq<char>> {
    list.map_values(|p: UpdateCollectionPackage| p.name@)
}

/// The version of an advisory's package.
pub open spec fn package_evr(p: UpdateCollectionPackage) -> EvrModel {
    EvrModel { epoch: p.epoch@, version: p.version@, release: p.release@ }
}

/// The versions of packages, as texts.
pub open spec fn package_versions(list: Seq<UpdateCollectionPackage>) -> Seq<Seq<char>> {
    list.map_values(|p: UpdateCollectionPackage| evr_text(package_evr(p)))
}

/// An advisory's package as a line.
pub open spec fn package_line(p: UpdateCollectionPackage, w1: nat, w2: nat) -> Seq<char> {
    "  "@ + padded(p.name@, w1 as int) + "  "@ + padded(evr_text(package_evr(p)), w2 as int)
        + "  "@ + p.arch@
}

/// The section on packages; there is none without packages.
pub open spec fn package_section(list: Seq<UpdateCollectionPackage>) -> Seq<Seq<char>> {
    if list.len() == 0 {
        Seq::empty()
    } else {
        seq![Seq::empty(), "Packages:"@] + list.map_values(
            |p: UpdateCollectionPackage|
                package_line(p, widest(package_names(list)), widest(package_versions(list))),
        )
    }
}

/// An advisory in detail: id, kind and severity; the title; the dates; the CVEs; the
/// packages.
pub open spec fn detail(a: UpdateRecord) -> Seq<Seq<char>> {
    seq![
        a.id@ + "  "@ + a.update_type@ + "  "@ + (match opt_view(a.severity) {
            Some(s) => s,
            None => "None"@,
        }),
        a.title@,
    ] + dated("Issued:  "@, a.issued_date) + dated("Updated: "@, a.updated_date)
        + reference_section(cves(a.references@)) + package_section(all_packages(a.pkglist@))
}

/// Appends a line with a date, where there is one.
fn push_dated(lines: &mut Vec<String>, label: &str, date: &Option<String>)
    ensures
        texts(final(lines)@) == texts(old(lines)@) + dated(label@, *date),
{
    if let Some(d) = date {
        lines.push(concat(label, d.as_str()));
    }
    assert(texts(lines@) =~= texts(old(lines)@) + dated(label@, *date));
}

/// The references to CVEs.
fn cve_references(a: &UpdateRecord) -> (r: Vec<&UpdateReference>)
    ensures
        behind(r@) == cves(a.references@),
{
    let ghost keep = |r: UpdateReference| r.reftype@ == "cve"@;
    let mut found: Vec<&UpdateReference> = Vec::new();
    let mut i: usize = 0;
    proof {
        reveal(Seq::filter);
        assert(behind(found@) =~= a.references@.take(0).filter(keep));
    }
    while i < a.references.len()
        invariant
            i <= a.references@.len(),
            keep == (|r: UpdateReference| r.reftype@ == "cve"@),
            behind(found@) == a.references@.take(i as int).filter(keep),
        decreases a.references@.len() - i,
    {
        let r: &UpdateReference = &a.references[i];
        proof {
            reveal(Seq::filter);
            assert(a.references@.take(i + 1).drop_last() =~= a.references@.take(i as int));
            assert(behind(found@.push(r)) =~= behind(found@).push(*r));
        }
        if str_eq(r.reftype.as_str(), "cve") {
            found.push(r);
        }
        i = i + 1;
    }
    assert(a.references@.take(i as int) =~= a.references@);
    found
}

/// The packages of all collections of an advisory.
fn packages_of(a: &UpdateRecord) -> (r: Vec<&UpdateCollectionPackage>)
    ensures
        behind(r@) == all_packages(a.pkglist@),
{
    let mut found: Vec<&UpdateCollectionPackage> = Vec::new();
    let mut i: usize = 0;
    assert(a.pkglist@.take(0) =~= Seq::<UpdateCollection>::empty());
    assert(behind(found@) =~= Seq::empty());
    while i < a.pkglist.len()
        invariant
            i <= a.pkglist@.len(),
            behind(found@) == all_packages(a.pkglist@.take(i as int)),
        decreases a.pkglist@.len() - i,
    {
        let packages: &Vec<UpdateCollectionPackage> = &a.pkglist[i].packages;
        let ghost before = behind(found@);
        let mut j: usize = 0;
        assert(before + packages@.take(0) =~= before);
        while j < packages.len()
            invariant
                j <= packages@.len(),
                behind(found@) == before + packages@.take(j as int),
            decreases packages@.len() - j,
        {
            let p: &UpdateCollectionPackage = &packages[j];
            proof {
                assert(behind(found@.push(p)) =~= behind(found@).push(*p));
                assert(packages@.take(j + 1) =~= packages@.take(j as int).push(*p));
                assert(before + packages@.take(j + 1) =~= (before + packages@.take(
                    j as int,
                )).push(*p));
            }
            found.push(p);
            j = j + 1;
        }
        proof {
            assert(packages@.take(j as int) =~= packages@);
            assert(a.pkglist@.take(i + 1).drop_last() =~= a.pkglist@.take(i as int));
        }
        i = i + 1;
    }
    assert(a.pkglist@.take(i as int) =~= a.pkglist@);
    found
}

/// Appends the section on CVEs.
fn push_references(lines: &mut Vec<String>, found: &Vec<&UpdateReference>)
    ensures
        texts(final(lines)@) == texts(old(lines)@) + reference_section(behind(found@)),
{
    let ghost list = behind(found@);
    if found.len() == 0 {
        assert(texts(lines@) =~= texts(lines@) + reference_section(list));
        return ;
    }
    proof {
        reveal_strlit("");
        assert(""@ =~= Seq::<char>::empty());
        assert(reference_ids(list).take(0) =~= Seq::empty());
    }
    let mut width: usize = 0;
    let mut i: usize = 0;
    while i < found.len()
        invariant
            i <= found@.len(),
            list == behind(found@),
            ""@ == Seq::<char>::empty(),
            width == widest(reference_ids(list).take(i as int)),
        decreases found@.len() - i,
    {
        let r: &UpdateReference = found[i];
        proof {
            assert(list[i as int] == *r);
            widest_step(reference_ids(list), i as int);
        }
        width = wider(width, text_or(&r.id, ""));
        i = i + 1;
    }
    assert(reference_ids(list).take(i as int) =~= reference_ids(list));
    lines.push(String::new());
    lines.push("References:".to_owned());
    let ghost front = texts(old(lines)@) + seq![Seq::empty(), "References:"@];
    let ghost body = list.map_values(|r: UpdateReference| reference_line(r, width as nat));
    let mut k: usize = 0;
    assert(texts(lines@) =~= front + body.take(0));
    while k < found.len()
        invariant
            k <= found@.len(),
            list == behind(found@),
            ""@ == Seq::<char>::empty(),
            body == list.map_values(|r: UpdateReference| reference_line(r, width as nat)),
            texts(lines@) == front + body.take(k as int),
        decreases found@.len() - k,
    {
        let r: &UpdateReference = found[k];
        assert(list[k as int] == *r);
        let mut line: String = "  ".to_owned();
        push_padded(&mut line, text_or(&r.id, ""), width);
        line.append("  ");
        line.append(r.href.as_str());
        proof {
            assert(line@ =~= body[k as int]);
            assert(texts(lines@.push(line)) =~= texts(lines@).push(line@));
            assert(front + body.take(k + 1) =~= (front + body.take(k as int)).push(
                body[k as int],
            ));
        }
        lines.push(line);
        k = k + 1;
    }
    assert(body.take(k as int) =~= body);
    assert(texts(lines@) =~= texts(old(lines)@) + reference_section(list));
}

/// Appends the section on packages.
fn push_packages(lines: &mut Vec<String>, found: &Vec<&UpdateCollectionPackage>)
    ensures
        texts(final(lines)@) == texts(old(lines)@) + package_section(behind(found@)),
{
    let ghost list = behind(found@);
    if found.len() == 0 {
        assert(texts(lines@) =~= texts(lines@) + package_section(list));
        return ;
    }
    let mut versions: Vec<String> = Vec::new();
    let mut w1: usize = 0;
    let mut w2: usize = 0;
    let mut i: usize = 0;
    proof {
        assert(package_names(list).take(0) =~= Seq::empty());
        assert(package_versions(list).take(0) =~= Seq::empty());
        assert(texts(versions@) =~= package_versions(list).take(0));
    }
    while i < found.len()
        invariant
            i <= found@.len(),
            list == behind(found@),
            w1 == widest(package_names(list).take(i as int)),
            w2 == widest(package_versions(list).take(i as int)),
            texts(versions@) == package_versions(list).take(i as int),
        decreases found@.len() - i,
    {
        let p: &UpdateCollectionPackage = found[i];
        let evr: String = evr_string(
            EvrRef {
                epoch: p.epoch.as_str(),
                version: p.version.as_str(),
                release: p.release.as_str(),
            },
        );
        proof {
            assert(list[i as int] == *p);
            widest_step(package_names(list), i as int);
            widest_step(package_versions(list), i as int);
            assert(texts(versions@.push(evr)) =~= package_versions(list).take(i + 1));
        }
        w1 = wider(w1, p.name.as_str());
        w2 = wider(w2, evr.as_str());
        versions.push(evr);
        i = i + 1;
    }
    proof {
        assert(package_names(list).take(i as int) =~= package_names(list));
        assert(package_versions(list).take(i as int) =~= package_versions(list));
    }
    lines.push(String::new());
    lines.push("Packages:".to_owned());
    let ghost front = texts(old(lines)@) + seq![Seq::empty(), "Packages:"@];
    let ghost body = list.map_values(
        |p: UpdateCollectionPackage| package_line(p, w1 as nat, w2 as nat),
    );
    let mut k: usize = 0;
    assert(texts(lines@) =~= front + body.take(0));
    while k < found.len()
        invariant
            k <= found@.len(),
            list == behind(found@),
            texts(versions@) == package_versions(list),
            versions@.len() == found@.len(),
            body == list.map_values(
                |p: UpdateCollectionPackage| package_line(p, w1 as nat, w2 as nat),
            ),
            texts(lines@) == front + body.take(k as int),
        decreases found@.len() - k,
    {
        let p: &UpdateCollectionPackage = found[k];
        proof {
            assert(list[k as int] == *p);
            assert(texts(versions@)[k as int] == versions@[k as int]@);
            assert(package_versions(list)[k as int] == evr_text(package_evr(*p)));
        }
        let mut line: String = "  ".to_owned();
        push_padded(&mut line, p.name.as_str(), w1);
        line.append("  ");
        push_padded(&mut line, versions[k].as_str(), w2);
        line.append("  ");
        line.append(p.arch.as_str());
        proof {
            assert(line@ =~= body[k as int]);
            assert(texts(lines@.push(line)) =~= texts(lines@).push(line@));
            assert(front + body.take(k + 1) =~= (front + body.take(k as int)).push(
                body[k as int],
            ));
        }
        lines.push(line);
        k = k + 1;
    }
    assert(body.take(k as int) =~= body);
    assert(texts(lines@) =~= texts(old(lines)@) + package_section(list));
}

/// The lines that show an advisory in detail.
pub fn advisory_detail(a: &UpdateRecord) -> (r: Vec<String>)
    ensures
        texts(r@) == detail(*a),
{
    let mut lines: Vec<String> = Vec::new();
    let mut head: String = concat(a.id.as_str(), "  ");
    head.append(a.update_type.as_str());
    head.append("  ");
    head.append(text_or(&a.severity, "None"));
    let ghost first = head@;
    lines.push(head);
    lines.push(a.title.clone());
    assert(texts(lines@) =~= seq![first, a.title@]);
    push_dated(&mut lines, "Issued:  ", &a.issued_date);
    push_dated(&mut lines, "Updated: ", &a.updated_date);
    push_references(&mut lines, &cve_references(a));
    push_packages(&mut lines, &packages_of(a));
    assert(texts(lines@) =~= detail(*a));
    lines
}

} // verus!
