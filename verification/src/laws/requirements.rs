//! What a dependency means, from its texts to the versions that meet it.
use vstd::prelude::*;
use crate::evr::{evr_order, evr_text, order, same_evr, EvrModel, EvrRef, VersionOrder};
use crate::package::{
    DependencySpec, ProvidesVersion, RequirementModel, RequirementRef, RequirementType,
    VersionRelation,
};
use crate::text::{begins_with, occurs_at, occurs_in, or_empty};

verus! {

/// A text that may be missing, read as empty where it is.
pub open spec fn stated(text: Option<&str>) -> Seq<char> {
    match text {
        Some(t) => t@,
        None => Seq::empty(),
    }
}

/// The version that a dependency states, part by part.
pub open spec fn stated_version(d: DependencySpec<'_>) -> EvrModel {
    EvrModel { epoch: stated(d.epoch), version: stated(d.version), release: stated(d.release) }
}

/// The order of two versions is that of `rpm_version` on their parts, the first version first.
pub proof fn order_compares_parts(a: EvrModel, b: EvrModel)
    ensures
        order(a, b) == evr_order(a.epoch, a.version, a.release, b.epoch, b.version, b.release),
{
}

/// A dependency with an operator and a version is met by exactly the versions that stand to
/// the stated one as the operator says: below it for `LT`, not above it for `LE`, level with it
/// for `EQ`, not below it for `GE`, above it for `GT`.
pub proof fn operator_decides(d: DependencySpec<'_>, evr: EvrModel)
    requires
        d.version is Some,
    ensures
        d.flags == Some(RequirementType::LT) ==> (d@.accepts(evr) <==> order(
            evr,
            stated_version(d),
        ) == VersionOrder::Less),
        d.flags == Some(RequirementType::LE) ==> (d@.accepts(evr) <==> order(
            evr,
            stated_version(d),
        ) == VersionOrder::Less || order(evr, stated_version(d)) == VersionOrder::Equal),
        d.flags == Some(RequirementType::EQ) ==> (d@.accepts(evr) <==> order(
            evr,
            stated_version(d),
        ) == VersionOrder::Equal),
        d.flags == Some(RequirementType::GE) ==> (d@.accepts(evr) <==> order(
            evr,
            stated_version(d),
        ) == VersionOrder::Greater || order(evr, stated_version(d)) == VersionOrder::Equal),
        d.flags == Some(RequirementType::GT) ==> (d@.accepts(evr) <==> order(
            evr,
            stated_version(d),
        ) == VersionOrder::Greater),
{
    assert(d@.bound() =~= stated_version(d));
}

/// A dependency without an operator, or without a version, is met by every version. A
/// requirement on a name alone states the name and nothing else.
pub proof fn unversioned_accepts_all(d: DependencySpec<'_>, name: Seq<char>, evr: EvrModel)
    ensures
        d.flags is None || d.version is None ==> d@.accepts(evr),
        RequirementModel::unversioned(name).accepts(evr),
        RequirementModel::unversioned(name).name == name,
        RequirementModel::unversioned(name).flags is None,
        RequirementModel::unversioned(name).epoch is None,
        RequirementModel::unversioned(name).version is None,
        RequirementModel::unversioned(name).release is None,
        !RequirementModel::unversioned(name).preinstall,
{
}

/// A dependency keeps the texts that were written down: none is lost, changed or moved.
pub proof fn dependency_keeps_its_texts(d: DependencySpec<'_>)
    ensures
        d@.name == d.name@,
        d@.epoch is Some == d.epoch is Some,
        d@.version is Some == d.version is Some,
        d@.release is Some == d.release is Some,
        d.epoch matches Some(t) ==> d@.epoch == Some(t@),
        d.version matches Some(t) ==> d@.version == Some(t@),
        d.release matches Some(t) ==> d@.release == Some(t@),
        d@.flags is Some == d.flags is Some,
        d@.preinstall == d.preinstall,
{
}

/// A requirement that is read back from the pool has the texts that were handed out.
pub proof fn requirement_keeps_its_texts(r: RequirementRef<'_>)
    ensures
        r@.name == r.name@,
        r@.flags == r.flags,
        r@.epoch is Some == r.epoch is Some,
        r@.version is Some == r.version is Some,
        r@.release is Some == r.release is Some,
        r.epoch matches Some(t) ==> r@.epoch == Some(t@),
        r.version matches Some(t) ==> r@.version == Some(t@),
        r.release matches Some(t) ==> r@.release == Some(t@),
        r@.preinstall == r.preinstall,
{
}

/// A conflict with an operator and a version asks for exactly the versions that it does not
/// name: for `LT` those that are not below the stated one, and so on for each operator.
pub proof fn conflict_asks_for_the_rest(d: DependencySpec<'_>, evr: EvrModel)
    requires
        d.version is Some,
    ensures
        d.flags == Some(RequirementType::LT) ==> (d@.inverted().accepts(evr) <==> order(
            evr,
            stated_version(d),
        ) != VersionOrder::Less),
        d.flags == Some(RequirementType::LE) ==> (d@.inverted().accepts(evr) <==> order(
            evr,
            stated_version(d),
        ) == VersionOrder::Greater),
        d.flags == Some(RequirementType::EQ) ==> (d@.inverted().accepts(evr) <==> order(
            evr,
            stated_version(d),
        ) != VersionOrder::Equal),
        d.flags == Some(RequirementType::GE) ==> (d@.inverted().accepts(evr) <==> order(
            evr,
            stated_version(d),
        ) == VersionOrder::Less),
        d.flags == Some(RequirementType::GT) ==> (d@.inverted().accepts(evr) <==> order(
            evr,
            stated_version(d),
        ) != VersionOrder::Greater),
{
    if d.flags is Some {
        assert(d@.inverted().bound() =~= d@.bound());
    }
    assert(d@.bound() =~= stated_version(d));
}

/// A conflict is about the name that it names. With an operator its texts stay what they are;
/// without a version it then excludes nothing. Without an operator it asks for a version below
/// zero, whatever else it states.
pub proof fn conflict_keeps_its_texts(d: DependencySpec<'_>, evr: EvrModel)
    ensures
        d@.inverted().name == d.name@,
        d.flags is Some ==> d@.inverted().epoch == d@.epoch && d@.inverted().version == d@.version
            && d@.inverted().release == d@.release && d@.inverted().preinstall == d.preinstall,
        d.flags is Some && d.version is None ==> d@.inverted().accepts(evr),
        d.flags is None ==> (d@.inverted().accepts(evr) <==> order(
            evr,
            EvrModel { epoch: seq!['0'], version: seq!['0'], release: Seq::empty() },
        ) == VersionOrder::Less),
        d.flags is None ==> !d@.inverted().preinstall,
{
    reveal_strlit("0");
    assert("0"@ =~= seq!['0']);
    if d.flags is None {
        assert(d@.inverted().bound() =~= EvrModel {
            epoch: seq!['0'],
            version: seq!['0'],
            release: Seq::empty(),
        });
    }
}

/// The symbol of a relation shows where it holds: it has a `<` where lower versions meet it, a
/// `>` where higher ones do, a `=` where equal ones do, in this order and nothing else. The
/// relation that excludes equal versions is shown as `!=`.
pub proof fn symbol_shows_relation(relation: VersionRelation, evr: EvrModel, r: RequirementModel)
    requires
        r.flags == Some(relation),
        r.version is Some,
    ensures
        relation.operator_text().len() <= 2,
        relation != VersionRelation::NE ==> {
            let text = relation.operator_text();
            &&& text.len() > 0
            &&& order(evr, r.bound()) == VersionOrder::Less ==> (r.accepts(evr) <==> text[0] == '<')
            &&& order(evr, r.bound()) == VersionOrder::Greater ==> (r.accepts(evr) <==> text[0]
                == '>')
            &&& order(evr, r.bound()) == VersionOrder::Equal ==> (r.accepts(evr) <==> text.last()
                == '=')
            &&& text.len() == 2 ==> text[0] != '=' && text[1] == '='
            &&& text[0] == '<' || text[0] == '>' || text[0] == '='
        },
        relation == VersionRelation::NE ==> relation.operator_text() == seq!['!', '='],
{
    reveal_strlit("<");
    reveal_strlit(">");
    reveal_strlit("=");
    reveal_strlit("<=");
    reveal_strlit(">=");
    reveal_strlit("!=");
    assert("!="@ =~= seq!['!', '=']);
}

/// A requirement is shown by its name, and behind it, where it has both, its symbol and its
/// version, parted by blanks.
pub proof fn shown_requirement(r: RequirementModel)
    ensures
        r.text().take(r.name.len() as int) == r.name,
        r.flags is None || r.version is None ==> r.text().len() == r.name.len(),
        (r.flags matches Some(f) && r.version matches Some(v)) ==> {
            let f = r.flags->0;
            let v = r.version->0;
            let n = r.name.len() as int;
            let m = f.operator_text().len() as int;
            &&& r.text().len() == n + m + v.len() + 2
            &&& r.text()[n] == ' '
            &&& r.text().subrange(n + 1, n + 1 + m) == f.operator_text()
            &&& r.text()[n + 1 + m] == ' '
            &&& r.text().skip(n + m + 2) == v
        },
{
    reveal_strlit(" ");
    assert(" "@ =~= seq![' ']);
    assert(r.text().take(r.name.len() as int) =~= r.name);
    if let (Some(f), Some(v)) = (r.flags, r.version) {
        let n = r.name.len() as int;
        let m = f.operator_text().len() as int;
        assert(r.text().subrange(n + 1, n + 1 + m) =~= f.operator_text());
        assert(r.text().skip(n + m + 2) =~= v);
    }
}

/// An epoch, read as `0` where it is empty.
pub open spec fn epoch_or_zero(epoch: Seq<char>) -> Seq<char> {
    if epoch.len() == 0 {
        seq!['0']
    } else {
        epoch
    }
}

/// Two versions are written alike where version and release agree and so do the epochs, an
/// empty one read as `0`.
pub proof fn written_alike(a: EvrModel, b: EvrModel)
    ensures
        same_evr(a, b) <==> a.version == b.version && a.release == b.release && epoch_or_zero(
            a.epoch,
        ) == epoch_or_zero(b.epoch),
{
    reveal_strlit("0");
    assert("0"@ =~= seq!['0']);
    if a.epoch.len() == 0 && b.epoch.len() == 0 {
        assert(a.epoch =~= b.epoch);
    }
}

/// A version is shown as version, a dash and release, behind epoch and colon where there is an
/// epoch.
pub proof fn shown_version(e: EvrModel)
    ensures
        e.epoch.len() == 0 ==> {
            let n = e.version.len() as int;
            &&& evr_text(e).len() == n + 1 + e.release.len()
            &&& evr_text(e).take(n) == e.version
            &&& evr_text(e)[n] == '-'
            &&& evr_text(e).skip(n + 1) == e.release
        },
        e.epoch.len() > 0 ==> {
            let m = e.epoch.len() as int;
            let n = e.version.len() as int;
            &&& evr_text(e).len() == m + n + 2 + e.release.len()
            &&& evr_text(e).take(m) == e.epoch
            &&& evr_text(e)[m] == ':'
            &&& evr_text(e).subrange(m + 1, m + 1 + n) == e.version
            &&& evr_text(e)[m + n + 1] == '-'
            &&& evr_text(e).skip(m + n + 2) == e.release
        },
{
    let m = e.epoch.len() as int;
    let n = e.version.len() as int;
    let t = evr_text(e);
    if m == 0 {
        assert(t.take(n) =~= e.version);
        assert(t.skip(n + 1) =~= e.release);
    } else {
        assert(t.take(m) =~= e.epoch);
        assert(t.subrange(m + 1, m + 1 + n) =~= e.version);
        assert(t.skip(m + n + 2) =~= e.release);
    }
}

/// A text holds another where the characters of the other stand in it one behind the other;
/// it begins with a character where that is its first.
pub proof fn occurrence_is_character_by_character(
    text: Seq<char>,
    pattern: Seq<char>,
    at: int,
    c: char,
)
    ensures
        occurs_at(text, pattern, at) <==> 0 <= at && at + pattern.len() <= text.len() && forall|
            k: int,
        |
            0 <= k < pattern.len() ==> #[trigger] text[at + k] == pattern[k],
        occurs_at(text, pattern, at) ==> occurs_in(text, pattern),
        occurs_in(text, pattern) ==> exists|i: int| #[trigger] occurs_at(text, pattern, i),
        begins_with(text, c) <==> text.len() >= 1 && text[0] == c,
        or_empty(None).len() == 0,
        or_empty(Some(text)) == text,
{
    if 0 <= at && at + pattern.len() <= text.len() {
        let part = text.subrange(at, at + pattern.len());
        if part == pattern {
            assert forall|k: int| 0 <= k < pattern.len() implies #[trigger] text[at + k]
                == pattern[k] by {
                assert(part[k] == pattern[k]);
            }
        }
        if forall|k: int| 0 <= k < pattern.len() ==> #[trigger] text[at + k] == pattern[k] {
            assert forall|k: int| 0 <= k < pattern.len() implies part[k] == pattern[k] by {
                assert(text[at + k] == pattern[k]);
            }
            assert(part =~= pattern);
        }
    }
}

/// A version keeps its three parts, whoever holds them.
pub proof fn version_keeps_its_parts(e: EvrRef<'_>, v: ProvidesVersion)
    ensures
        e@.epoch == e.epoch@,
        e@.version == e.version@,
        e@.release == e.release@,
        v@.epoch == v.epoch@,
        v@.version == v.version@,
        v@.release == v.release@,
{
}

} // verus!
