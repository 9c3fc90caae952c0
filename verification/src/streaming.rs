//! Reading a package from a primary document and adding it by hand come to the same,
//! whatever the order of the document.
use vstd::prelude::*;
use crate::draft::empty_draft;
use crate::evr::EvrModel;
use crate::loader::{
    arch_wanted, entry_read, package_begun, package_ended, PrimaryEntry, PrimaryLoader,
    PrimaryState,
};
use crate::model::DraftModel;
use crate::package::{
    dependencies, inverted_all, PackageModel, PackageSpec, ProvideModel, RequirementModel,
};
use crate::provider::RpmProvider;
use crate::text::{begins_with, occurs_in};

verus! {

impl PrimaryState {
    /// After several entries were read.
    pub open spec fn with_entries(self, entries: Seq<PrimaryEntry>) -> PrimaryState
        decreases entries.len(),
    {
        if entries.len() == 0 {
            self
        } else {
            self.with_entries(entries.drop_last()).with_entry(entries.last())
        }
    }
}

/// What the entries of one kind hold, in their order. The kind is the one from which `pick`
/// takes something.
pub open spec fn picked<T>(
    entries: Seq<PrimaryEntry>,
    pick: spec_fn(PrimaryEntry) -> Option<T>,
) -> Seq<T>
    decreases entries.len(),
{
    if entries.len() == 0 {
        Seq::empty()
    } else {
        match pick(entries.last()) {
            Some(held) => picked(entries.drop_last(), pick).push(held),
            None => picked(entries.drop_last(), pick),
        }
    }
}

/// The versions among the entries.
pub open spec fn evrs_among(entries: Seq<PrimaryEntry>) -> Seq<EvrModel> {
    picked(
        entries,
        |e: PrimaryEntry|
            match e {
                PrimaryEntry::Evr(evr) => Some(evr),
                _ => None,
            },
    )
}

/// The `Provides` entries among the entries.
pub open spec fn provides_among(entries: Seq<PrimaryEntry>) -> Seq<ProvideModel> {
    picked(
        entries,
        |e: PrimaryEntry|
            match e {
                PrimaryEntry::Provide(p) => Some(p),
                _ => None,
            },
    )
}

/// The `Requires` entries among the entries.
pub open spec fn requires_among(entries: Seq<PrimaryEntry>) -> Seq<RequirementModel> {
    picked(
        entries,
        |e: PrimaryEntry|
            match e {
                PrimaryEntry::Require(r) => Some(r),
                _ => None,
            },
    )
}

/// The `Conflicts` entries among the entries.
pub open spec fn conflicts_among(entries: Seq<PrimaryEntry>) -> Seq<RequirementModel> {
    picked(
        entries,
        |e: PrimaryEntry|
            match e {
                PrimaryEntry::Conflict(r) => Some(r),
                _ => None,
            },
    )
}

/// The `Obsoletes` entries among the entries.
pub open spec fn obsoletes_among(entries: Seq<PrimaryEntry>) -> Seq<RequirementModel> {
    picked(
        entries,
        |e: PrimaryEntry|
            match e {
                PrimaryEntry::Obsolete(r) => Some(r),
                _ => None,
            },
    )
}

/// The `Recommends` entries among the entries.
pub open spec fn recommends_among(entries: Seq<PrimaryEntry>) -> Seq<RequirementModel> {
    picked(
        entries,
        |e: PrimaryEntry|
            match e {
                PrimaryEntry::Recommend(r) => Some(r),
                _ => None,
            },
    )
}

/// The `Suggests` entries among the entries.
pub open spec fn suggests_among(entries: Seq<PrimaryEntry>) -> Seq<RequirementModel> {
    picked(
        entries,
        |e: PrimaryEntry|
            match e {
                PrimaryEntry::Suggest(r) => Some(r),
                _ => None,
            },
    )
}

/// The `Supplements` entries among the entries.
pub open spec fn supplements_among(entries: Seq<PrimaryEntry>) -> Seq<RequirementModel> {
    picked(
        entries,
        |e: PrimaryEntry|
            match e {
                PrimaryEntry::Supplement(r) => Some(r),
                _ => None,
            },
    )
}

/// The `Enhances` entries among the entries.
pub open spec fn enhances_among(entries: Seq<PrimaryEntry>) -> Seq<RequirementModel> {
    picked(
        entries,
        |e: PrimaryEntry|
            match e {
                PrimaryEntry::Enhance(r) => Some(r),
                _ => None,
            },
    )
}

/// The files among the entries.
pub open spec fn files_among(entries: Seq<PrimaryEntry>) -> Seq<Seq<char>> {
    picked(
        entries,
        |e: PrimaryEntry|
            match e {
                PrimaryEntry::File(path) => Some(path),
                _ => None,
            },
    )
}

/// The dependencies of a list that are not conditional ones.
pub open spec fn unconditional(list: Seq<RequirementModel>) -> Seq<RequirementModel> {
    list.filter(|r: RequirementModel| !occurs_in(r.name, " if "@))
}

/// The dependencies of a list that are not boolean ones.
pub open spec fn not_boolean(list: Seq<RequirementModel>) -> Seq<RequirementModel> {
    list.filter(|r: RequirementModel| !begins_with(r.name, '('))
}

/// A version with others appended to it, part by part.
pub open spec fn joined(evr: EvrModel, list: Seq<EvrModel>) -> EvrModel
    decreases list.len(),
{
    if list.len() == 0 {
        evr
    } else {
        let front = joined(evr, list.drop_last());
        EvrModel {
            epoch: front.epoch + list.last().epoch,
            version: front.version + list.last().version,
            release: front.release + list.last().release,
        }
    }
}

/// What is collected of entries, behind what was collected before.
pub open spec fn collected(draft: DraftModel, entries: Seq<PrimaryEntry>) -> DraftModel {
    DraftModel {
        package: PackageModel {
            evr: joined(draft.package.evr, evrs_among(entries)),
            requires: draft.package.requires + unconditional(requires_among(entries)),
            conflicts: draft.package.conflicts + inverted_all(
                not_boolean(conflicts_among(entries)),
            ),
            obsoletes: draft.package.obsoletes + inverted_all(
                not_boolean(obsoletes_among(entries)),
            ),
            recommends: draft.package.recommends + not_boolean(recommends_among(entries)),
            suggests: draft.package.suggests + not_boolean(suggests_among(entries)),
            supplements: draft.package.supplements + not_boolean(supplements_among(entries)),
            enhances: draft.package.enhances + not_boolean(enhances_among(entries)),
            ..draft.package
        },
        provides: draft.provides + provides_among(entries),
        files: draft.files + files_among(entries),
    }
}

/// Appending a dependency to a list appends it to those that are not left out, unless it is.
proof fn one_more(list: Seq<RequirementModel>, r: RequirementModel)
    ensures
        unconditional(list.push(r)) == (if occurs_in(r.name, " if "@) {
            unconditional(list)
        } else {
            unconditional(list).push(r)
        }),
        not_boolean(list.push(r)) == (if begins_with(r.name, '(') {
            not_boolean(list)
        } else {
            not_boolean(list).push(r)
        }),
        inverted_all(list.push(r)) == inverted_all(list).push(r.inverted()),
{
    reveal(Seq::filter);
    assert(list.push(r).drop_last() =~= list);
    assert(inverted_all(list.push(r)) =~= inverted_all(list).push(r.inverted()));
}

/// Whatever the order of the entries of a package, the entries of each kind are collected in
/// the order in which they stand, boolean dependencies aside.
pub proof fn entries_collected(s: PrimaryState, entries: Seq<PrimaryEntry>)
    requires
        !s.skip,
    ensures
        s.with_entries(entries) == (PrimaryState {
            skip: false,
            draft: collected(s.draft, entries),
        }),
    decreases entries.len(),
{
    if entries.len() == 0 {
        reveal(Seq::filter);
        assert(collected(s.draft, entries) =~~= s.draft);
    } else {
        let rest = entries.drop_last();
        entries_collected(s, rest);
        match entries.last() {
            PrimaryEntry::Require(r) => one_more(requires_among(rest), r),
            PrimaryEntry::Conflict(r) => {
                one_more(conflicts_among(rest), r);
                one_more(not_boolean(conflicts_among(rest)), r);
            },
            PrimaryEntry::Obsolete(r) => {
                one_more(obsoletes_among(rest), r);
                one_more(not_boolean(obsoletes_among(rest)), r);
            },
            PrimaryEntry::Recommend(r) => one_more(recommends_among(rest), r),
            PrimaryEntry::Suggest(r) => one_more(suggests_among(rest), r),
            PrimaryEntry::Supplement(r) => one_more(supplements_among(rest), r),
            PrimaryEntry::Enhance(r) => one_more(enhances_among(rest), r),
            PrimaryEntry::Evr(evr) => {
                assert(evrs_among(entries).drop_last() =~= evrs_among(rest));
            },
            _ => {},
        }
        assert(s.with_entries(entries).draft =~~= collected(s.draft, entries));
    }
}

/// Of a package that is passed over nothing is collected, whatever is read of it.
pub proof fn nothing_collected(s: PrimaryState, entries: Seq<PrimaryEntry>)
    requires
        s.skip,
    ensures
        s.with_entries(entries) == s,
    decreases entries.len(),
{
    if entries.len() > 0 {
        nothing_collected(s, entries.drop_last());
    }
}

/// Whether no dependency of a list is a conditional one.
pub open spec fn none_conditional(list: Seq<RequirementModel>) -> bool {
    forall|i: int| 0 <= i < list.len() ==> !occurs_in((#[trigger] list[i]).name, " if "@)
}

/// Whether no dependency of a list is a boolean one.
pub open spec fn none_boolean(list: Seq<RequirementModel>) -> bool {
    forall|i: int| 0 <= i < list.len() ==> !begins_with((#[trigger] list[i]).name, '(')
}

/// Whether a package holds no conditional requirement and no other boolean dependency.
pub open spec fn plain(spec: PackageSpec<'_>) -> bool {
    &&& none_conditional(dependencies(spec.requires@))
    &&& none_boolean(dependencies(spec.conflicts@))
    &&& none_boolean(dependencies(spec.obsoletes@))
    &&& none_boolean(dependencies(spec.recommends@))
    &&& none_boolean(dependencies(spec.suggests@))
    &&& none_boolean(dependencies(spec.supplements@))
    &&& none_boolean(dependencies(spec.enhances@))
}

/// Whether the entries are those of a package, in any order: its version once, and of each
/// kind what the package holds of it.
pub open spec fn entries_of(entries: Seq<PrimaryEntry>, spec: PackageSpec<'_>) -> bool {
    &&& evrs_among(entries) == seq![
        EvrModel { epoch: spec.epoch@, version: spec.version@, release: spec.release@ },
    ]
    &&& provides_among(entries) == spec.provided()
    &&& requires_among(entries) == dependencies(spec.requires@)
    &&& conflicts_among(entries) == dependencies(spec.conflicts@)
    &&& obsoletes_among(entries) == dependencies(spec.obsoletes@)
    &&& recommends_among(entries) == dependencies(spec.recommends@)
    &&& suggests_among(entries) == dependencies(spec.suggests@)
    &&& supplements_among(entries) == dependencies(spec.supplements@)
    &&& enhances_among(entries) == dependencies(spec.enhances@)
    &&& files_among(entries) == spec.shipped()
}

/// A list without conditional dependencies loses none, one without boolean ones neither.
proof fn none_left_out(list: Seq<RequirementModel>)
    ensures
        none_conditional(list) ==> unconditional(list) == list,
        none_boolean(list) ==> not_boolean(list) == list,
    decreases list.len(),
{
    if list.len() == 0 {
        reveal(Seq::filter);
        assert(unconditional(list) =~= list);
        assert(not_boolean(list) =~= list);
    } else {
        let rest = list.drop_last();
        none_left_out(rest);
        one_more(rest, list.last());
        assert(rest.push(list.last()) =~= list);
        assert(forall|i: int| 0 <= i < rest.len() ==> #[trigger] rest[i] == list[i]);
        assert(list[list.len() - 1] == list.last());
    }
}

/// What is collected of a package without boolean dependencies is what adding it by hand
/// adds, whatever the order of its entries.
pub proof fn collected_like_added(
    target: Option<Seq<char>>,
    repo_id: usize,
    spec: PackageSpec<'_>,
    entries: Seq<PrimaryEntry>,
)
    requires
        arch_wanted(target, spec.arch@),
        entries_of(entries, spec),
        plain(spec),
    ensures
        PrimaryState::begun(target, repo_id, spec.name@, spec.arch@).with_entries(entries) == (
        PrimaryState { skip: false, draft: spec.draft(repo_id) }),
{
    let begun = PrimaryState::begun(target, repo_id, spec.name@, spec.arch@);
    entries_collected(begun, entries);
    none_left_out(dependencies(spec.requires@));
    none_left_out(dependencies(spec.conflicts@));
    none_left_out(dependencies(spec.obsoletes@));
    none_left_out(dependencies(spec.recommends@));
    none_left_out(dependencies(spec.suggests@));
    none_left_out(dependencies(spec.supplements@));
    none_left_out(dependencies(spec.enhances@));
    let evr = EvrModel { epoch: spec.epoch@, version: spec.version@, release: spec.release@ };
    assert(joined(begun.draft.package.evr, seq![evr]) =~= evr) by {
        assert(seq![evr].drop_last() =~= Seq::empty());
        reveal_with_fuel(joined, 2);
    }
    assert(collected(begun.draft, entries) =~~= spec.draft(repo_id));
}

/// Whether a loader and its provider go from each state of a list to the next by reading the
/// entries, one after the other.
pub open spec fn run_read(
    states: Seq<(PrimaryLoader, RpmProvider)>,
    entries: Seq<PrimaryEntry>,
) -> bool {
    &&& states.len() == entries.len() + 1
    &&& forall|i: int|
        0 <= i < entries.len() ==> entry_read(states[i], states[i + 1], #[trigger] entries[i])
}

/// A run of entries is collected entry by entry, and changes nothing that the provider knows.
/// Where the package is passed over the provider is untouched.
pub proof fn run_collected(
    states: Seq<(PrimaryLoader, RpmProvider)>,
    entries: Seq<PrimaryEntry>,
)
    requires
        run_read(states, entries),
    ensures
        states.last().0.repo_id == states[0].0.repo_id,
        states.last().0.state(states.last().1) == states[0].0.state(states[0].1).with_entries(
            entries,
        ),
        states.last().1@ == states[0].1@,
        states[0].0.skip ==> states.last().1 == states[0].1,
    decreases entries.len(),
{
    if entries.len() > 0 {
        let front = states.drop_last();
        let rest = entries.drop_last();
        assert forall|i: int| 0 <= i < rest.len() implies entry_read(
            front[i],
            front[i + 1],
            #[trigger] rest[i],
        ) by {
            assert(rest[i] == entries[i]);
        }
        run_collected(front, rest);
        let k = entries.len() - 1;
        assert(entry_read(states[k], states[k + 1], entries[k]));
        assert(front.last() == states[k]);
        if states[0].0.skip {
            nothing_collected(states[0].0.state(states[0].1), rest);
            assert(states[k].0.state(states[k].1).skip);
        }
    }
}

/// Reading a package of a wanted architecture from its begin to its end adds what adding it
/// by hand adds, whatever the order of its entries, where it holds no boolean dependency.
pub proof fn read_like_added(
    start: PrimaryLoader,
    spec: PackageSpec<'_>,
    states: Seq<(PrimaryLoader, RpmProvider)>,
    entries: Seq<PrimaryEntry>,
    end: (PrimaryLoader, RpmProvider),
)
    requires
        run_read(states, entries),
        package_begun(start, states[0].0, states[0].1, spec.name@, spec.arch@),
        package_ended(states.last(), end),
        arch_wanted(states[0].1@.target_arch, spec.arch@),
        entries_of(entries, spec),
        plain(spec),
    ensures
        end.1@ == states[0].1@.with_draft(spec.draft(start.repo_id)),
{
    run_collected(states, entries);
    collected_like_added(states[0].1@.target_arch, start.repo_id, spec, entries);
}

/// Reading a package of an architecture that is not wanted leaves the provider untouched from
/// its begin to its end: no package is added, and no name or requirement is interned.
pub proof fn passed_over(
    start: PrimaryLoader,
    name: Seq<char>,
    arch: Seq<char>,
    states: Seq<(PrimaryLoader, RpmProvider)>,
    entries: Seq<PrimaryEntry>,
    end: (PrimaryLoader, RpmProvider),
)
    requires
        run_read(states, entries),
        package_begun(start, states[0].0, states[0].1, name, arch),
        package_ended(states.last(), end),
        !arch_wanted(states[0].1@.target_arch, arch),
    ensures
        end.1 == states[0].1,
        end.0.state(end.1) == (PrimaryState { skip: true, draft: empty_draft(start.repo_id) }),
{
    run_collected(states, entries);
    nothing_collected(states[0].0.state(states[0].1), entries);
    assert(states.last().0.state(states.last().1).skip);
}

} // verus!
