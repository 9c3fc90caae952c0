//! What is shown of a resolution and of a closure check.
use vstd::prelude::*;
use vstd::string::*;
use crate::closure::valid_pairs;
use crate::evr::evr_text;
use crate::model::ProviderModel;
use crate::options::LoadOptions;
use crate::package::{RequirementModel, RequirementRef, SolvableId, VersionSetId};
use crate::provider::RpmProvider;
use crate::solving::known;
use crate::table::{
    padded, push_padded, row_models, wider, widest, widest_step, Row, RowModel, Table,
};
use crate::text::{begins_with, occurs_at, starts_with, starts_with_char, texts};

verus! {

/// The first texts of rows.
pub open spec fn firsts(rows: Seq<RowModel>) -> Seq<Seq<char>> {
    rows.map_values(|r: RowModel| r.first)
}

/// The second texts of rows.
pub open spec fn seconds(rows: Seq<RowModel>) -> Seq<Seq<char>> {
    rows.map_values(|r: RowModel| r.second)
}

/// A row as a line: the first two texts padded to the width of their columns, the third
/// between two given texts.
pub open spec fn table_line(
    row: RowModel,
    width1: nat,
    width2: nat,
    before: Seq<char>,
    behind: Seq<char>,
) -> Seq<char> {
    padded(row.first, width1 as int) + "  "@ + padded(row.second, width2 as int) + before
        + row.third + behind
}

/// The rows of a table as lines.
pub open spec fn table_text(rows: Seq<RowModel>, before: Seq<char>, behind: Seq<char>) -> Seq<
    Seq<char>,
> {
    rows.map_values(
        |r: RowModel| table_line(r, widest(firsts(rows)), widest(seconds(rows)), before, behind),
    )
}

/// The rows of a table as lines.
fn table_lines(table: &Table, before: &str, behind: &str) -> (r: Vec<String>)
    ensures
        texts(r@) == table_text(table@, before@, behind@),
{
    let rows: &Vec<Row> = table.rows();
    let ghost models = table@;
    let mut width1: usize = 0;
    let mut width2: usize = 0;
    let mut i: usize = 0;
    proof {
        assert(firsts(models).take(0) =~= Seq::empty());
        assert(seconds(models).take(0) =~= Seq::empty());
    }
    while i < rows.len()
        invariant
            i <= rows@.len(),
            models == row_models(rows@),
            width1 == widest(firsts(models).take(i as int)),
            width2 == widest(seconds(models).take(i as int)),
        decreases rows@.len() - i,
    {
        proof {
            widest_step(firsts(models), i as int);
            widest_step(seconds(models), i as int);
        }
        width1 = wider(width1, rows[i].first.as_str());
        width2 = wider(width2, rows[i].second.as_str());
        i = i + 1;
    }
    proof {
        assert(firsts(models).take(i as int) =~= firsts(models));
        assert(seconds(models).take(i as int) =~= seconds(models));
    }
    let ghost want = table_text(models, before@, behind@);
    let mut lines: Vec<String> = Vec::new();
    let mut k: usize = 0;
    assert(texts(lines@) =~= want.take(0));
    while k < rows.len()
        invariant
            k <= rows@.len(),
            models == row_models(rows@),
            width1 == widest(firsts(models)),
            width2 == widest(seconds(models)),
            want == table_text(models, before@, behind@),
            texts(lines@) == want.take(k as int),
        decreases rows@.len() - k,
    {
        let row: &Row = &rows[k];
        let mut line: String = String::new();
        push_padded(&mut line, row.first.as_str(), width1);
        line.append("  ");
        push_padded(&mut line, row.second.as_str(), width2);
        line.append(before);
        line.append(row.third.as_str());
        line.append(behind);
        proof {
            assert(line@ =~= table_line(row@, width1 as nat, width2 as nat, before@, behind@));
            assert(texts(lines@.push(line)) =~= texts(lines@).push(line@));
            assert(want.take(k + 1) =~= want.take(k as int).push(want[k as int]));
        }
        lines.push(line);
        k = k + 1;
    }
    assert(want.take(k as int) =~= want);
    lines
}

impl RequirementModel {
    /// The requirement as text: the name, and the comparison and version where it has both.
    pub open spec fn text(self) -> Seq<char> {
        match (self.flags, self.version) {
            (Some(f), Some(v)) => self.name + " "@ + f.operator_text() + " "@ + v,
            _ => self.name,
        }
    }
}

impl<'a> RequirementRef<'a> {
    /// The requirement as text.
    pub fn display(&self) -> (r: String)
        ensures
            r@ == self@.text(),
    {
        let mut s: String = self.name.to_owned();
        if let (Some(f), Some(v)) = (self.flags, self.version) {
            s.append(" ");
            s.append(f.as_operator());
            s.append(" ");
            s.append(v);
        }
        s
    }
}

impl ProviderModel {
    /// The row that shows a resolved package: name, version and label of the repository.
    pub open spec fn resolved_row(self, id: SolvableId) -> RowModel {
        let p = self.packages[id.0 as int];
        RowModel {
            first: p.name,
            second: evr_text(p.evr),
            third: self.repo_labels[p.repo_id as int],
        }
    }

    /// The row that shows a broken requirement: name and version of the package, and the
    /// requirement.
    pub open spec fn problem_row(self, id: SolvableId, r: RequirementModel) -> RowModel {
        let p = self.packages[id.0 as int];
        RowModel { first: p.name, second: evr_text(p.evr), third: r.text() }
    }
}

/// Whether the repositories of all packages of a list are registered.
pub open spec fn labelled(p: ProviderModel, ids: Seq<SolvableId>) -> bool {
    forall|i: int|
        0 <= i < ids.len() ==> p.packages[(#[trigger] ids[i]).0 as int].repo_id
            < p.repo_labels.len()
}

/// The rows that show resolved packages.
pub open spec fn resolved_rows(p: ProviderModel, ids: Seq<SolvableId>) -> Seq<RowModel> {
    ids.map_values(|id: SolvableId| p.resolved_row(id))
}

/// The rows that show broken requirements.
pub open spec fn problem_rows(provider: RpmProvider, list: Seq<(SolvableId, VersionSetId)>) -> Seq<
    RowModel,
> {
    list.map_values(
        |p: (SolvableId, VersionSetId)|
            provider@.problem_row(p.0, provider.pool().requirement(p.1)),
    )
}

/// The set of a list's first elements and the next one.
proof fn set_step<A>(list: Seq<A>, i: int)
    requires
        0 <= i < list.len(),
    ensures
        list.take(i + 1).to_set() == list.take(i).to_set().insert(list[i]),
{
    assert(list.take(i + 1) =~= list.take(i).push(list[i]));
    broadcast use vstd::seq_lib::group_seq_properties;

    assert(list.take(i + 1).to_set() =~= list.take(i).to_set().insert(list[i]));
}

impl RpmProvider {
    /// The table of resolved packages: sorted, each row once.
    pub fn resolution_table(&self, solvables: &[SolvableId]) -> (r: Table)
        requires
            self.wf(),
            known(self@, solvables@),
            labelled(self@, solvables@),
        ensures
            r.wf(),
            r@.to_set() == resolved_rows(self@, solvables@).to_set(),
    {
        let ghost rows = resolved_rows(self@, solvables@);
        let mut table = Table::new();
        let mut i: usize = 0;
        assert(table@.to_set() =~= rows.take(0).to_set());
        while i < solvables.len()
            invariant
                i <= solvables@.len(),
                self.wf(),
                known(self@, solvables@),
                labelled(self@, solvables@),
                rows == resolved_rows(self@, solvables@),
                table.wf(),
                table@.to_set() == rows.take(i as int).to_set(),
            decreases solvables@.len() - i,
        {
            let id: SolvableId = solvables[i];
            let row = Row {
                first: self.package_name(id).to_owned(),
                second: self.package_version(id),
                third: self.repo_label(id).to_owned(),
            };
            proof {
                assert(row@ == rows[i as int]);
                set_step(rows, i as int);
            }
            table.insert(row);
            i = i + 1;
        }
        assert(rows.take(i as int) =~= rows);
        table
    }

    /// The table of broken requirements: sorted, each row once.
    pub fn problem_table(&self, problems: &Vec<(SolvableId, VersionSetId)>) -> (r: Table)
        requires
            self.wf(),
            valid_pairs(*self, problems@),
        ensures
            r.wf(),
            r@.to_set() == problem_rows(*self, problems@).to_set(),
    {
        let ghost rows = problem_rows(*self, problems@);
        let mut table = Table::new();
        let mut i: usize = 0;
        assert(table@.to_set() =~= rows.take(0).to_set());
        while i < problems.len()
            invariant
                i <= problems@.len(),
                self.wf(),
                valid_pairs(*self, problems@),
                rows == problem_rows(*self, problems@),
                table.wf(),
                table@.to_set() == rows.take(i as int).to_set(),
            decreases problems@.len() - i,
        {
            let (id, set) = problems[i];
            assert(problems@[i as int] == (id, set));
            assert(self.pool().valid_set(problems@[i as int].1));
            let row = Row {
                first: self.package_name(id).to_owned(),
                second: self.package_version(id),
                third: self.version_set(set).display(),
            };
            proof {
                assert(row@ == rows[i as int]);
                set_step(rows, i as int);
            }
            table.insert(row);
            i = i + 1;
        }
        assert(rows.take(i as int) =~= rows);
        table
    }
}

/// The lines that show resolved packages.
pub fn resolution_lines(table: &Table) -> (r: Vec<String>)
    ensures
        texts(r@) == table_text(table@, "  ["@, "]"@),
{
    table_lines(table, "  [", "]")
}

/// The lines that show broken requirements.
pub fn problem_lines(table: &Table) -> (r: Vec<String>)
    ensures
        texts(r@) == table_text(table@, "  requires: "@, Seq::empty()),
{
    proof {
        reveal_strlit("");
        assert(""@ =~= Seq::<char>::empty());
    }
    table_lines(table, "  requires: ", "")
}

/// Whether some of the names is that of a group.
pub open spec fn names_group(names: Seq<String>) -> bool {
    exists|i: int| 0 <= i < names.len() && begins_with((#[trigger] names[i])@, '@')
}

/// Whether some of the names is that of an advisory.
pub open spec fn names_advisory(names: Seq<String>) -> bool {
    exists|i: int| 0 <= i < names.len() && occurs_at((#[trigger] names[i])@, "patch:"@, 0)
}

/// How repositories are to be loaded for a resolution of the given names: with groups where
/// a group is named, with advisories where an advisory is.
pub fn resolve_load_options(names: &Vec<String>) -> (r: LoadOptions)
    ensures
        r == (LoadOptions {
            load_groups: names_group(names@),
            load_advisories: names_advisory(names@),
            ..LoadOptions::defaults()
        }),
{
    let mut groups: bool = false;
    let mut advisories: bool = false;
    let mut i: usize = 0;
    while i < names.len()
        invariant
            i <= names@.len(),
            groups == exists|k: int| 0 <= k < i && begins_with((#[trigger] names@[k])@, '@'),
            advisories == exists|k: int|
                0 <= k < i && occurs_at((#[trigger] names@[k])@, "patch:"@, 0),
        decreases names@.len() - i,
    {
        if starts_with_char(names[i].as_str(), '@') {
            groups = true;
        }
        if starts_with(names[i].as_str(), "patch:") {
            advisories = true;
        }
        i = i + 1;
    }
    LoadOptions::new().load_groups(groups).load_advisories(advisories)
}

} // verus!
