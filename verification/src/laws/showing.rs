//! What is shown: lines, columns and the order of rows.
use vstd::prelude::*;
use vstd::utf8::*;
use crate::detail::{
    cves, dated, detail, ids_of, listing, package_evr, package_names, package_section,
    package_versions, reference_ids, reference_section, severities_of, severity_text, types_of,
};
use crate::evr::evr_text;
use crate::metadata::{all_packages, UpdateCollectionPackage, UpdateRecord, UpdateReference};
use crate::model::ProviderModel;
use crate::package::{RequirementModel, SolvableId, VersionSetId};
use crate::provider::RpmProvider;
use crate::report::{firsts, problem_rows, resolved_rows, seconds, table_text};
use crate::table::{
    blanks, byte_len, bytes_before, padded, row_before, strictly_sorted, text_before, widest,
    widest_is_widest, Row, RowModel,
};
use crate::text::{str_texts, texts};

verus! {

/// The two blanks between columns.
pub open spec fn gap() -> Seq<char> {
    seq![' ', ' ']
}

/// A padded text begins with the text; blanks follow up to the width, and none where the text
/// is as wide or wider.
pub proof fn padded_with_blanks(text: Seq<char>, width: int, i: int)
    ensures
        text.len() >= width ==> padded(text, width) == text,
        text.len() < width ==> padded(text, width).len() == width,
        padded(text, width).take(text.len() as int) == text,
        text.len() <= i < padded(text, width).len() ==> padded(text, width)[i] == ' ',
        width >= 0 ==> blanks(width).len() == width,
        0 <= i < blanks(width).len() ==> blanks(width)[i] == ' ',
{
    assert(padded(text, width).take(text.len() as int) =~= text);
    if text.len() >= width {
        assert(padded(text, width) =~= text);
    }
}

/// The width of a column is the number of UTF-8 bytes of a text in it that no other text of it
/// exceeds; it is zero where the column is empty.
pub proof fn as_wide_as_its_widest(column: Seq<Seq<char>>, i: int)
    ensures
        column.len() == 0 ==> widest(column) == 0,
        column.len() > 0 ==> exists|k: int|
            0 <= k < column.len() && encode_utf8(#[trigger] column[k]).len() == widest(column),
        0 <= i < column.len() ==> encode_utf8(column[i]).len() <= widest(column),
    decreases column.len(),
{
    if 0 <= i < column.len() {
        widest_is_widest(column, i);
    }
    if column.len() > 0 {
        let rest = column.drop_last();
        as_wide_as_its_widest(rest, 0);
        if byte_len(column.last()) > widest(rest) {
            assert(encode_utf8(column[column.len() - 1]).len() == widest(column));
        } else if rest.len() > 0 {
            let k = choose|k: int|
                0 <= k < rest.len() && encode_utf8(#[trigger] rest[k]).len() == widest(rest);
            assert(column[k] == rest[k]);
        } else {
            assert(encode_utf8(column[column.len() - 1]).len() == widest(column));
        }
    }
}

/// A listing has one line for each advisory, in their order: id, kind and severity, each padded
/// to the width of its column, then the title, with two blanks between them. A severity that is
/// missing is left empty.
pub proof fn one_line_per_advisory(list: Seq<UpdateRecord>, i: int)
    ensures
        listing(list).len() == list.len(),
        0 <= i < list.len() ==> listing(list)[i] == padded(
            list[i].id@,
            widest(ids_of(list)) as int,
        ) + gap() + padded(list[i].update_type@, widest(types_of(list)) as int) + gap() + padded(
            severity_text(list[i]),
            widest(severities_of(list)) as int,
        ) + gap() + list[i].title@,
        ids_of(list).len() == list.len(),
        types_of(list).len() == list.len(),
        severities_of(list).len() == list.len(),
        0 <= i < list.len() ==> ids_of(list)[i] == list[i].id@ && types_of(list)[i]
            == list[i].update_type@ && severities_of(list)[i] == severity_text(list[i]),
        0 <= i < list.len() ==> (list[i].severity matches Some(s) ==> severity_text(list[i]) == s@),
        0 <= i < list.len() && list[i].severity is None ==> severity_text(list[i]).len() == 0,
{
    reveal_strlit("  ");
    assert("  "@ =~= gap());
}

/// How many lines show a date: one where there is a date.
pub open spec fn date_lines(date: Option<String>) -> int {
    if date is Some {
        1
    } else {
        0
    }
}

/// How many lines a section takes: none where nothing is in it, else one for each entry behind
/// an empty line and a title.
pub open spec fn section_lines(count: nat) -> int {
    if count == 0 {
        0
    } else {
        count + 2int
    }
}

/// An advisory in detail begins with a line of id, kind and severity (`None` where it has
/// none), two blanks between them, and a line with its title. Then come the dates that there
/// are, the section on CVEs and the section on packages, in this order and nothing else.
pub proof fn detail_in_order(a: UpdateRecord)
    ensures
        ({
            let lines = detail(a);
            let issued = date_lines(a.issued_date);
            let updated = date_lines(a.updated_date);
            let references = section_lines(cves(a.references@).len());
            let packages = section_lines(all_packages(a.pkglist@).len());
            &&& lines.len() == 2 + issued + updated + references + packages
            &&& a.severity matches Some(s) ==> lines[0] == a.id@ + gap() + a.update_type@ + gap()
                + s@
            &&& a.severity is None ==> lines[0] == a.id@ + gap() + a.update_type@ + gap() + seq![
                'N',
                'o',
                'n',
                'e',
            ]
            &&& lines[1] == a.title@
            &&& a.issued_date matches Some(d) ==> lines[2] == seq![
                'I',
                's',
                's',
                'u',
                'e',
                'd',
                ':',
                ' ',
                ' ',
            ] + d@
            &&& a.updated_date matches Some(d) ==> lines[2 + issued] == seq![
                'U',
                'p',
                'd',
                'a',
                't',
                'e',
                'd',
                ':',
                ' ',
            ] + d@
            &&& lines.subrange(2 + issued + updated, 2 + issued + updated + references)
                == reference_section(cves(a.references@))
            &&& lines.skip(2 + issued + updated + references) == package_section(
                all_packages(a.pkglist@),
            )
        }),
{
    reveal_strlit("  ");
    reveal_strlit("None");
    reveal_strlit("Issued:  ");
    reveal_strlit("Updated: ");
    assert("  "@ =~= gap());
    assert("None"@ =~= seq!['N', 'o', 'n', 'e']);
    assert("Issued:  "@ =~= seq!['I', 's', 's', 'u', 'e', 'd', ':', ' ', ' ']);
    assert("Updated: "@ =~= seq!['U', 'p', 'd', 'a', 't', 'e', 'd', ':', ' ']);
    let lines = detail(a);
    let issued = date_lines(a.issued_date);
    let updated = date_lines(a.updated_date);
    let references = section_lines(cves(a.references@).len());
    assert(dated("Issued:  "@, a.issued_date).len() == issued);
    assert(dated("Updated: "@, a.updated_date).len() == updated);
    assert(reference_section(cves(a.references@)).len() == references);
    assert(lines.subrange(2 + issued + updated, 2 + issued + updated + references)
        =~= reference_section(cves(a.references@)));
    assert(lines.skip(2 + issued + updated + references) =~= package_section(
        all_packages(a.pkglist@),
    ));
}

/// The section on CVEs holds, behind an empty line and `References:`, a line for each in their
/// order: two blanks, the id padded to the width of the ids (empty where there is none), two
/// blanks, and where the reference leads.
pub proof fn section_on_references(list: Seq<UpdateReference>, i: int)
    ensures
        list.len() == 0 ==> reference_section(list).len() == 0,
        list.len() > 0 ==> reference_section(list).len() == list.len() + 2
            && reference_section(list)[0].len() == 0 && reference_section(list)[1] == seq![
            'R',
            'e',
            'f',
            'e',
            'r',
            'e',
            'n',
            'c',
            'e',
            's',
            ':',
        ],
        reference_ids(list).len() == list.len(),
        0 <= i < list.len() ==> {
            &&& list[i].id matches Some(t) ==> reference_ids(list)[i] == t@
            &&& list[i].id is None ==> reference_ids(list)[i].len() == 0
            &&& reference_section(list)[i + 2] == gap() + padded(
                reference_ids(list)[i],
                widest(reference_ids(list)) as int,
            ) + gap() + list[i].href@
        },
{
    reveal_strlit("  ");
    reveal_strlit("References:");
    assert("  "@ =~= gap());
    assert("References:"@ =~= seq!['R', 'e', 'f', 'e', 'r', 'e', 'n', 'c', 'e', 's', ':']);
}

/// The section on packages holds, behind an empty line and `Packages:`, a line for each in their
/// order: two blanks, the name and the version, each padded to the width of its column, and the
/// architecture, with two blanks between them.
pub proof fn section_on_packages(list: Seq<UpdateCollectionPackage>, i: int)
    ensures
        list.len() == 0 ==> package_section(list).len() == 0,
        list.len() > 0 ==> package_section(list).len() == list.len() + 2
            && package_section(list)[0].len() == 0 && package_section(list)[1] == seq![
            'P',
            'a',
            'c',
            'k',
            'a',
            'g',
            'e',
            's',
            ':',
        ],
        package_names(list).len() == list.len(),
        package_versions(list).len() == list.len(),
        0 <= i < list.len() ==> {
            &&& package_names(list)[i] == list[i].name@
            &&& package_versions(list)[i] == evr_text(package_evr(list[i]))
            &&& package_evr(list[i]).epoch == list[i].epoch@
            &&& package_evr(list[i]).version == list[i].version@
            &&& package_evr(list[i]).release == list[i].release@
            &&& package_section(list)[i + 2] == gap() + padded(
                list[i].name@,
                widest(package_names(list)) as int,
            ) + gap() + padded(package_versions(list)[i], widest(package_versions(list)) as int)
                + gap() + list[i].arch@
        },
{
    reveal_strlit("  ");
    reveal_strlit("Packages:");
    assert("  "@ =~= gap());
    assert("Packages:"@ =~= seq!['P', 'a', 'c', 'k', 'a', 'g', 'e', 's', ':']);
}

/// The references to CVEs are those of kind `cve`, in their order.
pub proof fn cves_among_references(
    a: Seq<UpdateReference>,
    b: Seq<UpdateReference>,
    r: UpdateReference,
)
    ensures
        cves(a + b) == cves(a) + cves(b),
        r.reftype@ == seq!['c', 'v', 'e'] ==> cves(seq![r]) == seq![r],
        r.reftype@ != seq!['c', 'v', 'e'] ==> cves(seq![r]).len() == 0,
{
    reveal_strlit("cve");
    assert("cve"@ =~= seq!['c', 'v', 'e']);
    let keep = |x: UpdateReference| x.reftype@ == "cve"@;
    Seq::filter_distributes_over_add(a, b, keep);
    reveal_with_fuel(Seq::filter, 2);
    assert(seq![r].drop_last() =~= Seq::empty());
    if r.reftype@ == "cve"@ {
        assert(cves(seq![r]) =~= seq![r]);
    }
}

/// A table has one line for each row, in their order: the first two texts, each padded to the
/// width of its column, with two blanks between them, then the third text between what the
/// caller puts around it.
pub proof fn one_line_per_row(
    rows: Seq<RowModel>,
    before: Seq<char>,
    behind: Seq<char>,
    i: int,
)
    ensures
        table_text(rows, before, behind).len() == rows.len(),
        firsts(rows).len() == rows.len(),
        seconds(rows).len() == rows.len(),
        0 <= i < rows.len() ==> {
            &&& firsts(rows)[i] == rows[i].first
            &&& seconds(rows)[i] == rows[i].second
            &&& table_text(rows, before, behind)[i] == padded(
                rows[i].first,
                widest(firsts(rows)) as int,
            ) + gap() + padded(rows[i].second, widest(seconds(rows)) as int) + before
                + rows[i].third + behind
        },
{
    reveal_strlit("  ");
    assert("  "@ =~= gap());
}

/// The row of a resolved package shows its name, its version and the label of its repository;
/// that of a broken requirement the name and version of the package, and the requirement.
pub proof fn rows_show(
    p: ProviderModel,
    id: SolvableId,
    r: RequirementModel,
    ids: Seq<SolvableId>,
    i: int,
)
    ensures
        p.resolved_row(id).first == p.packages[id.0 as int].name,
        p.resolved_row(id).second == evr_text(p.packages[id.0 as int].evr),
        p.resolved_row(id).third == p.repo_labels[p.packages[id.0 as int].repo_id as int],
        p.problem_row(id, r).first == p.packages[id.0 as int].name,
        p.problem_row(id, r).second == evr_text(p.packages[id.0 as int].evr),
        p.problem_row(id, r).third == r.text(),
        resolved_rows(p, ids).len() == ids.len(),
        0 <= i < ids.len() ==> resolved_rows(p, ids)[i] == p.resolved_row(ids[i]),
{
}

/// A table of resolved packages has a row for every package, whatever its place, and no other
/// row; its rows stand in order, each once.
pub proof fn every_package_has_its_row(
    p: ProviderModel,
    ids: Seq<SolvableId>,
    rows: Seq<RowModel>,
    i: int,
    j: int,
)
    requires
        rows.to_set() == resolved_rows(p, ids).to_set(),
        strictly_sorted(rows),
    ensures
        0 <= i < ids.len() ==> rows.contains(p.resolved_row(ids[i])),
        0 <= i < rows.len() ==> exists|k: int|
            0 <= k < ids.len() && rows[i] == p.resolved_row(#[trigger] ids[k]),
        0 <= i < j < rows.len() ==> row_before(rows[i], rows[j]),
{
    let all = resolved_rows(p, ids);
    if 0 <= i < ids.len() {
        assert(all[i] == p.resolved_row(ids[i]));
        assert(all.to_set().contains(all[i]));
        assert(rows.to_set().contains(all[i]));
    }
    if 0 <= i < rows.len() {
        assert(rows.to_set().contains(rows[i]));
        assert(all.to_set().contains(rows[i]));
        let k = all.index_of(rows[i]);
        assert(rows[i] == p.resolved_row(ids[k]));
    }
}

/// Whether one sequence of bytes stands before another at a place: they agree up to it, and
/// there the first ends or has the lower byte.
pub open spec fn parts_at(a: Seq<u8>, b: Seq<u8>, k: int) -> bool {
    &&& 0 <= k <= a.len()
    &&& k < b.len()
    &&& forall|i: int| 0 <= i < k ==> a[i] == #[trigger] b[i]
    &&& k < a.len() ==> a[k] < b[k]
}

/// Bytes are ordered by the first place at which they differ, a beginning before what it
/// begins.
proof fn bytes_part_somewhere(a: Seq<u8>, b: Seq<u8>)
    ensures
        bytes_before(a, b) <==> exists|k: int| #[trigger] parts_at(a, b, k),
    decreases a.len(),
{
    if b.len() > 0 && a.len() == 0 {
        assert(parts_at(a, b, 0));
    } else if b.len() > 0 {
        let x = a.drop_first();
        let y = b.drop_first();
        if a[0] == b[0] {
            bytes_part_somewhere(x, y);
            if bytes_before(a, b) {
                let k = choose|k: int| #[trigger] parts_at(x, y, k);
                assert forall|i: int| 0 <= i < k + 1 implies a[i] == #[trigger] b[i] by {
                    if i > 0 {
                        assert(x[i - 1] == y[i - 1]);
                    }
                }
                assert(parts_at(a, b, k + 1));
            }
            if exists|k: int| #[trigger] parts_at(a, b, k) {
                let k = choose|k: int| #[trigger] parts_at(a, b, k);
                assert(k > 0);
                assert forall|i: int| 0 <= i < k - 1 implies x[i] == #[trigger] y[i] by {
                    assert(a[i + 1] == b[i + 1]);
                }
                assert(parts_at(x, y, k - 1));
            }
        } else {
            if bytes_before(a, b) {
                assert(parts_at(a, b, 0));
            }
            if exists|k: int| #[trigger] parts_at(a, b, k) {
                let k = choose|k: int| #[trigger] parts_at(a, b, k);
                if k > 0 {
                    assert(a[0] == b[0]);
                }
            }
        }
    }
}

/// Texts are ordered by the first UTF-8 byte in which they differ, a beginning before what it
/// begins. Rows are ordered by their first text; where those agree by the second; where those
/// agree too by the third.
pub proof fn rows_by_their_texts(a: RowModel, b: RowModel, x: Seq<char>, y: Seq<char>)
    ensures
        text_before(x, y) <==> exists|k: int| #[trigger]
            parts_at(encode_utf8(x), encode_utf8(y), k),
        a.first != b.first ==> (row_before(a, b) <==> text_before(a.first, b.first)),
        a.first == b.first && a.second != b.second ==> (row_before(a, b) <==> text_before(
            a.second,
            b.second,
        )),
        a.first == b.first && a.second == b.second ==> (row_before(a, b) <==> text_before(
            a.third,
            b.third,
        )),
{
    bytes_part_somewhere(encode_utf8(x), encode_utf8(y));
}

/// A row keeps its three texts; lists of texts keep their order.
pub proof fn texts_in_order(row: Row, list: Seq<String>, borrowed: Seq<&str>, i: int)
    ensures
        row@.first == row.first@,
        row@.second == row.second@,
        row@.third == row.third@,
        texts(list).len() == list.len(),
        0 <= i < list.len() ==> texts(list)[i] == list[i]@,
        str_texts(borrowed).len() == borrowed.len(),
        0 <= i < borrowed.len() ==> str_texts(borrowed)[i] == borrowed[i]@,
{
}

/// The rows of broken requirements are those of the pairs that were reported, one for one.
pub proof fn problem_rows_show(
    provider: RpmProvider,
    list: Seq<(SolvableId, VersionSetId)>,
    i: int,
)
    ensures
        problem_rows(provider, list).len() == list.len(),
        0 <= i < list.len() ==> problem_rows(provider, list)[i] == provider@.problem_row(
            list[i].0,
            provider.pool().requirement(list[i].1),
        ),
{
}

} // verus!
