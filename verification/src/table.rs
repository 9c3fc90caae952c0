//! Aligned tables: sorted rows of texts, padded to the width of their column.
use vstd::prelude::*;
use vstd::string::*;
use vstd::utf8::*;
use crate::text::str_eq;

verus! {

/// Whether one byte string stands before another: by the first byte in which they differ, a
/// shorter one before its continuations.
pub open spec fn bytes_before(a: Seq<u8>, b: Seq<u8>) -> bool
    decreases a.len(),
{
    if b.len() == 0 {
        false
    } else if a.len() == 0 {
        true
    } else if a[0] != b[0] {
        a[0] < b[0]
    } else {
        bytes_before(a.drop_first(), b.drop_first())
    }
}

/// Whether one text stands before another, byte by byte over UTF-8.
pub open spec fn text_before(a: Seq<char>, b: Seq<char>) -> bool {
    bytes_before(encode_utf8(a), encode_utf8(b))
}

/// Nothing stands before itself.
proof fn bytes_irreflexive(a: Seq<u8>)
    ensures
        !bytes_before(a, a),
    decreases a.len(),
{
    if a.len() > 0 {
        bytes_irreflexive(a.drop_first());
    }
}

/// Of two byte strings that differ one stands before the other.
proof fn bytes_total(a: Seq<u8>, b: Seq<u8>)
    ensures
        a == b || bytes_before(a, b) || bytes_before(b, a),
    decreases a.len(),
{
    if a.len() == 0 || b.len() == 0 {
        if a.len() == 0 && b.len() == 0 {
            assert(a =~= b);
        }
    } else if a[0] == b[0] {
        bytes_total(a.drop_first(), b.drop_first());
        if a.drop_first() == b.drop_first() {
            assert(a =~= seq![a[0]] + a.drop_first());
            assert(b =~= seq![b[0]] + b.drop_first());
        }
    }
}

/// What stands before another stands before all that the other stands before.
proof fn bytes_transitive(a: Seq<u8>, b: Seq<u8>, c: Seq<u8>)
    requires
        bytes_before(a, b),
        bytes_before(b, c),
    ensures
        bytes_before(a, c),
    decreases a.len(),
{
    if a.len() > 0 && b.len() > 0 && c.len() > 0 && a[0] == b[0] && b[0] == c[0] {
        bytes_transitive(a.drop_first(), b.drop_first(), c.drop_first());
    }
}

/// The order of texts is a strict total order.
pub proof fn text_order(a: Seq<char>, b: Seq<char>, c: Seq<char>)
    ensures
        !text_before(a, a),
        a == b || text_before(a, b) || text_before(b, a),
        text_before(a, b) && text_before(b, c) ==> text_before(a, c),
{
    bytes_irreflexive(encode_utf8(a));
    bytes_total(encode_utf8(a), encode_utf8(b));
    if encode_utf8(a) == encode_utf8(b) {
        encode_utf8_decode_utf8(a);
        encode_utf8_decode_utf8(b);
    }
    if text_before(a, b) && text_before(b, c) {
        bytes_transitive(encode_utf8(a), encode_utf8(b), encode_utf8(c));
    }
}

/// Whether one text stands before another.
pub fn is_before(a: &str, b: &str) -> (r: bool)
    ensures
        r == text_before(a@, b@),
{
    let x: &[u8] = a.as_bytes();
    let y: &[u8] = b.as_bytes();
    let ghost whole = text_before(a@, b@);
    let mut i: usize = 0;
    assert(x@.skip(0) =~= x@);
    assert(y@.skip(0) =~= y@);
    while i < x.len() && i < y.len() && x[i] == y[i]
        invariant
            i <= x@.len(),
            i <= y@.len(),
            whole == bytes_before(x@.skip(i as int), y@.skip(i as int)),
        decreases x@.len() - i,
    {
        assert(x@.skip(i as int).drop_first() =~= x@.skip(i + 1));
        assert(y@.skip(i as int).drop_first() =~= y@.skip(i + 1));
        i = i + 1;
    }
    if i >= y.len() {
        false
    } else if i >= x.len() {
        true
    } else {
        x[i] < y[i]
    }
}

/// A row of three texts.
#[derive(Debug)]
pub struct Row {
    pub first: String,
    pub second: String,
    pub third: String,
}

/// A row of three texts.
#[verifier::ext_equal]
pub struct RowModel {
    pub first: Seq<char>,
    pub second: Seq<char>,
    pub third: Seq<char>,
}

impl View for Row {
    type V = RowModel;

    open spec fn view(&self) -> RowModel {
        RowModel { first: self.first@, second: self.second@, third: self.third@ }
    }
}

/// The rows of a list, with their texts.
pub open spec fn row_models(rows: Seq<Row>) -> Seq<RowModel> {
    rows.map_values(|r: Row| r@)
}

/// Whether one row stands before another: by the first text in which they differ.
pub open spec fn row_before(a: RowModel, b: RowModel) -> bool {
    if a.first != b.first {
        text_before(a.first, b.first)
    } else if a.second != b.second {
        text_before(a.second, b.second)
    } else {
        text_before(a.third, b.third)
    }
}

/// The order of rows is a strict total order.
pub proof fn row_order(a: RowModel, b: RowModel, c: RowModel)
    ensures
        !row_before(a, a),
        a == b || row_before(a, b) || row_before(b, a),
        row_before(a, b) && row_before(b, c) ==> row_before(a, c),
        !(row_before(a, b) && row_before(b, a)),
{
    text_order(a.first, b.first, c.first);
    text_order(a.first, b.first, a.first);
    text_order(a.second, b.second, c.second);
    text_order(a.second, b.second, a.second);
    text_order(a.third, b.third, c.third);
    text_order(a.third, b.third, a.third);
}

/// Whether rows stand in order, each once.
pub open spec fn strictly_sorted(rows: Seq<RowModel>) -> bool {
    forall|i: int, j: int|
        0 <= i < j < rows.len() ==> row_before(#[trigger] rows[i], #[trigger] rows[j])
}

/// Whether one row stands before another.
fn is_row_before(a: &Row, b: &Row) -> (r: bool)
    ensures
        r == row_before(a@, b@),
{
    if !str_eq(a.first.as_str(), b.first.as_str()) {
        is_before(a.first.as_str(), b.first.as_str())
    } else if !str_eq(a.second.as_str(), b.second.as_str()) {
        is_before(a.second.as_str(), b.second.as_str())
    } else {
        is_before(a.third.as_str(), b.third.as_str())
    }
}

/// The rows of a table: in order, each once.
#[derive(Debug)]
pub struct Table {
    rows: Vec<Row>,
}

impl View for Table {
    type V = Seq<RowModel>;

    closed spec fn view(&self) -> Seq<RowModel> {
        row_models(self.rows@)
    }
}

impl Table {
    /// The table's invariant.
    pub open spec fn wf(self) -> bool {
        strictly_sorted(self@)
    }

    /// A table without rows.
    pub fn new() -> (r: Table)
        ensures
            r.wf(),
            r@ == Seq::<RowModel>::empty(),
    {
        let r = Table { rows: Vec::new() };
        assert(r@ =~= Seq::<RowModel>::empty());
        r
    }

    /// Adds a row at its place, unless it is there already.
    pub fn insert(&mut self, row: Row)
        requires
            old(self).wf(),
        ensures
            final(self).wf(),
            final(self)@.to_set() == old(self)@.to_set().insert(row@),
    {
        let ghost models = self@;
        let ghost x = row@;
        let mut at: usize = self.rows.len();
        while at > 0 && is_row_before(&row, &self.rows[at - 1])
            invariant
                at <= self.rows@.len(),
                x == row@,
                models == row_models(self.rows@),
                forall|k: int| at <= k < models.len() ==> row_before(x, #[trigger] models[k]),
            decreases at,
        {
            assert(models[at - 1] == self.rows@[at - 1]@);
            at = at - 1;
        }
        if at > 0 {
            proof {
                assert(models[at - 1] == self.rows@[at - 1]@);
                row_order(x, models[at - 1], x);
            }
            if !is_row_before(&self.rows[at - 1], &row) {
                proof {
                    assert(models[at - 1] == x);
                    assert(models.to_set().contains(x));
                    assert(models.to_set().insert(x) =~= models.to_set());
                }
                return ;
            }
        }
        proof {
            let grown = models.insert(at as int, x);
            assert(row_models(self.rows@.insert(at as int, row)) =~= grown);
            assert forall|i: int, j: int| 0 <= i < j < grown.len() implies row_before(
                #[trigger] grown[i],
                #[trigger] grown[j],
            ) by {
                if i < at && j == at && i < at - 1 {
                    assert(row_before(models[i], models[at - 1]));
                    row_order(models[i], models[at - 1], x);
                }
            }
            assert forall|y: RowModel| grown.to_set().contains(y) == models.to_set().insert(
                x,
            ).contains(y) by {
                if grown.contains(y) {
                    let k = grown.index_of(y);
                    if k < at {
                        assert(models[k] == y);
                    } else if k > at {
                        assert(models[k - 1] == y);
                    }
                }
                if models.contains(y) {
                    let k = models.index_of(y);
                    if k < at {
                        assert(grown[k] == y);
                    } else {
                        assert(grown[k + 1] == y);
                    }
                }
                assert(grown[at as int] == x);
            }
            assert(grown.to_set() =~= models.to_set().insert(x));
        }
        self.rows.insert(at, row);
    }

    /// The rows, in order.
    pub fn rows(&self) -> (r: &Vec<Row>)
        ensures
            row_models(r@) == self@,
    {
        &self.rows
    }
}

/// The rows of a table are determined by the set of rows that were added.
pub proof fn sorted_rows_are_unique(a: Seq<RowModel>, b: Seq<RowModel>)
    requires
        strictly_sorted(a),
        strictly_sorted(b),
        a.to_set() == b.to_set(),
    ensures
        a == b,
    decreases a.len(),
{
    if a.len() == 0 {
        if b.len() > 0 {
            assert(b.to_set().contains(b[0]));
            assert(a.to_set().contains(b[0]));
        }
        assert(a =~= b);
    } else {
        assert(a.to_set().contains(a[0]));
        assert(b.contains(a[0]));
        assert(b.len() > 0);
        assert(b.to_set().contains(b[0]));
        assert(a.contains(b[0]));
        let i = a.index_of(b[0]);
        let j = b.index_of(a[0]);
        if i > 0 && j > 0 {
            row_order(a[0], b[0], a[0]);
            assert(row_before(a[0], a[i]));
            assert(row_before(b[0], b[j]));
        }
        assert(a[0] == b[0]);
        let a1 = a.drop_first();
        let b1 = b.drop_first();
        assert forall|y: RowModel| a1.to_set().contains(y) == b1.to_set().contains(y) by {
            row_order(a[0], a[0], a[0]);
            if a1.contains(y) {
                let k = a1.index_of(y);
                assert(a[k + 1] == y);
                assert(row_before(a[0], a[k + 1]));
                assert(a.to_set().contains(y));
                assert(b.contains(y));
                let m = b.index_of(y);
                assert(m > 0);
                assert(b1[m - 1] == y);
            }
            if b1.contains(y) {
                let k = b1.index_of(y);
                assert(b[k + 1] == y);
                assert(row_before(b[0], b[k + 1]));
                assert(b.to_set().contains(y));
                assert(a.contains(y));
                let m = a.index_of(y);
                assert(m > 0);
                assert(a1[m - 1] == y);
            }
        }
        assert(a1.to_set() =~= b1.to_set());
        sorted_rows_are_unique(a1, b1);
        assert(a =~= seq![a[0]] + a1);
        assert(b =~= seq![b[0]] + b1);
    }
}

/// How many bytes a text takes.
pub open spec fn byte_len(text: Seq<char>) -> nat {
    encode_utf8(text).len()
}

/// The largest of the byte counts of some texts.
pub open spec fn widest(texts: Seq<Seq<char>>) -> nat
    decreases texts.len(),
{
    if texts.len() == 0 {
        0
    } else {
        let rest = widest(texts.drop_last());
        if byte_len(texts.last()) > rest {
            byte_len(texts.last())
        } else {
            rest
        }
    }
}

/// The largest of a width and the byte count of a text.
pub fn wider(width: usize, text: &str) -> (r: usize)
    ensures
        r == (if byte_len(text@) > width {
            byte_len(text@)
        } else {
            width as nat
        }),
{
    let size: usize = text.as_bytes().len();
    if size > width {
        size
    } else {
        width
    }
}

/// The width of some texts and one more.
pub(crate) proof fn widest_step(texts: Seq<Seq<char>>, i: int)
    requires
        0 <= i < texts.len(),
    ensures
        widest(texts.take(i + 1)) == (if byte_len(texts[i]) > widest(texts.take(i)) {
            byte_len(texts[i])
        } else {
            widest(texts.take(i))
        }),
{
    assert(texts.take(i + 1).drop_last() =~= texts.take(i));
}

/// No text is wider than the widest.
pub proof fn widest_is_widest(texts: Seq<Seq<char>>, i: int)
    requires
        0 <= i < texts.len(),
    ensures
        byte_len(texts[i]) <= widest(texts),
    decreases texts.len(),
{
    if i < texts.len() - 1 {
        widest_is_widest(texts.drop_last(), i);
    }
}

/// A number of blanks.
pub open spec fn blanks(n: int) -> Seq<char> {
    Seq::new(
        if n > 0 {
            n as nat
        } else {
            0
        },
        |i: int| ' ',
    )
}

/// A text with blanks behind it, up to a width in characters. A text that is longer stays as
/// it is.
pub open spec fn padded(text: Seq<char>, width: int) -> Seq<char> {
    text + blanks(width - text.len())
}

/// Appends a text and blanks behind it, up to a width in characters.
pub fn push_padded(line: &mut String, text: &str, width: usize)
    ensures
        final(line)@ == old(line)@ + padded(text@, width as int),
{
    line.append(text);
    proof {
        reveal_strlit(" ");
        assert(" "@ =~= seq![' ']);
    }
    let mut size: usize = crate::text::chars_of(text).len();
    let ghost count = text@.len();
    assert(line@ =~= old(line)@ + text@ + blanks(size - count));
    while size < width
        invariant
            size >= count,
            count == text@.len(),
            size <= width || size == count,
            " "@ == seq![' '],
            line@ == old(line)@ + text@ + blanks(size - count),
        decreases width - size,
    {
        line.append(" ");
        size = size + 1;
        assert(blanks(size - count) =~= blanks(size - 1 - count) + seq![' ']);
        assert(line@ =~= old(line)@ + text@ + blanks(size - count));
    }
    assert(blanks(size - count) =~= blanks(width - count));
    assert(line@ =~= old(line)@ + padded(text@, width as int));
}

} // verus!
