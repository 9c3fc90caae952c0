//! Which files are downloaded, in which order, and from where.
use vstd::prelude::*;
use crate::fetch::{
    after_answers, first_action, identity_text, index_path, present, record_models, ActionModel,
    FetchAction, MetadataRecord, RecordModel, RepoIndex,
};
use crate::metadata::{Checksum, ChecksumModel, ChecksumType};
use crate::text::occurs_at;
use crate::urls::{
    carries_token, directory_url_of, download_url_of, encodes_apostrophe, ends_with_slash,
    path_can_change, query_can_change, query_char_size, query_fits, query_part, query_size,
    requested_url_of, slash_fits, slash_size, through_path, up_to, url_join_of, url_path_of,
    url_safe, url_text_of, url_with_path_of, url_with_query_of,
};

verus! {

/// One where there is a record, else zero.
pub open spec fn one_if_there(record: Option<MetadataRecord>) -> int {
    if record is Some {
        1
    } else {
        0
    }
}

/// Whether two records name the same file: the same path and the same checksum.
pub open spec fn same_file(a: MetadataRecord, b: MetadataRecord) -> bool {
    &&& a.path@ == b.path@
    &&& a.checksum@ == b.checksum@
}

/// Whether a record is one of the five that are downloaded as a rule.
pub open spec fn is_usual(index: RepoIndex, r: MetadataRecord) -> bool {
    ||| index.primary is Some && same_file(r, index.primary->0)
    ||| index.filelists is Some && same_file(r, index.filelists->0)
    ||| index.other is Some && same_file(r, index.other->0)
    ||| index.updateinfo is Some && same_file(r, index.updateinfo->0)
    ||| index.comps is Some && same_file(r, index.comps->0)
}

/// Unless all files are asked for, those are downloaded that the index names as its primary,
/// filelists, other, updateinfo and comps record: each that is there once, in this order, and
/// nothing else. Where all five are there the downloads are five.
pub proof fn usual_files_downloaded(index: RepoIndex, list: Seq<MetadataRecord>)
    requires
        record_models(list) == index.wanted(false),
    ensures
        list.len() == one_if_there(index.primary) + one_if_there(index.filelists) + one_if_there(
            index.other,
        ) + one_if_there(index.updateinfo) + one_if_there(index.comps),
        index.primary matches Some(r) ==> same_file(list[0], r),
        index.filelists matches Some(r) ==> same_file(list[one_if_there(index.primary)], r),
        index.other matches Some(r) ==> same_file(
            list[one_if_there(index.primary) + one_if_there(index.filelists)],
            r,
        ),
        index.updateinfo matches Some(r) ==> same_file(
            list[one_if_there(index.primary) + one_if_there(index.filelists) + one_if_there(
                index.other,
            )],
            r,
        ),
        index.comps matches Some(r) ==> same_file(
            list[one_if_there(index.primary) + one_if_there(index.filelists) + one_if_there(
                index.other,
            ) + one_if_there(index.updateinfo)],
            r,
        ),
        forall|i: int| 0 <= i < list.len() ==> is_usual(index, #[trigger] list[i]),
        index.primary is Some && index.filelists is Some && index.other is Some
            && index.updateinfo is Some && index.comps is Some ==> list.len() == 5,
{
    let want = index.wanted(false);
    let a = present(index.primary);
    let b = present(index.filelists);
    let c = present(index.other);
    let d = present(index.updateinfo);
    let e = present(index.comps);
    assert(list.len() == want.len());
    assert(forall|i: int| 0 <= i < list.len() ==> (#[trigger] list[i])@ == want[i]);
    assert forall|i: int| 0 <= i < list.len() implies is_usual(index, #[trigger] list[i]) by {
        assert(list[i]@ == want[i]);
        if i < a.len() {
            assert(want[i] == a[i]);
        } else if i < a.len() + b.len() {
            assert(want[i] == b[i - a.len()]);
        } else if i < a.len() + b.len() + c.len() {
            assert(want[i] == c[i - a.len() - b.len()]);
        } else if i < a.len() + b.len() + c.len() + d.len() {
            assert(want[i] == d[i - a.len() - b.len() - c.len()]);
        } else {
            assert(want[i] == e[i - a.len() - b.len() - c.len() - d.len()]);
        }
    }
    if index.primary is Some {
        assert(list[0]@ == want[0]);
    }
    if index.filelists is Some {
        assert(list[a.len() as int]@ == want[a.len() as int]);
    }
    if index.other is Some {
        let k = (a.len() + b.len()) as int;
        assert(list[k]@ == want[k]);
    }
    if index.updateinfo is Some {
        let k = (a.len() + b.len() + c.len()) as int;
        assert(list[k]@ == want[k]);
    }
    if index.comps is Some {
        let k = (a.len() + b.len() + c.len() + d.len()) as int;
        assert(list[k]@ == want[k]);
    }
}

/// Where all files are asked for, all records of the index are downloaded, in their order.
pub proof fn all_files_downloaded(index: RepoIndex, list: Seq<MetadataRecord>)
    requires
        record_models(list) == index.wanted(true),
    ensures
        list.len() == index.records@.len(),
        forall|i: int|
            0 <= i < list.len() ==> same_file(#[trigger] list[i], index.records@[i]),
{
    assert(record_models(list).len() == record_models(index.records@).len());
    assert forall|i: int| 0 <= i < list.len() implies same_file(
        #[trigger] list[i],
        index.records@[i],
    ) by {
        assert(record_models(list)[i] == record_models(index.records@)[i]);
    }
}

/// Two checksums agree where they are of one kind and have the same digits, and only there.
pub proof fn checksums_agree(a: Checksum, b: Checksum)
    ensures
        a@ == b@ <==> match (a, b) {
            (Checksum::Md5(x), Checksum::Md5(y)) => x@ == y@,
            (Checksum::Sha1(x), Checksum::Sha1(y)) => x@ == y@,
            (Checksum::Sha224(x), Checksum::Sha224(y)) => x@ == y@,
            (Checksum::Sha256(x), Checksum::Sha256(y)) => x@ == y@,
            (Checksum::Sha384(x), Checksum::Sha384(y)) => x@ == y@,
            (Checksum::Sha512(x), Checksum::Sha512(y)) => x@ == y@,
            (Checksum::Unknown(x), Checksum::Unknown(y)) => x@ == y@,
            (Checksum::Empty, Checksum::Empty) => true,
            _ => false,
        },
{
}

/// The checksum to compute of a file is of the kind that the repository states; for a kind that
/// is not known, or none, there is none to compute.
pub proof fn computed_as_stated(c: Checksum)
    ensures
        c is Md5 ==> c@.computable() == Some(ChecksumType::Md5),
        c is Sha1 ==> c@.computable() == Some(ChecksumType::Sha1),
        c is Sha224 ==> c@.computable() == Some(ChecksumType::Sha224),
        c is Sha256 ==> c@.computable() == Some(ChecksumType::Sha256),
        c is Sha384 ==> c@.computable() == Some(ChecksumType::Sha384),
        c is Sha512 ==> c@.computable() == Some(ChecksumType::Sha512),
        c is Unknown ==> c@.computable() is None,
        c is Empty ==> c@.computable() is None,
{
}

/// A download begins with the first of the files, if there is one; it is over where there is
/// none. What is asked for next is shown with the path it is about.
pub proof fn begins_with_the_first(list: Seq<RecordModel>, action: FetchAction)
    ensures
        list.len() == 0 <==> first_action(list) == ActionModel::Done,
        list.len() > 0 ==> first_action(list) == ActionModel::Download(list[0].path),
        action matches FetchAction::Download(path) ==> action@ == ActionModel::Download(path@),
        action matches FetchAction::ComputeChecksum(path, kind) ==> action@
            == ActionModel::ComputeChecksum(path@, kind),
        action is Done ==> action@ == ActionModel::Done,
{
}

/// A file whose checksum does not agree stays the next to be downloaded, with all that follow.
pub proof fn stuck_at_a_mismatch(
    list: Seq<RecordModel>,
    agreed: Seq<ChecksumModel>,
    wrong: ChecksumModel,
    more: Seq<ChecksumModel>,
)
    requires
        agreed.len() < list.len(),
        forall|i: int| 0 <= i < agreed.len() ==> #[trigger] agreed[i] == list[i].checksum,
        wrong != list[agreed.len() as int].checksum,
    ensures
        after_answers(list, agreed.push(wrong) + more) == list.skip(agreed.len() as int),
    decreases agreed.len(),
{
    let answers = agreed.push(wrong) + more;
    if agreed.len() == 0 {
        assert(answers[0] == wrong);
        assert(list.skip(0) =~= list);
    } else {
        assert(answers[0] == agreed[0]);
        let rest = agreed.drop_first();
        assert(answers.drop_first() =~= rest.push(wrong) + more);
        assert forall|i: int| 0 <= i < rest.len() implies #[trigger] rest[i]
            == list.drop_first()[i].checksum by {
            assert(rest[i] == agreed[i + 1]);
        }
        stuck_at_a_mismatch(list.drop_first(), rest, wrong, more);
        assert(list.drop_first().skip(rest.len() as int) =~= list.skip(agreed.len() as int));
    }
}

/// The index lies at `repodata/repomd.xml` beside the base URL.
pub proof fn index_lies_at()
    ensures
        index_path() == seq![
            'r',
            'e',
            'p',
            'o',
            'd',
            'a',
            't',
            'a',
            '/',
            'r',
            'e',
            'p',
            'o',
            'm',
            'd',
            '.',
            'x',
            'm',
            'l',
        ],
{
    reveal_strlit("repodata/repomd.xml");
}

/// The client's identity is the certificate; where there is a key, a line end and the key
/// follow.
pub proof fn identity_parts(cert: Seq<u8>, key: Seq<u8>)
    ensures
        identity_text(cert, None) == cert,
        identity_text(cert, Some(key)).len() == cert.len() + 1 + key.len(),
        identity_text(cert, Some(key)).take(cert.len() as int) == cert,
        identity_text(cert, Some(key))[cert.len() as int] == 10,
        identity_text(cert, Some(key)).skip(cert.len() + 1int) == key,
{
    let text = identity_text(cert, Some(key));
    assert(text.take(cert.len() as int) =~= cert);
    assert(text.skip(cert.len() + 1int) =~= key);
}

/// A file is requested from where its path leads beside the base URL; a token, if there is one,
/// is set as the query of that URL and of no other. There is no URL where the path leads
/// nowhere.
pub proof fn requested_beside_the_base(base: Seq<char>, path: Seq<char>, token: Seq<char>)
    ensures
        download_url_of(base, path, None) == url_join_of(base, path),
        url_join_of(base, path) matches Some(url) ==> download_url_of(base, path, Some(token))
            == url_with_query_of(url, token),
        url_join_of(base, path) is None ==> download_url_of(base, path, Some(token)) is None,
{
}

/// Files are requested beside the directory: the repository's URL as it is where its path ends
/// with a slash, else the URL with a slash at the end of its path.
pub proof fn requested_beside_the_directory(
    url: Seq<char>,
    path: Seq<char>,
    token: Option<Seq<char>>,
)
    ensures
        url_path_of(url) is None ==> directory_url_of(url) is None,
        url_path_of(url) matches Some(p) ==> (p.len() > 0 && p[p.len() - 1] == '/'
            ==> directory_url_of(url) == Some(url)),
        url_path_of(url) matches Some(p) ==> (p.len() == 0 || p[p.len() - 1] != '/'
            ==> directory_url_of(url) == url_with_path_of(url, p + seq!['/'])),
        directory_url_of(url) is None ==> requested_url_of(url, path, token) is None,
        directory_url_of(url) matches Some(base) ==> requested_url_of(url, path, token)
            == download_url_of(base, path, token),
{
    if let Some(p) = url_path_of(url) {
        assert(p.push('/') =~= p + seq!['/']);
    }
}

/// The query of a URL is what stands behind the first `?`, without what stands behind `#`.
pub proof fn query_between_marks(front: Seq<char>, query: Seq<char>, fragment: Seq<char>)
    requires
        !front.contains('?'),
        !front.contains('#'),
        !query.contains('#'),
    ensures
        query_part(front) is None,
        query_part(front + seq!['#'] + fragment) is None,
        query_part(front + seq!['?'] + query) == Some(query),
        query_part(front + seq!['?'] + query + seq!['#'] + fragment) == Some(query),
        through_path(front) == front,
        through_path(front + seq!['?'] + query + seq!['#'] + fragment) == front,
{
    let asked = front + seq!['?'] + query;
    let whole = asked + seq!['#'] + fragment;
    assert(!asked.contains('#')) by {
        if asked.contains('#') {
            let k = asked.index_of('#');
            if k < front.len() {
                assert(front[k] == '#');
            } else if k > front.len() {
                assert(query[k - front.len() - 1] == '#');
            }
        }
    }
    cut_at_the_first(front, '#', fragment);
    cut_at_the_first(asked, '#', fragment);
    cut_at_the_first(front, '?', query);
    assert(whole =~= asked + (seq!['#'] + fragment));
    assert(asked =~= front + (seq!['?'] + query));
    assert(front + seq!['#'] + fragment =~= front + (seq!['#'] + fragment));
    front.index_of_first_ensures('?');
    asked.index_of_first_ensures('?');
    assert(asked[front.len() as int] == '?');
    let i = asked.index_of_first('?')->0;
    if i < front.len() {
        assert(front[i] == '?');
    }
    assert(asked.skip(front.len() + 1int) =~= query);
}

/// A text up to a character is what stands before its first occurrence, or all of it.
pub proof fn cut_at_the_first(front: Seq<char>, c: char, rest: Seq<char>)
    requires
        !front.contains(c),
    ensures
        up_to(front, c) == front,
        up_to(front + (seq![c] + rest), c) == front,
{
    let text = front + (seq![c] + rest);
    front.index_of_first_ensures(c);
    text.index_of_first_ensures(c);
    assert(text[front.len() as int] == c);
    let i = text.index_of_first(c)->0;
    if i < front.len() {
        assert(front[i] == c);
    }
    assert(text.take(front.len() as int) =~= front);
}

/// A token of ASCII letters, digits, `-`, `.`, `_` and `~` is exactly the query of the URL that
/// carries it; a URL without a token carries any.
pub proof fn token_is_the_query(url: Seq<char>, token: Seq<char>, i: int)
    ensures
        carries_token(url, None),
        url_safe(token) && carries_token(url, Some(token)) ==> query_part(url) == Some(token),
        url_safe(token) && 0 <= i < token.len() ==> {
            ||| 'a' <= token[i] <= 'z'
            ||| 'A' <= token[i] <= 'Z'
            ||| '0' <= token[i] <= '9'
            ||| token[i] == '-' || token[i] == '.' || token[i] == '_' || token[i] == '~'
        },
        !url_safe(token) ==> exists|k: int|
            0 <= k < token.len() && !('a' <= #[trigger] token[k] <= 'z') && !('A' <= token[k]
                <= 'Z') && !('0' <= token[k] <= '9') && token[k] != '-' && token[k] != '.'
                && token[k] != '_' && token[k] != '~',
{
}

/// No URL is turned away that leaves the `url` crate room to tell its positions: one with room
/// for a slash, or for its query with each character in the longest form, always fits. What
/// counts is where the path ends and, in a URL with a fragment, where the fragment begins.
pub proof fn short_urls_fit(text: Seq<char>, path: Seq<char>, query: Seq<char>)
    ensures
        text.len() + 3 <= 0xffff_ffff ==> slash_fits(text, path),
        text.len() + 1 + 12 * query.len() <= 0xffff_ffff ==> query_fits(text, query),
        path.len() > 0 ==> slash_size(text, path) == 1,
        path.len() == 0 && through_path(text).len() > 0 && through_path(text)[through_path(
            text,
        ).len() - 1] == ':' ==> slash_size(text, path) == 3,
        path.len() == 0 && (through_path(text).len() == 0 || through_path(text)[through_path(
            text,
        ).len() - 1] != ':') ==> slash_size(text, path) == 1,
        !text.contains('#') ==> (slash_fits(text, path) <==> through_path(text).len() + slash_size(
            text,
            path,
        ) <= 0xffff_ffff),
        text.contains('#') ==> (slash_fits(text, path) <==> up_to(text, '#').len() + slash_size(
            text,
            path,
        ) <= 0xffff_ffff),
        through_path(text).len() >= 0xffff_ffff ==> !slash_fits(text, path),
        through_path(text).len() > 0xffff_ffff ==> !query_fits(text, query),
        !text.contains('#') && through_path(text).len() <= 0xffff_ffff ==> query_fits(text, query),
        text.contains('#') ==> (query_fits(text, query) <==> up_to(text, '#').len() < 0xffff_ffff
            && through_path(text).len() + 1 + query_size(query, encodes_apostrophe(text))
            <= 0xffff_ffff),
{
    let front = up_to(text, '#');
    text.index_of_first_ensures('#');
    front.index_of_first_ensures('?');
    query_size_bounds(query, encodes_apostrophe(text));
}

/// A character of a query takes at least no byte and at most twelve.
proof fn query_size_bounds(query: Seq<char>, apostrophe: bool)
    ensures
        query_size(query, apostrophe) <= 12 * query.len(),
    decreases query.len(),
{
    if query.len() > 0 {
        query_size_bounds(query.drop_last(), apostrophe);
    }
}

/// The bytes of a query are those of its characters: none for a tab or a line end; one for a
/// character that stands for itself in a URL; three for each of the UTF-8 bytes of one that is
/// encoded.
pub proof fn query_bytes(a: Seq<char>, b: Seq<char>, c: char, apostrophe: bool)
    ensures
        query_size(Seq::empty(), apostrophe) == 0,
        query_size(a + b, apostrophe) == query_size(a, apostrophe) + query_size(b, apostrophe),
        query_size(seq![c], apostrophe) == query_char_size(c, apostrophe),
        c == '\t' || c == '\n' || c == '\r' ==> query_char_size(c, apostrophe) == 0,
        url_safe(seq![c]) ==> query_char_size(c, apostrophe) == 1,
        (c as u32) < 0x20 && c != '\t' && c != '\n' && c != '\r' || c as u32 == 0x7f
            ==> query_char_size(c, apostrophe) == 3,
        c == ' ' || c == '"' || c == '#' || c == '<' || c == '>' ==> query_char_size(c, apostrophe)
            == 3,
        c == '\'' ==> query_char_size(c, true) == 3 && query_char_size(c, false) == 1,
        0x20 < c as u32 && (c as u32) < 0x7f && c != '"' && c != '#' && c != '<' && c != '>' && c
            != '\'' ==> query_char_size(c, apostrophe) == 1,
        0x80 <= c as u32 && (c as u32) < 0x800 ==> query_char_size(c, apostrophe) == 3 * 2,
        0x800 <= c as u32 && (c as u32) < 0x10000 ==> query_char_size(c, apostrophe) == 3 * 3,
        0x10000 <= c as u32 ==> query_char_size(c, apostrophe) == 3 * 4,
    decreases b.len(),
{
    reveal_with_fuel(query_size, 2);
    assert(seq![c].drop_last() =~= Seq::empty());
    assert(seq![c][0] == c);
    if b.len() == 0 {
        assert(a + b =~= a);
    } else {
        query_bytes(a, b.drop_last(), c, apostrophe);
        assert((a + b).drop_last() =~= a + b.drop_last());
    }
}

/// An apostrophe is encoded in the queries of `http`, `https`, `ws`, `wss`, `ftp` and `file`
/// URLs, and in no others.
pub proof fn schemes_with_apostrophe(text: Seq<char>)
    ensures
        encodes_apostrophe(text) <==> {
            ||| occurs_at(text, seq!['h', 't', 't', 'p', ':'], 0)
            ||| occurs_at(text, seq!['h', 't', 't', 'p', 's', ':'], 0)
            ||| occurs_at(text, seq!['w', 's', ':'], 0)
            ||| occurs_at(text, seq!['w', 's', 's', ':'], 0)
            ||| occurs_at(text, seq!['f', 't', 'p', ':'], 0)
            ||| occurs_at(text, seq!['f', 'i', 'l', 'e', ':'], 0)
        },
{
    reveal_strlit("http:");
    reveal_strlit("https:");
    reveal_strlit("ws:");
    reveal_strlit("wss:");
    reveal_strlit("ftp:");
    reveal_strlit("file:");
    assert("http:"@ =~= seq!['h', 't', 't', 'p', ':']);
    assert("https:"@ =~= seq!['h', 't', 't', 'p', 's', ':']);
    assert("ws:"@ =~= seq!['w', 's', ':']);
    assert("wss:"@ =~= seq!['w', 's', 's', ':']);
    assert("ftp:"@ =~= seq!['f', 't', 'p', ':']);
    assert("file:"@ =~= seq!['f', 'i', 'l', 'e', ':']);
}

/// A URL is turned away only where a part of it has to change and there is no room for the
/// change.
pub proof fn turned_away_for_want_of_room(
    base: Seq<char>,
    path: Seq<char>,
    token: Seq<char>,
)
    ensures
        query_can_change(base, path, None),
        url_join_of(base, path) is None ==> query_can_change(base, path, Some(token)),
        (url_join_of(base, path) is Some && url_text_of(url_join_of(base, path)->0) is Some) ==> (
        query_can_change(base, path, Some(token)) <==> query_fits(
            url_text_of(url_join_of(base, path)->0)->0,
            token,
        )),
        url_path_of(base) is None || url_text_of(base) is None ==> path_can_change(base),
        (url_path_of(base) is Some && url_text_of(base) is Some) ==> (path_can_change(base)
            <==> ends_with_slash(url_path_of(base)->0) || slash_fits(
            url_text_of(base)->0,
            url_path_of(base)->0,
        )),
{
}

} // verus!
