//! Addresses of repository files, computed by the `url` crate.
use vstd::prelude::*;
use url::Url;
use crate::text::{chars_of, concat, occurs_at, opt_str_view, starts_with};

verus! {

/// Why the `url` crate rejects a text.
#[verifier::external_type_specification]
#[verifier::external_body]
pub struct ExParseError(url::ParseError);

/// The URL that a text stands for, as the `url` crate writes it; `None` where it stands for
/// none.
pub uninterp spec fn url_text_of(url: Seq<char>) -> Option<Seq<char>>;

/// The path of the URL that a text stands for; `None` where it stands for none.
pub uninterp spec fn url_path_of(url: Seq<char>) -> Option<Seq<char>>;

/// The URL that a text stands for, with another path; `None` where it stands for none.
pub uninterp spec fn url_with_path_of(url: Seq<char>, path: Seq<char>) -> Option<Seq<char>>;

/// The URL that a reference stands for beside a base URL; `None` where it stands for none.
pub uninterp spec fn url_join_of(base: Seq<char>, reference: Seq<char>) -> Option<Seq<char>>;

/// The URL that a text stands for, with another query; `None` where it stands for none.
pub uninterp spec fn url_with_query_of(url: Seq<char>, query: Seq<char>) -> Option<Seq<char>>;

/// What stands in a text before the first occurrence of a character, or the whole text.
pub open spec fn up_to(text: Seq<char>, c: char) -> Seq<char> {
    match text.index_of_first(c) {
        Some(i) => text.take(i),
        None => text,
    }
}

/// The query of a URL's text: what stands behind the first `?`, up to the fragment.
pub open spec fn query_part(url: Seq<char>) -> Option<Seq<char>> {
    let front = up_to(url, '#');
    match front.index_of_first('?') {
        Some(i) => Some(front.skip(i + 1)),
        None => None,
    }
}

/// Whether a text holds only characters that stand for themselves in a URL: letters and
/// digits of ASCII, `-`, `.`, `_` and `~`.
pub open spec fn url_safe(text: Seq<char>) -> bool {
    forall|i: int|
        0 <= i < text.len() ==> {
            let c = #[trigger] text[i];
            ||| 'a' <= c <= 'z'
            ||| 'A' <= c <= 'Z'
            ||| '0' <= c <= '9'
            ||| c == '-' || c == '.' || c == '_' || c == '~'
        }
}

/// The largest position in a URL that the `url` crate can tell: it counts bytes in 32 bits, and
/// setting a part of a URL panics beyond. The text of a URL is ASCII, so that its characters
/// are its bytes.
pub const LAST_POSITION: u64 = 0xffff_ffff;

/// The text of a URL up to the end of its path.
pub open spec fn through_path(text: Seq<char>) -> Seq<char> {
    up_to(up_to(text, '#'), '?')
}

/// How many bytes a slash at the end of its path adds to a URL. A path that is empty behind
/// the colon of the scheme becomes `%2F`.
pub open spec fn slash_size(text: Seq<char>, path: Seq<char>) -> nat {
    if path.len() == 0 && through_path(text).len() > 0 && through_path(text).last() == ':' {
        3
    } else {
        1
    }
}

/// Whether the positions in a URL can be told once a slash stands at the end of its path.
pub open spec fn slash_fits(text: Seq<char>, path: Seq<char>) -> bool {
    &&& through_path(text).len() + slash_size(text, path) <= LAST_POSITION
    &&& text.contains('#') ==> up_to(text, '#').len() + slash_size(text, path) <= LAST_POSITION
}

/// Whether the scheme of a URL is one of those in whose queries an apostrophe is encoded.
pub open spec fn encodes_apostrophe(text: Seq<char>) -> bool {
    occurs_at(text, "http:"@, 0) || occurs_at(text, "https:"@, 0) || occurs_at(text, "ws:"@, 0)
        || occurs_at(text, "wss:"@, 0) || occurs_at(text, "ftp:"@, 0) || occurs_at(
        text,
        "file:"@,
        0,
    )
}

/// How many bytes a character of a query takes in a URL: three for each of its bytes where it
/// is encoded, else one. Tabs and line ends are left out.
pub open spec fn query_char_size(c: char, apostrophe: bool) -> nat {
    if c == '\t' || c == '\n' || c == '\r' {
        0
    } else if c as u32 >= 0x10000 {
        12
    } else if c as u32 >= 0x800 {
        9
    } else if c as u32 >= 0x80 {
        6
    } else if c as u32 <= 0x20 || c as u32 == 0x7f || c == '"' || c == '#' || c == '<' || c == '>'
        || (c == '\'' && apostrophe) {
        3
    } else {
        1
    }
}

/// How many bytes a query takes in a URL.
pub open spec fn query_size(query: Seq<char>, apostrophe: bool) -> nat
    decreases query.len(),
{
    if query.len() == 0 {
        0
    } else {
        query_size(query.drop_last(), apostrophe) + query_char_size(query.last(), apostrophe)
    }
}

/// Whether the positions in a URL can be told once it has another query.
pub open spec fn query_fits(text: Seq<char>, query: Seq<char>) -> bool {
    &&& through_path(text).len() <= LAST_POSITION
    &&& text.contains('#') ==> up_to(text, '#').len() < LAST_POSITION && through_path(text).len()
        + 1 + query_size(query, encodes_apostrophe(text)) <= LAST_POSITION
}

/// `url::Url::parse`, and the text of the URL. Claimed: the answer depends on the text alone.
/// What a URL is, is left to the `url` crate.
#[verifier::external_body]
pub(crate) fn url_text(url: &str) -> (r: Result<String, url::ParseError>)
    ensures
        match r {
            Ok(text) => url_text_of(url@) == Some(text@),
            Err(_) => url_text_of(url@) is None,
        },
{
    Ok(Url::parse(url)?.to_string())
}

/// `url::Url::path` on the URL that a text stands for. Claimed: the answer depends on the
/// text alone. What a path is, is left to the `url` crate.
#[verifier::external_body]
pub(crate) fn url_path(url: &str) -> (r: Result<String, url::ParseError>)
    ensures
        match r {
            Ok(path) => url_path_of(url@) == Some(path@),
            Err(_) => url_path_of(url@) is None,
        },
{
    let parsed = Url::parse(url)?;
    Ok(parsed.path().to_owned())
}

/// `url::Url::set_path` on the URL that a text stands for. Claimed: the answer depends on
/// the two texts alone. How the path is encoded is left to the `url` crate. It panics where a
/// position does not fit its 32 bits; the path is here always that of the URL with a slash at
/// its end, which is written as it stands.
#[verifier::external_body]
pub(crate) fn url_with_path(url: &str, path: &str) -> (r: Result<String, url::ParseError>)
    requires
        url_path_of(url@) matches Some(p) && path@ == p.push('/') && (url_text_of(
            url@,
        ) matches Some(text) ==> slash_fits(text, p)),
    ensures
        match r {
            Ok(text) => url_with_path_of(url@, path@) == Some(text@),
            Err(_) => url_with_path_of(url@, path@) is None,
        },
{
    let mut parsed = Url::parse(url)?;
    parsed.set_path(path);
    Ok(parsed.to_string())
}

/// `url::Url::join` on the base URL that a text stands for. Claimed: the answer depends on
/// the two texts alone. How a reference is resolved is left to the `url` crate.
#[verifier::external_body]
pub(crate) fn url_join(base: &str, reference: &str) -> (r: Result<String, url::ParseError>)
    ensures
        match r {
            Ok(text) => url_join_of(base@, reference@) == Some(text@),
            Err(_) => url_join_of(base@, reference@) is None,
        },
{
    Ok(Url::parse(base)?.join(reference)?.to_string())
}

/// `url::Url::set_query` on the URL that a text stands for. Claimed: the answer depends on
/// the two texts alone, and a query of characters that stand for themselves in a URL is the
/// query of the answer as it is. How others are encoded is left to the `url` crate. It panics
/// where a position does not fit its 32 bits.
#[verifier::external_body]
pub(crate) fn url_with_query(url: &str, query: &str) -> (r: Result<String, url::ParseError>)
    requires
        url_text_of(url@) matches Some(text) ==> query_fits(text, query@),
    ensures
        match r {
            Ok(text) => url_with_query_of(url@, query@) == Some(text@) && (url_safe(query@)
                ==> query_part(text@) == Some(query@)),
            Err(_) => url_with_query_of(url@, query@) is None,
        },
{
    let mut parsed = Url::parse(url)?;
    parsed.set_query(Some(query));
    Ok(parsed.to_string())
}

/// Whether a text ends with a slash.
pub open spec fn ends_with_slash(text: Seq<char>) -> bool {
    text.len() > 0 && text.last() == '/'
}

/// The path of a directory: the path with a slash at its end, or `None` where it ends with
/// one already.
pub fn directory_path(path: &str) -> (r: Option<String>)
    ensures
        match r {
            Some(p) => !ends_with_slash(path@) && p@ == path@.push('/'),
            None => ends_with_slash(path@),
        },
{
    let chars: Vec<char> = chars_of(path);
    if chars.len() > 0 && chars[chars.len() - 1] == '/' {
        None
    } else {
        proof {
            reveal_strlit("/");
            assert(path@ + "/"@ =~= path@.push('/'));
        }
        Some(concat(path, "/"))
    }
}

/// The URL of a directory: the URL with a slash at the end of its path.
pub open spec fn directory_url_of(url: Seq<char>) -> Option<Seq<char>> {
    match url_path_of(url) {
        None => None,
        Some(path) => if ends_with_slash(path) {
            Some(url)
        } else {
            url_with_path_of(url, path.push('/'))
        },
    }
}

/// Whether the `url` crate can tell the positions in the URL of the directory.
pub open spec fn path_can_change(url: Seq<char>) -> bool {
    match (url_text_of(url), url_path_of(url)) {
        (Some(text), Some(path)) => ends_with_slash(path) || slash_fits(text, path),
        _ => true,
    }
}

/// The URL of a directory.
pub fn directory_url(url: &str) -> (r: Result<String, url::ParseError>)
    requires
        path_can_change(url@),
    ensures
        match r {
            Ok(text) => directory_url_of(url@) == Some(text@),
            Err(_) => directory_url_of(url@) is None,
        },
{
    let path: String = match url_path(url) {
        Ok(path) => path,
        Err(error) => return Err(error),
    };
    match directory_path(path.as_str()) {
        None => Ok(url.to_owned()),
        Some(changed) => url_with_path(url, changed.as_str()),
    }
}

/// How many characters stand in the first `end` characters of a text before the first
/// occurrence of one.
fn length_up_to(chars: &Vec<char>, end: usize, c: char) -> (r: usize)
    requires
        end <= chars@.len(),
    ensures
        r == up_to(chars@.take(end as int), c).len(),
        r <= end,
        chars@.take(r as int) == up_to(chars@.take(end as int), c),
        r < end <==> chars@.take(end as int).contains(c),
{
    let ghost text = chars@.take(end as int);
    let mut i: usize = 0;
    while i < end && chars[i] != c
        invariant
            i <= end,
            end <= chars@.len(),
            text == chars@.take(end as int),
            forall|k: int| 0 <= k < i ==> text[k] != c,
        decreases end - i,
    {
        i = i + 1;
    }
    proof {
        text.index_of_first_ensures(c);
        if i < end {
            assert(text[i as int] == c);
            assert(text.contains(c));
        }
        assert(chars@.take(i as int) =~= up_to(text, c));
    }
    i
}

/// Whether the positions in a URL can be told once a slash stands at the end of its path.
fn has_room_for_slash(text: &str, path: &str) -> (r: bool)
    ensures
        r == slash_fits(text@, path@),
{
    let chars: Vec<char> = chars_of(text);
    assert(chars@.take(chars@.len() as int) =~= text@);
    let front: usize = length_up_to(&chars, chars.len(), '#');
    let end: usize = length_up_to(&chars, front, '?');
    let more: u64 = if path.is_empty() && end > 0 && chars[end - 1] == ':' {
        3
    } else {
        1
    };
    assert(through_path(text@) == chars@.take(end as int));
    end as u64 <= LAST_POSITION - more && (front == chars.len() || front as u64 <= LAST_POSITION
        - more)
}

/// How many bytes a query takes in a URL.
fn size_of_query(query: &str, apostrophe: bool) -> (r: u128)
    ensures
        r == query_size(query@, apostrophe),
{
    let chars: Vec<char> = chars_of(query);
    let mut size: u128 = 0;
    let mut i: usize = 0;
    while i < chars.len()
        invariant
            i <= chars@.len(),
            chars@ == query@,
            size <= 12 * i,
            size == query_size(query@.take(i as int), apostrophe),
        decreases chars@.len() - i,
    {
        let c: char = chars[i];
        let code: u32 = c as u32;
        let more: u128 = if c == '\t' || c == '\n' || c == '\r' {
            0
        } else if code >= 0x10000 {
            12
        } else if code >= 0x800 {
            9
        } else if code >= 0x80 {
            6
        } else if code <= 0x20 || code == 0x7f || c == '"' || c == '#' || c == '<' || c == '>' || (
        c == '\'' && apostrophe) {
            3
        } else {
            1
        };
        assert(query@.take(i + 1).drop_last() =~= query@.take(i as int));
        size = size + more;
        i = i + 1;
    }
    assert(query@.take(i as int) =~= query@);
    size
}

/// Whether the scheme of a URL is one of those in whose queries an apostrophe is encoded.
fn scheme_encodes_apostrophe(text: &str) -> (r: bool)
    ensures
        r == encodes_apostrophe(text@),
{
    starts_with(text, "http:") || starts_with(text, "https:") || starts_with(text, "ws:")
        || starts_with(text, "wss:") || starts_with(text, "ftp:") || starts_with(text, "file:")
}

/// Whether the positions in a URL can be told once it has another query.
fn has_room_for_query(text: &str, query: &str) -> (r: bool)
    ensures
        r == query_fits(text@, query@),
{
    let chars: Vec<char> = chars_of(text);
    assert(chars@.take(chars@.len() as int) =~= text@);
    let front: usize = length_up_to(&chars, chars.len(), '#');
    let end: usize = length_up_to(&chars, front, '?');
    assert(through_path(text@) == chars@.take(end as int));
    if end as u64 > LAST_POSITION {
        return false;
    }
    if front == chars.len() {
        return true;
    }
    let size: u128 = size_of_query(query, scheme_encodes_apostrophe(text));
    (front as u64) < LAST_POSITION && size < (LAST_POSITION - end as u64) as u128
}

/// The URL of a directory, or `None` where the `url` crate cannot tell the positions in it.
pub fn try_directory_url(url: &str) -> (r: Option<Result<String, url::ParseError>>)
    ensures
        match r {
            None => !path_can_change(url@),
            Some(Ok(text)) => path_can_change(url@) && directory_url_of(url@) == Some(text@),
            Some(Err(_)) => path_can_change(url@) && directory_url_of(url@) is None,
        },
{
    if let (Ok(text), Ok(path)) = (url_text(url), url_path(url)) {
        if directory_path(path.as_str()).is_some() && !has_room_for_slash(
            text.as_str(),
            path.as_str(),
        ) {
            return None;
        }
    }
    Some(directory_url(url))
}

/// The URL to download a file from: the file's path beside the base URL, with the access
/// token, if there is one, as its query.
pub open spec fn download_url_of(
    base: Seq<char>,
    path: Seq<char>,
    token: Option<Seq<char>>,
) -> Option<Seq<char>> {
    match (url_join_of(base, path), token) {
        (Some(url), Some(t)) => url_with_query_of(url, t),
        (joined, _) => joined,
    }
}

/// Whether the `url` crate can tell the positions in the URL of the file with the token.
pub open spec fn query_can_change(
    base: Seq<char>,
    path: Seq<char>,
    token: Option<Seq<char>>,
) -> bool {
    match (url_join_of(base, path), token) {
        (Some(url), Some(t)) => url_text_of(url) matches Some(text) ==> query_fits(text, t),
        _ => true,
    }
}

/// Whether a token of characters that stand for themselves in a URL is the query of the URL.
pub open spec fn carries_token(url: Seq<char>, token: Option<Seq<char>>) -> bool {
    token matches Some(t) ==> url_safe(t) ==> query_part(url) == Some(t)
}

/// The URL that is requested for a file of the repository at a URL: the file's path beside
/// the directory, with the access token, if there is one, as its query.
pub open spec fn requested_url_of(
    url: Seq<char>,
    path: Seq<char>,
    token: Option<Seq<char>>,
) -> Option<Seq<char>> {
    match directory_url_of(url) {
        Some(base) => download_url_of(base, path, token),
        None => None,
    }
}

/// A slash at the end of the repository's path makes no difference: with it and without it
/// the same URL is requested for every file.
pub proof fn slash_makes_no_difference(
    url: Seq<char>,
    slashed: Seq<char>,
    path: Seq<char>,
    token: Option<Seq<char>>,
)
    requires
        url_path_of(url) matches Some(p) && !ends_with_slash(p) && url_with_path_of(
            url,
            p.push('/'),
        ) == Some(slashed) && url_path_of(slashed) == Some(p.push('/')),
    ensures
        directory_url_of(url) == directory_url_of(slashed),
        requested_url_of(url, path, token) == requested_url_of(slashed, path, token),
{
    let p = url_path_of(url)->0;
    assert(p.push('/').last() == '/');
}

/// The URL to download a file from.
pub fn download_url(base: &str, path: &str, token: Option<&str>) -> (r: Result<
    String,
    url::ParseError,
>)
    requires
        query_can_change(base@, path@, opt_str_view(token)),
    ensures
        match r {
            Ok(text) => download_url_of(base@, path@, opt_str_view(token)) == Some(text@)
                && carries_token(text@, opt_str_view(token)),
            Err(_) => download_url_of(base@, path@, opt_str_view(token)) is None,
        },
{
    let url: String = match url_join(base, path) {
        Ok(url) => url,
        Err(error) => return Err(error),
    };
    match token {
        Some(t) => url_with_query(url.as_str(), t),
        None => Ok(url),
    }
}

/// The URL to download a file from, or `None` where the `url` crate cannot tell the positions
/// in it.
pub fn try_download_url(base: &str, path: &str, token: Option<&str>) -> (r: Option<
    Result<String, url::ParseError>,
>)
    ensures
        match r {
            None => !query_can_change(base@, path@, opt_str_view(token)),
            Some(Ok(text)) => query_can_change(base@, path@, opt_str_view(token))
                && download_url_of(base@, path@, opt_str_view(token)) == Some(text@)
                && carries_token(text@, opt_str_view(token)),
            Some(Err(_)) => query_can_change(base@, path@, opt_str_view(token))
                && download_url_of(base@, path@, opt_str_view(token)) is None,
        },
{
    if let (Some(t), Ok(url)) = (token, url_join(base, path)) {
        if let Ok(text) = url_text(url.as_str()) {
            if !has_room_for_query(text.as_str(), t) {
                return None;
            }
        }
    }
    Some(download_url(base, path, token))
}

} // verus!
