//! String helpers: equality, prefixes and substring search. Strings are modelled by their
//! characters (`s@`).
use vstd::prelude::*;
use vstd::string::*;
use vstd::utf8::*;

verus! {

/// Whether `pattern` occurs in `text`, starting at position `at`.
pub open spec fn occurs_at(text: Seq<char>, pattern: Seq<char>, at: int) -> bool {
    &&& 0 <= at
    &&& at + pattern.len() <= text.len()
    &&& text.subrange(at, at + pattern.len()) == pattern
}

/// Whether `pattern` occurs anywhere in `text`.
pub open spec fn occurs_in(text: Seq<char>, pattern: Seq<char>) -> bool {
    exists|at: int| #[trigger] occurs_at(text, pattern, at)
}

/// Whether `text` begins with the character `c`.
pub open spec fn begins_with(text: Seq<char>, c: char) -> bool {
    text.len() > 0 && text[0] == c
}

/// Compares two strings by their characters.
pub fn str_eq(a: &str, b: &str) -> (r: bool)
    ensures
        r == (a@ == b@),
{
    let x: &[u8] = a.as_bytes();
    let y: &[u8] = b.as_bytes();
    proof {
        encode_utf8_decode_utf8(a@);
        encode_utf8_decode_utf8(b@);
    }
    if x.len() != y.len() {
        return false;
    }
    let mut i: usize = 0;
    while i < x.len()
        invariant
            x@ == encode_utf8(a@),
            y@ == encode_utf8(b@),
            x@.len() == y@.len(),
            i <= x@.len(),
            forall|k: int| 0 <= k < i ==> x@[k] == y@[k],
        decreases x@.len() - i,
    {
        if x[i] != y[i] {
            return false;
        }
        i = i + 1;
    }
    assert(x@ =~= y@);
    true
}

/// The characters of a string.
pub fn chars_of(s: &str) -> (r: Vec<char>)
    ensures
        r@ == s@,
{
    let mut v: Vec<char> = Vec::new();
    for c in it: s.chars()
        invariant
            v@ == it.seq().take(it.index() as int),
            it.seq() == s@,
    {
        v.push(c);
    }
    assert(s@.take(s@.len() as int) =~= s@);
    v
}

/// Whether `s` begins with the character `c`.
pub fn starts_with_char(s: &str, c: char) -> (r: bool)
    ensures
        r == begins_with(s@, c),
{
    !s.is_empty() && s.get_char(0) == c
}

/// Whether the characters of `pattern` stand in `text` at position `at`.
fn matches_at(text: &Vec<char>, pattern: &Vec<char>, at: usize) -> (r: bool)
    requires
        at + pattern@.len() <= text@.len(),
    ensures
        r == occurs_at(text@, pattern@, at as int),
{
    let size: usize = text.len();
    let mut i: usize = 0;
    while i < pattern.len()
        invariant
            i <= pattern@.len(),
            size == text@.len(),
            at + pattern@.len() <= text@.len(),
            forall|k: int| 0 <= k < i ==> text@[at + k] == pattern@[k],
        decreases pattern@.len() - i,
    {
        if text[at + i] != pattern[i] {
            proof {
                if occurs_at(text@, pattern@, at as int) {
                    assert(text@.subrange(at as int, at + pattern@.len())[i as int] == pattern@[i as int]);
                }
            }
            return false;
        }
        i = i + 1;
    }
    assert(text@.subrange(at as int, at + pattern@.len()) =~= pattern@);
    true
}

/// Whether `s` begins with `prefix`.
pub fn starts_with(s: &str, prefix: &str) -> (r: bool)
    ensures
        r == occurs_at(s@, prefix@, 0),
{
    let text: Vec<char> = chars_of(s);
    let pattern: Vec<char> = chars_of(prefix);
    if pattern.len() > text.len() {
        return false;
    }
    matches_at(&text, &pattern, 0)
}

/// Whether `pattern` occurs in `s`.
pub fn contains(s: &str, pattern: &str) -> (r: bool)
    ensures
        r == occurs_in(s@, pattern@),
{
    let text: Vec<char> = chars_of(s);
    let p: Vec<char> = chars_of(pattern);
    if p.len() > text.len() {
        return false;
    }
    let last: usize = text.len() - p.len();
    let mut at: usize = 0;
    loop
        invariant
            text@ == s@,
            p@ == pattern@,
            last == text@.len() - p@.len(),
            at <= last,
            forall|k: int| 0 <= k < at ==> !#[trigger] occurs_at(text@, p@, k),
        decreases last - at,
    {
        if matches_at(&text, &p, at) {
            return true;
        }
        if at == last {
            return false;
        }
        at = at + 1;
    }
}

/// The concatenation of two strings.
pub fn concat(a: &str, b: &str) -> (r: String)
    ensures
        r@ == a@ + b@,
{
    let mut s: String = a.to_owned();
    s.append(b);
    s
}

/// An owned copy of an optional string.
pub fn owned(s: Option<&str>) -> (r: Option<String>)
    ensures
        opt_view(r) == opt_str_view(s),
{
    match s {
        Some(t) => Some(t.to_owned()),
        None => None,
    }
}

/// The text of an optional string, empty where there is none, borrowed.
pub fn str_or_empty<'a>(s: Option<&'a str>) -> (r: &'a str)
    ensures
        r@ == or_empty(opt_str_view(s)),
{
    match s {
        Some(t) => t,
        None => {
            proof {
                reveal_strlit("");
                assert(""@ =~= Seq::<char>::empty());
            }
            ""
        },
    }
}

/// The characters of an optional owned string.
pub open spec fn opt_view(s: Option<String>) -> Option<Seq<char>> {
    match s {
        Some(t) => Some(t@),
        None => None,
    }
}

/// The characters of an optional borrowed string.
pub open spec fn opt_str_view(s: Option<&str>) -> Option<Seq<char>> {
    match s {
        Some(t) => Some(t@),
        None => None,
    }
}

/// An optional text, empty where there is none.
pub open spec fn or_empty(s: Option<Seq<char>>) -> Seq<char> {
    match s {
        Some(t) => t,
        None => Seq::empty(),
    }
}

/// The characters of each string of a vector.
pub open spec fn texts(v: Seq<String>) -> Seq<Seq<char>> {
    v.map_values(|s: String| s@)
}

/// The characters of each borrowed string of a slice.
pub open spec fn str_texts(v: Seq<&str>) -> Seq<Seq<char>> {
    v.map_values(|s: &str| s@)
}

} // verus!
