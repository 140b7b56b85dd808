//! Character-level helpers over `String` and `&str` views.

use vstd::prelude::*;

verus! {

broadcast use vstd::string::group_string_axioms;

/// `s` with every trailing copy of `suffix` removed, as `str::trim_end_matches`
/// does; an empty `suffix` removes nothing.
pub open spec fn trim_end_all(s: Seq<char>, suffix: Seq<char>) -> Seq<char>
    decreases s.len(),
{
    if suffix.len() > 0 && s.len() >= suffix.len() && s.subrange(
        s.len() - suffix.len(),
        s.len() as int,
    ) == suffix {
        trim_end_all(s.subrange(0, s.len() - suffix.len()), suffix)
    } else {
        s
    }
}

/// Whether `s` begins with `prefix`.
pub open spec fn has_prefix(s: Seq<char>, prefix: Seq<char>) -> bool {
    prefix.len() <= s.len() && s.subrange(0, prefix.len() as int) == prefix
}

/// Whether the characters of `s` from position `at` on spell `word`.
pub fn chars_match_at(s: &str, len: usize, at: usize, word: &str, wlen: usize) -> (r: bool)
    requires
        len == s@.len(),
        wlen == word@.len(),
        at + wlen <= len,
    ensures
        r == (s@.subrange(at as int, at + wlen) == word@),
{
    let mut i: usize = 0;
    while i < wlen
        invariant
            len == s@.len(),
            wlen == word@.len(),
            at + wlen <= len,
            i <= wlen,
            forall|j: int| 0 <= j < i ==> s@[at + j] == word@[j],
        decreases wlen - i,
    {
        if s.get_char(at + i) != word.get_char(i) {
            assert(s@.subrange(at as int, at + wlen)[i as int] != word@[i as int]);
            return false;
        }
        i = i + 1;
    }
    assert(s@.subrange(at as int, at + wlen) =~= word@);
    true
}

/// Removes every trailing copy of `suffix` from `s` (`str::trim_end_matches`).
pub fn trim_end_matches(s: &str, suffix: &str) -> (r: String)
    ensures
        r@ == trim_end_all(s@, suffix@),
{
    let slen = suffix.unicode_len();
    if slen == 0 {
        return String::from_str(s);
    }
    let mut n = s.unicode_len();
    assert(s@.subrange(0, n as int) =~= s@);
    while n >= slen && chars_match_at(s, s.unicode_len(), n - slen, suffix, slen)
        invariant
            slen == suffix@.len(),
            slen > 0,
            n <= s@.len(),
            trim_end_all(s@, suffix@) == trim_end_all(s@.subrange(0, n as int), suffix@),
        decreases n,
    {
        let ghost cur = s@.subrange(0, n as int);
        assert(cur.subrange(cur.len() - slen, cur.len() as int) =~= s@.subrange(n - slen, n as int));
        assert(cur.subrange(0, cur.len() - slen) =~= s@.subrange(0, n - slen));
        n = n - slen;
    }
    let ghost cur = s@.subrange(0, n as int);
    if n >= slen {
        assert(cur.subrange(cur.len() - slen, cur.len() as int) =~= s@.subrange(n - slen, n as int));
    }
    String::from_str(s.substring_char(0, n))
}

/// Whether `s` begins with `prefix` (`str::starts_with` with a string pattern).
pub fn starts_with(s: &str, prefix: &str) -> (r: bool)
    ensures
        r == has_prefix(s@, prefix@),
{
    let len = s.unicode_len();
    let plen = prefix.unicode_len();
    if plen > len {
        return false;
    }
    chars_match_at(s, len, 0, prefix, plen)
}

/// The part of `s` after its first `n` characters, as an owned string.
pub fn skip_chars(s: &str, n: usize) -> (r: String)
    requires
        n <= s@.len(),
    ensures
        r@ == s@.subrange(n as int, s@.len() as int),
{
    let len = s.unicode_len();
    String::from_str(s.substring_char(n, len))
}

/// The view of an optional owned string.
pub open spec fn opt_view(o: Option<String>) -> Option<Seq<char>> {
    match o {
        Some(s) => Some(s@),
        None => None,
    }
}

/// Whether `c` has the Unicode `White_Space` property.
pub open spec fn spec_is_whitespace(c: char) -> bool {
    ||| ('\u{9}' <= c <= '\u{d}')
    ||| c == ' '
    ||| c == '\u{85}'
    ||| c == '\u{a0}'
    ||| c == '\u{1680}'
    ||| ('\u{2000}' <= c <= '\u{200a}')
    ||| c == '\u{2028}'
    ||| c == '\u{2029}'
    ||| c == '\u{202f}'
    ||| c == '\u{205f}'
    ||| c == '\u{3000}'
}

/// Whether the character has the Unicode `White_Space` property
/// (`char::is_whitespace`).
pub fn char_is_whitespace(c: char) -> (r: bool)
    ensures
        r == spec_is_whitespace(c),
{
    ('\u{9}' <= c && c <= '\u{d}') || c == ' ' || c == '\u{85}' || c == '\u{a0}' || c == '\u{1680}'
        || ('\u{2000}' <= c && c <= '\u{200a}') || c == '\u{2028}' || c == '\u{2029}' || c == '\u{202f}'
        || c == '\u{205f}' || c == '\u{3000}'
}

/// Whether `s` holds only whitespace, so that `s.trim()` is empty.
pub open spec fn is_blank(s: Seq<char>) -> bool {
    forall|i: int| 0 <= i < s.len() ==> spec_is_whitespace(#[trigger] s[i])
}

/// Whether `s.trim().is_empty()`.
pub fn trim_is_empty(s: &str) -> (r: bool)
    ensures
        r == is_blank(s@),
{
    let n = s.unicode_len();
    let mut i: usize = 0;
    while i < n
        invariant
            n == s@.len(),
            i <= n,
            forall|j: int| 0 <= j < i ==> spec_is_whitespace(#[trigger] s@[j]),
        decreases n - i,
    {
        if !char_is_whitespace(s.get_char(i)) {
            return false;
        }
        i = i + 1;
    }
    true
}

/// Whether two strings hold the same characters.
pub fn str_eq(a: &str, b: &str) -> (r: bool)
    ensures
        r == (a@ == b@),
{
    let n = a.unicode_len();
    if n != b.unicode_len() {
        return false;
    }
    let r = chars_match_at(a, n, 0, b, n);
    assert(a@.subrange(0, n as int) =~= a@);
    r
}

/// The characters of `s`, one by one.
pub fn chars_vec(s: &str) -> (r: Vec<char>)
    ensures
        r@ == s@,
{
    let mut r: Vec<char> = Vec::new();
    for c in it: s.chars()
        invariant
            r@ == it.seq().take(it.index() as int),
            it.seq() == s@,
    {
        r.push(c);
    }
    r
}

} // verus!
