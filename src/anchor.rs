//! Anchor identifiers for headings and other elements.

use vstd::prelude::*;
use crate::text::{is_ascii_char, is_ascii_lower, is_ascii_upper, alphanumeric, whitespace, ascii_lowercase, is_alphanumeric, is_whitespace, to_ascii_lowercase, chars_of, string_of};

verus! {

/// What becomes of one character in an identifier: alphanumerics, `_` and
/// `-` stay (ASCII letters lower-cased), white space becomes `-`, and the
/// rest is dropped.
pub open spec fn id_char(c: char) -> Option<char> {
    if alphanumeric(c) || c == '_' || c == '-' {
        Some(ascii_lowercase(c))
    } else if whitespace(c) {
        Some('-')
    } else {
        None
    }
}

/// The identifier made of a sequence of characters.
pub open spec fn normalized(s: Seq<char>) -> Seq<char>
    decreases s.len(),
{
    if s.len() == 0 {
        Seq::empty()
    } else {
        let rest = normalized(s.drop_last());
        match id_char(s.last()) {
            Some(c) => rest.push(c),
            None => rest,
        }
    }
}

/// Converts the given string to a valid HTML element ID: the result holds no
/// ASCII white space and no upper-case ASCII letter.
pub fn normalize_id(content: &str) -> (r: String)
    ensures
        r@ == normalized(content@),
{
    let cs = chars_of(content);
    let mut out: Vec<char> = Vec::new();
    let mut i: usize = 0;
    while i < cs.len()
        invariant
            cs@ == content@,
            i <= cs.len(),
            out@ == normalized(cs@.subrange(0, i as int)),
        decreases cs.len() - i,
    {
        let ch = cs[i];
        proof {
            assert(cs@.subrange(0, i + 1).drop_last() == cs@.subrange(0, i as int));
        }
        if is_alphanumeric(ch) || ch == '_' || ch == '-' {
            out.push(to_ascii_lowercase(ch));
        } else if is_whitespace(ch) {
            out.push('-');
        }
        i = i + 1;
    }
    proof {
        assert(cs@.subrange(0, cs.len() as int) == cs@);
    }
    string_of(&out)
}


/// `s` with every occurrence of `p` taken out, scanning from the left.
pub open spec fn removed(s: Seq<char>, p: Seq<char>) -> Seq<char>
    decreases s.len(),
{
    if p.len() == 0 || s.len() < p.len() {
        s
    } else if s.subrange(0, p.len() as int) == p {
        removed(s.subrange(p.len() as int, s.len() as int), p)
    } else {
        seq![s[0]] + removed(s.subrange(1, s.len() as int), p)
    }
}

/// `s` without the white space at its start.
pub open spec fn trim_start_ws(s: Seq<char>) -> Seq<char>
    decreases s.len(),
{
    if s.len() > 0 && whitespace(s[0]) {
        trim_start_ws(s.drop_first())
    } else {
        s
    }
}

/// `s` without the white space at its end.
pub open spec fn trim_end_ws(s: Seq<char>) -> Seq<char>
    decreases s.len(),
{
    if s.len() > 0 && whitespace(s.last()) {
        trim_end_ws(s.drop_last())
    } else {
        s
    }
}

/// `s` without the white space at either end.
pub open spec fn trim_ws(s: Seq<char>) -> Seq<char> {
    trim_end_ws(trim_start_ws(s))
}

/// `s` without the `#` characters at its start.
pub open spec fn trim_start_hashes(s: Seq<char>) -> Seq<char>
    decreases s.len(),
{
    if s.len() > 0 && s[0] == '#' {
        trim_start_hashes(s.drop_first())
    } else {
        s
    }
}

/// Heading text without the inline markup and entity escapes that rendering
/// leaves in it.
pub open spec fn without_markup(s: Seq<char>) -> Seq<char> {
    let s = removed(s, "<em>"@);
    let s = removed(s, "</em>"@);
    let s = removed(s, "<code>"@);
    let s = removed(s, "</code>"@);
    let s = removed(s, "<strong>"@);
    let s = removed(s, "</strong>"@);
    let s = removed(s, "&lt;"@);
    let s = removed(s, "&gt;"@);
    let s = removed(s, "&amp;"@);
    let s = removed(s, "&#39;"@);
    removed(s, "&quot;"@)
}

/// The identifier of a heading's text.
pub open spec fn content_id(s: Seq<char>) -> Seq<char> {
    normalized(trim_ws(trim_start_hashes(trim_ws(without_markup(s)))))
}

fn subvec(v: &Vec<char>, lo: usize, hi: usize) -> (r: Vec<char>)
    requires
        lo <= hi <= v.len(),
    ensures
        r@ == v@.subrange(lo as int, hi as int),
{
    let mut r: Vec<char> = Vec::new();
    let mut i: usize = lo;
    while i < hi
        invariant
            lo <= i <= hi <= v.len(),
            r@ == v@.subrange(lo as int, i as int),
        decreases hi - i,
    {
        r.push(v[i]);
        i = i + 1;
    }
    r
}

fn starts_at(s: &Vec<char>, i: usize, p: &Vec<char>) -> (r: bool)
    requires
        i <= s.len(),
    ensures
        r == (i + p.len() <= s.len() && s@.subrange(i as int, i + p.len()) == p@),
{
    if p.len() > s.len() - i {
        return false;
    }
    let mut j: usize = 0;
    while j < p.len()
        invariant
            i + p.len() <= s.len(),
            j <= p.len(),
            forall|k: int| 0 <= k < j ==> s@[i + k] == p@[k],
        decreases p.len() - j,
    {
        if s[i + j] != p[j] {
            assert(s@.subrange(i as int, i + p.len())[j as int] != p@[j as int]);
            return false;
        }
        j = j + 1;
    }
    assert(s@.subrange(i as int, i + p.len()) == p@);
    true
}

fn remove_all(s: &Vec<char>, pat: &str) -> (r: Vec<char>)
    ensures
        r@ == removed(s@, pat@),
{
    let p = chars_of(pat);
    let mut out: Vec<char> = Vec::new();
    if p.len() == 0 {
        return subvec(s, 0, s.len());
    }
    let mut i: usize = 0;
    assert(s@.subrange(0, s.len() as int) == s@);
    assert(out@ + s@ == s@);
    while i < s.len()
        invariant
            p@ == pat@,
            p.len() > 0,
            i <= s.len(),
            out@ + removed(s@.subrange(i as int, s.len() as int), p@) == removed(s@, p@),
        decreases s.len() - i,
    {
        let ghost rest = s@.subrange(i as int, s.len() as int);
        if starts_at(s, i, &p) {
            assert(rest.subrange(0, p.len() as int) == s@.subrange(i as int, i + p.len()));
            assert(rest.subrange(p.len() as int, rest.len() as int) == s@.subrange(i + p.len(), s.len() as int));
            i = i + p.len();
        } else {
            proof {
                if rest.len() >= p.len() {
                    assert(rest.subrange(0, p.len() as int) == s@.subrange(i as int, i + p.len()));
                }
            }
            assert(rest.subrange(1, rest.len() as int) == s@.subrange(i + 1, s.len() as int));
            let ghost before = out@;
            out.push(s[i]);
            assert(out@ + removed(rest.subrange(1, rest.len() as int), p@) == before + (seq![
                rest[0]
            ] + removed(rest.subrange(1, rest.len() as int), p@)));
            i = i + 1;
        }
    }
    assert(s@.subrange(s.len() as int, s.len() as int) == Seq::<char>::empty());
    out
}

/// `s` without white space at either end, and, with `hashes`, without the
/// `#` characters at its start.
fn trim_chars(s: &Vec<char>, hashes: bool) -> (r: Vec<char>)
    ensures
        hashes ==> r@ == trim_start_hashes(s@),
        !hashes ==> r@ == trim_ws(s@),
{
    let mut lo: usize = 0;
    assert(s@.subrange(0, s.len() as int) == s@);
    while lo < s.len() && ((hashes && s[lo] == '#') || (!hashes && is_whitespace(s[lo])))
        invariant
            lo <= s.len(),
            hashes ==> trim_start_hashes(s@) == trim_start_hashes(s@.subrange(lo as int, s.len() as int)),
            !hashes ==> trim_start_ws(s@) == trim_start_ws(s@.subrange(lo as int, s.len() as int)),
        decreases s.len() - lo,
    {
        assert(s@.subrange(lo as int, s.len() as int).drop_first() == s@.subrange(lo + 1, s.len() as int));
        lo = lo + 1;
    }
    let mut hi: usize = s.len();
    if !hashes {
        while hi > lo && is_whitespace(s[hi - 1])
            invariant
                lo <= hi <= s.len(),
                trim_ws(s@) == trim_end_ws(s@.subrange(lo as int, hi as int)),
            decreases hi - lo,
        {
            assert(s@.subrange(lo as int, hi as int).drop_last() == s@.subrange(lo as int, hi - 1));
            hi = hi - 1;
        }
    }
    subvec(s, lo, hi)
}

/// Generates an ID for use with anchors from a heading's rendered text: the
/// markup is stripped, the text trimmed of white space and of the heading's
/// leading `#` characters, and then normalized.
pub fn id_from_content(content: &str) -> (r: String)
    ensures
        r@ == content_id(content@),
{
    let c = chars_of(content);
    let c = remove_all(&c, "<em>");
    let c = remove_all(&c, "</em>");
    let c = remove_all(&c, "<code>");
    let c = remove_all(&c, "</code>");
    let c = remove_all(&c, "<strong>");
    let c = remove_all(&c, "</strong>");
    let c = remove_all(&c, "&lt;");
    let c = remove_all(&c, "&gt;");
    let c = remove_all(&c, "&amp;");
    let c = remove_all(&c, "&#39;");
    let c = remove_all(&c, "&quot;");
    let c = trim_chars(&c, false);
    let c = trim_chars(&c, true);
    let c = trim_chars(&c, false);
    normalize_id(string_of(&c).as_str())
}

/// A character of an identifier maps to itself.
proof fn lemma_id_char_stable(c: char)
    ensures
        id_char(c) matches Some(d) ==> id_char(d) == Some(d),
{
    if is_ascii_upper(c) {
        let d = ((c as u32) + 32) as char;
        assert(is_ascii_lower(d) && is_ascii_char(d));
    }
}

/// An identifier is left as it is by normalizing.
proof fn lemma_normalized_fixed(s: Seq<char>)
    ensures
        normalized(normalized(s)) == normalized(s),
    decreases s.len(),
{
    if s.len() > 0 {
        let rest = normalized(s.drop_last());
        lemma_normalized_fixed(s.drop_last());
        lemma_id_char_stable(s.last());
        match id_char(s.last()) {
            Some(c) => {
                assert(rest.push(c).drop_last() == rest);
            },
            None => {},
        }
    }
}

/// Normalizing an identifier a second time changes nothing.
pub proof fn lemma_normalize_idempotent(t: Seq<char>)
    ensures
        normalized(normalized(t)) == normalized(t),
{
    lemma_normalized_fixed(t);
}

} // verus!
