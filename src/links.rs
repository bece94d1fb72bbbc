//! Rewriting link destinations so that they stay valid in the rendered book.

use vstd::prelude::*;
use crate::text::{chars_of, string_of, push_str, opt_view};

verus! {

/// A lower-case ASCII letter.
pub open spec fn scheme_start(c: char) -> bool {
    'a' <= c && c <= 'z'
}

/// A character that may follow the first one in a URI scheme.
pub open spec fn scheme_char(c: char) -> bool {
    ('a' <= c && c <= 'z') || ('0' <= c && c <= '9') || c == '+' || c == '.' || c == '-'
}

/// `s[0..k]` is a URI scheme and a colon follows it.
pub open spec fn scheme_ends_at(s: Seq<char>, k: int) -> bool {
    &&& 1 <= k < s.len()
    &&& s[k] == ':'
    &&& scheme_start(s[0])
    &&& forall|j: int| 1 <= j < k ==> #[trigger] scheme_char(s[j])
}

/// `s` starts with a URI scheme and its colon (`https:`, `mailto:`).
pub open spec fn scheme_prefixed(s: Seq<char>) -> bool {
    exists|k: int| scheme_ends_at(s, k)
}

/// `.md` stands at position `k` of `s`, at its end or right before a `#`.
pub open spec fn md_ext_at(s: Seq<char>, k: int) -> bool {
    &&& 0 <= k
    &&& k + 3 <= s.len()
    &&& s[k] == '.' && s[k + 1] == 'm' && s[k + 2] == 'd'
    &&& (k + 3 == s.len() || s[k + 3] == '#')
}

/// `k` is the last position of `s` at which `md_ext_at` holds.
pub open spec fn last_md_ext(s: Seq<char>, k: int) -> bool {
    md_ext_at(s, k) && forall|j: int| #[trigger] md_ext_at(s, j) ==> j <= k
}

/// `s` with its `.md` extension, the one before the fragment if there is
/// one, turned into `.html`.
pub open spec fn md_to_html(s: Seq<char>) -> Seq<char> {
    if exists|k: int| last_md_ext(s, k) {
        let k = choose|k: int| last_md_ext(s, k);
        s.subrange(0, k) + seq!['.', 'h', 't', 'm', 'l'] + s.subrange(k + 3, s.len() as int)
    } else {
        s
    }
}

/// Relies on `regex::Regex::is_match` with `^[a-z][a-z0-9+.-]*:`.
#[verifier::external_body]
fn has_scheme(dest: &str) -> (r: bool)
    ensures
        r == scheme_prefixed(dest@),
{
    regex::Regex::new(r"^[a-z][a-z0-9+.-]*:").unwrap().is_match(dest)
}

/// Relies on `regex::Regex::captures` with `^(.*)\.md(#.*)?$` (any character
/// matching `.`): the greedy first group takes all up to the last `.md` that
/// ends the string or stands before a `#`; the second group is what follows it.
#[verifier::external_body]
fn split_md_link(dest: &str) -> (r: Option<(String, String)>)
    ensures
        r is None <==> !exists|k: int| md_ext_at(dest@, k),
        r matches Some((link, anchor)) ==> exists|k: int|
            last_md_ext(dest@, k) && link@ == dest@.subrange(0, k) && anchor@ == dest@.subrange(
                k + 3,
                dest@.len() as int,
            ),
{
    let re = regex::Regex::new(r"(?s)^(?P<link>.*)\.md(?P<anchor>#.*)?$").unwrap();
    re.captures(dest).map(
        |c| (c["link"].to_string(), c.name("anchor").map_or(String::new(), |m| m.as_str().to_string())),
    )
}

/// Turns a `.md` destination into `.html`, keeping its fragment.
pub fn md_to_html_link(dest: &str, fixed_link: &mut Vec<char>)
    ensures
        final(fixed_link)@ == old(fixed_link)@ + md_to_html(dest@),
{
    match split_md_link(dest) {
        Some((link, anchor)) => {
            push_str(fixed_link, link.as_str());
            push_str(fixed_link, ".html");
            push_str(fixed_link, anchor.as_str());
            proof {
                reveal_strlit(".html");
                let k = choose|k: int| last_md_ext(dest@, k);
                let k2 = choose|k: int|
                    last_md_ext(dest@, k) && link@ == dest@.subrange(0, k) && anchor@
                        == dest@.subrange(k + 3, dest@.len() as int);
                assert(k == k2);
                assert(final(fixed_link)@ == old(fixed_link)@ + md_to_html(dest@));
            }
        },
        None => {
            push_str(fixed_link, dest);
        },
    }
}


/// `k` is the position of the last `/` in `p`.
pub open spec fn last_slash(p: Seq<char>, k: int) -> bool {
    0 <= k < p.len() && p[k] == '/' && forall|j: int| k < j < p.len() ==> #[trigger] p[j] != '/'
}

/// The directory part of a slash-separated page path: all before its last
/// `/`, or nothing for a page at the root.
pub open spec fn parent_dir(p: Seq<char>) -> Seq<char> {
    if exists|k: int| last_slash(p, k) {
        p.subrange(0, choose|k: int| last_slash(p, k))
    } else {
        Seq::empty()
    }
}

/// A page path with its `.md` suffix, if it has one, turned into `.html`.
pub open spec fn page_html(p: Seq<char>) -> Seq<char> {
    if p.len() >= 3 && p.subrange(p.len() - 3, p.len() as int) == seq!['.', 'm', 'd'] {
        p.subrange(0, p.len() - 3) + seq!['.', 'h', 't', 'm', 'l']
    } else {
        p
    }
}

/// Whether a relative link goes to the fallback directory: its target is
/// missing under the source directory and present under the fallback.
pub open spec fn redirected(
    src_dir: Option<Seq<char>>,
    fallback: Option<Seq<char>>,
    exists_primary: bool,
    exists_fallback: bool,
) -> bool {
    src_dir is Some && !exists_primary && fallback is Some && exists_fallback
}

/// The rewritten destination of a link, given the page being rendered, the
/// source and fallback directories, and what the two existence probes found.
pub open spec fn fixed_dest(
    dest: Seq<char>,
    path: Option<Seq<char>>,
    src_dir: Option<Seq<char>>,
    fallback: Option<Seq<char>>,
    exists_primary: bool,
    exists_fallback: bool,
) -> Seq<char> {
    if dest.len() > 0 && dest[0] == '#' {
        match path {
            Some(p) => page_html(p) + dest,
            None => dest,
        }
    } else if scheme_prefixed(dest) {
        dest
    } else {
        let redirect = redirected(src_dir, fallback, exists_primary, exists_fallback);
        let first: Seq<char> = if redirect {
            fallback->0.push('/')
        } else {
            Seq::empty()
        };
        let second: Seq<char> = match path {
            Some(p) => if !redirect && parent_dir(p).len() > 0 {
                parent_dir(p).push('/')
            } else {
                Seq::empty()
            },
            None => Seq::empty(),
        };
        first + second + md_to_html(dest)
    }
}

/// A destination may be rewritten to `r`: for some outcome of the two
/// existence probes, `r` is the rewritten destination.
pub open spec fn fix_allowed(
    dest: Seq<char>,
    path: Option<Seq<char>>,
    src_dir: Option<Seq<char>>,
    fallback: Option<Seq<char>>,
    r: Seq<char>,
) -> bool {
    exists|pe: bool, fe: bool| r == fixed_dest(dest, path, src_dir, fallback, pe, fe)
}

/// A relative link whose target is missing under the source directory but
/// present under the fallback goes to the fallback: the fallback and a `/`
/// come in front, and the page's own directory does not.
pub proof fn lemma_missing_target_goes_to_fallback(
    dest: Seq<char>,
    path: Option<Seq<char>>,
    src_dir: Seq<char>,
    fallback: Seq<char>,
)
    requires
        !(dest.len() > 0 && dest[0] == '#'),
        !scheme_prefixed(dest),
    ensures
        fixed_dest(dest, path, Some(src_dir), Some(fallback), false, true) == fallback.push('/')
            + md_to_html(dest),
{
    let second: Seq<char> = Seq::empty();
    assert(fallback.push('/') + second == fallback.push('/'));
}

/// The directory part of a page path.
fn parent_of(p: &str) -> (r: Vec<char>)
    ensures
        r@ == parent_dir(p@),
{
    let cs = chars_of(p);
    let mut i: usize = cs.len();
    while i > 0 && cs[i - 1] != '/'
        invariant
            cs@ == p@,
            i <= cs.len(),
            forall|j: int| i <= j < cs.len() ==> #[trigger] cs@[j] != '/',
        decreases i,
    {
        i = i - 1;
    }
    let mut r: Vec<char> = Vec::new();
    if i == 0 {
        assert(!exists|k: int| last_slash(p@, k));
        return r;
    }
    assert(last_slash(p@, i - 1));
    assert forall|k: int| last_slash(p@, k) implies k == i - 1 by {}
    let mut j: usize = 0;
    while j < i - 1
        invariant
            cs@ == p@,
            0 < i <= cs.len(),
            j <= i - 1,
            r@ == cs@.subrange(0, j as int),
        decreases i - j,
    {
        r.push(cs[j]);
        j = j + 1;
    }
    r
}

/// The page path with `.md` turned into `.html`.
fn page_to_html(p: &str) -> (r: Vec<char>)
    ensures
        r@ == page_html(p@),
{
    let cs = chars_of(p);
    let n = cs.len();
    let mut r: Vec<char> = Vec::new();
    let md = n >= 3 && cs[n - 3] == '.' && cs[n - 2] == 'm' && cs[n - 1] == 'd';
    let keep = if md { n - 3 } else { n };
    let mut j: usize = 0;
    while j < keep
        invariant
            cs@ == p@,
            n == cs.len(),
            keep <= n,
            j <= keep,
            r@ == cs@.subrange(0, j as int),
        decreases keep - j,
    {
        r.push(cs[j]);
        j = j + 1;
    }
    if md {
        push_str(&mut r, ".html");
        proof {
            reveal_strlit(".html");
            assert(p@.subrange(n - 3, n as int) == seq!['.', 'm', 'd']);
        }
    } else {
        proof {
            assert(cs@.subrange(0, n as int) == cs@);
            if n >= 3 {
                assert(p@.subrange(n - 3, n as int)[0] == p@[n - 3]);
                assert(p@.subrange(n - 3, n as int)[1] == p@[n - 2]);
                assert(p@.subrange(n - 3, n as int)[2] == p@[n - 1]);
            }
        }
    }
    r
}

/// Rewrites a link destination, given what the existence probes found: a
/// fragment gets the page's own `.html` path in front, a destination with a
/// URI scheme stays, and a relative one gets the fallback or the page's
/// directory in front and `.md` turned into `.html`.
pub fn fix_with(
    dest: &str,
    path: Option<&str>,
    src_dir: Option<&str>,
    fallback_path: Option<&str>,
    exists_primary: bool,
    exists_fallback: bool,
) -> (r: String)
    ensures
        r@ == fixed_dest(
            dest@,
            opt_view(path),
            opt_view(src_dir),
            opt_view(fallback_path),
            exists_primary,
            exists_fallback,
        ),
{
    let cs = chars_of(dest);
    if cs.len() > 0 && cs[0] == '#' {
        match path {
            Some(p) => {
                let mut base = page_to_html(p);
                push_str(&mut base, dest);
                return string_of(&base);
            },
            None => {
                return string_of(&cs);
            },
        }
    }
    if has_scheme(dest) {
        return string_of(&cs);
    }
    let mut fixed_link: Vec<char> = Vec::new();
    let redirect = src_dir.is_some() && !exists_primary && fallback_path.is_some()
        && exists_fallback;
    if redirect {
        match fallback_path {
            Some(f) => {
                push_str(&mut fixed_link, f);
                fixed_link.push('/');
            },
            None => {},
        }
    }
    let ghost first = fixed_link@;
    match path {
        Some(p) => {
            let mut base = parent_of(p);
            if !redirect && base.len() > 0 {
                base.push('/');
                let b = string_of(&base);
                push_str(&mut fixed_link, b.as_str());
            }
        },
        None => {},
    }
    let ghost second = fixed_link@.subrange(first.len() as int, fixed_link@.len() as int);
    assert(fixed_link@ == first + second);
    md_to_html_link(dest, &mut fixed_link);
    string_of(&fixed_link)
}

/// Relies on `std::path::Path::exists`: what it says depends on the file
/// system, so nothing is stated of it.
#[verifier::external_body]
fn path_exists(p: &str) -> (r: bool) {
    std::path::Path::new(p).exists()
}

/// Rewrites a link destination, probing the file system for a relative one:
/// first `src_dir/dest`, and when that is missing `src_dir/fallback/dest`
/// (both built by `probe_path`).
pub fn fix(dest: &str, path: Option<&str>, src_dir: Option<&str>, fallback_path: Option<&str>) -> (r: String)
    ensures
        fix_allowed(dest@, opt_view(path), opt_view(src_dir), opt_view(fallback_path), r@),
{
    let mut exists_primary = true;
    let mut exists_fallback = false;
    let cs = chars_of(dest);
    let fragment = cs.len() > 0 && cs[0] == '#';
    if !fragment && !has_scheme(dest) {
        match src_dir {
            Some(dir) => {
                exists_primary = path_exists(probe_path(dir, None, dest).as_str());
                if !exists_primary {
                    match fallback_path {
                        Some(f) => {
                            exists_fallback = path_exists(probe_path(dir, Some(f), dest).as_str());
                        },
                        None => {},
                    }
                }
            },
            None => {},
        }
    }
    let r = fix_with(dest, path, src_dir, fallback_path, exists_primary, exists_fallback);
    assert(r@ == fixed_dest(dest@, opt_view(path), opt_view(src_dir), opt_view(fallback_path), exists_primary, exists_fallback));
    r
}


/// The `a` and `img` tags of an HTML fragment that carry an `href` or `src`
/// value: for each, in order, the tag up to the value's opening quote, and
/// the value.
pub uninterp spec fn html_link_captures(html: Seq<char>) -> Seq<(Seq<char>, Seq<char>)>;

/// The text of an HTML fragment between the matches of
/// `html_link_captures`: one piece more than there are matches.
pub uninterp spec fn html_link_gaps(html: Seq<char>) -> Seq<Seq<char>>;

/// The fragment put back together from its gaps and the first `n` matches,
/// each match's value replaced by `values[i]` and followed by its closing quote.
pub open spec fn spliced(
    gaps: Seq<Seq<char>>,
    caps: Seq<(Seq<char>, Seq<char>)>,
    values: Seq<Seq<char>>,
    n: nat,
) -> Seq<char>
    decreases n,
{
    if n == 0 {
        gaps[0]
    } else {
        spliced(gaps, caps, values, (n - 1) as nat) + caps[n - 1].0 + values[n - 1] + seq!['"']
            + gaps[n as int]
    }
}

/// The values of the matches.
pub open spec fn capture_values(caps: Seq<(Seq<char>, Seq<char>)>) -> Seq<Seq<char>> {
    caps.map_values(|c: (Seq<char>, Seq<char>)| c.1)
}

/// Relies on `regex::Regex::captures_iter` with
/// `(<(?:a|img) [^>]*?(?:src|href)=")([^"]+?)"`: its two groups, per match.
#[verifier::external_body]
fn html_link_matches(html: &str) -> (r: Vec<(String, String)>)
    ensures
        r@.len() == html_link_captures(html@).len(),
        forall|i: int|
            0 <= i < r@.len() ==> (#[trigger] r@[i]).0@ == html_link_captures(html@)[i].0
                && r@[i].1@ == html_link_captures(html@)[i].1,
{
    let re = regex::Regex::new(r#"(<(?:a|img) [^>]*?(?:src|href)=")([^"]+?)""#).unwrap();
    re.captures_iter(html).map(|c| (c[1].to_string(), c[2].to_string())).collect()
}

/// Relies on `regex::Regex::split` with the same pattern: the pieces between
/// the matches that `captures_iter` finds, which with the matches make up the
/// fragment.
#[verifier::external_body]
fn html_link_split(html: &str) -> (r: Vec<String>)
    ensures
        r@.len() == html_link_gaps(html@).len(),
        forall|i: int| 0 <= i < r@.len() ==> (#[trigger] r@[i])@ == html_link_gaps(html@)[i],
        r@.len() == html_link_captures(html@).len() + 1,
        html@ == spliced(
            r@.map_values(|p: String| p@),
            html_link_captures(html@),
            capture_values(html_link_captures(html@)),
            html_link_captures(html@).len(),
        ),
{
    let re = regex::Regex::new(r#"(<(?:a|img) [^>]*?(?:src|href)=")([^"]+?)""#).unwrap();
    re.split(html).map(|p| p.to_string()).collect()
}

/// An HTML fragment may be rewritten to `r`: each link value of its `a` and
/// `img` tags is replaced by a rewriting that `fix_allowed` admits.
pub open spec fn fix_html_allowed(
    html: Seq<char>,
    path: Option<Seq<char>>,
    src_dir: Option<Seq<char>>,
    fallback: Option<Seq<char>>,
    r: Seq<char>,
) -> bool {
    exists|values: Seq<Seq<char>>|
        {
            &&& values.len() == html_link_captures(html).len()
            &&& forall|i: int|
                0 <= i < values.len() ==> fix_allowed(
                    #[trigger] html_link_captures(html)[i].1,
                    path,
                    src_dir,
                    fallback,
                    values[i],
                )
            &&& r == spliced(html_link_gaps(html), html_link_captures(html), values, values.len())
        }
}

/// Rewrites the `href` of each `a` tag and the `src` of each `img` tag in an
/// HTML fragment as `fix` does; the rest of the fragment stays.
pub fn fix_html(html: &str, path: Option<&str>, src_dir: Option<&str>, fallback_path: Option<&str>) -> (r: String)
    ensures
        fix_html_allowed(html@, opt_view(path), opt_view(src_dir), opt_view(fallback_path), r@),
{
    let caps = html_link_matches(html);
    let gaps = html_link_split(html);
    let ghost cs = html_link_captures(html@);
    proof {
        assert(capture_views(caps@) == cs);
    }
    let mut values: Vec<String> = Vec::new();
    let mut i: usize = 0;
    while i < caps.len()
        invariant
            capture_views(caps@) == cs,
            i <= caps.len(),
            values@.len() == i,
            forall|k: int|
                0 <= k < i ==> fix_allowed(
                    #[trigger] cs[k].1,
                    opt_view(path),
                    opt_view(src_dir),
                    opt_view(fallback_path),
                    values@[k]@,
                ),
        decreases caps.len() - i,
    {
        let fixed = fix(caps[i].1.as_str(), path, src_dir, fallback_path);
        assert(cs[i as int].1 == caps@[i as int].1@);
        values.push(fixed);
        i = i + 1;
    }
    let r = splice_html(&gaps, &caps, &values);
    proof {
        assert(string_views(gaps@) =~= html_link_gaps(html@));
        let vs = string_views(values@);
        assert forall|k: int| 0 <= k < vs.len() implies fix_allowed(
            #[trigger] html_link_captures(html@)[k].1,
            opt_view(path),
            opt_view(src_dir),
            opt_view(fallback_path),
            vs[k],
        ) by {}
        assert(r@ == spliced(html_link_gaps(html@), html_link_captures(html@), vs, vs.len()));
    }
    r
}

/// The views of a sequence of strings.
pub open spec fn string_views(v: Seq<String>) -> Seq<Seq<char>> {
    v.map_values(|s: String| s@)
}

/// The views of a sequence of captured pairs.
pub open spec fn capture_views(v: Seq<(String, String)>) -> Seq<(Seq<char>, Seq<char>)> {
    v.map_values(|c: (String, String)| (c.0@, c.1@))
}

/// Puts an HTML fragment back together from the gaps between its link
/// matches and the matches themselves, each match's value replaced by the
/// value at its position in `values`.
pub fn splice_html(gaps: &Vec<String>, caps: &Vec<(String, String)>, values: &Vec<String>) -> (r: String)
    requires
        gaps@.len() == caps@.len() + 1,
        values@.len() == caps@.len(),
    ensures
        r@ == spliced(
            string_views(gaps@),
            capture_views(caps@),
            string_views(values@),
            caps@.len(),
        ),
{
    let ghost gs = string_views(gaps@);
    let ghost cs = capture_views(caps@);
    let ghost vs = string_views(values@);
    let mut out: Vec<char> = Vec::new();
    push_str(&mut out, gaps[0].as_str());
    let mut i: usize = 0;
    while i < caps.len()
        invariant
            gaps@.len() == caps@.len() + 1,
            values@.len() == caps@.len(),
            gs == string_views(gaps@),
            cs == capture_views(caps@),
            vs == string_views(values@),
            i <= caps.len(),
            out@ == spliced(gs, cs, vs, i as nat),
        decreases caps.len() - i,
    {
        push_str(&mut out, caps[i].0.as_str());
        push_str(&mut out, values[i].as_str());
        out.push('"');
        push_str(&mut out, gaps[i + 1].as_str());
        i = i + 1;
    }
    string_of(&out)
}

/// The path probed for `dest`: under `src_dir`, and under its `sub`
/// directory when there is one.
pub open spec fn probe_target(src_dir: Seq<char>, sub: Option<Seq<char>>, dest: Seq<char>) -> Seq<char> {
    match sub {
        Some(f) => src_dir.push('/') + f.push('/') + dest,
        None => src_dir.push('/') + dest,
    }
}

/// The path at which a link target is looked for: `src_dir/dest`, or
/// `src_dir/sub/dest`.
pub fn probe_path(src_dir: &str, sub: Option<&str>, dest: &str) -> (r: String)
    ensures
        r@ == probe_target(src_dir@, opt_view(sub), dest@),
{
    let mut probe: Vec<char> = Vec::new();
    push_str(&mut probe, src_dir);
    probe.push('/');
    match sub {
        Some(f) => {
            push_str(&mut probe, f);
            probe.push('/');
        },
        None => {},
    }
    push_str(&mut probe, dest);
    string_of(&probe)
}

} // verus!
