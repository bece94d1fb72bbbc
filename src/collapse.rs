//! Collapsing runs of white space.

use vstd::prelude::*;
use crate::text::whitespace;

verus! {

/// How many white-space characters `s` starts with.
pub open spec fn leading_ws(s: Seq<char>) -> nat
    decreases s.len(),
{
    if s.len() > 0 && whitespace(s[0]) {
        1 + leading_ws(s.drop_first())
    } else {
        0
    }
}

/// `s` with each run of two or more white-space characters replaced by one
/// space; a lone white-space character stays as it is.
pub open spec fn collapsed(s: Seq<char>) -> Seq<char>
    decreases s.len(),
{
    if s.len() == 0 {
        Seq::empty()
    } else if 2 <= leading_ws(s) <= s.len() {
        seq![' '] + collapsed(s.subrange(leading_ws(s) as int, s.len() as int))
    } else {
        seq![s[0]] + collapsed(s.drop_first())
    }
}

/// No two white-space characters stand next to each other in `s`.
pub open spec fn no_double_ws(s: Seq<char>) -> bool {
    forall|i: int| 0 <= i < s.len() - 1 ==> !(whitespace(#[trigger] s[i]) && whitespace(s[i + 1]))
}

/// Relies on `regex::Regex::replace_all` with `\s\s+` and a space: each
/// leftmost, longest run of two or more `\s` (the White_Space property, as
/// `char::is_whitespace`) becomes one space.
#[verifier::external_body]
fn replace_ws_runs(text: &str) -> (r: String)
    ensures
        r@ == collapsed(text@),
{
    regex::Regex::new(r"\s\s+").unwrap().replace_all(text, " ").into_owned()
}

/// Replaces multiple consecutive whitespace characters with a single space
/// character.
pub fn collapse_whitespace(text: &str) -> (r: String)
    ensures
        r@ == collapsed(text@),
        no_double_ws(r@),
        no_double_ws(text@) ==> r@ == text@,
{
    let r = replace_ws_runs(text);
    proof {
        lemma_collapsed_has_no_double_ws(text@);
        if no_double_ws(text@) {
            lemma_collapse_keeps_single_ws(text@);
        }
    }
    r
}

proof fn lemma_leading_ws(s: Seq<char>)
    ensures
        leading_ws(s) <= s.len(),
        forall|j: int| 0 <= j < leading_ws(s) ==> whitespace(#[trigger] s[j]),
        leading_ws(s) < s.len() ==> !whitespace(s[leading_ws(s) as int]),
    decreases s.len(),
{
    if s.len() > 0 && whitespace(s[0]) {
        lemma_leading_ws(s.drop_first());
        assert forall|j: int| 0 <= j < leading_ws(s) implies whitespace(#[trigger] s[j]) by {
            if j > 0 {
                assert(s[j] == s.drop_first()[j - 1]);
            }
        }
    }
}

proof fn lemma_collapsed_starts(s: Seq<char>)
    requires
        s.len() > 0,
        !whitespace(s[0]),
    ensures
        collapsed(s).len() > 0 && collapsed(s)[0] == s[0],
{
}

/// After collapsing, no two white-space characters are adjacent.
pub proof fn lemma_collapsed_has_no_double_ws(s: Seq<char>)
    ensures
        no_double_ws(collapsed(s)),
    decreases s.len(),
{
    if s.len() > 0 {
        lemma_leading_ws(s);
        let n = leading_ws(s);
        let rest = if 2 <= n <= s.len() {
            s.subrange(n as int, s.len() as int)
        } else {
            s.drop_first()
        };
        lemma_collapsed_has_no_double_ws(rest);
        let head = collapsed(s)[0];
        assert(collapsed(s) == seq![head] + collapsed(rest));
        if whitespace(head) && rest.len() > 0 {
            if 2 <= n <= s.len() {
                assert(rest[0] == s[n as int]);
            } else {
                assert(n == 1);
                assert(rest[0] == s[1]);
            }
            lemma_collapsed_starts(rest);
        }
        if rest.len() == 0 {
            assert(collapsed(rest).len() == 0);
        }
        assert forall|i: int| 0 <= i < collapsed(s).len() - 1 implies !(whitespace(
            #[trigger] collapsed(s)[i],
        ) && whitespace(collapsed(s)[i + 1])) by {
            if i > 0 {
                assert(collapsed(s)[i] == collapsed(rest)[i - 1]);
                assert(collapsed(s)[i + 1] == collapsed(rest)[i]);
            }
        }
    }
}

/// A text without adjacent white-space characters is left as it is.
pub proof fn lemma_collapse_keeps_single_ws(s: Seq<char>)
    requires
        no_double_ws(s),
    ensures
        collapsed(s) == s,
    decreases s.len(),
{
    if s.len() > 0 {
        lemma_leading_ws(s);
        if leading_ws(s) >= 2 {
            assert(whitespace(s[0]) && whitespace(s[1]));
        }
        let rest = s.drop_first();
        assert forall|i: int| 0 <= i < rest.len() - 1 implies !(whitespace(#[trigger] rest[i])
            && whitespace(rest[i + 1])) by {
            assert(rest[i] == s[i + 1]);
            assert(rest[i + 1] == s[i + 2]);
        }
        lemma_collapse_keeps_single_ws(rest);
        assert(seq![s[0]] + rest == s);
    }
}

} // verus!
