//! Character-level helpers shared by the parsers.

use vstd::prelude::*;
use vstd::std_specs::iter::IteratorSpec;
use vstd::string::{StrSliceExecFns, StringExecFns};

verus! {

broadcast use vstd::string::group_string_axioms;

/// Relies on `char::to_string`: the one-character string of `c`.
#[verifier::external_body]
pub(crate) fn char_string(c: char) -> (r: String)
    ensures
        r@ == seq![c],
{
    c.to_string()
}

/// The characters of `s`, in order.
pub(crate) fn chars_of(s: &str) -> (r: Vec<char>)
    ensures
        r@ == s@,
{
    let n = s.unicode_len();
    let mut it = s.chars();
    let mut out: Vec<char> = Vec::new();
    let mut k: usize = 0;
    while k < n
        invariant
            n == s@.len(),
            k <= n,
            out@.len() == k,
            out@ + it.remaining() == s@,
        decreases n - k,
    {
        let ghost before = it.remaining();
        assert(before.len() == n - k);
        match it.next() {
            Some(c) => {
                out.push(c);
                assert(out@ + it.remaining() =~= s@) by {
                    assert(before =~= seq![c] + it.remaining());
                }
            },
            None => {
                assert(false);
            },
        }
        k = k + 1;
    }
    assert(out@ =~= s@);
    out
}

/// The characters `v[a..b]` as a string.
pub(crate) fn string_of(v: &Vec<char>, a: usize, b: usize) -> (r: String)
    requires
        a <= b <= v@.len(),
    ensures
        r@ == v@.subrange(a as int, b as int),
{
    let mut out = String::new();
    let mut i: usize = a;
    while i < b
        invariant
            a <= i <= b,
            b <= v@.len(),
            out@ == v@.subrange(a as int, i as int),
        decreases b - i,
    {
        let one = char_string(v[i]);
        out.append(one.as_str());
        assert(out@ =~= v@.subrange(a as int, i + 1));
        i = i + 1;
    }
    out
}

/// What `str::to_lowercase` makes of a text.
pub uninterp spec fn lowercase_of(s: Seq<char>) -> Seq<char>;

/// Relies on `str::to_lowercase`: the text in lower case, by Unicode's
/// rules; the result depends on the characters alone.
#[verifier::external_body]
pub(crate) fn to_lower(s: &str) -> (r: String)
    ensures
        r@ == lowercase_of(s@),
{
    s.to_lowercase()
}

/// The characters `char::is_whitespace` accepts: Unicode's White_Space set.
pub open spec fn is_space(c: char) -> bool {
    c == '\t' || c == '\n' || c == '\u{B}' || c == '\u{C}' || c == '\r' || c == ' ' || c == '\u{85}'
        || c == '\u{A0}' || c == '\u{1680}' || ('\u{2000}' <= c && c <= '\u{200A}') || c == '\u{2028}'
        || c == '\u{2029}' || c == '\u{202F}' || c == '\u{205F}' || c == '\u{3000}'
}

pub(crate) fn is_space_exec(c: char) -> (r: bool)
    ensures
        r == is_space(c),
{
    c == '\t' || c == '\n' || c == '\u{B}' || c == '\u{C}' || c == '\r' || c == ' ' || c == '\u{85}'
        || c == '\u{A0}' || c == '\u{1680}' || ('\u{2000}' <= c && c <= '\u{200A}') || c == '\u{2028}'
        || c == '\u{2029}' || c == '\u{202F}' || c == '\u{205F}' || c == '\u{3000}'
}

/// The first index at or after `i` whose character is (`want`) or is not
/// (`!want`) white space; `s.len()` when there is none.
pub open spec fn skip_to(s: Seq<char>, i: int, want: bool) -> int
    decreases s.len() - i,
{
    if i < 0 || i >= s.len() {
        s.len() as int
    } else if is_space(s[i]) == want {
        i
    } else {
        skip_to(s, i + 1, want)
    }
}

pub proof fn lemma_skip_to(s: Seq<char>, i: int, want: bool)
    requires
        0 <= i <= s.len(),
    ensures
        i <= skip_to(s, i, want) <= s.len(),
        skip_to(s, i, want) < s.len() ==> is_space(s[skip_to(s, i, want)]) == want,
    decreases s.len() - i,
{
    if i < s.len() && is_space(s[i]) != want {
        lemma_skip_to(s, i + 1, want);
    }
}

pub(crate) fn skip_exec(v: &Vec<char>, from: usize, want: bool) -> (r: usize)
    requires
        from <= v@.len(),
    ensures
        r == skip_to(v@, from as int, want),
        from <= r <= v@.len(),
{
    let mut k = from;
    while k < v.len() && is_space_exec(v[k]) != want
        invariant
            from <= k <= v@.len(),
            skip_to(v@, from as int, want) == skip_to(v@, k as int, want),
        decreases v@.len() - k,
    {
        k = k + 1;
    }
    k
}

/// The end of `l`'s first `j` characters once trailing white space is dropped.
pub open spec fn trim_end_at(l: Seq<char>, j: int) -> int
    decreases j,
{
    if j <= 0 || j > l.len() {
        0
    } else if is_space(l[j - 1]) {
        trim_end_at(l, j - 1)
    } else {
        j
    }
}

/// `l` without leading and trailing white space, as `str::trim` gives it.
pub open spec fn trim_ws(l: Seq<char>) -> Seq<char> {
    let a = skip_to(l, 0, false);
    if a >= l.len() {
        seq![]
    } else {
        l.subrange(a, trim_end_at(l, l.len() as int))
    }
}

proof fn lemma_trim_end_after(l: Seq<char>, j: int, a: int)
    requires
        0 <= a < j <= l.len(),
        !is_space(l[a]),
    ensures
        trim_end_at(l, j) > a,
    decreases j,
{
    if is_space(l[j - 1]) {
        lemma_trim_end_after(l, j - 1, a);
    }
}

pub(crate) fn copy_range(v: &Vec<char>, a: usize, b: usize) -> (r: Vec<char>)
    requires
        a <= b <= v@.len(),
    ensures
        r@ == v@.subrange(a as int, b as int),
{
    let mut out: Vec<char> = Vec::new();
    let mut i: usize = a;
    while i < b
        invariant
            a <= i <= b,
            b <= v@.len(),
            out@ == v@.subrange(a as int, i as int),
        decreases b - i,
    {
        out.push(v[i]);
        assert(out@ =~= v@.subrange(a as int, i + 1));
        i = i + 1;
    }
    out
}

pub fn trim_vec(l: &Vec<char>) -> (r: Vec<char>)
    ensures
        r@ == trim_ws(l@),
{
    let a = skip_exec(l, 0, false);
    if a >= l.len() {
        return Vec::new();
    }
    let mut e = l.len();
    while e > 0 && is_space_exec(l[e - 1])
        invariant
            e <= l@.len(),
            trim_end_at(l@, l@.len() as int) == trim_end_at(l@, e as int),
        decreases e,
    {
        e = e - 1;
    }
    proof {
        lemma_skip_to(l@, 0, false);
        lemma_trim_end_after(l@, l@.len() as int, a as int);
    }
    copy_range(l, a, e)
}

} // verus!
