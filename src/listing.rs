//! Ordering directory listings.

use vstd::prelude::*;

use crate::directory_cache::DirectoryEntry;
use crate::text::{chars_of, lowercase_of, to_lower};

verus! {

broadcast use vstd::seq_lib::group_to_multiset_ensures;

/// Lexicographic order on character sequences (the order of `str`'s `cmp`).
pub open spec fn lex_le(a: Seq<char>, b: Seq<char>) -> bool
    decreases a.len(),
{
    if a.len() == 0 {
        true
    } else if b.len() == 0 {
        false
    } else if a[0] != b[0] {
        a[0] < b[0]
    } else {
        lex_le(a.skip(1), b.skip(1))
    }
}

proof fn lemma_lex_total(a: Seq<char>, b: Seq<char>)
    ensures
        lex_le(a, b) || lex_le(b, a),
    decreases a.len(),
{
    if a.len() > 0 && b.len() > 0 && a[0] == b[0] {
        lemma_lex_total(a.skip(1), b.skip(1));
    }
}

proof fn lemma_lex_trans(a: Seq<char>, b: Seq<char>, c: Seq<char>)
    requires
        lex_le(a, b),
        lex_le(b, c),
    ensures
        lex_le(a, c),
    decreases a.len(),
{
    if a.len() > 0 && b.len() > 0 && c.len() > 0 && a[0] == b[0] && b[0] == c[0] {
        lemma_lex_trans(a.skip(1), b.skip(1), c.skip(1));
    }
}

/// The order of a directory listing: directories before files, then by name
/// compared in lower case.
pub open spec fn listing_le(a: DirectoryEntry, b: DirectoryEntry) -> bool {
    (a.is_dir && !b.is_dir) || (a.is_dir == b.is_dir && lex_le(
        lowercase_of(a.name@),
        lowercase_of(b.name@),
    ))
}

pub open spec fn listing_sorted(s: Seq<DirectoryEntry>) -> bool {
    forall|i: int, j: int| 0 <= i < j < s.len() ==> listing_le(#[trigger] s[i], #[trigger] s[j])
}

proof fn lemma_listing_total(a: DirectoryEntry, b: DirectoryEntry)
    ensures
        listing_le(a, b) || listing_le(b, a),
{
    lemma_lex_total(lowercase_of(a.name@), lowercase_of(b.name@));
}

proof fn lemma_listing_trans(a: DirectoryEntry, b: DirectoryEntry, c: DirectoryEntry)
    requires
        listing_le(a, b),
        listing_le(b, c),
    ensures
        listing_le(a, c),
{
    if a.is_dir == b.is_dir && b.is_dir == c.is_dir {
        lemma_lex_trans(lowercase_of(a.name@), lowercase_of(b.name@), lowercase_of(c.name@));
    }
}

fn lex_le_exec(a: &Vec<char>, b: &Vec<char>) -> (r: bool)
    ensures
        r == lex_le(a@, b@),
{
    let mut k: usize = 0;
    assert(a@.skip(0) =~= a@ && b@.skip(0) =~= b@);
    loop
        invariant
            k <= a@.len(),
            k <= b@.len(),
            lex_le(a@, b@) == lex_le(a@.skip(k as int), b@.skip(k as int)),
        decreases a@.len() - k,
    {
        let ghost sa = a@.skip(k as int);
        let ghost sb = b@.skip(k as int);
        if k == a.len() {
            return true;
        }
        if k == b.len() {
            return false;
        }
        assert(sa[0] == a@[k as int] && sb[0] == b@[k as int]);
        if a[k] != b[k] {
            return a[k] < b[k];
        }
        assert(sa.skip(1) =~= a@.skip(k + 1));
        assert(sb.skip(1) =~= b@.skip(k + 1));
        k = k + 1;
    }
}

fn ordered(a: &DirectoryEntry, ka: &Vec<char>, b: &DirectoryEntry, kb: &Vec<char>) -> (r: bool)
    requires
        ka@ == lowercase_of(a.name@),
        kb@ == lowercase_of(b.name@),
    ensures
        r == listing_le(*a, *b),
{
    if a.is_dir && !b.is_dir {
        true
    } else if a.is_dir == b.is_dir {
        lex_le_exec(ka, kb)
    } else {
        false
    }
}

/// Orders a directory listing: directories first, then by name compared in
/// lower case.
pub fn sort_entries(entries: Vec<DirectoryEntry>) -> (r: Vec<DirectoryEntry>)
    ensures
        listing_sorted(r@),
        r@.to_multiset() == entries@.to_multiset(),
{
    let ghost all = entries@;
    let mut rest = entries;
    let mut out: Vec<DirectoryEntry> = Vec::new();
    let mut keys: Vec<Vec<char>> = Vec::new();
    let n = rest.len();
    let mut i: usize = 0;
    while i < n
        invariant
            n == all.len(),
            i <= n,
            rest@ == all.skip(i as int),
            keys@.len() == out@.len(),
            forall|j: int| 0 <= j < out@.len() ==> #[trigger] keys@[j]@ == lowercase_of(out@[j].name@),
            listing_sorted(out@),
            out@.to_multiset() == all.take(i as int).to_multiset(),
        decreases n - i,
    {
        let e = rest.remove(0);
        assert(e == all[i as int]);
        assert(rest@ =~= all.skip(i + 1));
        let lower = to_lower(e.name.as_str());
        let key = chars_of(lower.as_str());
        let mut p: usize = 0;
        while p < out.len() && ordered(&out[p], &keys[p], &e, &key)
            invariant
                p <= out@.len(),
                keys@.len() == out@.len(),
                forall|j: int| 0 <= j < out@.len() ==> #[trigger] keys@[j]@ == lowercase_of(out@[j].name@),
                key@ == lowercase_of(e.name@),
                forall|j: int| 0 <= j < p ==> listing_le(#[trigger] out@[j], e),
            decreases out@.len() - p,
        {
            p = p + 1;
        }
        let ghost prev = out@;
        proof {
            if p < prev.len() {
                assert(!listing_le(prev[p as int], e));
                lemma_listing_total(prev[p as int], e);
            }
        }
        out.insert(p, e);
        keys.insert(p, key);
        proof {
            assert forall|a: int, b: int| 0 <= a < b < out@.len() implies listing_le(
                #[trigger] out@[a],
                #[trigger] out@[b],
            ) by {
                if b < p {
                    assert(out@[a] == prev[a] && out@[b] == prev[b]);
                } else if b == p {
                    assert(out@[a] == prev[a]);
                } else if a == p {
                    assert(out@[b] == prev[b - 1]);
                    if b - 1 > p {
                        lemma_listing_trans(e, prev[p as int], prev[b - 1]);
                    }
                } else if a < p {
                    assert(out@[a] == prev[a] && out@[b] == prev[b - 1]);
                } else {
                    assert(out@[a] == prev[a - 1] && out@[b] == prev[b - 1]);
                }
            }
            assert forall|j: int| 0 <= j < out@.len() implies #[trigger] keys@[j]@ == lowercase_of(
                out@[j].name@,
            ) by {
                if j < p {
                    assert(out@[j] == prev[j]);
                } else if j > p {
                    assert(out@[j] == prev[j - 1]);
                }
            }
            assert(all.take(i + 1) =~= all.take(i as int).push(e));
        }
        i = i + 1;
    }
    assert(all.take(n as int) =~= all);
    out
}

} // verus!
