//! Line counts of changed files, read from `git diff --numstat`.

use vstd::prelude::*;
use vstd::string::StringExecFns;

use crate::tasks::lines_of;
use crate::text::{chars_of, copy_range, string_of};
use crate::typecheck::{find_from, parse_usize, parse_usize_spec};

verus! {

/// The change of one file: lines added and deleted, and `deleted` or
/// `untracked` when the file is gone or new to git.
pub struct GitStats {
    pub added: usize,
    pub deleted: usize,
    pub status: Option<String>,
}

/// A file's diff for display: both contents and the counts.
pub struct GitDiffResult {
    pub file_path: String,
    pub old_content: String,
    pub new_content: String,
    pub added_lines: usize,
    pub deleted_lines: usize,
    pub is_new_file: bool,
    pub is_deleted_file: bool,
}

/// One line of `--numstat` output: lines added, lines deleted, path.
pub struct NumstatEntry {
    pub added: usize,
    pub deleted: usize,
    pub path: String,
}

/// A count as numstat writes it; `-` (binary files) and anything unreadable count as 0.
pub open spec fn count_of(t: Seq<char>) -> nat {
    match parse_usize_spec(t) {
        Some(n) => n,
        None => 0,
    }
}

/// The entry a numstat line gives: exactly three tab-separated fields.
pub open spec fn numstat_entry(l: Seq<char>) -> Option<(nat, nat, Seq<char>)> {
    let a = find_from(l, '\t', 0);
    if a < 0 {
        None
    } else {
        let rest = l.skip(a + 1);
        let b = find_from(rest, '\t', 0);
        if b < 0 {
            None
        } else {
            let path = rest.skip(b + 1);
            if find_from(path, '\t', 0) >= 0 {
                None
            } else {
                Some((count_of(l.take(a)), count_of(rest.take(b)), path))
            }
        }
    }
}

/// The entries of a whole numstat output, line by line.
pub open spec fn numstat_entries(lines: Seq<Seq<char>>) -> Seq<(nat, nat, Seq<char>)>
    decreases lines.len(),
{
    if lines.len() == 0 {
        seq![]
    } else {
        let rest = numstat_entries(lines.drop_last());
        match numstat_entry(lines.last()) {
            Some(e) => rest.push(e),
            None => rest,
        }
    }
}

fn tab_from(v: &Vec<char>, from: usize) -> (r: Option<usize>)
    requires
        from <= v@.len(),
    ensures
        find_from(v@.skip(from as int), '\t', 0) == match r {
            Some(i) => i - from,
            None => -1,
        },
        r matches Some(i) ==> from <= i < v.len(),
{
    let ghost t = v@.skip(from as int);
    let mut k: usize = from;
    while k < v.len()
        invariant
            from <= k <= v@.len(),
            t == v@.skip(from as int),
            find_from(t, '\t', 0) == find_from(t, '\t', k - from),
        decreases v@.len() - k,
    {
        assert(t[k - from] == v@[k as int]);
        if v[k] == '\t' {
            return Some(k);
        }
        k = k + 1;
    }
    None
}

fn count_exec(v: &Vec<char>) -> (r: usize)
    ensures
        r == count_of(v@),
{
    match parse_usize(v) {
        Some(n) => n,
        None => 0,
    }
}

fn entry_of(l: &Vec<char>) -> (r: Option<NumstatEntry>)
    ensures
        match r {
            Some(e) => numstat_entry(l@) == Some((e.added as nat, e.deleted as nat, e.path@)),
            None => numstat_entry(l@) is None,
        },
{
    assert(l@.skip(0) =~= l@);
    let a = match tab_from(l, 0) {
        Some(a) => a,
        None => {
            return None;
        },
    };
    let b = match tab_from(l, a + 1) {
        Some(b) => b,
        None => {
            return None;
        },
    };
    let ghost rest = l@.skip(a + 1);
    assert(l@.skip(a + 1).skip(b - a) =~= l@.skip(b + 1));
    if tab_from(l, b + 1).is_some() {
        return None;
    }
    let first = copy_range(l, 0, a);
    let second = copy_range(l, a + 1, b);
    assert(first@ =~= l@.take(a as int));
    assert(second@ =~= rest.take(b - a - 1));
    let path = string_of(l, b + 1, l.len());
    assert(path@ =~= rest.skip(b - a));
    Some(NumstatEntry { added: count_exec(&first), deleted: count_exec(&second), path })
}

/// Reads the entries out of `git diff --numstat` output; lines of any other
/// shape are skipped.
pub fn numstat_entries_of(stdout: &str) -> (r: Vec<NumstatEntry>)
    ensures
        r@.map_values(|e: NumstatEntry| (e.added as nat, e.deleted as nat, e.path@))
            == numstat_entries(lines_of(stdout@)),
{
    let all = chars_of(stdout);
    let lines = crate::tasks::split_lines(&all);
    let ghost ls = lines_of(stdout@);
    let mut out: Vec<NumstatEntry> = Vec::new();
    let mut i: usize = 0;
    while i < lines.len()
        invariant
            i <= lines@.len(),
            lines@.map_values(|l: Vec<char>| l@) == ls,
            out@.map_values(|e: NumstatEntry| (e.added as nat, e.deleted as nat, e.path@))
                == numstat_entries(ls.take(i as int)),
        decreases lines@.len() - i,
    {
        let ghost prev = out@.map_values(|e: NumstatEntry| (e.added as nat, e.deleted as nat, e.path@));
        assert(lines@[i as int]@ == ls[i as int]);
        assert(ls.take(i + 1).drop_last() =~= ls.take(i as int));
        match entry_of(&lines[i]) {
            Some(e) => {
                out.push(e);
                assert(out@.map_values(|e: NumstatEntry| (e.added as nat, e.deleted as nat, e.path@))
                    =~= prev.push(numstat_entry(ls[i as int])->0));
            },
            None => {},
        }
        i = i + 1;
    }
    assert(ls.take(lines@.len() as int) =~= ls);
    out
}

impl GitStats {
    /// The stats of a file git knows: its counts, marked `deleted` when the
    /// file no longer exists.
    pub fn of_changed_file(added: usize, deleted: usize, exists: bool) -> (r: Self)
        ensures
            r.added == added,
            r.deleted == deleted,
            exists ==> r.status is None,
            !exists ==> (r.status matches Some(s) && s@ == "deleted"@),
    {
        GitStats { added, deleted, status: if exists { None } else { Some(String::from_str("deleted")) } }
    }

    /// The stats of an untracked file of `line_count` lines: all added.
    pub fn untracked(line_count: usize) -> (r: Self)
        ensures
            r.added == line_count,
            r.deleted == 0,
            r.status matches Some(s) && s@ == "untracked"@,
    {
        GitStats { added: line_count, deleted: 0, status: Some(String::from_str("untracked")) }
    }
}

} // verus!
