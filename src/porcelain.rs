//! Reading `git status --porcelain` output.

use vstd::prelude::*;
use vstd::string::StringExecFns;

use crate::tasks::{lines_of, utf8_len, utf8_len_above};
use crate::text::{chars_of, string_of, trim_vec, trim_ws};

verus! {

/// A changed file as `git status --porcelain` reports it, with a label for
/// its state.
pub struct CommittableFile {
    pub path: String,
    pub status: String,
}

/// The label of a two-letter porcelain status code (already trimmed).
pub open spec fn status_label(code: Seq<char>) -> Seq<char> {
    if code == "A"@ {
        "added"@
    } else if code == "D"@ {
        "deleted"@
    } else if code == "R"@ || code == "RM"@ {
        "renamed"@
    } else if code == "??"@ {
        "untracked"@
    } else {
        "modified"@
    }
}

/// Whether the first three characters of `l` are ASCII (so that they are its
/// first three bytes).
pub open spec fn ascii_head(l: Seq<char>) -> bool {
    l.len() >= 3 && (l[0] as u32) < 0x80 && (l[1] as u32) < 0x80 && (l[2] as u32) < 0x80
}

/// The entry a porcelain line gives: lines shorter than four bytes are
/// skipped; the status code is the first two characters and the path what
/// follows the third, both trimmed.
pub open spec fn porcelain_entry(l: Seq<char>) -> Option<(Seq<char>, Seq<char>)> {
    if utf8_len(l) < 4 || !ascii_head(l) {
        None
    } else {
        Some((trim_ws(l.skip(3)), status_label(trim_ws(l.take(2)))))
    }
}

/// The entries of a whole porcelain output, line by line.
pub open spec fn porcelain_entries(lines: Seq<Seq<char>>) -> Seq<(Seq<char>, Seq<char>)>
    decreases lines.len(),
{
    if lines.len() == 0 {
        seq![]
    } else {
        let rest = porcelain_entries(lines.drop_last());
        match porcelain_entry(lines.last()) {
            Some(e) => rest.push(e),
            None => rest,
        }
    }
}

fn eq_lit(v: &Vec<char>, lit: &str) -> (r: bool)
    ensures
        r == (v@ == lit@),
{
    let s = string_of(v, 0, v.len());
    assert(v@.subrange(0, v@.len() as int) =~= v@);
    s.eq(&String::from_str(lit))
}

fn label_of(code: &Vec<char>) -> (r: String)
    ensures
        r@ == status_label(code@),
{
    if eq_lit(code, "A") {
        String::from_str("added")
    } else if eq_lit(code, "D") {
        String::from_str("deleted")
    } else if eq_lit(code, "R") || eq_lit(code, "RM") {
        String::from_str("renamed")
    } else if eq_lit(code, "??") {
        String::from_str("untracked")
    } else {
        String::from_str("modified")
    }
}

fn entry_of(l: &Vec<char>) -> (r: Option<CommittableFile>)
    ensures
        match r {
            Some(f) => porcelain_entry(l@) == Some((f.path@, f.status@)),
            None => porcelain_entry(l@) is None,
        },
{
    if !utf8_len_above(l, 3) {
        return None;
    }
    if !(l.len() >= 3 && (l[0] as u32) < 0x80 && (l[1] as u32) < 0x80 && (l[2] as u32) < 0x80) {
        return None;
    }
    let code = crate::text::copy_range(l, 0, 2);
    let rest = crate::text::copy_range(l, 3, l.len());
    assert(code@ =~= l@.take(2));
    assert(rest@ =~= l@.skip(3));
    let tc = trim_vec(&code);
    let tp = trim_vec(&rest);
    let path = string_of(&tp, 0, tp.len());
    assert(tp@.subrange(0, tp@.len() as int) =~= tp@);
    Some(CommittableFile { path, status: label_of(&tc) })
}

/// Reads the changed files out of `git status --porcelain` output.
pub fn committable_files(stdout: &str) -> (r: Vec<CommittableFile>)
    ensures
        r@.map_values(|f: CommittableFile| (f.path@, f.status@)) == porcelain_entries(
            lines_of(stdout@),
        ),
{
    let all = chars_of(stdout);
    let lines = crate::tasks::split_lines(&all);
    let ghost ls = lines_of(stdout@);
    let mut out: Vec<CommittableFile> = Vec::new();
    let mut i: usize = 0;
    while i < lines.len()
        invariant
            i <= lines@.len(),
            lines@.map_values(|l: Vec<char>| l@) == ls,
            out@.map_values(|f: CommittableFile| (f.path@, f.status@)) == porcelain_entries(
                ls.take(i as int),
            ),
        decreases lines@.len() - i,
    {
        let ghost prev = out@.map_values(|f: CommittableFile| (f.path@, f.status@));
        assert(lines@[i as int]@ == ls[i as int]);
        assert(ls.take(i + 1).drop_last() =~= ls.take(i as int));
        match entry_of(&lines[i]) {
            Some(f) => {
                out.push(f);
                assert(out@.map_values(|f: CommittableFile| (f.path@, f.status@)) =~= prev.push(
                    porcelain_entry(ls[i as int])->0,
                ));
            },
            None => {},
        }
        i = i + 1;
    }
    assert(ls.take(lines@.len() as int) =~= ls);
    out
}

} // verus!
