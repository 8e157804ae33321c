//! Reading process information as `/proc` presents it.

use vstd::prelude::*;

use crate::text::{chars_of, copy_range, is_space, skip_exec, skip_to};
use crate::typecheck::{find_from, parse_usize, parse_usize_spec, strip_cr};

verus! {

/// The second white-space separated word of `l`, as `split_whitespace().nth(1)`.
pub open spec fn second_word(l: Seq<char>) -> Option<Seq<char>> {
    let a = skip_to(l, 0, false);
    let b = skip_to(l, a, true);
    let c = skip_to(l, b, false);
    let d = skip_to(l, c, true);
    if c >= l.len() {
        None
    } else {
        Some(l.subrange(c, d))
    }
}

pub open spec fn starts_with_ppid(l: Seq<char>) -> bool {
    l.len() >= 5 && l.take(5) == "PPid:"@
}

/// The first line of `s` (lines end at `\n`, a `\r` before it is dropped)
/// that starts with `PPid:`.
pub open spec fn ppid_line(s: Seq<char>) -> Option<Seq<char>>
    decreases s.len(),
{
    if s.len() == 0 {
        None
    } else {
        let i = find_from(s, '\n', 0);
        if i < 0 || i >= s.len() {
            if starts_with_ppid(s) {
                Some(s)
            } else {
                None
            }
        } else if starts_with_ppid(strip_cr(s.take(i))) {
            Some(strip_cr(s.take(i)))
        } else {
            ppid_line(s.skip(i + 1))
        }
    }
}

/// The parent process id a `/proc/<pid>/status` text gives: the second word
/// of its first `PPid:` line, read as a `u32`.
pub open spec fn parent_pid_spec(status: Seq<char>) -> Option<nat> {
    match ppid_line(status) {
        Some(l) => match second_word(l) {
            Some(w) => match parse_usize_spec(w) {
                Some(n) => if n <= u32::MAX {
                    Some(n)
                } else {
                    None
                },
                None => None,
            },
            None => None,
        },
        None => None,
    }
}

fn line_is_ppid(v: &Vec<char>, a: usize, b: usize) -> (r: bool)
    requires
        a <= b <= v@.len(),
    ensures
        r == starts_with_ppid(v@.subrange(a as int, b as int)),
{
    proof {
        reveal_strlit("PPid:");
    }
    if b - a < 5 {
        return false;
    }
    let ok = v[a] == 'P' && v[a + 1] == 'P' && v[a + 2] == 'i' && v[a + 3] == 'd' && v[a + 4] == ':';
    proof {
        let l = v@.subrange(a as int, b as int);
        if ok {
            assert(l.take(5) =~= "PPid:"@);
        } else {
            assert(l.take(5)[0] == v@[a as int] && l.take(5)[1] == v@[a + 1] && l.take(5)[2] == v@[a + 2]
                && l.take(5)[3] == v@[a + 3] && l.take(5)[4] == v@[a + 4]);
            assert(l.take(5) != "PPid:"@);
        }
    }
    ok
}

/// Reads the parent process id out of a `/proc/<pid>/status` text.
pub fn parent_pid(status: &str) -> (r: Option<u32>)
    ensures
        match (r, parent_pid_spec(status@)) {
            (Some(a), Some(b)) => a as nat == b,
            (None, None) => true,
            _ => false,
        },
{
    let all = chars_of(status);
    let n = all.len();
    let mut pos: usize = 0;
    let mut found: Option<(usize, usize)> = None;
    assert(all@.skip(0) =~= all@);
    while pos < n && found.is_none()
        invariant
            n == all@.len(),
            pos <= n,
            all@ == status@,
            found is None ==> ppid_line(all@) == ppid_line(all@.skip(pos as int)),
            found matches Some((a, b)) ==> a <= b <= n && ppid_line(all@) == Some(
                all@.subrange(a as int, b as int),
            ),
        decreases n - pos + if found is None { 1int } else { 0int },
    {
        let ghost t = all@.skip(pos as int);
        let mut k = pos;
        while k < n && all[k] != '\n'
            invariant
                pos <= k <= n,
                n == all@.len(),
                t == all@.skip(pos as int),
                find_from(t, '\n', 0) == find_from(t, '\n', k - pos),
            decreases n - k,
        {
            assert(t[k - pos] == all@[k as int]);
            k = k + 1;
        }
        if k < n {
            assert(t[k - pos] == all@[k as int]);
            let end = if k > pos && all[k - 1] == '\r' {
                k - 1
            } else {
                k
            };
            assert(all@.subrange(pos as int, end as int) =~= strip_cr(t.take(k - pos)));
            if line_is_ppid(&all, pos, end) {
                found = Some((pos, end));
            } else {
                assert(t.skip(k - pos + 1) =~= all@.skip(k + 1));
                pos = k + 1;
            }
        } else {
            assert(all@.subrange(pos as int, n as int) =~= t);
            if line_is_ppid(&all, pos, n) {
                found = Some((pos, n));
            } else {
                pos = n;
                assert(all@.skip(n as int) =~= Seq::<char>::empty());
            }
        }
    }
    let (a, b) = match found {
        Some(ab) => ab,
        None => {
            assert(all@.skip(n as int) =~= Seq::<char>::empty());
            return None;
        },
    };
    let line = copy_range(&all, a, b);
    let s1 = skip_exec(&line, 0, false);
    let s2 = skip_exec(&line, s1, true);
    let s3 = skip_exec(&line, s2, false);
    let s4 = skip_exec(&line, s3, true);
    if s3 >= line.len() {
        return None;
    }
    let word = copy_range(&line, s3, s4);
    match parse_usize(&word) {
        Some(v) => if v <= 4294967295 {
            Some(v as u32)
        } else {
            None
        },
        None => None,
    }
}

/// Whether `needle` occurs in `hay`.
pub open spec fn occurs_in(needle: Seq<char>, hay: Seq<char>) -> bool {
    exists|i: int| 0 <= i && i + needle.len() <= hay.len() && #[trigger] hay.subrange(i, i + needle.len()) == needle
}

/// A command line as `/proc/<pid>/cmdline` gives it, with each NUL read as a space.
pub open spec fn cmdline_text(raw: Seq<char>) -> Seq<char> {
    raw.map_values(|c: char| if c == '\0' { ' ' } else { c })
}

pub(crate) fn occurs_exec(needle: &Vec<char>, hay: &Vec<char>) -> (r: bool)
    ensures
        r == occurs_in(needle@, hay@),
{
    if needle.len() > hay.len() {
        return false;
    }
    if needle.len() == 0 {
        let ghost z: int = 0;
        assert(hay@.subrange(z, z + needle@.len()) =~= needle@);
        return true;
    }
    let last = hay.len() - needle.len();
    let mut i: usize = 0;
    while i <= last
        invariant
            last == hay@.len() - needle@.len(),
            last + needle.len() == hay.len(),
            needle@.len() >= 1,
            forall|j: int| 0 <= j < i ==> #[trigger] hay@.subrange(j, j + needle@.len()) != needle@,
        decreases last + 1 - i,
    {
        let mut k: usize = 0;
        while k < needle.len() && hay[i + k] == needle[k]
            invariant
                i <= last,
                last == hay@.len() - needle@.len(),
                last + needle.len() == hay.len(),
                k <= needle@.len(),
                forall|m: int| 0 <= m < k ==> hay@[i + m] == needle@[m],
            decreases needle@.len() - k,
        {
            k = k + 1;
        }
        if k == needle.len() {
            assert(hay@.subrange(i as int, i + needle@.len()) =~= needle@);
            return true;
        }
        assert(hay@.subrange(i as int, i + needle@.len())[k as int] != needle@[k as int]);
        i = i + 1;
    }
    proof {
        assert forall|j: int| 0 <= j && j + needle@.len() <= hay@.len() implies #[trigger] hay@.subrange(
            j,
            j + needle@.len(),
        ) != needle@ by {
            assert(j < i);
        }
    }
    false
}

/// Whether a process's raw command line contains one of `markers`.
pub fn cmdline_has_marker(raw: &str, markers: &Vec<String>) -> (r: bool)
    ensures
        r == exists|i: int| 0 <= i < markers@.len() && occurs_in(#[trigger] markers@[i]@, cmdline_text(raw@)),
{
    let raw_chars = chars_of(raw);
    let mut text: Vec<char> = Vec::new();
    let mut i: usize = 0;
    while i < raw_chars.len()
        invariant
            i <= raw_chars@.len(),
            text@ == cmdline_text(raw_chars@.take(i as int)),
        decreases raw_chars@.len() - i,
    {
        let c = raw_chars[i];
        text.push(if c == '\0' { ' ' } else { c });
        assert(raw_chars@.take(i + 1) =~= raw_chars@.take(i as int).push(c));
        assert(text@ =~= cmdline_text(raw_chars@.take(i + 1)));
        i = i + 1;
    }
    assert(raw_chars@.take(raw_chars@.len() as int) =~= raw_chars@);
    let mut j: usize = 0;
    while j < markers.len()
        invariant
            j <= markers@.len(),
            text@ == cmdline_text(raw@),
            forall|m: int| 0 <= m < j ==> !occurs_in(#[trigger] markers@[m]@, text@),
        decreases markers@.len() - j,
    {
        let needle = chars_of(markers[j].as_str());
        if occurs_exec(&needle, &text) {
            return true;
        }
        j = j + 1;
    }
    false
}

} // verus!
