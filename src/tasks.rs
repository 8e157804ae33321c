//! Reading task lists out of a language model's reply.

use vstd::prelude::*;
use vstd::string::StringExecFns;

use crate::policy::views;
use crate::text::{chars_of, copy_range, string_of, trim_vec, trim_ws};
use crate::typecheck::{find_from, strip_cr};

verus! {

/// A task inferred from a branch's changes: a title and the files it covers.
pub struct GeneratedTask {
    pub title: String,
    pub files: Vec<String>,
}

/// The tasks of a branch against its base, with the commit they describe.
pub struct GenerateTasksResult {
    pub base_branch: String,
    pub current_branch: String,
    pub tasks: Vec<GeneratedTask>,
    pub last_commit_hash: String,
}

/// The last index of `c` in the first `n` characters of `s`, or -1.
pub open spec fn rfind_upto(s: Seq<char>, c: char, n: int) -> int
    decreases n,
{
    if n <= 0 || n > s.len() {
        -1
    } else if s[n - 1] == c {
        n - 1
    } else {
        rfind_upto(s, c, n - 1)
    }
}

/// The part of a model's reply that should hold the JSON array: from the
/// first `[` to the last `]`, both included; the whole reply when there is no
/// such pair.
pub open spec fn json_array_part(s: Seq<char>) -> Seq<char> {
    let a = find_from(s, '[', 0);
    let b = rfind_upto(s, ']', s.len() as int);
    if a >= 0 && b >= 0 && a <= b {
        s.subrange(a, b + 1)
    } else {
        s
    }
}

/// Cuts the JSON array out of a model's reply.
pub fn extract_json_array(response: &str) -> (r: String)
    ensures
        r@ == json_array_part(response@),
{
    let v = chars_of(response);
    let n = v.len();
    let mut a: usize = 0;
    while a < n && v[a] != '['
        invariant
            a <= n,
            n == v@.len(),
            find_from(v@, '[', 0) == find_from(v@, '[', a as int),
        decreases n - a,
    {
        a = a + 1;
    }
    let mut b: usize = n;
    while b > 0 && v[b - 1] != ']'
        invariant
            b <= n,
            n == v@.len(),
            rfind_upto(v@, ']', n as int) == rfind_upto(v@, ']', b as int),
        decreases b,
    {
        b = b - 1;
    }
    if a < n && b > 0 && a <= b - 1 {
        string_of(&v, a, b)
    } else {
        string_of(&v, 0, n)
    }
}

/// The lines of a text: they end at `\n`, and a `\r` before it is dropped.
pub open spec fn lines_of(s: Seq<char>) -> Seq<Seq<char>>
    decreases s.len(),
{
    if s.len() == 0 {
        seq![]
    } else {
        let i = find_from(s, '\n', 0);
        if i < 0 || i >= s.len() {
            seq![s]
        } else {
            seq![strip_cr(s.take(i))] + lines_of(s.skip(i + 1))
        }
    }
}

pub(crate) fn split_lines(v: &Vec<char>) -> (r: Vec<Vec<char>>)
    ensures
        r@.map_values(|l: Vec<char>| l@) == lines_of(v@),
{
    let n = v.len();
    let mut out: Vec<Vec<char>> = Vec::new();
    let mut pos: usize = 0;
    assert(v@.skip(0) =~= v@);
    while pos < n
        invariant
            n == v@.len(),
            pos <= n,
            out@.map_values(|l: Vec<char>| l@) + lines_of(v@.skip(pos as int)) == lines_of(v@),
        decreases n - pos,
    {
        let ghost t = v@.skip(pos as int);
        let ghost prev = out@.map_values(|l: Vec<char>| l@);
        let mut k = pos;
        while k < n && v[k] != '\n'
            invariant
                pos <= k <= n,
                n == v@.len(),
                t == v@.skip(pos as int),
                find_from(t, '\n', 0) == find_from(t, '\n', k - pos),
            decreases n - k,
        {
            assert(t[k - pos] == v@[k as int]);
            k = k + 1;
        }
        let mut line: Vec<char> = Vec::new();
        let end = if k < n && k > pos && v[k - 1] == '\r' {
            k - 1
        } else {
            k
        };
        let mut j = pos;
        while j < end
            invariant
                pos <= j <= end,
                end <= n,
                n == v@.len(),
                line@ == v@.subrange(pos as int, j as int),
            decreases end - j,
        {
            line.push(v[j]);
            assert(line@ =~= v@.subrange(pos as int, j + 1));
            j = j + 1;
        }
        out.push(line);
        proof {
            assert(out@.map_values(|l: Vec<char>| l@) =~= prev.push(v@.subrange(pos as int, end as int)));
            if k < n {
                assert(t[k - pos] == v@[k as int]);
                assert(v@.subrange(pos as int, end as int) =~= strip_cr(t.take(k - pos)));
                assert(t.skip(k - pos + 1) =~= v@.skip(k + 1));
            } else {
                assert(v@.subrange(pos as int, end as int) =~= t);
                assert(v@.skip(n as int) =~= Seq::<char>::empty());
            }
        }
        pos = if k < n {
            k + 1
        } else {
            n
        };
    }
    assert(v@.skip(n as int) =~= Seq::<char>::empty());
    assert(out@.map_values(|l: Vec<char>| l@) =~= out@.map_values(|l: Vec<char>| l@) + Seq::<
        Seq<char>,
    >::empty());
    out
}

/// `s` without its leading run of `c`.
pub open spec fn strip_lead(s: Seq<char>, c: char) -> Seq<char>
    decreases s.len(),
{
    if s.len() > 0 && s[0] == c {
        strip_lead(s.skip(1), c)
    } else {
        s
    }
}

/// Whether a line could name a task: not blank, not a code fence, and not a
/// bracket or brace line of broken JSON.
pub open spec fn is_candidate(l: Seq<char>) -> bool {
    let t = trim_ws(l);
    t.len() > 0 && !(t.len() >= 3 && t[0] == '`' && t[1] == '`' && t[2] == '`') && t[0] != '['
        && t[0] != ']' && t[0] != '{' && t[0] != '}'
}

/// The title a line gives: trimmed, without leading list markers (`-`, `*`,
/// `•`, in that order), trimmed again.
pub open spec fn title_of(l: Seq<char>) -> Seq<char> {
    trim_ws(strip_lead(strip_lead(strip_lead(trim_ws(l), '-'), '*'), '•'))
}

/// The number of bytes UTF-8 takes for a character.
pub open spec fn utf8_width(c: char) -> nat {
    if (c as u32) < 0x80 {
        1
    } else if (c as u32) < 0x800 {
        2
    } else if (c as u32) < 0x10000 {
        3
    } else {
        4
    }
}

pub open spec fn utf8_len(s: Seq<char>) -> nat
    decreases s.len(),
{
    if s.len() == 0 {
        0
    } else {
        utf8_len(s.drop_last()) + utf8_width(s.last())
    }
}

/// Whether a title is long enough to keep: more than five bytes.
pub open spec fn title_ok(t: Seq<char>) -> bool {
    utf8_len(t) > 5
}

/// Whether no line before `n` could name a task.
pub open spec fn no_candidate_before(lines: Seq<Seq<char>>, n: int) -> bool {
    forall|j: int| 0 <= j < n ==> !is_candidate(#[trigger] lines[j])
}

/// The titles kept from the first `n` lines, each marked when it comes from
/// the first candidate line (that task gets the changed files).
pub open spec fn picked(lines: Seq<Seq<char>>, n: int) -> Seq<(Seq<char>, bool)>
    decreases n,
{
    if n <= 0 || n > lines.len() {
        seq![]
    } else {
        let p = picked(lines, n - 1);
        let l = lines[n - 1];
        if is_candidate(l) && title_ok(title_of(l)) {
            p.push((title_of(l), no_candidate_before(lines, n - 1)))
        } else {
            p
        }
    }
}

/// Whether the reply holds any line that is not blank and not a code fence.
pub open spec fn has_content(lines: Seq<Seq<char>>) -> bool {
    exists|j: int|
        0 <= j < lines.len() && trim_ws(#[trigger] lines[j]).len() > 0 && !(lines[j].len() >= 3
            && lines[j][0] == '`' && lines[j][1] == '`' && lines[j][2] == '`')
}

/// The title of the single task made when no line names one.
pub open spec fn generic_title() -> Seq<char> {
    "Changes analyzed"@
}

fn strip_vec(l: &Vec<char>, c: char) -> (r: Vec<char>)
    ensures
        r@ == strip_lead(l@, c),
{
    let mut k: usize = 0;
    assert(l@.skip(0) =~= l@);
    while k < l.len() && l[k] == c
        invariant
            k <= l@.len(),
            strip_lead(l@, c) == strip_lead(l@.skip(k as int), c),
        decreases l@.len() - k,
    {
        assert(l@.skip(k as int).skip(1) =~= l@.skip(k + 1));
        k = k + 1;
    }
    assert(l@.subrange(k as int, l@.len() as int) =~= l@.skip(k as int));
    copy_range(l, k, l.len())
}

fn is_candidate_exec(l: &Vec<char>) -> (r: bool)
    ensures
        r == is_candidate(l@),
{
    let t = trim_vec(l);
    if t.len() == 0 {
        return false;
    }
    let fence = t.len() >= 3 && t[0] == '`' && t[1] == '`' && t[2] == '`';
    !fence && t[0] != '[' && t[0] != ']' && t[0] != '{' && t[0] != '}'
}

fn title_vec(l: &Vec<char>) -> (r: Vec<char>)
    ensures
        r@ == title_of(l@),
{
    let t = trim_vec(l);
    let a = strip_vec(&t, '-');
    let b = strip_vec(&a, '*');
    let c = strip_vec(&b, '•');
    trim_vec(&c)
}

pub(crate) proof fn lemma_utf8_len_prefix(s: Seq<char>, k: int)
    requires
        0 <= k <= s.len(),
    ensures
        utf8_len(s) >= utf8_len(s.take(k)),
    decreases s.len(),
{
    if k < s.len() {
        lemma_utf8_len_prefix(s.drop_last(), k);
        assert(s.drop_last().take(k) =~= s.take(k));
    } else {
        assert(s.take(k) =~= s);
    }
}

fn copy_files(v: &Vec<String>) -> (r: Vec<String>)
    ensures
        views(r@) == views(v@),
{
    let mut out: Vec<String> = Vec::new();
    let mut i: usize = 0;
    while i < v.len()
        invariant
            i <= v@.len(),
            out@.len() == i,
            views(out@) == views(v@.take(i as int)),
        decreases v@.len() - i,
    {
        let ghost prev = out@;
        out.push(String::from_str(v[i].as_str()));
        proof {
            let t = v@.take(i + 1);
            assert forall|j: int| 0 <= j < i + 1 implies views(out@)[j] == views(t)[j] by {
                if j < i {
                    assert(views(prev)[j] == views(v@.take(i as int))[j]);
                    assert(out@[j] == prev[j]);
                }
            }
            assert(views(out@) =~= views(t));
        }
        i = i + 1;
    }
    assert(v@.take(v@.len() as int) =~= v@);
    out
}

/// How many tasks a reply can give at most.
pub const MAX_TASKS: usize = 5;

/// Whether `v` holds, in order, the first `MAX_TASKS` of `p`, the marked one
/// with the changed files and the others with none.
pub open spec fn tasks_match(v: Seq<GeneratedTask>, p: Seq<(Seq<char>, bool)>, files: Seq<Seq<char>>) -> bool {
    &&& v.len() == if p.len() < MAX_TASKS {
        p.len()
    } else {
        MAX_TASKS as nat
    }
    &&& forall|k: int|
        0 <= k < v.len() ==> (#[trigger] v[k]).title@ == p[k].0 && views(v[k].files@) == if p[k].1 {
            files
        } else {
            Seq::<Seq<char>>::empty()
        }
}

/// Reads tasks out of a model's reply that is not a JSON array: each line
/// that could name a task gives one, titled by the line without list
/// markers, if the title is longer than five bytes; the first such line's
/// task gets `changed_files`; at most `MAX_TASKS` are kept. When no line
/// gives a task but the reply has content, one task titled `Changes
/// analyzed` covers all the files. `None` when the reply has no content.
pub fn fallback_tasks(response: &str, changed_files: &Vec<String>) -> (r: Option<Vec<GeneratedTask>>)
    ensures
        ({
            let lines = lines_of(response@);
            let p = picked(lines, lines.len() as int);
            if p.len() > 0 {
                r matches Some(v) && tasks_match(v@, p, views(changed_files@))
            } else if has_content(lines) {
                r matches Some(v) && v@.len() == 1 && v@[0].title@ == generic_title() && views(
                    v@[0].files@,
                ) == views(changed_files@)
            } else {
                r is None
            }
        }),
{
    let all = chars_of(response);
    let lines = split_lines(&all);
    let ghost ls = lines_of(response@);
    assert(lines@.len() == ls.len());
    let mut out: Vec<GeneratedTask> = Vec::new();
    let mut seen_candidate = false;
    let mut content = false;
    let mut i: usize = 0;
    while i < lines.len()
        invariant
            i <= lines@.len(),
            lines@.map_values(|l: Vec<char>| l@) == ls,
            tasks_match(out@, picked(ls, i as int), views(changed_files@)),
            seen_candidate == !no_candidate_before(ls, i as int),
            content == exists|j: int|
                0 <= j < i && trim_ws(#[trigger] ls[j]).len() > 0 && !(ls[j].len() >= 3 && ls[j][0]
                    == '`' && ls[j][1] == '`' && ls[j][2] == '`'),
        decreases lines@.len() - i,
    {
        let l = &lines[i];
        assert(l@ == ls[i as int]);
        let ghost before = picked(ls, i as int);
        let candidate = is_candidate_exec(l);
        if candidate {
            let title = title_vec(l);
            if utf8_len_above(&title, 5) {
                if out.len() < MAX_TASKS {
                    let files = if !seen_candidate {
                        copy_files(changed_files)
                    } else {
                        Vec::new()
                    };
                    let t = string_of(&title, 0, title.len());
                    assert(title@.subrange(0, title@.len() as int) =~= title@);
                    out.push(GeneratedTask { title: t, files });
                    proof {
                        if seen_candidate {
                            assert(views(out@.last().files@) =~= Seq::<Seq<char>>::empty());
                        }
                    }
                }
            }
            seen_candidate = true;
        }
        let blank = trim_vec(l).len() == 0;
        let fence = l.len() >= 3 && l[0] == '`' && l[1] == '`' && l[2] == '`';
        if !blank && !fence {
            content = true;
        }
        proof {
            assert(no_candidate_before(ls, i + 1) == (no_candidate_before(ls, i as int) && !is_candidate(
                ls[i as int],
            )));
        }
        i = i + 1;
    }
    if out.len() > 0 {
        Some(out)
    } else if content {
        let mut v: Vec<GeneratedTask> = Vec::new();
        v.push(GeneratedTask { title: String::from_str("Changes analyzed"), files: copy_files(changed_files) });
        Some(v)
    } else {
        None
    }
}

/// Whether `v` takes more than `n` bytes in UTF-8.
pub(crate) fn utf8_len_above(v: &Vec<char>, n: usize) -> (r: bool)
    requires
        n < 1000,
    ensures
        r == (utf8_len(v@) > n),
{
    let mut acc: usize = 0;
    let mut k: usize = 0;
    while k < v.len()
        invariant
            n < 1000,
            k <= v@.len(),
            acc <= n,
            acc == utf8_len(v@.take(k as int)),
        decreases v@.len() - k,
    {
        let c = v[k] as u32;
        let w: usize = if c < 0x80 {
            1
        } else if c < 0x800 {
            2
        } else if c < 0x10000 {
            3
        } else {
            4
        };
        assert(v@.take(k + 1).drop_last() =~= v@.take(k as int));
        acc = acc + w;
        k = k + 1;
        if acc > n {
            proof {
                lemma_utf8_len_prefix(v@, k as int);
            }
            return true;
        }
    }
    assert(v@.take(k as int) =~= v@);
    false
}

} // verus!
