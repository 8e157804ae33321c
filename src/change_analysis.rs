//! A first guess at what a set of changed files is about.

use vstd::prelude::*;
use vstd::string::StringExecFns;

use crate::procfs::{occurs_exec, occurs_in};
use crate::policy::{opt_view, views};
use crate::tasks::{rfind_upto, utf8_len, utf8_len_above};
use crate::text::{chars_of, copy_range, lowercase_of, string_of, to_lower};

verus! {

pub open spec fn ends_with(l: Seq<char>, w: Seq<char>) -> bool {
    l.len() >= w.len() && l.subrange(l.len() - w.len(), l.len() as int) == w
}

/// The number of kinds of change a file can show.
pub const KINDS: usize = 9;

/// Whether a file path, in lower case, shows kind `t` of change: kinds 0 to 5
/// are the areas (API, UI, logic, styling, types, database); 6 is tests, 7
/// documentation, 8 configuration.
pub open spec fn file_kind(l: Seq<char>, t: int) -> bool {
    if t == 0 {
        occurs_in("api"@, l) || occurs_in("endpoint"@, l) || occurs_in("route"@, l)
    } else if t == 1 {
        occurs_in("component"@, l) || occurs_in("jsx"@, l) || occurs_in("tsx"@, l) || occurs_in("vue"@, l)
    } else if t == 2 {
        occurs_in("hook"@, l) || occurs_in("context"@, l) || occurs_in("provider"@, l)
    } else if t == 3 {
        occurs_in("style"@, l) || occurs_in("css"@, l) || occurs_in("scss"@, l) || occurs_in("less"@, l)
    } else if t == 4 {
        occurs_in("type"@, l) || occurs_in("interface"@, l) || occurs_in(".d.ts"@, l)
    } else if t == 5 {
        occurs_in("migration"@, l) || occurs_in("schema"@, l) || occurs_in("model"@, l)
    } else if t == 6 {
        occurs_in("test"@, l) || occurs_in("spec"@, l) || occurs_in("__tests__"@, l)
    } else if t == 7 {
        ends_with(l, ".md"@) || ends_with(l, ".mdx"@) || occurs_in("readme"@, l) || occurs_in(
            "changelog"@,
            l,
        )
    } else {
        (l.len() > 0 && l[0] == '.') || occurs_in("config"@, l) || occurs_in("rc"@, l) || ends_with(
            l,
            ".toml"@,
        ) || ends_with(l, ".yaml"@) || ends_with(l, ".yml"@) || ends_with(l, ".json"@)
    }
}

/// Whether one of the first `k` lower-cased paths shows kind `t`.
pub open spec fn any_file(lowers: Seq<Seq<char>>, t: int, k: int) -> bool {
    exists|i: int| 0 <= i < k && #[trigger] file_kind(lowers[i], t)
}

/// The paths in lower case.
pub open spec fn lowered(files: Seq<Seq<char>>) -> Seq<Seq<char>> {
    files.map_values(|f: Seq<char>| lowercase_of(f))
}

pub open spec fn area_name(t: int) -> Seq<char> {
    if t == 0 {
        "API"@
    } else if t == 1 {
        "UI"@
    } else if t == 2 {
        "Logic"@
    } else if t == 3 {
        "Styling"@
    } else if t == 4 {
        "Types"@
    } else {
        "Database"@
    }
}

/// The names of the areas among the first `n` that some file shows, in order.
pub open spec fn areas(files: Seq<Seq<char>>, n: int) -> Seq<Seq<char>>
    decreases n,
{
    if n <= 0 {
        seq![]
    } else {
        let p = areas(files, n - 1);
        if any_file(files, n - 1, files.len() as int) {
            p.push(area_name(n - 1))
        } else {
            p
        }
    }
}

/// `parts` joined with `sep` between them.
pub open spec fn join(parts: Seq<Seq<char>>, sep: Seq<char>) -> Seq<char>
    decreases parts.len(),
{
    if parts.len() == 0 {
        seq![]
    } else if parts.len() == 1 {
        parts[0]
    } else {
        join(parts.drop_last(), sep) + sep + parts.last()
    }
}

/// Directory names too generic to name a feature.
pub open spec fn generic_dir(d: Seq<char>) -> bool {
    d == "src"@ || d == "lib"@ || d == "app"@ || d == "components"@ || d == "pages"@ || d == "hooks"@
        || d == "utils"@
}

/// The feature a path suggests: the name of the directory that holds the
/// file, unless it is hidden, a single byte long, or generic.
pub open spec fn component_of(f: Seq<char>) -> Option<Seq<char>> {
    let j = rfind_upto(f, '/', f.len() as int);
    if j < 0 {
        None
    } else {
        let d = f.subrange(rfind_upto(f, '/', j) + 1, j);
        if (d.len() > 0 && d[0] == '.') || utf8_len(d) <= 1 || generic_dir(d) {
            None
        } else {
            Some(d)
        }
    }
}

/// The features the first `k` files suggest, in order.
pub open spec fn components(files: Seq<Seq<char>>, k: int) -> Seq<Seq<char>>
    decreases k,
{
    if k <= 0 || k > files.len() {
        seq![]
    } else {
        let p = components(files, k - 1);
        match component_of(files[k - 1]) {
            Some(d) => p.push(d),
            None => p,
        }
    }
}

/// The title of a task made of `files` (`lowers` are the same paths in lower
/// case): the areas they show; else the
/// feature their directories suggest (the first one met); else a generic title.
pub open spec fn task_title(files: Seq<Seq<char>>, lowers: Seq<Seq<char>>) -> Seq<char> {
    let ps = areas(lowers, 6);
    let cs = components(files, files.len() as int);
    if ps.len() == 1 {
        ps[0] + " implementation"@
    } else if ps.len() > 1 {
        join(ps.drop_last(), ", "@) + " and "@ + ps.last() + " implementation"@
    } else if cs.len() == 0 {
        "Code changes"@
    } else if forall|i: int| 0 <= i < cs.len() ==> #[trigger] cs[i] == cs[0] {
        "Implement "@ + cs[0]
    } else {
        "Implement "@ + cs[0] + " and related features"@
    }
}

/// What else the files include: tests, documentation, configuration.
pub open spec fn extras(files: Seq<Seq<char>>) -> Seq<Seq<char>> {
    let n = files.len() as int;
    (if any_file(files, 6, n) {
        seq!["includes tests"@]
    } else {
        seq![]
    }) + (if any_file(files, 7, n) {
        seq!["includes documentation"@]
    } else {
        seq![]
    }) + (if any_file(files, 8, n) {
        seq!["configuration updates"@]
    } else {
        seq![]
    })
}

/// The description of a task made of `files`, if there is anything to say.
pub open spec fn task_description(files: Seq<Seq<char>>) -> Option<Seq<char>> {
    let e = extras(files);
    if e.len() == 0 {
        None
    } else {
        Some("Changes "@ + join(e, ", "@))
    }
}

fn lit_chars(s: &str) -> (r: Vec<char>)
    ensures
        r@ == s@,
{
    chars_of(s)
}

fn has_word(l: &Vec<char>, w: &str) -> (r: bool)
    ensures
        r == occurs_in(w@, l@),
{
    occurs_exec(&lit_chars(w), l)
}

fn has_end(l: &Vec<char>, w: &str) -> (r: bool)
    ensures
        r == ends_with(l@, w@),
{
    let wv = lit_chars(w);
    if wv.len() > l.len() {
        return false;
    }
    let start = l.len() - wv.len();
    let tail = copy_range(l, start, l.len());
    let a = string_of(&tail, 0, tail.len());
    let b = string_of(&wv, 0, wv.len());
    assert(tail@.subrange(0, tail@.len() as int) =~= tail@);
    assert(wv@.subrange(0, wv@.len() as int) =~= wv@);
    a.eq(&b)
}

fn kind_exec(l: &Vec<char>, t: usize) -> (r: bool)
    requires
        t < KINDS,
    ensures
        r == file_kind(l@, t as int),
{
    if t == 0 {
        has_word(l, "api") || has_word(l, "endpoint") || has_word(l, "route")
    } else if t == 1 {
        has_word(l, "component") || has_word(l, "jsx") || has_word(l, "tsx") || has_word(l, "vue")
    } else if t == 2 {
        has_word(l, "hook") || has_word(l, "context") || has_word(l, "provider")
    } else if t == 3 {
        has_word(l, "style") || has_word(l, "css") || has_word(l, "scss") || has_word(l, "less")
    } else if t == 4 {
        has_word(l, "type") || has_word(l, "interface") || has_word(l, ".d.ts")
    } else if t == 5 {
        has_word(l, "migration") || has_word(l, "schema") || has_word(l, "model")
    } else if t == 6 {
        has_word(l, "test") || has_word(l, "spec") || has_word(l, "__tests__")
    } else if t == 7 {
        has_end(l, ".md") || has_end(l, ".mdx") || has_word(l, "readme") || has_word(l, "changelog")
    } else {
        (l.len() > 0 && l[0] == '.') || has_word(l, "config") || has_word(l, "rc") || has_end(
            l,
            ".toml",
        ) || has_end(l, ".yaml") || has_end(l, ".yml") || has_end(l, ".json")
    }
}

fn same_as(v: &Vec<char>, w: &str) -> (r: bool)
    ensures
        r == (v@ == w@),
{
    let a = string_of(v, 0, v.len());
    assert(v@.subrange(0, v@.len() as int) =~= v@);
    a.eq(&String::from_str(w))
}

fn same_chars(a: &Vec<char>, b: &Vec<char>) -> (r: bool)
    ensures
        r == (a@ == b@),
{
    let x = string_of(a, 0, a.len());
    let y = string_of(b, 0, b.len());
    assert(a@.subrange(0, a@.len() as int) =~= a@);
    assert(b@.subrange(0, b@.len() as int) =~= b@);
    x.eq(&y)
}

fn last_slash_before(v: &Vec<char>, end: usize) -> (r: Option<usize>)
    requires
        end <= v@.len(),
    ensures
        rfind_upto(v@, '/', end as int) == match r {
            Some(j) => j as int,
            None => -1,
        },
        r matches Some(j) ==> j < end,
{
    let mut b = end;
    while b > 0 && v[b - 1] != '/'
        invariant
            b <= end,
            end <= v@.len(),
            rfind_upto(v@, '/', end as int) == rfind_upto(v@, '/', b as int),
        decreases b,
    {
        b = b - 1;
    }
    if b == 0 {
        None
    } else {
        Some(b - 1)
    }
}

fn component_exec(f: &Vec<char>) -> (r: Option<Vec<char>>)
    ensures
        match r {
            Some(d) => component_of(f@) == Some(d@),
            None => component_of(f@) is None,
        },
{
    let j = match last_slash_before(f, f.len()) {
        Some(j) => j,
        None => {
            return None;
        },
    };
    let start = match last_slash_before(f, j) {
        Some(i) => i + 1,
        None => 0,
    };
    let d = copy_range(f, start, j);
    if d.len() > 0 && d[0] == '.' {
        return None;
    }
    if !utf8_len_above(&d, 1) {
        return None;
    }
    if same_as(&d, "src") || same_as(&d, "lib") || same_as(&d, "app") || same_as(&d, "components")
        || same_as(&d, "pages") || same_as(&d, "hooks") || same_as(&d, "utils") {
        return None;
    }
    Some(d)
}

fn append_part(s: &mut String, part: &str)
    ensures
        final(s)@ == old(s)@ + part@,
{
    s.append(part);
}

/// `parts` joined with `sep`.
fn join_exec(parts: &Vec<String>, count: usize, sep: &str) -> (r: String)
    requires
        count <= parts@.len(),
    ensures
        r@ == join(views(parts@).take(count as int), sep@),
{
    let mut out = String::new();
    let mut i: usize = 0;
    while i < count
        invariant
            count <= parts@.len(),
            i <= count,
            out@ == join(views(parts@).take(i as int), sep@),
        decreases count - i,
    {
        let ghost t = views(parts@).take(i + 1);
        assert(t.drop_last() =~= views(parts@).take(i as int));
        if i > 0 {
            append_part(&mut out, sep);
        } else {
            assert(views(parts@).take(0) =~= Seq::<Seq<char>>::empty());
        }
        append_part(&mut out, parts[i].as_str());
        assert(out@ =~= join(t, sep@));
        i = i + 1;
    }
    out
}

/// Guesses a title and a description for a task made of the changed files
/// `files`: the areas the paths show (API, UI, logic, styling, types,
/// database), else the feature their directories suggest; the description
/// says whether tests, documentation or configuration are among them.
pub fn analyze_file_patterns(files: &Vec<String>) -> (r: (String, Option<String>))
    ensures
        r.0@ == task_title(views(files@), lowered(views(files@))),
        opt_view(r.1) == task_description(lowered(views(files@))),
{
    let mut lowers: Vec<String> = Vec::new();
    let mut i: usize = 0;
    while i < files.len()
        invariant
            i <= files@.len(),
            lowers@.len() == i,
            views(lowers@) == lowered(views(files@)).take(i as int),
        decreases files@.len() - i,
    {
        let ghost prev = lowers@;
        lowers.push(to_lower(files[i].as_str()));
        proof {
            let t = lowered(views(files@)).take(i + 1);
            assert forall|j: int| 0 <= j < i + 1 implies views(lowers@)[j] == t[j] by {
                if j < i {
                    assert(views(prev)[j] == lowered(views(files@)).take(i as int)[j]);
                    assert(lowers@[j] == prev[j]);
                }
            }
            assert(views(lowers@) =~= t);
        }
        i = i + 1;
    }
    assert(lowered(views(files@)).take(files@.len() as int) =~= lowered(views(files@)));
    analyze_lowercased(files, &lowers)
}

/// The same guess, given the paths in lower case as well (`lowers[i]` is
/// `files[i]` in lower case).
pub fn analyze_lowercased(files: &Vec<String>, lowers: &Vec<String>) -> (r: (String, Option<String>))
    requires
        lowers@.len() == files@.len(),
    ensures
        r.0@ == task_title(views(files@), views(lowers@)),
        opt_view(r.1) == task_description(views(lowers@)),
{
    let ghost fs = views(files@);
    let ghost ls = views(lowers@);
    let n = files.len();
    let mut flags: Vec<bool> = Vec::new();
    while flags.len() < KINDS
        invariant
            flags@.len() <= KINDS,
            forall|u: int| 0 <= u < flags@.len() ==> !(#[trigger] flags@[u]),
        decreases KINDS - flags@.len(),
    {
        flags.push(false);
    }
    let mut first: Option<Vec<char>> = None;
    let mut multi = false;
    let mut k: usize = 0;
    while k < n
        invariant
            n == files@.len(),
            fs == views(files@),
            ls == views(lowers@),
            lowers@.len() == n,
            k <= n,
            flags@.len() == KINDS,
            forall|u: int| 0 <= u < KINDS ==> #[trigger] flags@[u] == any_file(ls, u, k as int),
            ({
                let cs = components(fs, k as int);
                &&& (first is None <==> cs.len() == 0)
                &&& (first matches Some(f) ==> f@ == cs[0])
                &&& multi == exists|i: int| 0 <= i < cs.len() && #[trigger] cs[i] != cs[0]
            }),
        decreases n - k,
    {
        let lower = chars_of(lowers[k].as_str());
        assert(ls[k as int] == lowers@[k as int]@);
        assert(fs[k as int] == files@[k as int]@);
        let mut t: usize = 0;
        while t < KINDS
            invariant
                t <= KINDS,
                flags@.len() == KINDS,
                lower@ == ls[k as int],
                ls == views(lowers@),
                forall|u: int| 0 <= u < t ==> #[trigger] flags@[u] == any_file(ls, u, k + 1),
                forall|u: int| t <= u < KINDS ==> #[trigger] flags@[u] == any_file(ls, u, k as int),
            decreases KINDS - t,
        {
            let hit = kind_exec(&lower, t);
            proof {
                let u = t as int;
                if hit {
                    assert(file_kind(ls[k as int], u));
                }
                if any_file(ls, u, k + 1) && !hit {
                    let i = choose|i: int| 0 <= i < k + 1 && #[trigger] file_kind(ls[i], u);
                    assert(i < k);
                }
            }
            if hit {
                flags.set(t, true);
            }
            t = t + 1;
        }
        let raw = chars_of(files[k].as_str());
        let ghost cs = components(fs, k as int);
        let comp = component_exec(&raw);
        match comp {
            Some(d) => {
                match &first {
                    None => {
                        first = Some(d);
                    },
                    Some(f) => {
                        if !same_chars(f, &d) {
                            multi = true;
                        }
                    },
                }
            },
            None => {},
        }
        proof {
            let cs2 = components(fs, k + 1);
            if component_of(fs[k as int]) is Some {
                assert(cs2 == cs.push(component_of(fs[k as int])->0));
                if cs.len() > 0 {
                    assert(cs2[0] == cs[0]);
                    if multi {
                        if exists|i: int| 0 <= i < cs.len() && #[trigger] cs[i] != cs[0] {
                            let i = choose|i: int| 0 <= i < cs.len() && #[trigger] cs[i] != cs[0];
                            assert(cs2[i] == cs[i]);
                        } else {
                            assert(cs2[cs.len() as int] != cs2[0]);
                        }
                    } else {
                        assert forall|i: int| 0 <= i < cs2.len() implies #[trigger] cs2[i] == cs2[0] by {
                            if i < cs.len() {
                                assert(cs2[i] == cs[i]);
                            }
                        }
                    }
                } else {
                    assert forall|i: int| 0 <= i < cs2.len() implies #[trigger] cs2[i] == cs2[0] by {}
                }
            } else {
                assert(cs2 == cs);
            }
        }
        k = k + 1;
    }
    let mut names: Vec<String> = Vec::new();
    let mut t: usize = 0;
    while t < 6
        invariant
            t <= 6,
            n == files@.len(),
            fs == views(files@),
            ls == views(lowers@),
            lowers@.len() == n,
            flags@.len() == KINDS,
            forall|u: int| 0 <= u < KINDS ==> #[trigger] flags@[u] == any_file(ls, u, n as int),
            views(names@) == areas(ls, t as int),
        decreases 6 - t,
    {
        if flags[t] {
            let name = if t == 0 {
                String::from_str("API")
            } else if t == 1 {
                String::from_str("UI")
            } else if t == 2 {
                String::from_str("Logic")
            } else if t == 3 {
                String::from_str("Styling")
            } else if t == 4 {
                String::from_str("Types")
            } else {
                String::from_str("Database")
            };
            names.push(name);
        }
        assert(views(names@) =~= areas(ls, t + 1));
        t = t + 1;
    }
    let ghost ps = areas(ls, 6);
    let title = if names.len() == 1 {
        let mut s = String::from_str(names[0].as_str());
        append_part(&mut s, " implementation");
        s
    } else if names.len() > 1 {
        let mut s = join_exec(&names, names.len() - 1, ", ");
        assert(views(names@).take(names@.len() - 1) =~= ps.drop_last());
        append_part(&mut s, " and ");
        append_part(&mut s, names[names.len() - 1].as_str());
        append_part(&mut s, " implementation");
        s
    } else {
        match &first {
            None => String::from_str("Code changes"),
            Some(f) => {
                let mut s = String::from_str("Implement ");
                let fs_str = string_of(f, 0, f.len());
                assert(f@.subrange(0, f@.len() as int) =~= f@);
                append_part(&mut s, fs_str.as_str());
                if multi {
                    append_part(&mut s, " and related features");
                }
                s
            },
        }
    };
    let mut parts: Vec<String> = Vec::new();
    if flags[6] {
        parts.push(String::from_str("includes tests"));
    }
    if flags[7] {
        parts.push(String::from_str("includes documentation"));
    }
    if flags[8] {
        parts.push(String::from_str("configuration updates"));
    }
    assert(views(parts@) =~= extras(ls));
    let description = if parts.len() == 0 {
        None
    } else {
        let mut s = String::from_str("Changes ");
        let joined = join_exec(&parts, parts.len(), ", ");
        assert(views(parts@).take(parts@.len() as int) =~= views(parts@));
        append_part(&mut s, joined.as_str());
        Some(s)
    };
    (title, description)
}

} // verus!
