//! Reading TypeScript compiler diagnostics.

use vstd::prelude::*;
use vstd::string::StringExecFns;

use crate::text::{chars_of, copy_range, lowercase_of, string_of, to_lower};

verus! {

/// One diagnostic reported by the TypeScript compiler.
pub struct TypeCheckError {
    pub line: usize,
    pub column: usize,
    pub code: String,
    pub message: String,
    pub severity: String,
}

/// The outcome of checking one file.
pub struct TypeCheckResult {
    pub file_path: String,
    pub error_count: usize,
    pub warning_count: usize,
    pub errors: Vec<TypeCheckError>,
    pub success: bool,
    pub execution_time_ms: u128,
}

/// A diagnostic as plain values: line, column, code, message, severity.
pub type DiagnosticView = (nat, nat, Seq<char>, Seq<char>, Seq<char>);

impl TypeCheckError {
    pub open spec fn view(&self) -> DiagnosticView {
        (self.line as nat, self.column as nat, self.code@, self.message@, self.severity@)
    }
}

pub open spec fn diagnostics_view(v: Seq<TypeCheckError>) -> Seq<DiagnosticView> {
    v.map_values(|e: TypeCheckError| e.view())
}

/// The first index at or after `i` where `s` holds `c`, or -1.
pub open spec fn find_from(s: Seq<char>, c: char, i: int) -> int
    decreases s.len() - i,
{
    if i < 0 || i >= s.len() {
        -1
    } else if s[i] == c {
        i
    } else {
        find_from(s, c, i + 1)
    }
}

/// The first index at or after `i` where `s` holds `): `, or -1.
pub open spec fn find_close_from(s: Seq<char>, i: int) -> int
    decreases s.len() - i,
{
    if i < 0 || i + 3 > s.len() {
        -1
    } else if s[i] == ')' && s[i + 1] == ':' && s[i + 2] == ' ' {
        i
    } else {
        find_close_from(s, i + 1)
    }
}

pub open spec fn is_digit(c: char) -> bool {
    '0' <= c && c <= '9'
}

pub open spec fn all_digits(d: Seq<char>) -> bool {
    forall|i: int| 0 <= i < d.len() ==> is_digit(#[trigger] d[i])
}

/// The value of a string of decimal digits.
pub open spec fn digits_value(d: Seq<char>) -> nat
    decreases d.len(),
{
    if d.len() == 0 {
        0
    } else {
        digits_value(d.drop_last()) * 10 + (d.last() as nat - '0' as nat) as nat
    }
}

/// What `usize::from_str` accepts: an optional `+`, then one or more decimal
/// digits whose value fits.
pub open spec fn parse_usize_spec(t: Seq<char>) -> Option<nat> {
    let d = if t.len() > 0 && t[0] == '+' {
        t.skip(1)
    } else {
        t
    };
    if d.len() > 0 && all_digits(d) && digits_value(d) <= usize::MAX {
        Some(digits_value(d))
    } else {
        None
    }
}

/// `s` without its trailing colons.
pub open spec fn trim_colons(s: Seq<char>) -> Seq<char>
    decreases s.len(),
{
    if s.len() > 0 && s.last() == ':' {
        trim_colons(s.drop_last())
    } else {
        s
    }
}

/// The diagnostic made of the coordinates `line`, `col` and the text after
/// `): `, which is split at its first two spaces into severity, code and
/// message; the code loses its trailing colons.
pub open spec fn diagnostic_of(line: nat, col: nat, rest: Seq<char>) -> Option<DiagnosticView> {
    let s1 = find_from(rest, ' ', 0);
    if s1 < 0 {
        None
    } else {
        let after = rest.skip(s1 + 1);
        let s2 = find_from(after, ' ', 0);
        if s2 < 0 {
            None
        } else {
            Some((line, col, trim_colons(after.take(s2)), after.skip(s2 + 1), rest.take(s1)))
        }
    }
}

/// The diagnostic whose coordinates read `LINE,COL` and whose text after
/// `): ` is `rest`.
pub open spec fn fields_of(coords: Seq<char>, rest: Seq<char>) -> Option<DiagnosticView> {
    let c = find_from(coords, ',', 0);
    if c < 0 {
        None
    } else {
        match (parse_usize_spec(coords.take(c)), parse_usize_spec(coords.skip(c + 1))) {
            (Some(line), Some(col)) => diagnostic_of(line, col, rest),
            _ => None,
        }
    }
}

/// A line of the form `file(LINE,COL): SEVERITY CODE: MESSAGE`, read as a
/// diagnostic. The coordinates lie between the first `(` and the first `): `.
pub open spec fn parse_line_spec(l: Seq<char>) -> Option<DiagnosticView> {
    let p = find_from(l, '(', 0);
    let q = find_close_from(l, 0);
    if p < 0 || q < 0 || p + 1 > q {
        None
    } else {
        fields_of(l.subrange(p + 1, q), l.skip(q + 3))
    }
}

/// A line without the carriage return that ends it, if any.
pub open spec fn strip_cr(l: Seq<char>) -> Seq<char> {
    if l.len() > 0 && l.last() == '\r' {
        l.drop_last()
    } else {
        l
    }
}

pub open spec fn opt_seq(o: Option<DiagnosticView>) -> Seq<DiagnosticView> {
    match o {
        Some(d) => seq![d],
        None => seq![],
    }
}

/// The diagnostics of a compiler output, line by line (lines end at `\n`,
/// and a `\r` before it is dropped); lines of any other form are skipped.
pub open spec fn tsc_diagnostics(s: Seq<char>) -> Seq<DiagnosticView>
    decreases s.len(),
{
    if s.len() == 0 {
        seq![]
    } else {
        let i = find_from(s, '\n', 0);
        if i < 0 || i >= s.len() {
            opt_seq(parse_line_spec(s))
        } else {
            opt_seq(parse_line_spec(strip_cr(s.take(i)))) + tsc_diagnostics(s.skip(i + 1))
        }
    }
}

/// Where `c` first occurs in `v` at or after `from`.
fn find_char(v: &Vec<char>, c: char, from: usize) -> (r: Option<usize>)
    requires
        from <= v@.len(),
    ensures
        find_from(v@.skip(from as int), c, 0) == match r {
            Some(i) => i - from,
            None => -1,
        },
        r matches Some(i) ==> from <= i < v.len(),
{
    let ghost t = v@.skip(from as int);
    let mut k: usize = from;
    while k < v.len()
        invariant
            from <= k <= v@.len(),
            t == v@.skip(from as int),
            find_from(t, c, 0) == find_from(t, c, k - from),
        decreases v@.len() - k,
    {
        if v[k] == c {
            assert(t[k - from] == v@[k as int]);
            return Some(k);
        }
        assert(t[k - from] == v@[k as int]);
        k = k + 1;
    }
    None
}

fn find_close(v: &Vec<char>) -> (r: Option<usize>)
    ensures
        find_close_from(v@, 0) == match r {
            Some(i) => i as int,
            None => -1,
        },
        r matches Some(i) ==> i + 3 <= v.len(),
{
    if v.len() < 3 {
        return None;
    }
    let mut k: usize = 0;
    while k <= v.len() - 3
        invariant
            v@.len() >= 3,
            find_close_from(v@, 0) == find_close_from(v@, k as int),
        decreases v@.len() - k,
    {
        if v[k] == ')' && v[k + 1] == ':' && v[k + 2] == ' ' {
            return Some(k);
        }
        k = k + 1;
    }
    None
}

proof fn lemma_digits_monotone(d: Seq<char>, k: int)
    requires
        0 <= k <= d.len(),
        all_digits(d),
    ensures
        digits_value(d) >= digits_value(d.take(k)),
    decreases d.len(),
{
    if k < d.len() {
        let f = d.drop_last();
        assert(all_digits(f)) by {
            assert forall|i: int| 0 <= i < f.len() implies is_digit(#[trigger] f[i]) by {
                assert(f[i] == d[i]);
            }
        }
        lemma_digits_monotone(f, k);
        assert(f.take(k) =~= d.take(k));
    } else {
        assert(d.take(k) =~= d);
    }
}

/// Reads a `usize` as `usize::from_str` does.
pub fn parse_usize(v: &Vec<char>) -> (r: Option<usize>)
    ensures
        match (r, parse_usize_spec(v@)) {
            (Some(a), Some(b)) => a as nat == b,
            (None, None) => true,
            _ => false,
        },
{
    let start: usize = if v.len() > 0 && v[0] == '+' {
        1
    } else {
        0
    };
    let ghost d = v@.skip(start as int);
    assert(d =~= (if v@.len() > 0 && v@[0] == '+' {
        v@.skip(1)
    } else {
        v@
    }));
    if start >= v.len() {
        return None;
    }
    let mut value: usize = 0;
    let mut k: usize = start;
    while k < v.len()
        invariant
            start <= k <= v@.len(),
            d == v@.skip(start as int),
            d == (if v@.len() > 0 && v@[0] == '+' {
                v@.skip(1)
            } else {
                v@
            }),
            all_digits(d.take(k - start)),
            value as nat == digits_value(d.take(k - start)),
        decreases v@.len() - k,
    {
        let c = v[k];
        assert(d[k - start] == c);
        if !('0' <= c && c <= '9') {
            assert(!all_digits(d));
            return None;
        }
        let digit = (c as u32 - '0' as u32) as usize;
        let ghost next = d.take(k - start + 1);
        assert(next.drop_last() =~= d.take(k - start));
        assert(all_digits(next)) by {
            assert forall|i: int| 0 <= i < next.len() implies is_digit(#[trigger] next[i]) by {
                if i < next.len() - 1 {
                    assert(next[i] == d.take(k - start)[i]);
                }
            }
        }
        if value > (usize::MAX - digit) / 10 {
            proof {
                assert(digits_value(next) == value * 10 + digit);
                assert(value * 10 + digit > usize::MAX) by (nonlinear_arith)
                    requires
                        value > (usize::MAX - digit) / 10,
                        digit <= 9,
                ;
                if all_digits(d) {
                    lemma_digits_monotone(d, k - start + 1);
                }
            }
            return None;
        }
        assert(value * 10 + digit <= usize::MAX) by (nonlinear_arith)
            requires
                value <= (usize::MAX - digit) / 10,
                digit <= 9,
        ;
        value = value * 10 + digit;
        k = k + 1;
    }
    assert(d.take(k - start) =~= d);
    Some(value)
}

fn trim_colons_end(v: &Vec<char>) -> (r: usize)
    ensures
        r <= v@.len(),
        v@.take(r as int) == trim_colons(v@),
{
    let mut e: usize = v.len();
    assert(v@.take(e as int) =~= v@);
    while e > 0 && v[e - 1] == ':'
        invariant
            e <= v@.len(),
            trim_colons(v@) == trim_colons(v@.take(e as int)),
        decreases e,
    {
        assert(v@.take(e as int).drop_last() =~= v@.take(e - 1));
        e = e - 1;
    }
    e
}

fn diagnostic_from(line: usize, column: usize, rest: &Vec<char>) -> (r: Option<TypeCheckError>)
    ensures
        match r {
            Some(e) => diagnostic_of(line as nat, column as nat, rest@) == Some(e.view()),
            None => diagnostic_of(line as nat, column as nat, rest@) is None,
        },
{
    assert(rest@.skip(0) =~= rest@);
    let s1 = match find_char(rest, ' ', 0) {
        Some(s) => s,
        None => {
            return None;
        },
    };
    let s2 = match find_char(rest, ' ', s1 + 1) {
        Some(s) => s,
        None => {
            return None;
        },
    };
    let severity = string_of(rest, 0, s1);
    let code_chars = copy_range(rest, s1 + 1, s2);
    let code_end = trim_colons_end(&code_chars);
    let code = string_of(&code_chars, 0, code_end);
    let message = string_of(rest, s2 + 1, rest.len());
    proof {
        let after = rest@.skip(s1 + 1);
        assert(code_chars@ =~= after.take(s2 - s1 - 1));
        assert(message@ =~= after.skip(s2 - s1));
        assert(severity@ =~= rest@.take(s1 as int));
        assert(code@ =~= code_chars@.take(code_end as int));
    }
    Some(TypeCheckError { line, column, code, message, severity })
}

fn fields_from(coords: &Vec<char>, rest: &Vec<char>) -> (r: Option<TypeCheckError>)
    ensures
        match r {
            Some(e) => fields_of(coords@, rest@) == Some(e.view()),
            None => fields_of(coords@, rest@) is None,
        },
{
    assert(coords@.skip(0) =~= coords@);
    let c = match find_char(coords, ',', 0) {
        Some(c) => c,
        None => {
            return None;
        },
    };
    let line_part = copy_range(coords, 0, c);
    let col_part = copy_range(coords, c + 1, coords.len());
    assert(line_part@ =~= coords@.take(c as int));
    assert(col_part@ =~= coords@.skip(c + 1));
    let line = match parse_usize(&line_part) {
        Some(n) => n,
        None => {
            return None;
        },
    };
    let column = match parse_usize(&col_part) {
        Some(n) => n,
        None => {
            return None;
        },
    };
    diagnostic_from(line, column, rest)
}

/// Reads one line of compiler output as a diagnostic, if it has that form.
pub fn parse_tsc_line(l: &Vec<char>) -> (r: Option<TypeCheckError>)
    ensures
        match r {
            Some(e) => parse_line_spec(l@) == Some(e.view()),
            None => parse_line_spec(l@) is None,
        },
{
    assert(l@.skip(0) =~= l@);
    let p = match find_char(l, '(', 0) {
        Some(p) => p,
        None => {
            return None;
        },
    };
    let q = match find_close(l) {
        Some(q) => q,
        None => {
            return None;
        },
    };
    if p >= q {
        return None;
    }
    assert(q + 3 <= l.len());
    let coords = copy_range(l, p + 1, q);
    let rest = copy_range(l, q + 3, l.len());
    assert(rest@ =~= l@.skip(q + 3));
    fields_from(&coords, &rest)
}

/// Reads the diagnostics out of the compiler's output, in order; lines of
/// any other form are skipped.
pub fn parse_tsc_output(output: &str) -> (r: Vec<TypeCheckError>)
    ensures
        diagnostics_view(r@) == tsc_diagnostics(output@),
{
    let all = chars_of(output);
    let n = all.len();
    let mut out: Vec<TypeCheckError> = Vec::new();
    let mut pos: usize = 0;
    assert(all@.skip(0) =~= all@);
    while pos < n
        invariant
            n == all@.len(),
            all@ == output@,
            pos <= n,
            diagnostics_view(out@) + tsc_diagnostics(all@.skip(pos as int)) == tsc_diagnostics(all@),
        decreases n - pos,
    {
        let ghost t = all@.skip(pos as int);
        let ghost prev = out@;
        match find_char(&all, '\n', pos) {
            Some(nl) => {
                let end = if nl > pos && all[nl - 1] == '\r' {
                    nl - 1
                } else {
                    nl
                };
                let line = copy_range(&all, pos, end);
                assert(line@ =~= strip_cr(t.take(nl - pos)));
                let parsed = parse_tsc_line(&line);
                match parsed {
                    Some(e) => {
                        out.push(e);
                    },
                    None => {},
                }
                proof {
                    assert(t.skip(nl - pos + 1) =~= all@.skip(nl + 1));
                    assert(diagnostics_view(out@) =~= diagnostics_view(prev) + opt_seq(parse_line_spec(line@)));
                }
                pos = nl + 1;
            },
            None => {
                let line = copy_range(&all, pos, n);
                assert(line@ =~= t);
                let parsed = parse_tsc_line(&line);
                match parsed {
                    Some(e) => {
                        out.push(e);
                    },
                    None => {},
                }
                proof {
                    assert(diagnostics_view(out@) =~= diagnostics_view(prev) + opt_seq(parse_line_spec(line@)));
                    assert(all@.skip(n as int) =~= Seq::<char>::empty());
                }
                pos = n;
            },
        }
    }
    assert(all@.skip(n as int) =~= Seq::<char>::empty());
    assert(diagnostics_view(out@) =~= diagnostics_view(out@) + Seq::<DiagnosticView>::empty());
    out
}

/// How many diagnostics of `v` have the severity `sev`.
pub open spec fn count_severity(v: Seq<DiagnosticView>, sev: Seq<char>) -> nat
    decreases v.len(),
{
    if v.len() == 0 {
        0
    } else {
        count_severity(v.drop_last(), sev) + if v.last().4 == sev {
            1nat
        } else {
            0nat
        }
    }
}

fn count_of(errors: &Vec<TypeCheckError>, sev: &str) -> (r: usize)
    ensures
        r == count_severity(diagnostics_view(errors@), sev@),
{
    let target = String::from_str(sev);
    let mut n: usize = 0;
    let mut i: usize = 0;
    while i < errors.len()
        invariant
            i <= errors@.len(),
            target@ == sev@,
            n <= i,
            n == count_severity(diagnostics_view(errors@.take(i as int)), sev@),
        decreases errors@.len() - i,
    {
        assert(diagnostics_view(errors@.take(i + 1)).drop_last() =~= diagnostics_view(
            errors@.take(i as int),
        ));
        if errors[i].severity.eq(&target) {
            n = n + 1;
        }
        i = i + 1;
    }
    assert(errors@.take(errors@.len() as int) =~= errors@);
    n
}

/// The result of checking `file_path`: the diagnostics found, how many are
/// errors and how many warnings, success when there are neither, and the time
/// the check took.
pub fn summarize_type_check(file_path: String, errors: Vec<TypeCheckError>, execution_time_ms: u128) -> (r:
    TypeCheckResult)
    ensures
        r.file_path == file_path,
        r.errors == errors,
        r.error_count == count_severity(diagnostics_view(errors@), "error"@),
        r.warning_count == count_severity(diagnostics_view(errors@), "warning"@),
        r.success == (r.error_count == 0 && r.warning_count == 0),
        r.execution_time_ms == execution_time_ms,
{
    let error_count = count_of(&errors, "error");
    let warning_count = count_of(&errors, "warning");
    TypeCheckResult {
        file_path,
        error_count,
        warning_count,
        errors,
        success: error_count == 0 && warning_count == 0,
        execution_time_ms,
    }
}

/// Whether a lower-case file extension names a file the checker handles.
pub fn is_checkable_lowercase(ext: &str) -> (r: bool)
    ensures
        r == (ext@ == "ts"@ || ext@ == "tsx"@ || ext@ == "js"@ || ext@ == "jsx"@),
{
    let e = String::from_str(ext);
    e.eq(&String::from_str("ts")) || e.eq(&String::from_str("tsx")) || e.eq(&String::from_str("js"))
        || e.eq(&String::from_str("jsx"))
}

/// Whether a file extension, in any case, names a file the checker handles:
/// `ts`, `tsx`, `js` or `jsx`.
pub fn is_checkable_extension(ext: &str) -> (r: bool)
    ensures
        ({
            let l = lowercase_of(ext@);
            r == (l == "ts"@ || l == "tsx"@ || l == "js"@ || l == "jsx"@)
        }),
{
    let lower = to_lower(ext);
    is_checkable_lowercase(lower.as_str())
}

/// The compiler's arguments for checking one file: no output, no library
/// checks, JSX in the React style, then the file.
pub open spec fn tsc_args_spec(file_path: Seq<char>) -> Seq<Seq<char>> {
    seq!["--noEmit"@, "--skipLibCheck"@, "--jsx"@, "react-jsx"@, file_path]
}

/// The program and arguments that check `file_path`: `tsc.cmd` on Windows,
/// else `tsc`.
pub fn get_tsc_command(windows: bool, file_path: &str) -> (r: (String, Vec<String>))
    ensures
        r.0@ == (if windows {
            "tsc.cmd"@
        } else {
            "tsc"@
        }),
        crate::policy::views(r.1@) == tsc_args_spec(file_path@),
{
    let program = if windows {
        String::from_str("tsc.cmd")
    } else {
        String::from_str("tsc")
    };
    let mut args: Vec<String> = Vec::new();
    args.push(String::from_str("--noEmit"));
    args.push(String::from_str("--skipLibCheck"));
    args.push(String::from_str("--jsx"));
    args.push(String::from_str("react-jsx"));
    args.push(String::from_str(file_path));
    assert(crate::policy::views(args@) =~= tsc_args_spec(file_path@));
    (program, args)
}

} // verus!
