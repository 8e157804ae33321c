//! The coding assistant's session index: types, path encoding, paging, and
//! time stamps.

use vstd::prelude::*;
use vstd::string::{StrSliceExecFns, StringExecFns};

use crate::change_analysis::join;
use crate::policy::{opt_view, views};

verus! {

/// One session of the coding assistant's session index.
pub struct ClaudeSessionEntry {
    pub session_id: String,
    pub full_path: String,
    pub first_prompt: String,
    pub summary: String,
    pub message_count: i32,
    pub created: String,
    pub modified: String,
    pub git_branch: Option<String>,
    pub project_path: String,
    pub is_sidechain: bool,
}

/// The assistant's session index file.
pub struct ClaudeSessionsIndex {
    pub version: i32,
    pub entries: Vec<ClaudeSessionEntry>,
}

/// One page of sessions, with the total count and whether more follow.
pub struct ClaudeSessionsPage {
    pub sessions: Vec<ClaudeSessionEntry>,
    pub total: usize,
    pub has_more: bool,
}

/// One message of a session transcript.
pub struct ClaudeMessage {
    pub role: String,
    pub content: String,
    pub timestamp: Option<String>,
}

/// A session transcript.
pub struct ClaudeSession {
    pub session_id: String,
    pub messages: Vec<ClaudeMessage>,
    pub summary: Option<String>,
    pub project_path: String,
}

/// The directory name the assistant uses for a project path: every `/` and
/// every space becomes `-`.
pub open spec fn encoded_path(path: Seq<char>) -> Seq<char> {
    path.map_values(|c: char| if c == '/' || c == ' ' { '-' } else { c })
}

/// Encodes a project path as the assistant's directory name.
pub fn encode_project_path(path: &str) -> (r: String)
    ensures
        r@ == encoded_path(path@),
{
    let n = path.unicode_len();
    let mut out = String::new();
    let mut i: usize = 0;
    while i < n
        invariant
            n == path@.len(),
            i <= n,
            out@ == encoded_path(path@.take(i as int)),
        decreases n - i,
    {
        let c = path.get_char(i);
        proof {
            reveal_strlit("-");
        }
        if c == '/' || c == ' ' {
            out.append("-");
        } else {
            out.append(path.substring_char(i, i + 1));
        }
        assert(path@.take(i + 1) =~= path@.take(i as int).push(c));
        assert(out@ =~= encoded_path(path@.take(i + 1)));
        i = i + 1;
    }
    assert(path@.take(n as int) =~= path@);
    out
}

/// The number of entries a page holds: what is left after `offset`, at most `limit`.
pub open spec fn page_len(total: nat, offset: nat, limit: nat) -> nat {
    if offset >= total {
        0
    } else if total - offset < limit {
        (total - offset) as nat
    } else {
        limit
    }
}

/// The page of `sessions` (already in display order) that starts at `offset`
/// and holds at most `limit` entries.
pub fn paginate_sessions(sessions: Vec<ClaudeSessionEntry>, offset: usize, limit: usize) -> (r:
    ClaudeSessionsPage)
    ensures
        r.total == sessions@.len(),
        r.sessions@ == sessions@.skip(offset as int).take(
            page_len(sessions@.len(), offset as nat, limit as nat) as int,
        ),
        r.has_more == (offset + page_len(sessions@.len(), offset as nat, limit as nat)
            < sessions@.len()),
{
    let total = sessions.len();
    let n: usize = if offset >= total {
        0
    } else if total - offset < limit {
        total - offset
    } else {
        limit
    };
    let mut rest = sessions;
    let page = if offset < total {
        let mut tail = rest.split_off(offset);
        tail.truncate(n);
        tail
    } else {
        Vec::new()
    };
    assert(page@ =~= sessions@.skip(offset as int).take(n as int));
    ClaudeSessionsPage { sessions: page, total, has_more: offset + n < total }
}

/// Whether `y` is a leap year of the Gregorian calendar.
pub open spec fn is_leap(y: int) -> bool {
    y % 4 == 0 && (y % 100 != 0 || y % 400 == 0)
}

pub open spec fn year_len(y: int) -> int {
    if is_leap(y) {
        366
    } else {
        365
    }
}

/// The year and the day within it (from 0) of the day `days` days after the
/// first of January of year `y`.
pub open spec fn civil_year(days: nat, y: int) -> (int, int)
    decreases days,
{
    if days < year_len(y) {
        (y, days as int)
    } else {
        civil_year((days - year_len(y)) as nat, y + 1)
    }
}

/// The length of month `m` (from 0 for January).
pub open spec fn month_len(m: int, leap: bool) -> int {
    if m == 1 {
        if leap {
            29
        } else {
            28
        }
    } else if m == 3 || m == 5 || m == 8 || m == 10 {
        30
    } else {
        31
    }
}

/// The month (from 0) and the day within it (from 0) of day `rem` of a year,
/// counting months from `m`.
pub open spec fn civil_month(rem: int, m: int, leap: bool) -> (int, int)
    decreases 12 - m,
{
    if m >= 12 || rem < month_len(m, leap) {
        (m, rem)
    } else {
        civil_month(rem - month_len(m, leap), m + 1, leap)
    }
}

pub open spec fn digit_char(d: nat) -> char {
    "0123456789"@[d as int]
}

/// The decimal digits of `n`.
pub open spec fn decimal(n: nat) -> Seq<char>
    decreases n,
{
    if n < 10 {
        seq![digit_char(n)]
    } else {
        decimal(n / 10).push(digit_char(n % 10))
    }
}

/// `n` in decimal, with leading zeros up to `width` digits.
pub open spec fn padded(n: nat, width: nat) -> Seq<char> {
    Seq::new((if width > decimal(n).len() { width - decimal(n).len() } else { 0 }) as nat, |i: int| '0')
        + decimal(n)
}

/// A time given in milliseconds since the Unix epoch, in UTC, written
/// `YYYY-MM-DDTHH:MM:SS.mmmZ`.
pub open spec fn iso_of_ms(ms: nat) -> Seq<char> {
    let secs = ms / 1000;
    let days = secs / 86400;
    let tod = secs % 86400;
    let (y, doy) = civil_year(days, 1970);
    let (m, d) = civil_month(doy, 0, is_leap(y));
    padded(y as nat, 4) + seq!['-'] + padded((m + 1) as nat, 2) + seq!['-'] + padded((d + 1) as nat, 2)
        + seq!['T'] + padded(tod / 3600, 2) + seq![':'] + padded((tod % 3600) / 60, 2) + seq![':']
        + padded(tod % 60, 2) + seq!['.'] + padded(ms % 1000, 3) + seq!['Z']
}

fn append_digit(s: &mut String, d: u64)
    requires
        d < 10,
    ensures
        final(s)@ == old(s)@.push(digit_char(d as nat)),
{
    let digits = "0123456789";
    proof {
        reveal_strlit("0123456789");
    }
    let one = digits.substring_char(d as usize, d as usize + 1);
    assert(one@ =~= seq![digit_char(d as nat)]);
    s.append(one);
}

fn append_decimal(s: &mut String, n: u64)
    ensures
        final(s)@ == old(s)@ + decimal(n as nat),
    decreases n,
{
    if n >= 10 {
        append_decimal(s, n / 10);
    }
    append_digit(s, n % 10);
    assert(final(s)@ =~= old(s)@ + decimal(n as nat));
}

fn append_padded(s: &mut String, n: u64, width: usize)
    ensures
        final(s)@ == old(s)@ + padded(n as nat, width as nat),
{
    let mut digits = String::new();
    append_decimal(&mut digits, n);
    assert(digits@ =~= decimal(n as nat));
    let len = digits.as_str().unicode_len();
    let mut k: usize = len;
    let ghost start = s@;
    while k < width
        invariant
            len == decimal(n as nat).len(),
            len <= k,
            k <= width || k == len,
            s@ == start + Seq::new((k - len) as nat, |i: int| '0'),
        decreases width - k,
    {
        let ghost before = s@;
        append_digit(s, 0);
        proof {
            reveal_strlit("0123456789");
        }
        assert(s@ =~= start + Seq::new((k + 1 - len) as nat, |i: int| '0'));
        k = k + 1;
    }
    s.append(digits.as_str());
    assert(s@ =~= start + padded(n as nat, width as nat));
}

fn append_char_lit(s: &mut String, lit: &str, c: Ghost<char>)
    requires
        lit@ == seq![c@],
    ensures
        final(s)@ == old(s)@.push(c@),
{
    s.append(lit);
    assert(final(s)@ =~= old(s)@.push(c@));
}

/// Writes a time given in milliseconds since the Unix epoch as an ISO-8601
/// UTC time stamp with milliseconds.
pub fn format_unix_ms_as_iso(ms: u64) -> (r: String)
    ensures
        r@ == iso_of_ms(ms as nat),
{
    let secs = ms / 1000;
    let millis = ms % 1000;
    let days = secs / 86400;
    let time_secs = secs % 86400;
    let hours = time_secs / 3600;
    let minutes = (time_secs % 3600) / 60;
    let seconds = time_secs % 60;
    let mut y: u64 = 1970;
    let mut remaining: u64 = days;
    loop
        invariant
            civil_year(days as nat, 1970) == civil_year(remaining as nat, y as int),
            1970 <= y,
            remaining <= days,
            (y - 1970) * 365 <= days - remaining,
            days <= u64::MAX / 86400,
        ensures
            civil_year(days as nat, 1970) == (y as int, remaining as int),
            1970 <= y,
            remaining < 366,
        decreases remaining,
    {
        let len: u64 = if y % 4 == 0 && (y % 100 != 0 || y % 400 == 0) {
            366
        } else {
            365
        };
        assert(len == year_len(y as int));
        if remaining < len {
            break;
        }
        remaining = remaining - len;
        y = y + 1;
    }
    let leap = y % 4 == 0 && (y % 100 != 0 || y % 400 == 0);
    assert(leap == is_leap(y as int));
    let mut m: u64 = 0;
    let ghost doy = remaining as int;
    loop
        invariant
            m <= 12,
            remaining <= doy,
            civil_month(doy, 0, leap) == civil_month(remaining as int, m as int, leap),
        ensures
            civil_month(doy, 0, leap) == (m as int, remaining as int),
            m <= 12,
            remaining <= doy,
        decreases 12 - m,
    {
        if m >= 12 {
            break;
        }
        let len: u64 = if m == 1 {
            if leap {
                29
            } else {
                28
            }
        } else if m == 3 || m == 5 || m == 8 || m == 10 {
            30
        } else {
            31
        };
        assert(len == month_len(m as int, leap));
        if remaining < len {
            break;
        }
        remaining = remaining - len;
        m = m + 1;
    }
    let ghost ym = civil_year(days as nat, 1970);
    assert(ym == (y as int, doy));
    assert(civil_month(doy, 0, is_leap(y as int)) == (m as int, remaining as int));
    let mut out = String::new();
    append_padded(&mut out, y, 4);
    proof {
        reveal_strlit("-");
        reveal_strlit("T");
        reveal_strlit(":");
        reveal_strlit(".");
        reveal_strlit("Z");
        assert("-"@ =~= seq!['-']);
        assert("T"@ =~= seq!['T']);
        assert(":"@ =~= seq![':']);
        assert("."@ =~= seq!['.']);
        assert("Z"@ =~= seq!['Z']);
    }
    append_char_lit(&mut out, "-", Ghost('-'));
    append_padded(&mut out, m + 1, 2);
    append_char_lit(&mut out, "-", Ghost('-'));
    append_padded(&mut out, remaining + 1, 2);
    append_char_lit(&mut out, "T", Ghost('T'));
    append_padded(&mut out, hours, 2);
    append_char_lit(&mut out, ":", Ghost(':'));
    append_padded(&mut out, minutes, 2);
    append_char_lit(&mut out, ":", Ghost(':'));
    append_padded(&mut out, seconds, 2);
    append_char_lit(&mut out, ".", Ghost('.'));
    append_padded(&mut out, millis, 3);
    append_char_lit(&mut out, "Z", Ghost('Z'));
    assert(out@ =~= iso_of_ms(ms as nat));
    out
}

/// One line of a session transcript, as far as the readers look into it:
/// its `type`, and of its `message` the `role`, the `content` when it is a
/// string, or the `text` of each content block when it is an array.
pub struct TranscriptLine {
    pub kind: Option<String>,
    pub has_message: bool,
    pub role: Option<String>,
    pub text: Option<String>,
    pub blocks: Option<Vec<Option<String>>>,
    pub timestamp: Option<String>,
    pub summary: Option<String>,
}

/// The texts among a message's content blocks, in order.
pub open spec fn block_texts(blocks: Seq<Option<String>>) -> Seq<Seq<char>>
    decreases blocks.len(),
{
    if blocks.len() == 0 {
        seq![]
    } else {
        let rest = block_texts(blocks.drop_last());
        match blocks.last() {
            Some(t) => rest.push(t@),
            None => rest,
        }
    }
}

pub open spec fn or_default(o: Option<String>, d: Seq<char>) -> Seq<char> {
    match o {
        Some(s) => s@,
        None => d,
    }
}

/// The message a transcript line carries, as role, content and time stamp:
/// user lines with a message; assistant lines with a message, whose content
/// is their text blocks joined by blank lines (a message of blocks without
/// text carries none).
pub open spec fn message_of(l: TranscriptLine) -> Option<(Seq<char>, Seq<char>, Option<Seq<char>>)> {
    if !l.has_message {
        None
    } else if opt_view(l.kind) == Some("user"@) {
        Some((or_default(l.role, "user"@), or_default(l.text, seq![]), opt_view(l.timestamp)))
    } else if opt_view(l.kind) == Some("assistant"@) {
        match l.blocks {
            Some(bs) => {
                let texts = block_texts(bs@);
                if texts.len() == 0 {
                    None
                } else {
                    Some((or_default(l.role, "assistant"@), join(texts, "\n\n"@), opt_view(l.timestamp)))
                }
            },
            None => Some((or_default(l.role, "assistant"@), or_default(l.text, seq![]), opt_view(l.timestamp))),
        }
    } else {
        None
    }
}

/// The messages of a transcript, in order.
pub open spec fn messages_of(lines: Seq<TranscriptLine>) -> Seq<(Seq<char>, Seq<char>, Option<Seq<char>>)>
    decreases lines.len(),
{
    if lines.len() == 0 {
        seq![]
    } else {
        let rest = messages_of(lines.drop_last());
        match message_of(lines.last()) {
            Some(m) => rest.push(m),
            None => rest,
        }
    }
}

impl ClaudeMessage {
    pub open spec fn view(&self) -> (Seq<char>, Seq<char>, Option<Seq<char>>) {
        (self.role@, self.content@, opt_view(self.timestamp))
    }
}

fn copy_opt(o: &Option<String>) -> (r: Option<String>)
    ensures
        opt_view(r) == opt_view(*o),
{
    match o {
        Some(s) => Some(String::from_str(s.as_str())),
        None => None,
    }
}

fn text_or(o: &Option<String>, d: &str) -> (r: String)
    ensures
        r@ == or_default(*o, d@),
{
    match o {
        Some(s) => String::from_str(s.as_str()),
        None => String::from_str(d),
    }
}

fn is_kind(l: &TranscriptLine, k: &str) -> (r: bool)
    ensures
        r == (opt_view(l.kind) == Some(k@)),
{
    match &l.kind {
        Some(s) => s.eq(&String::from_str(k)),
        None => false,
    }
}

fn joined_texts(bs: &Vec<Option<String>>) -> (r: (String, usize))
    ensures
        r.0@ == join(block_texts(bs@), "\n\n"@),
        r.1 == block_texts(bs@).len(),
{
    let mut out = String::new();
    let mut count: usize = 0;
    let mut i: usize = 0;
    while i < bs.len()
        invariant
            i <= bs@.len(),
            count <= i,
            count == block_texts(bs@.take(i as int)).len(),
            out@ == join(block_texts(bs@.take(i as int)), "\n\n"@),
        decreases bs@.len() - i,
    {
        assert(bs@.take(i + 1).drop_last() =~= bs@.take(i as int));
        match &bs[i] {
            Some(t) => {
                let ghost before = block_texts(bs@.take(i as int));
                if count > 0 {
                    out.append("\n\n");
                }
                out.append(t.as_str());
                proof {
                    let after = before.push(t@);
                    assert(after.drop_last() =~= before);
                    if before.len() == 0 {
                        assert(out@ =~= join(after, "\n\n"@));
                    }
                }
                count = count + 1;
            },
            None => {},
        }
        i = i + 1;
    }
    assert(bs@.take(bs@.len() as int) =~= bs@);
    (out, count)
}

fn message_from(l: &TranscriptLine) -> (r: Option<ClaudeMessage>)
    ensures
        match r {
            Some(m) => message_of(*l) == Some(m.view()),
            None => message_of(*l) is None,
        },
{
    proof {
        reveal_strlit("");
        assert(""@ =~= Seq::<char>::empty());
    }
    if !l.has_message {
        return None;
    }
    if is_kind(l, "user") {
        return Some(ClaudeMessage {
            role: text_or(&l.role, "user"),
            content: text_or(&l.text, ""),
            timestamp: copy_opt(&l.timestamp),
        });
    }
    if !is_kind(l, "assistant") {
        return None;
    }
    let content = match &l.blocks {
        Some(bs) => {
            let (joined, count) = joined_texts(bs);
            if count == 0 {
                return None;
            }
            joined
        },
        None => text_or(&l.text, ""),
    };
    Some(ClaudeMessage { role: text_or(&l.role, "assistant"), content, timestamp: copy_opt(&l.timestamp) })
}

/// The session whose transcript is `lines`: its user and assistant messages
/// in order. (The transcript carries no summary of its own.)
pub fn session_from_transcript(session_id: String, project_path: String, lines: &Vec<TranscriptLine>) -> (r:
    ClaudeSession)
    ensures
        r.session_id == session_id,
        r.project_path == project_path,
        r.summary is None,
        r.messages@.map_values(|m: ClaudeMessage| m.view()) == messages_of(lines@),
{
    let mut messages: Vec<ClaudeMessage> = Vec::new();
    let mut i: usize = 0;
    while i < lines.len()
        invariant
            i <= lines@.len(),
            messages@.map_values(|m: ClaudeMessage| m.view()) == messages_of(lines@.take(i as int)),
        decreases lines@.len() - i,
    {
        let ghost prev = messages@.map_values(|m: ClaudeMessage| m.view());
        assert(lines@.take(i + 1).drop_last() =~= lines@.take(i as int));
        match message_from(&lines[i]) {
            Some(m) => {
                messages.push(m);
                assert(messages@.map_values(|m: ClaudeMessage| m.view()) =~= prev.push(
                    message_of(lines@[i as int])->0,
                ));
            },
            None => {},
        }
        i = i + 1;
    }
    assert(lines@.take(lines@.len() as int) =~= lines@);
    ClaudeSession { session_id, messages, summary: None, project_path }
}

/// The most recent session of a page that is not a side chain.
pub fn active_session(page: ClaudeSessionsPage) -> (r: Option<ClaudeSessionEntry>)
    ensures
        match r {
            Some(e) => exists|i: int|
                0 <= i < page.sessions@.len() && page.sessions@[i] == e && !e.is_sidechain && forall|j: int|
                    0 <= j < i ==> (#[trigger] page.sessions@[j]).is_sidechain,
            None => forall|j: int| 0 <= j < page.sessions@.len() ==> (#[trigger] page.sessions@[j]).is_sidechain,
        },
{
    let ghost all = page.sessions@;
    assert(all == page.sessions@);
    let mut rest = page.sessions;
    let mut i: usize = 0;
    let n = rest.len();
    while i < n
        invariant
            n == all.len(),
            all == page.sessions@,
            i <= n,
            rest@ == all.skip(i as int),
            forall|j: int| 0 <= j < i ==> (#[trigger] all[j]).is_sidechain,
        decreases n - i,
    {
        let e = rest.remove(0);
        assert(e == all[i as int]);
        assert(rest@ =~= all.skip(i + 1));
        if !e.is_sidechain {
            assert(page.sessions@[i as int] == e);
            assert(forall|j: int| 0 <= j < i ==> (#[trigger] page.sessions@[j]).is_sidechain);
            return Some(e);
        }
        i = i + 1;
    }
    None
}

} // verus!
