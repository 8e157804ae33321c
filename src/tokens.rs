//! Token usage records of assistant sessions.

use vstd::prelude::*;
use vstd::string::{StrSliceExecFns, StringExecFns, StringSliceAdditionalSpecFns};
use vstd::utf8::*;

verus! {

/// Token counts of the latest session of a project.
pub struct TokenUsage {
    pub input_tokens: u64,
    pub output_tokens: u64,
    pub cache_read_input_tokens: u64,
    pub cache_creation_input_tokens: u64,
    pub billable_input_tokens: u64,
    pub billable_output_tokens: u64,
    pub model: Option<String>,
    pub session_file: Option<String>,
}

/// Token counts of one session transcript.
pub struct SessionInfo {
    pub session_id: String,
    pub session_file: String,
    pub model: Option<String>,
    pub input_tokens: u64,
    pub output_tokens: u64,
    pub cache_read_input_tokens: u64,
    pub cache_creation_input_tokens: u64,
    pub billable_input_tokens: u64,
    pub billable_output_tokens: u64,
    pub message_count: u64,
    pub timestamp: String,
}

impl TokenUsage {
    /// No tokens, no model, no session file.
    pub fn empty() -> (r: Self)
        ensures
            r.input_tokens == 0 && r.output_tokens == 0 && r.cache_read_input_tokens == 0,
            r.cache_creation_input_tokens == 0 && r.billable_input_tokens == 0,
            r.billable_output_tokens == 0,
            r.model is None && r.session_file is None,
    {
        TokenUsage {
            input_tokens: 0,
            output_tokens: 0,
            cache_read_input_tokens: 0,
            cache_creation_input_tokens: 0,
            billable_input_tokens: 0,
            billable_output_tokens: 0,
            model: None,
            session_file: None,
        }
    }

    /// The usage reported for a project: the counts of its latest session.
    pub fn from_session(s: SessionInfo) -> (r: Self)
        ensures
            r.input_tokens == s.input_tokens,
            r.output_tokens == s.output_tokens,
            r.cache_read_input_tokens == s.cache_read_input_tokens,
            r.cache_creation_input_tokens == s.cache_creation_input_tokens,
            r.billable_input_tokens == s.billable_input_tokens,
            r.billable_output_tokens == s.billable_output_tokens,
            r.model == s.model,
            r.session_file == Some(s.session_file),
    {
        TokenUsage {
            input_tokens: s.input_tokens,
            output_tokens: s.output_tokens,
            cache_read_input_tokens: s.cache_read_input_tokens,
            cache_creation_input_tokens: s.cache_creation_input_tokens,
            billable_input_tokens: s.billable_input_tokens,
            billable_output_tokens: s.billable_output_tokens,
            model: s.model,
            session_file: Some(s.session_file),
        }
    }
}

/// The directory name the assistant uses for a project's transcripts: every
/// `\`, `/` and `.` becomes `-`.
pub open spec fn transcript_segment(path: Seq<char>) -> Seq<char> {
    path.map_values(|c: char| if c == '\\' || c == '/' || c == '.' { '-' } else { c })
}

/// Names the transcript directory of the project at `path`.
pub fn transcript_dir_name(path: &str) -> (r: String)
    ensures
        r@ == transcript_segment(path@),
{
    let n = path.unicode_len();
    let mut out = String::new();
    let mut i: usize = 0;
    while i < n
        invariant
            n == path@.len(),
            i <= n,
            out@ == transcript_segment(path@.take(i as int)),
        decreases n - i,
    {
        let c = path.get_char(i);
        proof {
            reveal_strlit("-");
        }
        if c == '\\' || c == '/' || c == '.' {
            out.append("-");
        } else {
            out.append(path.substring_char(i, i + 1));
        }
        assert(path@.take(i + 1) =~= path@.take(i as int).push(c));
        assert(out@ =~= transcript_segment(path@.take(i + 1)));
        i = i + 1;
    }
    assert(path@.take(n as int) =~= path@);
    out
}

/// The date part of a time stamp: its first ten bytes, when it has that many
/// and they end on a character boundary.
pub fn parse_timestamp(ts: &str) -> (r: Option<String>)
    ensures
        match r {
            Some(d) => ts.len() >= 10 && encode_utf8(d@) == ts.spec_bytes().take(10),
            None => ts.len() < 10 || !ts.is_char_boundary(10),
        },
{
    if ts.len() >= 10 && ts.is_char_boundary(10) {
        let (head, _) = ts.split_at(10);
        let d = head.to_owned();
        assert(head.spec_bytes() =~= ts.spec_bytes().take(10));
        assert(d@ == head@);
        assert(encode_utf8(d@) == head.spec_bytes());
        Some(d)
    } else {
        None
    }
}

} // verus!
