//! The decisions of a session's output pump.

use vstd::prelude::*;
use vstd::string::StringExecFns;

use crate::session::PtyEvent;
use crate::spawn::SessionKind;

verus! {

/// The size of the output pump's read buffer.
pub const READ_BUFFER_SIZE: usize = 8192;

/// What one read from a PTY gave.
pub enum ReadOutcome {
    /// Some bytes of output.
    Data(Vec<u8>),
    /// End of file: the child exited or closed its side.
    Eof,
    /// The read failed.
    Failed,
}

/// What the pump does after one read: the events to emit, in order; whether
/// the session must take itself out of the registry (before the events are
/// emitted); whether the read error should be reported; whether to stop.
pub struct PumpStep {
    pub events: Vec<PtyEvent>,
    pub deregister: bool,
    pub report_error: bool,
    pub stop: bool,
}

/// What `String::from_utf8_lossy` makes of some bytes.
pub uninterp spec fn lossy_utf8(b: Seq<u8>) -> Seq<char>;

/// Relies on `String::from_utf8_lossy`: the bytes decoded as UTF-8, with each
/// malformed sequence replaced by U+FFFD; the result depends on the bytes alone.
#[verifier::external_body]
fn decode_lossy(b: &[u8]) -> (r: String)
    ensures
        r@ == lossy_utf8(b@),
{
    String::from_utf8_lossy(b).into_owned()
}

/// The notice appended to an interactive session's stream when its process exits.
pub open spec fn exit_notice() -> Seq<char> {
    "\r\n[Process exited]\r\n"@
}

/// Whether `e` is the output event of kind `kind` for session `id` carrying `data`.
pub open spec fn is_output(e: PtyEvent, kind: SessionKind, id: Seq<char>, data: Seq<char>) -> bool {
    match kind {
        SessionKind::Interactive => e matches PtyEvent::Output { session_id, data: d } && session_id@
            == id && d@ == data,
        SessionKind::Hidden => e matches PtyEvent::HiddenOutput { session_id, data: d }
            && session_id@ == id && d@ == data,
    }
}

fn output_event(kind: SessionKind, id: &str, data: String) -> (r: PtyEvent)
    ensures
        is_output(r, kind, id@, data@),
{
    match kind {
        SessionKind::Interactive => PtyEvent::Output { session_id: String::from_str(id), data },
        SessionKind::Hidden => PtyEvent::HiddenOutput { session_id: String::from_str(id), data },
    }
}

/// The step after a read that gave the text `text` (already decoded), given
/// the shutdown flag as it stands after the read: output that arrives after a
/// close request is dropped and the pump stops; otherwise the text is emitted
/// and the pump reads on.
pub fn on_output(kind: SessionKind, id: &str, shutdown: bool, text: String) -> (r: PumpStep)
    ensures
        !r.deregister,
        !r.report_error,
        r.stop == shutdown,
        shutdown ==> r.events@.len() == 0,
        !shutdown ==> r.events@.len() == 1 && is_output(r.events@[0], kind, id@, text@),
{
    let mut events: Vec<PtyEvent> = Vec::new();
    if shutdown {
        PumpStep { events, deregister: false, report_error: false, stop: true }
    } else {
        events.push(output_event(kind, id, text));
        PumpStep { events, deregister: false, report_error: false, stop: false }
    }
}

/// The step after end of file. An interactive session not being closed gets
/// the exit notice and a closed event; one being closed gets nothing. A hidden
/// session takes itself out of the registry and gets a closed event without
/// the error mark. The pump stops either way.
pub fn on_eof(kind: SessionKind, id: &str, shutdown: bool) -> (r: PumpStep)
    ensures
        r.stop,
        !r.report_error,
        r.deregister == (kind == SessionKind::Hidden),
        kind == SessionKind::Interactive && shutdown ==> r.events@.len() == 0,
        kind == SessionKind::Interactive && !shutdown ==> {
            &&& r.events@.len() == 2
            &&& is_output(r.events@[0], kind, id@, exit_notice())
            &&& r.events@[1].is_closed_for(id@)
        },
        kind == SessionKind::Hidden ==> r.events@.len() == 1 && (r.events@[0] matches PtyEvent::HiddenClosed { session_id, error } && session_id@ == id@ && !error),
{
    let mut events: Vec<PtyEvent> = Vec::new();
    match kind {
        SessionKind::Interactive => {
            if !shutdown {
                events.push(output_event(kind, id, String::from_str("\r\n[Process exited]\r\n")));
                events.push(PtyEvent::Closed { session_id: String::from_str(id) });
            }
            PumpStep { events, deregister: false, report_error: false, stop: true }
        },
        SessionKind::Hidden => {
            events.push(PtyEvent::HiddenClosed { session_id: String::from_str(id), error: false });
            PumpStep { events, deregister: true, report_error: false, stop: true }
        },
    }
}

/// The step after a failed read. The error is worth reporting only when no
/// close was requested. A hidden session takes itself out of the registry and
/// gets a closed event with the error mark; an interactive one gets no event.
/// The pump stops either way.
pub fn on_read_error(kind: SessionKind, id: &str, shutdown: bool) -> (r: PumpStep)
    ensures
        r.stop,
        r.report_error == !shutdown,
        r.deregister == (kind == SessionKind::Hidden),
        kind == SessionKind::Interactive ==> r.events@.len() == 0,
        kind == SessionKind::Hidden ==> r.events@.len() == 1 && (r.events@[0] matches PtyEvent::HiddenClosed { session_id, error } && session_id@ == id@ && error),
{
    let mut events: Vec<PtyEvent> = Vec::new();
    match kind {
        SessionKind::Interactive => PumpStep {
            events,
            deregister: false,
            report_error: !shutdown,
            stop: true,
        },
        SessionKind::Hidden => {
            events.push(PtyEvent::HiddenClosed { session_id: String::from_str(id), error: true });
            PumpStep { events, deregister: true, report_error: !shutdown, stop: true }
        },
    }
}

/// One step of the output pump of session `id`, after a read that gave
/// `outcome`; `shutdown` is the session's shutdown flag read after the read
/// returned. Bytes are decoded as lossy UTF-8.
pub fn pump_step(kind: SessionKind, id: &str, shutdown: bool, outcome: ReadOutcome) -> (r: PumpStep)
    ensures
        match outcome {
            ReadOutcome::Data(b) => {
                &&& !r.deregister && !r.report_error && r.stop == shutdown
                &&& shutdown ==> r.events@.len() == 0
                &&& !shutdown ==> r.events@.len() == 1 && is_output(r.events@[0], kind, id@, lossy_utf8(b@))
            },
            ReadOutcome::Eof => r.stop && !r.report_error && r.deregister == (kind == SessionKind::Hidden),
            ReadOutcome::Failed => r.stop && r.report_error == !shutdown && r.deregister == (kind == SessionKind::Hidden),
        },
        kind == SessionKind::Interactive && shutdown ==> forall|i: int|
            0 <= i < r.events@.len() ==> !(#[trigger] r.events@[i]).is_output_for(id@),
        kind == SessionKind::Interactive && shutdown ==> r.events@.len() == 0,
        kind == SessionKind::Interactive && !shutdown && outcome is Eof ==> {
            &&& r.events@.len() == 2
            &&& is_output(r.events@[0], kind, id@, exit_notice())
            &&& r.events@[1].is_closed_for(id@)
        },
        kind == SessionKind::Interactive && outcome is Failed ==> r.events@.len() == 0,
        kind == SessionKind::Hidden && outcome is Failed ==> r.events@.len() == 1 && (r.events@[0] matches PtyEvent::HiddenClosed { session_id, error } && session_id@ == id@ && error),
        kind == SessionKind::Hidden && outcome is Eof ==> r.deregister && r.stop && r.events@.len() == 1 && (r.events@[0] matches PtyEvent::HiddenClosed { session_id, error } && session_id@ == id@ && !error),
{
    match outcome {
        ReadOutcome::Data(bytes) => {
            let text = decode_lossy(bytes.as_slice());
            on_output(kind, id, shutdown, text)
        },
        ReadOutcome::Eof => on_eof(kind, id, shutdown),
        ReadOutcome::Failed => on_read_error(kind, id, shutdown),
    }
}

} // verus!
