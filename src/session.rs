//! What a live session record offers, and the events sessions produce.

use vstd::prelude::*;

verus! {

/// What a live session record can do. The record owns the PTY master, the
/// child process, the writer handle and one end of the shutdown flag.
///
/// The spec functions describe a session as a value: what it was handed and
/// how each call came out. An implementation outside verified code keeps the
/// default bodies, which verified code never sees; for it, the `ensures` of
/// each method is what it promises.
pub trait TerminalSession {
    /// Each input handed to `write_input`, in order, with whether the write
    /// and flush succeeded.
    closed spec fn writes(&self) -> Seq<(Seq<char>, bool)> {
        Seq::empty()
    }

    /// Each size handed to `resize`, in order, with whether it succeeded.
    closed spec fn resizes(&self) -> Seq<(u16, u16, bool)> {
        Seq::empty()
    }

    /// Whether the shutdown flag is set (and the child was asked to die).
    closed spec fn is_shut_down(&self) -> bool {
        false
    }

    /// Writes `data` to the session's input and flushes it.
    fn write_input(&mut self, data: &str) -> (r: Result<(), String>)
        ensures
            final(self).writes() == old(self).writes().push((data@, r is Ok)),
            final(self).resizes() == old(self).resizes(),
            final(self).is_shut_down() == old(self).is_shut_down(),
    ;

    /// Changes the terminal size of the session's PTY.
    fn resize(&mut self, rows: u16, cols: u16) -> (r: Result<(), String>)
        ensures
            final(self).resizes() == old(self).resizes().push((rows, cols, r is Ok)),
            final(self).writes() == old(self).writes(),
            final(self).is_shut_down() == old(self).is_shut_down(),
    ;

    /// Sets the shutdown flag that the output pump watches, then kills the
    /// child process, best effort.
    fn shut_down(&mut self)
        ensures
            final(self).is_shut_down(),
            final(self).writes() == old(self).writes(),
            final(self).resizes() == old(self).resizes(),
    ;

    /// The process id of the child, if the platform reports one.
    fn process_id(&self) -> Option<u32>;
}

/// An event for the host. Interactive sessions produce `Output` and `Closed`;
/// hidden (background) sessions produce `HiddenOutput` and `HiddenClosed`.
pub enum PtyEvent {
    Output { session_id: String, data: String },
    Closed { session_id: String },
    HiddenOutput { session_id: String, data: String },
    HiddenClosed { session_id: String, error: bool },
}

/// The channel name under which the host receives an event.
pub open spec fn event_name_of(e: PtyEvent) -> Seq<char> {
    match e {
        PtyEvent::Output { .. } => "terminal-output"@,
        PtyEvent::Closed { .. } => "terminal-closed"@,
        PtyEvent::HiddenOutput { .. } => "hidden-terminal-output"@,
        PtyEvent::HiddenClosed { .. } => "hidden-terminal-closed"@,
    }
}

impl PtyEvent {
    /// Whether this is the closed event of the interactive session `id`.
    pub open spec fn is_closed_for(&self, id: Seq<char>) -> bool {
        self matches PtyEvent::Closed { session_id } && session_id@ == id
    }

    /// Whether this is an output event of the interactive session `id`.
    pub open spec fn is_output_for(&self, id: Seq<char>) -> bool {
        self matches PtyEvent::Output { session_id, .. } && session_id@ == id
    }

    /// The channel name of the event.
    pub fn name(&self) -> (r: &'static str)
        ensures
            r@ == event_name_of(*self),
    {
        match self {
            PtyEvent::Output { .. } => "terminal-output",
            PtyEvent::Closed { .. } => "terminal-closed",
            PtyEvent::HiddenOutput { .. } => "hidden-terminal-output",
            PtyEvent::HiddenClosed { .. } => "hidden-terminal-closed",
        }
    }

    /// The session the event belongs to.
    pub fn session_id(&self) -> (r: &String)
        ensures
            r == match *self {
                PtyEvent::Output { session_id, .. } => session_id,
                PtyEvent::Closed { session_id } => session_id,
                PtyEvent::HiddenOutput { session_id, .. } => session_id,
                PtyEvent::HiddenClosed { session_id, .. } => session_id,
            },
    {
        match self {
            PtyEvent::Output { session_id, .. } => session_id,
            PtyEvent::Closed { session_id } => session_id,
            PtyEvent::HiddenOutput { session_id, .. } => session_id,
            PtyEvent::HiddenClosed { session_id, .. } => session_id,
        }
    }
}

} // verus!
