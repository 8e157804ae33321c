use lirah_pty::pump::{pump_step, ReadOutcome};
use lirah_pty::registry::SessionRegistry;
use lirah_pty::session::PtyEvent;
use lirah_pty::spawn::SessionKind;

#[test]
fn output_is_decoded_and_emitted() {
    let step = pump_step(SessionKind::Interactive, "s1", false, ReadOutcome::Data(b"hello".to_vec()));
    assert!(!step.stop && !step.deregister && !step.report_error);
    assert_eq!(step.events.len(), 1);
    match &step.events[0] {
        PtyEvent::Output { session_id, data } => {
            assert_eq!(session_id, "s1");
            assert_eq!(data, "hello");
        }
        _ => panic!("expected output"),
    }
}

#[test]
fn malformed_utf8_is_replaced() {
    let step = pump_step(SessionKind::Interactive, "s1", false, ReadOutcome::Data(vec![b'a', 0xE2, 0x82]));
    match &step.events[0] {
        PtyEvent::Output { data, .. } => assert_eq!(data, "a\u{FFFD}"),
        _ => panic!("expected output"),
    }
}

#[test]
fn output_after_close_is_dropped() {
    let step = pump_step(SessionKind::Interactive, "s1", true, ReadOutcome::Data(b"late".to_vec()));
    assert!(step.events.is_empty());
    assert!(step.stop);
}

#[test]
fn eof_gives_notice_and_closed() {
    let step = pump_step(SessionKind::Interactive, "s1", false, ReadOutcome::Eof);
    assert!(step.stop && !step.deregister);
    assert_eq!(step.events.len(), 2);
    match &step.events[0] {
        PtyEvent::Output { data, .. } => assert_eq!(data, "\r\n[Process exited]\r\n"),
        _ => panic!("expected notice"),
    }
    match &step.events[1] {
        PtyEvent::Closed { session_id } => assert_eq!(session_id, "s1"),
        _ => panic!("expected closed"),
    }
}

#[test]
fn eof_after_close_is_silent() {
    let step = pump_step(SessionKind::Interactive, "s1", true, ReadOutcome::Eof);
    assert!(step.events.is_empty() && step.stop);
}

#[test]
fn read_error_is_reported_unless_closing() {
    let step = pump_step(SessionKind::Interactive, "s1", false, ReadOutcome::Failed);
    assert!(step.report_error && step.stop && step.events.is_empty());
    let step = pump_step(SessionKind::Interactive, "s1", true, ReadOutcome::Failed);
    assert!(!step.report_error && step.stop);
}

#[test]
fn hidden_exit_deregisters() {
    let step = pump_step(SessionKind::Hidden, "h1", false, ReadOutcome::Eof);
    assert!(step.deregister && step.stop);
    assert_eq!(step.events.len(), 1);
    match &step.events[0] {
        PtyEvent::HiddenClosed { session_id, error } => {
            assert_eq!(session_id, "h1");
            assert!(!error);
        }
        _ => panic!("expected hidden closed"),
    }
}

#[test]
fn hidden_error_deregisters_with_mark() {
    let step = pump_step(SessionKind::Hidden, "h1", false, ReadOutcome::Failed);
    assert!(step.deregister && step.stop);
    match &step.events[0] {
        PtyEvent::HiddenClosed { error, .. } => assert!(*error),
        _ => panic!("expected hidden closed"),
    }
}

#[test]
fn hidden_output_uses_hidden_channel() {
    let step = pump_step(SessionKind::Hidden, "h1", false, ReadOutcome::Data(b"ok".to_vec()));
    assert_eq!(step.events[0].name(), "hidden-terminal-output");
}

#[test]
fn hidden_session_removes_itself_on_exit() {
    let mut reg: SessionRegistry<u32> = SessionRegistry::new();
    let id = reg.issue_id().unwrap();
    assert!(reg.insert(id.clone(), 7).is_ok());
    let step = pump_step(SessionKind::Hidden, &id, false, ReadOutcome::Eof);
    if step.deregister {
        assert_eq!(reg.remove(&id), Some(7));
    }
    assert!(reg.is_empty());
}
