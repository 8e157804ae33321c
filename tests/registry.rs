use lirah_pty::registry::{close_terminal, resize_terminal, write_to_terminal, SessionRegistry};
use lirah_pty::session::{PtyEvent, TerminalSession};

struct FakeSession {
    written: Vec<String>,
    size: (u16, u16),
    shut: bool,
}

impl FakeSession {
    fn new() -> Self {
        FakeSession { written: Vec::new(), size: (24, 80), shut: false }
    }
}

impl TerminalSession for FakeSession {
    fn write_input(&mut self, data: &str) -> Result<(), String> {
        self.written.push(data.to_string());
        Ok(())
    }

    fn resize(&mut self, rows: u16, cols: u16) -> Result<(), String> {
        self.size = (rows, cols);
        Ok(())
    }

    fn shut_down(&mut self) {
        self.shut = true;
    }

    fn process_id(&self) -> Option<u32> {
        Some(42)
    }
}

fn spawn_one(reg: &mut SessionRegistry<FakeSession>) -> String {
    let id = reg.issue_id().expect("fresh id");
    assert!(reg.insert(id.clone(), FakeSession::new()).is_ok());
    id
}

#[test]
fn new_registry_is_empty() {
    let reg: SessionRegistry<FakeSession> = SessionRegistry::new();
    assert!(reg.is_empty());
    assert!(!reg.contains("abc"));
    assert!(!reg.was_issued("abc"));
}

#[test]
fn issued_ids_are_fresh_uuids() {
    let mut reg: SessionRegistry<FakeSession> = SessionRegistry::new();
    let mut seen: Vec<String> = Vec::new();
    for _ in 0..200 {
        let id = reg.issue_id().expect("fresh id");
        assert_eq!(id.len(), 36);
        assert_eq!(id.chars().filter(|c| *c == '-').count(), 4);
        assert!(!seen.contains(&id));
        assert!(reg.was_issued(&id));
        seen.push(id);
    }
    assert!(reg.is_empty());
}

#[test]
fn insert_needs_an_issued_id() {
    let mut reg: SessionRegistry<FakeSession> = SessionRegistry::new();
    assert!(reg.insert("made-up".to_string(), FakeSession::new()).is_err());
    assert!(reg.is_empty());
    let id = spawn_one(&mut reg);
    assert!(reg.contains(&id));
    assert!(reg.insert(id.clone(), FakeSession::new()).is_err());
}

#[test]
fn write_and_resize_reach_the_session() {
    let mut reg: SessionRegistry<FakeSession> = SessionRegistry::new();
    let id = spawn_one(&mut reg);
    let other = spawn_one(&mut reg);
    assert!(write_to_terminal(&mut reg, &id, "echo hi\n").is_ok());
    assert!(write_to_terminal(&mut reg, &id, "ls\n").is_ok());
    assert!(resize_terminal(&mut reg, &id, 40, 120).is_ok());
    let s = reg.get(&id).unwrap();
    assert_eq!(s.written, vec!["echo hi\n".to_string(), "ls\n".to_string()]);
    assert_eq!(s.size, (40, 120));
    let o = reg.get(&other).unwrap();
    assert!(o.written.is_empty());
    assert_eq!(o.size, (24, 80));
}

#[test]
fn unknown_session_gives_not_found() {
    let mut reg: SessionRegistry<FakeSession> = SessionRegistry::new();
    let id = spawn_one(&mut reg);
    let err = write_to_terminal(&mut reg, "nope", "x").unwrap_err();
    assert_eq!(err, "Session not found: nope");
    let err = resize_terminal(&mut reg, "nope", 10, 10).unwrap_err();
    assert_eq!(err, "Session not found: nope");
    assert!(reg.contains(&id));
    assert!(reg.get(&id).unwrap().written.is_empty());
    assert!(!reg.contains("nope"));
}

#[test]
fn close_twice_is_a_no_op() {
    let mut reg: SessionRegistry<FakeSession> = SessionRegistry::new();
    let id = spawn_one(&mut reg);
    let first = close_terminal(&mut reg, &id);
    match first {
        Some((PtyEvent::Closed { session_id }, rec)) => {
            assert_eq!(session_id, id);
            assert!(rec.shut);
        }
        _ => panic!("expected a closed event"),
    }
    assert!(close_terminal(&mut reg, &id).is_none());
    assert!(reg.is_empty());
    assert!(reg.was_issued(&id));
}

#[test]
fn close_shuts_the_session_down() {
    let mut reg: SessionRegistry<FakeSession> = SessionRegistry::new();
    let id = spawn_one(&mut reg);
    let rec = reg.remove(&id).unwrap();
    assert!(!rec.shut);
    assert!(reg.remove(&id).is_none());
}

#[test]
fn fifty_sessions_closed_give_fifty_events() {
    let mut reg: SessionRegistry<FakeSession> = SessionRegistry::new();
    let ids: Vec<String> = (0..50).map(|_| spawn_one(&mut reg)).collect();
    let mut closed = 0;
    for id in ids.iter().rev() {
        if let Some((e, _)) = close_terminal(&mut reg, id) {
            assert_eq!(e.name(), "terminal-closed");
            assert_eq!(e.session_id(), id);
            closed += 1;
        }
    }
    assert_eq!(closed, 50);
    assert!(reg.is_empty());
}

#[test]
fn event_names() {
    let s = "s".to_string();
    assert_eq!(PtyEvent::Output { session_id: s.clone(), data: "d".to_string() }.name(), "terminal-output");
    assert_eq!(PtyEvent::Closed { session_id: s.clone() }.name(), "terminal-closed");
    assert_eq!(
        PtyEvent::HiddenOutput { session_id: s.clone(), data: "d".to_string() }.name(),
        "hidden-terminal-output"
    );
    assert_eq!(PtyEvent::HiddenClosed { session_id: s, error: true }.name(), "hidden-terminal-closed");
}
