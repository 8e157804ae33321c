use std::io::{Read, Write};

use lirah_pty::policy::{hidden_command, CommandSpec, Platform};
use lirah_pty::pump::{pump_step, ReadOutcome};
use lirah_pty::remediation::RemediationLatch;
use lirah_pty::spawn::{spawn_pty, HostEnv, PtyHost, SessionKind};
use lirah_pty::registry::{close_terminal, write_to_terminal, SessionRegistry};
use lirah_pty::session::TerminalSession;
use portable_pty::{native_pty_system, Child, CommandBuilder, MasterPty, PtySize};

struct RealSession {
    master: Box<dyn MasterPty + Send>,
    child: Box<dyn Child + Send + Sync>,
    writer: Box<dyn Write + Send>,
}

impl TerminalSession for RealSession {
    fn write_input(&mut self, data: &str) -> Result<(), String> {
        self.writer.write_all(data.as_bytes()).map_err(|e| e.to_string())?;
        self.writer.flush().map_err(|e| e.to_string())
    }

    fn resize(&mut self, rows: u16, cols: u16) -> Result<(), String> {
        self.master
            .resize(PtySize { rows, cols, pixel_width: 0, pixel_height: 0 })
            .map_err(|e| e.to_string())
    }

    fn shut_down(&mut self) {
        let _ = self.child.kill();
    }

    fn process_id(&self) -> Option<u32> {
        self.child.process_id()
    }
}

fn builder(cmd: &CommandSpec) -> CommandBuilder {
    let mut b = CommandBuilder::new(&cmd.program);
    b.args(&cmd.args);
    for (k, v) in &cmd.env {
        b.env(k, v);
    }
    if let Some(dir) = &cmd.cwd {
        b.cwd(dir);
    }
    b
}

struct RealHost;

impl PtyHost<RealSession> for RealHost {
    fn path_exists(&self, path: &str) -> bool {
        std::path::Path::new(path).exists()
    }

    fn is_dir(&self, path: &str) -> bool {
        std::path::Path::new(path).is_dir()
    }

    fn read_text(&self, _path: &str) -> Option<String> {
        None
    }

    fn run_elevated(&mut self, _cmd: &CommandSpec) {}

    fn launch(
        &mut self,
        _session_id: &str,
        _kind: SessionKind,
        cmd: &CommandSpec,
        rows: u16,
        cols: u16,
    ) -> Result<RealSession, String> {
        let pair = native_pty_system()
            .openpty(PtySize { rows, cols, pixel_width: 0, pixel_height: 0 })
            .map_err(|e| e.to_string())?;
        let child = pair.slave.spawn_command(builder(cmd)).map_err(|e| e.to_string())?;
        let writer = pair.master.take_writer().map_err(|e| e.to_string())?;
        Ok(RealSession { master: pair.master, child, writer })
    }
}

#[test]
fn sandbox_request_without_sandbox_program_still_spawns() {
    if native_pty_system()
        .openpty(PtySize { rows: 24, cols: 80, pixel_width: 0, pixel_height: 0 })
        .is_err()
    {
        println!("no pseudo-terminal available here");
        return;
    }
    let env = HostEnv {
        platform: Platform::Linux,
        shell_var: Some("/bin/sh".to_string()),
        home: None,
        writable_home_subdirs: Vec::new(),
        apparmor_profile: String::new(),
    };
    let mut latch = RemediationLatch::new();
    let mut host = RealHost;
    let spawned = spawn_pty(&mut host, &mut latch, &env, "s", 24, 80, true, false, None)
        .expect("a shell starts, sandboxed or not");
    if !std::path::Path::new("/usr/bin/bwrap").exists() {
        assert!(!spawned.sandboxed);
    }
    let mut session = spawned.session;
    session.shut_down();
}

#[test]
fn written_input_comes_back_in_order() {
    let pair = match native_pty_system()
        .openpty(PtySize { rows: 24, cols: 80, pixel_width: 0, pixel_height: 0 })
    {
        Ok(p) => p,
        Err(e) => {
            println!("no pseudo-terminal available here: {}", e);
            return;
        }
    };
    let cmd = hidden_command(Some("/bin/sh"), "cat", "/");
    let child = pair.slave.spawn_command(builder(&cmd)).expect("cat starts");
    let writer = pair.master.take_writer().expect("writer");
    let mut reader = pair.master.try_clone_reader().expect("reader");
    let mut reg = SessionRegistry::new();
    let id = reg.issue_id().unwrap();
    assert!(reg.insert(id.clone(), RealSession { master: pair.master, child, writer }).is_ok());

    assert!(write_to_terminal(&mut reg, &id, "first-line\n").is_ok());
    assert!(write_to_terminal(&mut reg, &id, "second-line\n").is_ok());

    let mut seen = Vec::new();
    let mut buf = [0u8; 1024];
    let text = loop {
        let n = reader.read(&mut buf).expect("read");
        assert!(n > 0, "output ended early");
        seen.extend_from_slice(&buf[..n]);
        let text = String::from_utf8_lossy(&seen).to_string();
        if text.matches("second-line").count() >= 2 {
            break text;
        }
    };
    let first = text.find("first-line").unwrap();
    let second = text.find("second-line").unwrap();
    assert!(first < second);
    assert!(close_terminal(&mut reg, &id).is_some());
    assert!(reg.is_empty());
}

#[test]
fn hidden_command_that_exits_removes_itself() {
    let pair = match native_pty_system()
        .openpty(PtySize { rows: 24, cols: 80, pixel_width: 0, pixel_height: 0 })
    {
        Ok(p) => p,
        Err(e) => {
            println!("no pseudo-terminal available here: {}", e);
            return;
        }
    };
    let cmd = hidden_command(Some("/bin/sh"), "exit 0", "/");
    let child = pair.slave.spawn_command(builder(&cmd)).expect("shell starts");
    drop(pair.slave);
    let writer = pair.master.take_writer().expect("writer");
    let mut reader = pair.master.try_clone_reader().expect("reader");
    let mut reg = SessionRegistry::new();
    let id = reg.issue_id().unwrap();
    assert!(reg.insert(id.clone(), RealSession { master: pair.master, child, writer }).is_ok());
    let mut buf = [0u8; 1024];
    let mut closed = 0;
    loop {
        let outcome = match reader.read(&mut buf) {
            Ok(0) => ReadOutcome::Eof,
            Ok(n) => ReadOutcome::Data(buf[..n].to_vec()),
            Err(_) => ReadOutcome::Failed,
        };
        let step = pump_step(SessionKind::Hidden, &id, false, outcome);
        if step.deregister {
            assert!(reg.remove(&id).is_some());
        }
        closed += step.events.iter().filter(|e| e.name() == "hidden-terminal-closed").count();
        if step.stop {
            break;
        }
    }
    assert_eq!(closed, 1);
    assert!(reg.is_empty());
}
