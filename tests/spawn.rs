use lirah_pty::policy::{CommandSpec, Platform};
use lirah_pty::remediation::RemediationLatch;
use lirah_pty::spawn::{
    advance, first_stage, spawn_hidden_pty, spawn_pty, HostEnv, PtyHost, SessionKind, SpawnStage,
};

struct FakeHost {
    sandbox_works: bool,
    plain_works: bool,
    existing: Vec<String>,
    flag: Option<String>,
    launched: Vec<(SessionKind, String, Vec<String>, u16, u16)>,
    elevated: Vec<Vec<String>>,
}

impl FakeHost {
    fn new(sandbox_works: bool, plain_works: bool) -> Self {
        FakeHost {
            sandbox_works,
            plain_works,
            existing: Vec::new(),
            flag: None,
            launched: Vec::new(),
            elevated: Vec::new(),
        }
    }
}

impl PtyHost<String> for FakeHost {
    fn path_exists(&self, path: &str) -> bool {
        self.existing.iter().any(|p| p == path)
    }

    fn is_dir(&self, path: &str) -> bool {
        self.existing.iter().any(|p| p == path)
    }

    fn read_text(&self, _path: &str) -> Option<String> {
        self.flag.clone()
    }

    fn run_elevated(&mut self, cmd: &CommandSpec) {
        let mut v = vec![cmd.program.clone()];
        v.extend(cmd.args.iter().cloned());
        self.elevated.push(v);
    }

    fn launch(
        &mut self,
        session_id: &str,
        kind: SessionKind,
        cmd: &CommandSpec,
        rows: u16,
        cols: u16,
    ) -> Result<String, String> {
        self.launched.push((kind, cmd.program.clone(), cmd.args.clone(), rows, cols));
        let ok = if cmd.program == "/usr/bin/bwrap" { self.sandbox_works } else { self.plain_works };
        if ok {
            Ok(format!("session {}", session_id))
        } else {
            Err(format!("cannot start {}", cmd.program))
        }
    }
}

fn env(platform: Platform) -> HostEnv {
    HostEnv {
        platform,
        shell_var: Some("/bin/zsh".to_string()),
        home: Some("/home/u".to_string()),
        writable_home_subdirs: vec![".cache".to_string(), ".npm".to_string()],
        apparmor_profile: "profile".to_string(),
    }
}

#[test]
fn sandbox_failure_falls_back_to_plain_shell() {
    let mut host = FakeHost::new(false, true);
    let mut latch = RemediationLatch::new();
    let r = spawn_pty(&mut host, &mut latch, &env(Platform::Linux), "id1", 24, 80, true, false, None)
        .unwrap();
    assert!(!r.sandboxed);
    assert_eq!(r.session, "session id1");
    assert_eq!(host.launched.len(), 2);
    assert_eq!(host.launched[0].1, "/usr/bin/bwrap");
    assert_eq!(host.launched[1].1, "/bin/zsh");
    assert_eq!(host.launched[1].2, vec!["-l".to_string()]);
}

#[test]
fn sandbox_success_is_reported() {
    let mut host = FakeHost::new(true, true);
    let mut latch = RemediationLatch::new();
    let r = spawn_pty(&mut host, &mut latch, &env(Platform::Linux), "id1", 30, 100, true, true, None)
        .unwrap();
    assert!(r.sandboxed);
    assert_eq!(host.launched.len(), 1);
    assert_eq!(host.launched[0].3, 30);
    assert_eq!(host.launched[0].4, 100);
    assert!(host.launched[0].2.contains(&"--unshare-net".to_string()));
}

#[test]
fn spawn_fails_only_when_plain_fails() {
    let mut host = FakeHost::new(false, false);
    let mut latch = RemediationLatch::new();
    let r = spawn_pty(&mut host, &mut latch, &env(Platform::Linux), "id1", 24, 80, true, false, None);
    match r {
        Err(e) => assert_eq!(e, "cannot start /bin/zsh"),
        Ok(_) => panic!("expected failure"),
    }
}

#[test]
fn no_sandbox_off_linux() {
    let mut host = FakeHost::new(true, true);
    let mut latch = RemediationLatch::new();
    let r = spawn_pty(&mut host, &mut latch, &env(Platform::OtherUnix), "id1", 24, 80, true, false, None)
        .unwrap();
    assert!(!r.sandboxed);
    assert_eq!(host.launched.len(), 1);
    assert_eq!(host.launched[0].1, "/bin/zsh");
    assert!(host.elevated.is_empty());
}

#[test]
fn windows_uses_powershell() {
    let mut host = FakeHost::new(true, true);
    let mut latch = RemediationLatch::new();
    let r = spawn_pty(&mut host, &mut latch, &env(Platform::Windows), "id1", 24, 80, false, false, None)
        .unwrap();
    assert!(!r.sandboxed);
    assert_eq!(host.launched[0].1, "powershell.exe");
    assert_eq!(host.launched[0].2[0], "-NoExit");
}

#[test]
fn sandbox_binds_existing_dirs_only() {
    let mut host = FakeHost::new(true, true);
    host.existing = vec!["/home/u/.npm".to_string(), "/work/p".to_string()];
    let mut latch = RemediationLatch::new();
    spawn_pty(&mut host, &mut latch, &env(Platform::Linux), "id1", 24, 80, true, false, Some("/work/p"))
        .unwrap();
    let args = &host.launched[0].2;
    let expected: Vec<String> = [
        "--ro-bind", "/", "/", "--dev-bind", "/dev", "/dev", "--proc", "/proc", "--bind", "/tmp",
        "/tmp", "--ro-bind", "/home/u", "/home/u", "--bind", "/home/u/.npm", "/home/u/.npm",
        "--bind", "/work/p", "/work/p", "--unshare-uts", "--die-with-parent", "--", "/bin/zsh", "-l",
    ]
    .iter()
    .map(|s| s.to_string())
    .collect();
    assert_eq!(args, &expected);
}

#[test]
fn missing_project_dir_is_not_bound() {
    let mut host = FakeHost::new(true, true);
    let mut latch = RemediationLatch::new();
    spawn_pty(&mut host, &mut latch, &env(Platform::Linux), "id1", 24, 80, true, false, Some("/gone"))
        .unwrap();
    assert!(!host.launched[0].2.contains(&"/gone".to_string()));
}

#[test]
fn remediation_runs_once() {
    let mut host = FakeHost::new(false, true);
    host.flag = Some("1\n".to_string());
    let mut latch = RemediationLatch::new();
    let e = env(Platform::Linux);
    spawn_pty(&mut host, &mut latch, &e, "a", 24, 80, true, false, None).unwrap();
    spawn_pty(&mut host, &mut latch, &e, "b", 24, 80, true, false, None).unwrap();
    assert_eq!(host.elevated.len(), 1);
    assert_eq!(host.elevated[0][0], "pkexec");
    assert_eq!(host.elevated[0][1], "bash");
    assert_eq!(host.elevated[0][2], "-c");
    assert_eq!(
        host.elevated[0][3],
        "echo 'profile' > /etc/apparmor.d/bwrap && apparmor_parser -r /etc/apparmor.d/bwrap"
    );
}

#[test]
fn no_remediation_when_unrestricted() {
    let mut host = FakeHost::new(true, true);
    host.flag = Some("0\n".to_string());
    let mut latch = RemediationLatch::new();
    spawn_pty(&mut host, &mut latch, &env(Platform::Linux), "a", 24, 80, true, false, None).unwrap();
    assert!(host.elevated.is_empty());
}

#[test]
fn hidden_command_runs_in_project() {
    let mut host = FakeHost::new(true, true);
    let s = spawn_hidden_pty(&mut host, &env(Platform::Linux), "h", "/work/p", "npm test").unwrap();
    assert_eq!(s, "session h");
    let (kind, program, args, rows, cols) = &host.launched[0];
    assert_eq!(*kind, SessionKind::Hidden);
    assert_eq!(program, "/bin/zsh");
    assert_eq!(args, &vec!["-c".to_string(), "npm test".to_string()]);
    assert_eq!((*rows, *cols), (24, 80));
}

#[test]
fn stage_machine() {
    assert_eq!(first_stage(true, Platform::Linux), SpawnStage::Sandboxed);
    assert_eq!(first_stage(true, Platform::Windows), SpawnStage::Plain);
    assert_eq!(first_stage(false, Platform::Linux), SpawnStage::Plain);
    assert_eq!(advance(SpawnStage::Sandboxed, false), SpawnStage::Plain);
    assert_eq!(advance(SpawnStage::Sandboxed, true), SpawnStage::Done { sandboxed: true });
    assert_eq!(advance(SpawnStage::Plain, true), SpawnStage::Done { sandboxed: false });
    assert_eq!(advance(SpawnStage::Plain, false), SpawnStage::Failed);
}
