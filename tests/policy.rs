use lirah_pty::policy::{
    get_shell, hidden_command, keep_present, plain_command, sandbox_command, start_dir,
    writable_candidates, Platform,
};
use lirah_pty::remediation::{remediation_command, remediation_needed, RemediationLatch};

fn strings(v: &[&str]) -> Vec<String> {
    v.iter().map(|s| s.to_string()).collect()
}

#[test]
fn shell_choice() {
    assert_eq!(get_shell(Platform::Linux, Some("/bin/fish")), "/bin/fish");
    assert_eq!(get_shell(Platform::Linux, None), "/bin/bash");
    assert_eq!(get_shell(Platform::OtherUnix, None), "/bin/bash");
    assert_eq!(get_shell(Platform::Windows, Some("/bin/fish")), "powershell.exe");
}

#[test]
fn start_directory() {
    assert_eq!(start_dir(Platform::Linux, Some("/home/u")), "/home/u");
    assert_eq!(start_dir(Platform::Linux, None), "/");
    assert_eq!(start_dir(Platform::Windows, None), "C:\\");
}

#[test]
fn plain_shell_is_a_login_shell() {
    let c = plain_command(Platform::Linux, "/bin/bash", None);
    assert_eq!(c.program, "/bin/bash");
    assert_eq!(c.args, strings(&["-l"]));
    assert_eq!(c.env, vec![("TERM".to_string(), "xterm-256color".to_string())]);
    assert_eq!(c.cwd, Some("/".to_string()));
}

#[test]
fn candidates_and_presence() {
    let c = writable_candidates("/home/u", &strings(&[".cache", ".local/share"]));
    assert_eq!(c, strings(&["/home/u/.cache", "/home/u/.local/share"]));
    let kept = keep_present(&c, &vec![false, true]);
    assert_eq!(kept, strings(&["/home/u/.local/share"]));
    assert!(keep_present(&Vec::new(), &Vec::new()).is_empty());
}

#[test]
fn sandbox_without_home() {
    let c = sandbox_command("/bin/bash", None, &Vec::new(), None, false);
    assert_eq!(c.program, "/usr/bin/bwrap");
    assert_eq!(
        c.args,
        strings(&[
            "--ro-bind", "/", "/", "--dev-bind", "/dev", "/dev", "--proc", "/proc", "--bind", "/tmp",
            "/tmp", "--unshare-uts", "--die-with-parent", "--", "/bin/bash", "-l",
        ])
    );
    assert_eq!(c.cwd, Some("/".to_string()));
}

#[test]
fn sandbox_without_network() {
    let c = sandbox_command("/bin/bash", Some("/h"), &strings(&["/h/.npm"]), Some("/p"), true);
    assert_eq!(
        c.args,
        strings(&[
            "--ro-bind", "/", "/", "--dev-bind", "/dev", "/dev", "--proc", "/proc", "--bind", "/tmp",
            "/tmp", "--ro-bind", "/h", "/h", "--bind", "/h/.npm", "/h/.npm", "--bind", "/p", "/p",
            "--unshare-uts", "--unshare-net", "--die-with-parent", "--", "/bin/bash", "-l",
        ])
    );
    assert_eq!(c.cwd, Some("/h".to_string()));
}

#[test]
fn hidden_command_shape() {
    let c = hidden_command(None, "git status", "/repo");
    assert_eq!(c.program, "/bin/bash");
    assert_eq!(c.args, strings(&["-c", "git status"]));
    assert_eq!(c.cwd, Some("/repo".to_string()));
    assert_eq!(c.env.len(), 1);
}

#[test]
fn restriction_flag() {
    assert!(remediation_needed(Some("1"), false));
    assert!(!remediation_needed(Some("11"), false));
    assert!(!remediation_needed(Some(""), false));
    assert!(remediation_needed(Some(" 1\n"), false));
    assert!(!remediation_needed(Some("1\n"), true));
    assert!(!remediation_needed(Some("0\n"), false));
    assert!(!remediation_needed(None, false));
}

#[test]
fn remediation_script() {
    let c = remediation_command("/etc/x", "abc");
    assert_eq!(c.program, "pkexec");
    assert_eq!(
        c.args,
        strings(&["bash", "-c", "echo 'abc' > /etc/x && apparmor_parser -r /etc/x"])
    );
    assert!(c.env.is_empty());
    assert_eq!(c.cwd, None);
}

#[test]
fn latch_fires_once() {
    let mut l = RemediationLatch::new();
    assert!(l.try_fire());
    assert!(!l.try_fire());
    assert!(!l.try_fire());
}

#[test]
fn sandbox_from_probe_results() {
    let subdirs = strings(&[".cache", ".npm", ".cargo"]);
    let c = lirah_pty::policy::sandbox_command_for(
        "/bin/bash",
        Some("/h"),
        &subdirs,
        &vec![true, false, true],
        Some("/p"),
        false,
        false,
    );
    assert_eq!(
        c.args,
        strings(&[
            "--ro-bind", "/", "/", "--dev-bind", "/dev", "/dev", "--proc", "/proc", "--bind", "/tmp",
            "/tmp", "--ro-bind", "/h", "/h", "--bind", "/h/.cache", "/h/.cache", "--bind",
            "/h/.cargo", "/h/.cargo", "--unshare-uts", "--die-with-parent", "--", "/bin/bash", "-l",
        ])
    );
}
