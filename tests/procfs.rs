use lirah_pty::procfs::{cmdline_has_marker, parent_pid};

#[test]
fn parent_pid_from_status() {
    let status = "Name:\tbash\nState:\tS (sleeping)\nPid:\t4242\nPPid:\t1000\nTracerPid:\t0\n";
    assert_eq!(parent_pid(status), Some(1000));
    assert_eq!(parent_pid("PPid:   7  \r\n"), Some(7));
    assert_eq!(parent_pid("Name: x\n"), None);
    assert_eq!(parent_pid("PPid:\n"), None);
    assert_eq!(parent_pid("PPid:12\n"), None);
    assert_eq!(parent_pid("PPid:\t99999999999\n"), None);
    assert_eq!(parent_pid("PPid:\tx\nPPid:\t5\n"), None);
    assert_eq!(parent_pid(""), None);
}

#[test]
fn command_line_markers() {
    let markers = vec!["tool-cli".to_string(), "@scope/tool".to_string()];
    assert!(cmdline_has_marker("node\0/usr/lib/@scope/tool/cli.js\0", &markers));
    assert!(cmdline_has_marker("tool-cli", &markers));
    assert!(!cmdline_has_marker("node\0server.js\0", &markers));
    assert!(!cmdline_has_marker("anything", &Vec::new()));
    assert!(cmdline_has_marker("a\0b", &vec!["a b".to_string()]));
}
