use lirah_pty::git_stats::{numstat_entries_of, GitStats};

#[test]
fn numstat_lines() {
    let out = "3\t1\tsrc/main.rs\n-\t-\tassets/logo.png\n10\t0\tdocs/a b.md\nbad line\n1\t2\t3\t4\n";
    let entries = numstat_entries_of(out);
    let got: Vec<(usize, usize, &str)> =
        entries.iter().map(|e| (e.added, e.deleted, e.path.as_str())).collect();
    assert_eq!(
        got,
        vec![(3, 1, "src/main.rs"), (0, 0, "assets/logo.png"), (10, 0, "docs/a b.md")]
    );
    assert!(numstat_entries_of("").is_empty());
}

#[test]
fn stats_constructors() {
    let s = GitStats::of_changed_file(3, 1, true);
    assert_eq!((s.added, s.deleted), (3, 1));
    assert!(s.status.is_none());
    let d = GitStats::of_changed_file(0, 7, false);
    assert_eq!(d.status, Some("deleted".to_string()));
    let u = GitStats::untracked(12);
    assert_eq!((u.added, u.deleted), (12, 0));
    assert_eq!(u.status, Some("untracked".to_string()));
}
