use lirah_pty::porcelain::committable_files;

#[test]
fn porcelain_statuses() {
    let out = " M src/main.rs\nA  new.txt\n D gone.rs\nR  old -> new\nRM moved.rs\n?? scratch/\nAM both.rs\nUU conflict.rs\nxy\n";
    let files = committable_files(out);
    let got: Vec<(&str, &str)> = files.iter().map(|f| (f.path.as_str(), f.status.as_str())).collect();
    assert_eq!(
        got,
        vec![
            ("src/main.rs", "modified"),
            ("new.txt", "added"),
            ("gone.rs", "deleted"),
            ("old -> new", "renamed"),
            ("moved.rs", "renamed"),
            ("scratch/", "untracked"),
            ("both.rs", "modified"),
            ("conflict.rs", "modified"),
        ]
    );
    assert!(committable_files("").is_empty());
}
