use lirah_pty::instance::{
    get_all_cli_instances, holds_other_instance, is_current, join, project_name_from, project_name_of,
    InstanceState, InstanceStatus,
    InstanceSyncStore, InstanceUpdate,
};

fn found(id: &str, path: &str) -> InstanceState {
    let mut s = InstanceState::new(id.to_string(), path.to_string(), 5);
    s.source = "cli".to_string();
    s
}

#[test]
fn new_state_names_the_project() {
    let s = InstanceState::new("i1".to_string(), "/home/u/projects/app".to_string(), 1234);
    assert_eq!(s.instance_id, "i1");
    assert_eq!(s.project_name, "app");
    assert_eq!(s.source, "lirah");
    assert_eq!(s.last_updated, 1234);
    assert_eq!(s.status, InstanceStatus::Active);
    assert!(s.current_focus.is_empty());
    assert!(s.active_files.is_empty());
    assert!(s.claude_session_id.is_none());
}

#[test]
fn project_names() {
    assert_eq!(project_name_of("/"), "Unknown");
    assert_eq!(project_name_of("/a/b/"), "b");
    assert_eq!(project_name_of("/a/.."), "Unknown");
    assert_eq!(project_name_from(None), "Unknown");
    assert_eq!(project_name_from(Some("x".to_string())), "x");
}

#[test]
fn update_applies_given_fields() {
    let mut s = InstanceState::new("i1".to_string(), "/p/one".to_string(), 1);
    s.apply_update(
        InstanceUpdate {
            project_path: Some("/p/two".to_string()),
            current_focus: Some("main.rs".to_string()),
            active_files: None,
            claude_session_id: Some(Some("c1".to_string())),
            opencode_session_id: Some(Some("o1".to_string())),
            status: Some(InstanceStatus::Busy),
        },
        99,
    );
    assert_eq!(s.project_path, "/p/two");
    assert_eq!(s.project_name, "two");
    assert_eq!(s.current_focus, "main.rs");
    assert!(s.active_files.is_empty());
    assert_eq!(s.claude_session_id, Some("c1".to_string()));
    assert_eq!(s.opencode_session_id, None);
    assert_eq!(s.status, InstanceStatus::Busy);
    assert_eq!(s.last_updated, 99);
}

#[test]
fn duplicates_by_project_are_dropped() {
    let claude = vec![found("c1", "/p/a"), found("c2", "/p/b"), found("c3", "/p/a")];
    let opencode = vec![found("o1", "/p/b"), found("o2", "/p/c")];
    let all = get_all_cli_instances(claude, opencode);
    let ids: Vec<&str> = all.iter().map(|s| s.instance_id.as_str()).collect();
    assert_eq!(ids, vec!["c1", "c2", "o2"]);
    assert!(get_all_cli_instances(Vec::new(), Vec::new()).is_empty());
}

#[test]
fn store_paths() {
    let s = InstanceSyncStore::with_identity("abc".to_string(), Some("/home/u".to_string()));
    assert_eq!(s.get_instance_id(), "abc");
    assert_eq!(s.get_all_instances_path(), "/home/u/.lirah/instances");
    assert_eq!(s.get_state_path(), "/home/u/.lirah/instances/abc.json");
    let t = InstanceSyncStore::with_identity("x".to_string(), None);
    assert_eq!(t.get_all_instances_path(), "/tmp/.lirah/instances");
}

#[test]
fn store_has_random_identity() {
    let a = InstanceSyncStore::new();
    let b = InstanceSyncStore::new();
    assert_eq!(a.get_instance_id().len(), 36);
    assert_ne!(a.get_instance_id(), b.get_instance_id());
    assert!(a.get_state_path().ends_with(&format!("{}.json", a.get_instance_id())));
}

#[test]
fn join_paths() {
    assert_eq!(join("/a", "b"), "/a/b");
    assert_eq!(join("/a/", "b"), "/a/b");
    assert_eq!(join("", "b"), "b");
}

#[test]
fn current_instances() {
    assert!(is_current(10_000, 10_000 - 3599));
    assert!(!is_current(10_000, 10_000 - 3600));
    assert!(is_current(10, 20));
}

#[test]
fn other_instance_files() {
    assert!(holds_other_instance(Some("json"), Some("other"), "me"));
    assert!(!holds_other_instance(Some("json"), Some("me"), "me"));
    assert!(!holds_other_instance(Some("txt"), Some("other"), "me"));
    assert!(!holds_other_instance(None, Some("other"), "me"));
    assert!(holds_other_instance(Some("json"), None, "me"));
}
