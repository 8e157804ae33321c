use lirah_pty::tasks::{extract_json_array, fallback_tasks};

fn files() -> Vec<String> {
    vec!["src/a.rs".to_string(), "src/b.rs".to_string()]
}

#[test]
fn json_array_is_cut_out() {
    assert_eq!(
        extract_json_array("```json\n[{\"title\": \"x\"}]\n```"),
        "[{\"title\": \"x\"}]"
    );
    assert_eq!(extract_json_array("no array here"), "no array here");
    assert_eq!(extract_json_array("] then ["), "] then [");
    assert_eq!(extract_json_array("[a] and [b]"), "[a] and [b]");
}

#[test]
fn list_lines_become_tasks() {
    let reply = "Here are the tasks:\n- Add login form\n* Fix typo\n\n• Refactor the parser module\n```\n";
    let tasks = fallback_tasks(reply, &files()).unwrap();
    let titles: Vec<&str> = tasks.iter().map(|t| t.title.as_str()).collect();
    assert_eq!(
        titles,
        vec!["Here are the tasks:", "Add login form", "Fix typo", "Refactor the parser module"]
    );
    assert_eq!(tasks[0].files, files());
    assert!(tasks[1].files.is_empty());
    assert!(tasks[3].files.is_empty());
}

#[test]
fn first_candidate_gets_files_even_if_dropped() {
    let reply = "- Fix\n- Update the build script\n";
    let tasks = fallback_tasks(reply, &files()).unwrap();
    assert_eq!(tasks.len(), 1);
    assert_eq!(tasks[0].title, "Update the build script");
    assert!(tasks[0].files.is_empty());
}

#[test]
fn at_most_five_tasks() {
    let reply = "Task number one\nTask number two\nTask number three\nTask number four\nTask number five\nTask number six\n";
    let tasks = fallback_tasks(reply, &files()).unwrap();
    assert_eq!(tasks.len(), 5);
    assert_eq!(tasks[4].title, "Task number five");
}

#[test]
fn short_lines_give_one_generic_task() {
    let tasks = fallback_tasks("ok\n{\n}\n", &files()).unwrap();
    assert_eq!(tasks.len(), 1);
    assert_eq!(tasks[0].title, "Changes analyzed");
    assert_eq!(tasks[0].files, files());
}

#[test]
fn empty_reply_gives_nothing() {
    assert!(fallback_tasks("", &files()).is_none());
    assert!(fallback_tasks("  \n```\n", &files()).is_none());
}
