use lirah_pty::claude::{
    active_session, encode_project_path, format_unix_ms_as_iso, paginate_sessions,
    session_from_transcript, ClaudeSessionEntry, ClaudeSessionsPage, TranscriptLine,
};

fn entry(id: &str) -> ClaudeSessionEntry {
    ClaudeSessionEntry {
        session_id: id.to_string(),
        full_path: String::new(),
        first_prompt: String::new(),
        summary: String::new(),
        message_count: 0,
        created: String::new(),
        modified: String::new(),
        git_branch: None,
        project_path: String::new(),
        is_sidechain: false,
    }
}

#[test]
fn project_path_encoding() {
    assert_eq!(
        encode_project_path("/home/enrique/projects/nevo-terminal"),
        "-home-enrique-projects-nevo-terminal"
    );
    assert_eq!(encode_project_path("/a b/c"), "-a-b-c");
    assert_eq!(encode_project_path(""), "");
}

#[test]
fn iso_timestamps() {
    assert_eq!(format_unix_ms_as_iso(0), "1970-01-01T00:00:00.000Z");
    assert_eq!(format_unix_ms_as_iso(1700000000123), "2023-11-14T22:13:20.123Z");
    assert_eq!(format_unix_ms_as_iso(951782400000), "2000-02-29T00:00:00.000Z");
    assert_eq!(format_unix_ms_as_iso(1709251199999), "2024-02-29T23:59:59.999Z");
    assert_eq!(format_unix_ms_as_iso(1735689600000), "2025-01-01T00:00:00.000Z");
}

#[test]
fn pages() {
    let all: Vec<ClaudeSessionEntry> = (0..5).map(|i| entry(&format!("s{}", i))).collect();
    let page = paginate_sessions(all, 1, 2);
    assert_eq!(page.total, 5);
    assert!(page.has_more);
    let ids: Vec<&str> = page.sessions.iter().map(|s| s.session_id.as_str()).collect();
    assert_eq!(ids, vec!["s1", "s2"]);

    let all: Vec<ClaudeSessionEntry> = (0..5).map(|i| entry(&format!("s{}", i))).collect();
    let page = paginate_sessions(all, 3, 20);
    assert_eq!(page.sessions.len(), 2);
    assert!(!page.has_more);

    let all: Vec<ClaudeSessionEntry> = (0..5).map(|i| entry(&format!("s{}", i))).collect();
    let page = paginate_sessions(all, 9, 2);
    assert!(page.sessions.is_empty());
    assert_eq!(page.total, 5);
    assert!(!page.has_more);
}

fn line(kind: &str, text: Option<&str>, blocks: Option<Vec<Option<&str>>>) -> TranscriptLine {
    TranscriptLine {
        kind: Some(kind.to_string()),
        has_message: true,
        role: None,
        text: text.map(|s| s.to_string()),
        blocks: blocks.map(|b| b.into_iter().map(|t| t.map(|s| s.to_string())).collect()),
        timestamp: Some("t1".to_string()),
        summary: None,
    }
}

#[test]
fn transcript_messages() {
    let mut with_role = line("user", Some("hi"), None);
    with_role.role = Some("human".to_string());
    let mut no_message = line("user", Some("lost"), None);
    no_message.has_message = false;
    let lines = vec![
        with_role,
        line("assistant", None, Some(vec![Some("a"), None, Some("b")])),
        line("assistant", None, Some(vec![None])),
        line("summary", Some("s"), None),
        no_message,
        line("assistant", Some("plain"), None),
        line("user", None, None),
    ];
    let s = session_from_transcript("sid".to_string(), "/p".to_string(), &lines);
    assert_eq!(s.session_id, "sid");
    assert!(s.summary.is_none());
    let got: Vec<(&str, &str)> = s.messages.iter().map(|m| (m.role.as_str(), m.content.as_str())).collect();
    assert_eq!(
        got,
        vec![("human", "hi"), ("assistant", "a\n\nb"), ("assistant", "plain"), ("user", "")]
    );
    assert_eq!(s.messages[0].timestamp, Some("t1".to_string()));
}

#[test]
fn active_session_skips_side_chains() {
    let mut a = entry("a");
    a.is_sidechain = true;
    let b = entry("b");
    let page = ClaudeSessionsPage { sessions: vec![a, b], total: 2, has_more: false };
    assert_eq!(active_session(page).unwrap().session_id, "b");
    let mut c = entry("c");
    c.is_sidechain = true;
    let page = ClaudeSessionsPage { sessions: vec![c], total: 1, has_more: false };
    assert!(active_session(page).is_none());
}
