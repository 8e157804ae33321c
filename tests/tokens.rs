use lirah_pty::tokens::{parse_timestamp, transcript_dir_name, SessionInfo, TokenUsage};

#[test]
fn timestamp_date_part() {
    assert_eq!(parse_timestamp("2024-05-01T10:00:00Z"), Some("2024-05-01".to_string()));
    assert_eq!(parse_timestamp("2024-05-01"), Some("2024-05-01".to_string()));
    assert_eq!(parse_timestamp("2024-05"), None);
    assert_eq!(parse_timestamp("2024-05-0é1"), None);
}

#[test]
fn transcript_directory() {
    assert_eq!(transcript_dir_name("/home/u/my.app"), "-home-u-my-app");
    assert_eq!(transcript_dir_name("C:\\work"), "C:-work");
}

#[test]
fn usage_from_latest_session() {
    let s = SessionInfo {
        session_id: "s".to_string(),
        session_file: "/x/s.jsonl".to_string(),
        model: Some("m".to_string()),
        input_tokens: 1,
        output_tokens: 2,
        cache_read_input_tokens: 3,
        cache_creation_input_tokens: 4,
        billable_input_tokens: 5,
        billable_output_tokens: 2,
        message_count: 7,
        timestamp: "t".to_string(),
    };
    let u = TokenUsage::from_session(s);
    assert_eq!(u.input_tokens, 1);
    assert_eq!(u.cache_creation_input_tokens, 4);
    assert_eq!(u.billable_input_tokens, 5);
    assert_eq!(u.model, Some("m".to_string()));
    assert_eq!(u.session_file, Some("/x/s.jsonl".to_string()));
    let e = TokenUsage::empty();
    assert_eq!(e.input_tokens, 0);
    assert!(e.model.is_none());
}
