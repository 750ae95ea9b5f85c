use notionssh::parser::{
    children_contains_marker, parse_command_from_block, parse_command_text,
};

#[test]
fn parse_command_ok() {
    let block: serde_json::Value = serde_json::from_str(
        r#"{
            "id": "abc",
            "type": "paragraph",
            "created_time": "2025-01-01T00:00:00.000Z",
            "created_by": {"id": "user_123"},
            "paragraph": {"rich_text": [{"plain_text": "!(docker ps)"}]}
        }"#,
    )
    .unwrap();
    let task = parse_command_from_block(&block).expect("should parse");
    assert_eq!(task.block_id, "abc");
    assert_eq!(task.command, "docker ps");
    assert_eq!(task.created_by_id.as_deref(), Some("user_123"));
}

#[test]
fn parse_command_none() {
    let block: serde_json::Value = serde_json::from_str(
        r#"{
            "id": "abc",
            "type": "paragraph",
            "paragraph": {"rich_text": [{"plain_text": "echo hello"}]}
        }"#,
    )
    .unwrap();
    assert!(parse_command_from_block(&block).is_none());
}

#[test]
fn children_marker_detection() {
    let ok: serde_json::Value = serde_json::from_str(
        r#"{
            "type": "code",
            "code": {"rich_text": [{"text": {"content": "... # notionSSH-executed"}}]}
        }"#,
    )
    .unwrap();
    assert!(children_contains_marker(&vec![ok]));

    let miss: serde_json::Value = serde_json::from_str(
        r#"{
            "type": "code",
            "code": {"rich_text": [{"text": {"content": "no marker"}}]}
        }"#,
    )
    .unwrap();
    assert!(!children_contains_marker(&vec![miss]));
}

#[test]
fn command_text_shapes() {
    assert_eq!(parse_command_text("!(ls -la)"), Some("ls -la".to_string()));
    assert_eq!(parse_command_text("  !( ls )  "), Some("ls".to_string()));
    assert_eq!(parse_command_text("!((echo hi))"), Some("(echo hi)".to_string()));
    assert_eq!(parse_command_text("!()"), None);
    assert_eq!(parse_command_text("!(a\nb)"), None);
    assert_eq!(parse_command_text("echo hi"), None);
    assert_eq!(parse_command_text("!(a"), None);
}

#[test]
fn parse_command_todo_block() {
    let block: serde_json::Value = serde_json::from_str(
        r#"{
            "id": "b2",
            "type": "to_do",
            "to_do": {"rich_text": [{"text": {"content": "!(uptime)"}}]}
        }"#,
    )
    .unwrap();
    let task = parse_command_from_block(&block).expect("should parse");
    assert_eq!(task.command, "uptime");
    assert_eq!(task.created_time, "");
    assert!(task.created_by_id.is_none());
}
