use tellar::context::{extract_author_blocks, parse_task_document, update_history_with_steering,
    is_conversational_log};
use tellar::messages::{Message, MessageRole, MultimodalPart};

fn user_message(text: &str) -> Message {
    Message { role: MessageRole::User, parts: vec![MultimodalPart::text(text.to_string())] }
}

#[test]
fn context_test_steering_detection() {
    let content = "**Author**: User1 | **Time**: 12:00\n\nHello\n";
    let mut messages = vec![user_message("Hello")];

    update_history_with_steering(&mut messages, content);
    assert_eq!(messages.len(), 1);

    let new_content =
        "**Author**: User1 | **Time**: 12:00\n\nHello\n\n---\n**Author**: User1 | **Time**: 12:01\n\nSTOP!\n";
    update_history_with_steering(&mut messages, new_content);

    assert_eq!(messages.len(), 2);
    assert_eq!(messages[1].role, MessageRole::User);
    assert_eq!(messages[1].parts[0].text.as_ref().unwrap(), "STOP!");
}

#[test]
fn steward_test_steering_detection() {
    let content = "**Author**: User1 | **Time**: 12:00\n\nHello\n";
    let mut messages = vec![user_message("Hello")];

    update_history_with_steering(&mut messages, content);
    assert_eq!(messages.len(), 1);

    let new_content =
        "**Author**: User1 | **Time**: 12:00\n\nHello\n\n---\n**Author**: User1 | **Time**: 12:01\n\nSTOP!\n";
    update_history_with_steering(&mut messages, new_content);

    assert_eq!(messages.len(), 2);
    assert_eq!(messages[1].role, MessageRole::User);
    assert_eq!(messages[1].parts[0].text.as_ref().unwrap(), "STOP!");
}

#[test]
fn test_steering_ignores_engine_authored_blocks() {
    // The engine's own recorded answers never steer the session.
    let content = "**Author**: User1 | **Time**: 12:00\n\nHello\n\n---\n**Author**: Tellar (ID: 9) | **Time**: 12:02\n\nMy answer\n";
    let mut messages = vec![user_message("Hello")];
    update_history_with_steering(&mut messages, content);
    assert_eq!(messages.len(), 1);
}

#[test]
fn test_extract_author_blocks_in_order() {
    let content = "**Author**: A | **Time**: 1\n\nfirst\n\n---\n**Author**: B | **Time**: 2\n\nsecond\n";
    let blocks = extract_author_blocks(content);
    assert_eq!(blocks.len(), 2);
    assert_eq!(blocks[0].0, "A");
    assert_eq!(blocks[0].1, "first");
    assert_eq!(blocks[1].0, "B");
    assert_eq!(blocks[1].1, "second");
}

#[test]
fn test_parse_task_document_reads_header_and_body() {
    let content = "---\nstatus: open\nschedule: \"0 * * * *\"\norigin_channel: 123456\n---\n- [ ] Ship";
    let (header, body) = parse_task_document(content).unwrap();
    assert_eq!(header.status, "open");
    assert_eq!(header.schedule.as_deref(), Some("0 * * * *"));
    assert_eq!(header.injection_template, None);
    assert_eq!(header.origin_channel.as_deref(), Some("123456"));
    assert_eq!(body, "- [ ] Ship");
}

#[test]
fn test_parse_task_document_rejects_headerless_files() {
    assert!(parse_task_document("just notes, no header").is_none());
    // A header without a status field is no task document.
    assert!(parse_task_document("---\nschedule: x\n---\nbody").is_none());
    // An unterminated header block is no task document.
    assert!(parse_task_document("---\nstatus: open\nbody").is_none());
}

#[test]
fn test_is_conversational_log_matches_date_named_files() {
    assert!(is_conversational_log("2026-02-27.md"));
    assert!(!is_conversational_log("2026-02-27.txt"));
    assert!(!is_conversational_log("deploy.md"));
    assert!(!is_conversational_log("20260-2-27.md"));
    // The pattern is the exact date shape: dashes in the right places are
    // not enough, the other characters must be digits.
    assert!(!is_conversational_log("abcd-ef-gh.md"));
    assert!(!is_conversational_log("2026-0x-27.md"));
}
