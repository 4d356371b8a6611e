use midtown::error::Error;
use midtown::message::{Message, MessageType};

#[test]
fn test_message_creation() {
    let msg = Message::text("agent1", "Hello, world!");
    assert_eq!(msg.from, "agent1");
    assert_eq!(msg.content, "Hello, world!");
    assert_eq!(msg.message_type, MessageType::Text);
    assert!(!msg.id.is_empty());
}

#[test]
fn test_system_message() {
    let msg = Message::system("System initialized");
    assert_eq!(msg.from, "daemon");
    assert_eq!(msg.message_type, MessageType::System);
}

#[test]
fn test_action_message() {
    let msg = Message::action("lexington", "investigating the auth bug");
    assert_eq!(msg.from, "lexington");
    assert_eq!(msg.content, "investigating the auth bug");
    assert_eq!(msg.message_type, MessageType::Action);
}

#[test]
fn test_insight_message() {
    let msg = Message::insight("architect", "```mermaid\ngraph TD\nA-->B");
    assert_eq!(msg.from, "architect");
    assert_eq!(msg.message_type, MessageType::Insight);
    assert!(msg.content.contains("mermaid"));
}

#[test]
fn test_channel_defaults_to_midtown() {
    let msg = Message::text("agent1", "Hello");
    assert_eq!(msg.channel_name(), "midtown");
    assert_eq!(msg.source_channel, None);
}

#[test]
fn test_for_channel() {
    let msg = Message::for_channel("pr-discussion", "agent1", "Let's review", MessageType::Text);
    assert_eq!(msg.channel_name(), "pr-discussion");
    assert_eq!(msg.from, "agent1");
}

#[test]
fn test_for_channel_sets_channel_explicitly() {
    let msg = Message::for_channel("my-project", "agent1", "test", MessageType::Text);
    assert_eq!(msg.channel, Some("my-project".to_string()));
    assert_eq!(msg.channel_name(), "my-project");
}

#[test]
fn test_backward_compatibility_struct_literal() {
    let msg = Message {
        id: "test".to_string(),
        timestamp: "2026-01-01T00:00:00Z".to_string(),
        from: "agent1".to_string(),
        content: "Test".to_string(),
        message_type: MessageType::Text,
        channel: None,
        source_channel: None,
        session_id: None,
        thread_parent_id: None,
    };
    assert_eq!(msg.channel_name(), "midtown");
}

#[test]
fn messages_are_stamped_and_told_apart() {
    let a = Message::status("w", "Compiling...");
    let b = Message::error("w", "Failed");
    assert_ne!(a.id, b.id);
    assert!(uuid::Uuid::parse_str(&a.id).is_ok());
    assert!(chrono::DateTime::parse_from_rfc3339(&a.timestamp).is_ok());
    assert_eq!(a.message_type, MessageType::Status);
    assert_eq!(b.message_type, MessageType::Error);
    assert_eq!(Message::command("w", "x").message_type, MessageType::Command);
    assert_eq!(MessageType::default(), MessageType::Text);
}

#[test]
fn replies_name_the_message_they_reply_to() {
    let reply = Message::thread_reply("ch", "bob", "Reply", "parent-123", MessageType::Text);
    assert_eq!(reply.thread_parent_id.as_deref(), Some("parent-123"));
    assert_eq!(reply.channel_name(), "ch");
    assert_eq!(Message::text("bob", "x").thread_parent_id, None);
}

#[test]
fn errors_say_what_went_wrong() {
    let e = Error::Rpc { code: -32601, message: "Method not found".to_string() };
    assert_eq!(e.to_text(), "RPC error: Method not found (code: -32601)");
    let e = Error::ChannelNotFound("web".to_string());
    assert_eq!(e.to_text(), "Channel not found: web");
    let e = Error::InvalidMessage("no id".to_string());
    assert_eq!(e.to_text(), "Invalid message format: no id");
    assert_eq!(Error::Io("gone".to_string()).to_text(), "I/O error: gone");
    assert_eq!(Error::Json("bad".to_string()).to_text(), "JSON error: bad");
}

#[test]
fn messages_have_identifiers_and_times_of_their_own() {
    let messages = [
        Message::new("a", "b", MessageType::Text),
        Message::for_channel("ops", "a", "b", MessageType::Text),
        Message::thread_reply("ops", "a", "b", "parent", MessageType::Text),
        Message::text("a", "b"),
        Message::system("b"),
        Message::command("a", "b"),
        Message::status("a", "b"),
        Message::error("a", "b"),
        Message::action("a", "b"),
        Message::insight("a", "b"),
    ];
    for (i, message) in messages.iter().enumerate() {
        assert_eq!(uuid::Uuid::parse_str(&message.id).unwrap().to_string(), message.id);
        assert_eq!(&message.id[14..15], "4");
        assert!("89ab".contains(&message.id[19..20]));
        assert!(chrono::DateTime::parse_from_rfc3339(&message.timestamp).is_ok());
        assert!(message.timestamp.len() >= 25 && message.timestamp.ends_with("+00:00"));
        assert!(messages[..i].iter().all(|other| other.id != message.id));
    }
}
