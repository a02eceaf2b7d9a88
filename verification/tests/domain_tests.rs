use aigc_history::domain::content::{ContentKind, ContentType, TextContent, ToolCallContent};
use aigc_history::domain::{Branch, Conversation, Message, MessageRole, Permission, Timestamp};

#[test]
fn role_names_round_trip() {
    for role in [
        MessageRole::Root,
        MessageRole::Human,
        MessageRole::Assistant,
        MessageRole::System,
        MessageRole::Tool,
    ] {
        assert_eq!(MessageRole::parse(role.as_str()), Some(role));
    }
    assert_eq!(MessageRole::Assistant.as_str(), "assistant");
    assert_eq!(MessageRole::parse("Root"), None);
    assert_eq!(MessageRole::parse(""), None);
}

#[test]
fn permission_names_round_trip() {
    for permission in [Permission::Read, Permission::Branch, Permission::Fork] {
        assert_eq!(Permission::parse(permission.as_str()), Some(permission));
    }
    assert_eq!(Permission::parse("write"), None);
}

#[test]
fn higher_tiers_allow_lower_capabilities() {
    assert!(Permission::Read.can_read());
    assert!(!Permission::Read.can_branch());
    assert!(!Permission::Read.can_fork());
    assert!(Permission::Branch.can_read());
    assert!(Permission::Branch.can_branch());
    assert!(!Permission::Branch.can_fork());
    assert!(Permission::Fork.can_read());
    assert!(Permission::Fork.can_branch());
    assert!(Permission::Fork.can_fork());
    assert!(Permission::Fork.satisfies(Permission::Branch));
    assert!(!Permission::Branch.satisfies(Permission::Fork));
}

#[test]
fn content_tags_round_trip() {
    for kind in [
        ContentKind::Text,
        ContentKind::Image,
        ContentKind::ToolCall,
        ContentKind::ToolResult,
        ContentKind::ImageBatch,
        ContentKind::Metadata,
    ] {
        assert_eq!(ContentKind::parse(kind.as_str()), Some(kind));
    }
    assert_eq!(ContentKind::parse("video"), None);
    let text = ContentType::Text(TextContent { text: "hi".to_string() });
    assert_eq!(text.to_type_string(), "text");
    let call = ContentType::ToolCall(ToolCallContent {
        tool_name: "search".to_string(),
        arguments: serde_json::Value::from(3),
        tool_call_id: "c1".to_string(),
    });
    assert_eq!(call.to_type_string(), "tool_call");
    assert_eq!(call.clone(), call);
}

#[test]
fn new_root_has_depth_one() {
    let at = Timestamp { seconds: 10, nanoseconds: 5 };
    let root = Message::new_root_at(1, 2, "T".to_string(), "u".to_string(), at);
    assert!(root.is_root());
    assert_eq!(root.depth(), 1);
    assert_eq!(root.lineage, vec![2]);
    assert_eq!(root.parent_message_id, None);
    assert_eq!(root.created_at, at);
    assert_eq!(root.clone(), root);
    let now = Message::new_root(1, 2, "T".to_string(), "u".to_string());
    assert!(now.created_at.seconds > 1_600_000_000);
    assert_eq!(now.lineage, vec![2]);
}

#[test]
fn conversation_reads_its_root() {
    let conversation = Conversation::new("Title".to_string(), "someone".to_string());
    assert_eq!(conversation.title(), Some("Title".to_string()));
    assert_eq!(conversation.created_by(), "someone");
    assert_eq!(conversation.created_at(), conversation.root_message.created_at);
    assert_eq!(conversation.root_message.conversation_id, conversation.conversation_id);
    assert_ne!(conversation.conversation_id, conversation.root_message.message_id);
    // version 4, RFC variant
    assert_eq!((conversation.conversation_id >> 76) & 0xf, 4);
    assert_eq!((conversation.conversation_id >> 62) & 0x3, 2);
}

#[test]
fn branch_moves_its_leaf() {
    let at = Timestamp { seconds: 1, nanoseconds: 0 };
    let later = Timestamp { seconds: 2, nanoseconds: 0 };
    let mut branch = Branch::with_id(1, 2, "main".to_string(), 3, "u".to_string(), at);
    assert!(branch.is_active);
    assert_eq!(branch.created_at, branch.last_updated);
    branch.update_leaf_at(4, later);
    assert_eq!(branch.leaf_message_id, 4);
    assert_eq!(branch.last_updated, later);
    assert_eq!(branch.created_at, at);
    let mut other = Branch::new(1, "b".to_string(), 3, "u".to_string());
    other.update_leaf(9);
    assert_eq!(other.leaf_message_id, 9);
}
