use std::collections::HashMap;

use aigc_history::config::AppConfig;
use aigc_history::db::{DbError, InvalidData};
use aigc_history::domain::content::{ContentType, TextContent};
use aigc_history::domain::{Message, MessageRole, Timestamp};
use aigc_history::repositories::LineageRepository;
use aigc_history::services::ConversationService;
use aigc_history::utils::lineage_utils::DepthExceeded;

fn setup_test_service() -> ConversationService {
    let app_config = AppConfig { max_lineage_depth: 1000, max_batch_size: 100 };
    ConversationService::new(app_config)
}

fn text(s: &str) -> ContentType {
    ContentType::Text(TextContent { text: s.to_string() })
}

fn ids(messages: &[Message]) -> Vec<u128> {
    messages.iter().map(|m| m.message_id).collect()
}

#[test]
fn test_create_conversation() {
    let service = setup_test_service();
    let mut store = LineageRepository::new();

    let result = service.create_conversation(
        &mut store,
        "Test Conversation".to_string(),
        "user_test".to_string(),
    );

    assert!(result.is_ok());
    let conversation = result.unwrap();
    assert_eq!(conversation.title().unwrap(), "Test Conversation");
}

#[test]
fn test_append_message() {
    let service = setup_test_service();
    let mut store = LineageRepository::new();

    let conversation = service
        .create_conversation(&mut store, "Test Conversation".to_string(), "user_test".to_string())
        .unwrap();

    let content = text("Hello, world!");

    let result = service.append_message(
        &mut store,
        conversation.conversation_id,
        conversation.root_message.message_id,
        MessageRole::Human,
        content,
        HashMap::new(),
        "user_test".to_string(),
    );

    assert!(result.is_ok());
    let message = result.unwrap();
    assert_eq!(message.lineage.len(), 2); // Root + new message
}

#[test]
fn test_get_lineage_path() {
    let service = setup_test_service();
    let mut store = LineageRepository::new();

    let conversation = service
        .create_conversation(&mut store, "Test Conversation".to_string(), "user_test".to_string())
        .unwrap();

    let message1 = service
        .append_message(
            &mut store,
            conversation.conversation_id,
            conversation.root_message.message_id,
            MessageRole::Human,
            text("Message 1"),
            HashMap::new(),
            "user_test".to_string(),
        )
        .unwrap();

    let message2 = service
        .append_message(
            &mut store,
            conversation.conversation_id,
            message1.message_id,
            MessageRole::Assistant,
            text("Message 2"),
            HashMap::new(),
            "assistant".to_string(),
        )
        .unwrap();

    let lineage = service
        .get_lineage_path(&store, conversation.conversation_id, message2.message_id)
        .unwrap();

    assert_eq!(lineage.len(), 3); // Root + message1 + message2
}

#[test]
fn create_append_read_and_delete() {
    let service = setup_test_service();
    let mut store = LineageRepository::new();
    let conversation =
        service.create_conversation(&mut store, "T".to_string(), "u".to_string()).unwrap();
    let c = conversation.conversation_id;
    let root = conversation.root_message.message_id;
    assert_eq!(conversation.root_message.depth(), 1);

    let msg1 = service
        .append_message(&mut store, c, root, MessageRole::Human, text("1"), HashMap::new(), "u".to_string())
        .unwrap();
    assert_eq!(msg1.depth(), 2);
    assert_eq!(msg1.lineage, vec![root, msg1.message_id]);
    assert_eq!(msg1.parent_message_id, Some(root));

    let msg2 = service
        .append_message(
            &mut store,
            c,
            msg1.message_id,
            MessageRole::Assistant,
            text("2"),
            HashMap::new(),
            "a".to_string(),
        )
        .unwrap();
    assert_eq!(msg2.depth(), 3);
    assert_eq!(*msg2.lineage.last().unwrap(), msg2.message_id);

    let path = service.get_lineage_path(&store, c, msg2.message_id).unwrap();
    assert_eq!(ids(&path), vec![root, msg1.message_id, msg2.message_id]);
    assert_eq!(ids(&path), msg2.lineage);
    assert_eq!(path[2], msg2);

    assert_eq!(service.delete_conversation(&mut store, c), Ok(()));
    assert_eq!(service.get_message(&store, c, root), Err(DbError::NotFound));
    assert_eq!(service.get_message(&store, c, msg1.message_id), Err(DbError::NotFound));
    assert_eq!(service.get_message(&store, c, msg2.message_id), Err(DbError::NotFound));
    assert_eq!(service.get_lineage_path(&store, c, msg2.message_id), Err(DbError::NotFound));
    assert_eq!(service.get_conversation(&store, c).unwrap_err(), DbError::NotFound);
    assert_eq!(store.len(), 0);
}

#[test]
fn two_appends_under_one_parent_make_two_branches() {
    let service = setup_test_service();
    let mut store = LineageRepository::new();
    let conversation =
        service.create_conversation(&mut store, "T".to_string(), "u".to_string()).unwrap();
    let c = conversation.conversation_id;
    let root = conversation.root_message.message_id;
    let a = service
        .append_message(&mut store, c, root, MessageRole::Human, text("a"), HashMap::new(), "u".to_string())
        .unwrap();
    let b = service
        .append_message(&mut store, c, root, MessageRole::Human, text("b"), HashMap::new(), "u".to_string())
        .unwrap();
    assert_ne!(a.message_id, b.message_id);
    assert_eq!(a.lineage.len(), 2);
    assert_eq!(b.lineage.len(), 2);
    let children = service.get_children(&store, c, root).unwrap();
    assert_eq!(ids(&children), vec![a.message_id, b.message_id]);
    assert_eq!(service.get_children(&store, c, a.message_id).unwrap().len(), 0);
    assert_eq!(service.get_conversation_tree(&store, c).unwrap().len(), 3);
}

#[test]
fn append_at_the_depth_limit_and_over_it() {
    let service = ConversationService::new(AppConfig { max_lineage_depth: 3, max_batch_size: 100 });
    let mut store = LineageRepository::new();
    let at = Timestamp { seconds: 1, nanoseconds: 0 };
    service
        .create_conversation_with(&mut store, 1, 10, "T".to_string(), "u".to_string(), at)
        .unwrap();
    let second = service
        .append_message_with(&mut store, 1, 10, MessageRole::Human, text("2"), HashMap::new(), "u".to_string(), 11, at)
        .unwrap();
    assert_eq!(second.depth(), 2);
    let third = service
        .append_message_with(&mut store, 1, 11, MessageRole::Human, text("3"), HashMap::new(), "u".to_string(), 12, at)
        .unwrap();
    assert_eq!(third.depth(), 3);
    let fourth = service.append_message_with(
        &mut store,
        1,
        12,
        MessageRole::Human,
        text("4"),
        HashMap::new(),
        "u".to_string(),
        13,
        at,
    );
    assert_eq!(
        fourth,
        Err(DbError::InvalidData(InvalidData::DepthExceeded(DepthExceeded {
            depth: 4,
            max_depth: 3
        })))
    );
    assert_eq!(store.len(), 3);
    let unchecked = service.append_message(
        &mut store,
        1,
        12,
        MessageRole::Human,
        text("4"),
        HashMap::new(),
        "u".to_string(),
    );
    assert!(matches!(unchecked, Err(DbError::InvalidData(InvalidData::DepthExceeded(_)))));
}

#[test]
fn append_under_a_missing_parent_or_a_taken_id() {
    let service = setup_test_service();
    let mut store = LineageRepository::new();
    let at = Timestamp { seconds: 1, nanoseconds: 0 };
    service
        .create_conversation_with(&mut store, 1, 10, "T".to_string(), "u".to_string(), at)
        .unwrap();
    let missing = service.append_message_with(
        &mut store,
        1,
        99,
        MessageRole::Human,
        text("x"),
        HashMap::new(),
        "u".to_string(),
        11,
        at,
    );
    assert_eq!(missing, Err(DbError::NotFound));
    let other_conversation = service.append_message(
        &mut store,
        2,
        10,
        MessageRole::Human,
        text("x"),
        HashMap::new(),
        "u".to_string(),
    );
    assert_eq!(other_conversation, Err(DbError::NotFound));
    let taken = service.append_message_with(
        &mut store,
        1,
        10,
        MessageRole::Human,
        text("x"),
        HashMap::new(),
        "u".to_string(),
        10,
        at,
    );
    assert_eq!(taken, Err(DbError::Conflict));
    assert_eq!(
        service
            .create_conversation_with(&mut store, 1, 10, "again".to_string(), "u".to_string(), at)
            .unwrap_err(),
        DbError::Conflict
    );
    assert_eq!(store.len(), 1);
}

#[test]
fn update_conversation_rewrites_the_root_in_place() {
    let service = setup_test_service();
    let mut store = LineageRepository::new();
    let conversation =
        service.create_conversation(&mut store, "old".to_string(), "u".to_string()).unwrap();
    let c = conversation.conversation_id;
    service
        .append_message(
            &mut store,
            c,
            conversation.root_message.message_id,
            MessageRole::Human,
            text("1"),
            HashMap::new(),
            "u".to_string(),
        )
        .unwrap();
    assert_eq!(
        service.update_conversation(&mut store, c, Some("new".to_string()), None),
        Ok(())
    );
    let read = service.get_conversation(&store, c).unwrap();
    assert_eq!(read.title(), Some("new".to_string()));
    assert_eq!(read.root_message.message_id, conversation.root_message.message_id);
    assert_eq!(store.len(), 2);
    service
        .update_conversation(&mut store, c, None, Some("about".to_string()))
        .unwrap();
    let read = service.get_conversation(&store, c).unwrap();
    assert_eq!(read.title(), Some("new".to_string()));
    match &read.root_message.content {
        ContentType::Metadata(m) => assert_eq!(m.description, Some("about".to_string())),
        _ => panic!("the root holds metadata"),
    }
    assert_eq!(
        service.update_conversation(&mut store, 77, Some("x".to_string()), None),
        Err(DbError::NotFound)
    );
}
