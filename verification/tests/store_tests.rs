use std::collections::HashMap;

use aigc_history::db::DbError;
use aigc_history::domain::content::{ContentType, TextContent};
use aigc_history::domain::{Message, MessageRole, Timestamp};
use aigc_history::repositories::lineage_repo::sort_by_depth;
use aigc_history::repositories::LineageRepository;

fn at() -> Timestamp {
    Timestamp { seconds: 100, nanoseconds: 0 }
}

fn message(conversation: u128, id: u128, lineage: Vec<u128>, text: &str) -> Message {
    let parent = if lineage.len() >= 2 { Some(lineage[lineage.len() - 2]) } else { None };
    Message {
        conversation_id: conversation,
        message_id: id,
        parent_message_id: parent,
        role: if lineage.len() == 1 { MessageRole::Root } else { MessageRole::Human },
        content: ContentType::Text(TextContent { text: text.to_string() }),
        content_metadata: HashMap::new(),
        lineage,
        created_at: at(),
        created_by: "u".to_string(),
    }
}

fn ids(messages: &[Message]) -> Vec<u128> {
    messages.iter().map(|m| m.message_id).collect()
}

fn small_tree() -> LineageRepository {
    // 1 -> 2 -> 4, 1 -> 3, and another conversation with the same ids
    let mut store = LineageRepository::new();
    store.insert_message(message(1, 4, vec![1, 2, 4], "d")).unwrap();
    store.insert_message(message(1, 1, vec![1], "a")).unwrap();
    store.insert_message(message(2, 1, vec![1], "other")).unwrap();
    store.insert_message(message(1, 3, vec![1, 3], "c")).unwrap();
    store.insert_message(message(1, 2, vec![1, 2], "b")).unwrap();
    store
}

#[test]
fn insert_refuses_a_taken_key() {
    let mut store = small_tree();
    assert_eq!(store.len(), 5);
    assert_eq!(store.insert_message(message(1, 2, vec![1, 2], "again")), Err(DbError::Conflict));
    assert_eq!(store.len(), 5);
    let kept = store.get_message(1, 2).unwrap();
    assert_eq!(kept, message(1, 2, vec![1, 2], "b"));
    // the same id in another conversation is another key
    assert_eq!(store.insert_message(message(2, 2, vec![1, 2], "fine")), Ok(()));
    assert_eq!(store.len(), 6);
}

#[test]
fn get_message_by_key() {
    let store = small_tree();
    assert_eq!(store.get_message(2, 1).unwrap(), message(2, 1, vec![1], "other"));
    assert_eq!(store.get_message(1, 9), Err(DbError::NotFound));
    assert_eq!(store.get_message(3, 1), Err(DbError::NotFound));
    assert_eq!(LineageRepository::new().get_message(1, 1), Err(DbError::NotFound));
}

#[test]
fn children_are_the_messages_with_that_parent() {
    let store = small_tree();
    assert_eq!(ids(&store.get_children(1, 1).unwrap()), vec![3, 2]);
    assert_eq!(ids(&store.get_children(1, 2).unwrap()), vec![4]);
    assert_eq!(ids(&store.get_children(1, 4).unwrap()), Vec::<u128>::new());
    assert_eq!(ids(&store.get_children(2, 1).unwrap()), Vec::<u128>::new());
}

#[test]
fn multi_get_is_sorted_root_first_whatever_the_stored_order() {
    let store = small_tree();
    assert_eq!(ids(&store.get_messages_by_ids(1, &[4, 2, 1]).unwrap()), vec![1, 2, 4]);
    assert_eq!(ids(&store.get_messages_by_ids(1, &[1, 2, 4]).unwrap()), vec![1, 2, 4]);
    // equal depths keep the stored order; unknown ids are passed over
    assert_eq!(ids(&store.get_messages_by_ids(1, &[2, 3, 77]).unwrap()), vec![3, 2]);
    assert_eq!(ids(&store.get_messages_by_ids(1, &[]).unwrap()), Vec::<u128>::new());
    assert_eq!(ids(&store.get_messages_by_ids(2, &[1, 2]).unwrap()), vec![1]);
}

#[test]
fn sort_by_depth_is_stable() {
    let input = vec![
        message(1, 10, vec![1, 2, 10], "x"),
        message(1, 11, vec![1, 11], "y"),
        message(1, 12, vec![1, 2, 12], "z"),
        message(1, 1, vec![1], "r"),
        message(1, 13, vec![1, 13], "w"),
    ];
    assert_eq!(ids(&sort_by_depth(input)), vec![1, 11, 13, 10, 12]);
    assert_eq!(ids(&sort_by_depth(Vec::new())), Vec::<u128>::new());
}

#[test]
fn all_messages_of_one_conversation() {
    let store = small_tree();
    assert_eq!(ids(&store.get_all_messages(1).unwrap()), vec![4, 1, 3, 2]);
    assert_eq!(ids(&store.get_all_messages(2).unwrap()), vec![1]);
    assert_eq!(ids(&store.get_all_messages(3).unwrap()), Vec::<u128>::new());
}

#[test]
fn delete_removes_one_conversation_only() {
    let mut store = small_tree();
    assert_eq!(store.delete_conversation(1), Ok(()));
    assert_eq!(store.len(), 1);
    assert_eq!(store.get_message(1, 1), Err(DbError::NotFound));
    assert_eq!(store.get_message(2, 1).unwrap().message_id, 1);
    assert_eq!(store.delete_conversation(1), Ok(()));
    assert_eq!(store.len(), 1);
}

#[test]
fn upsert_writes_over_or_adds() {
    let mut store = small_tree();
    assert_eq!(store.upsert_message(message(1, 1, vec![1], "rewritten")), Ok(()));
    assert_eq!(store.len(), 5);
    assert_eq!(store.get_message(1, 1).unwrap(), message(1, 1, vec![1], "rewritten"));
    assert_eq!(ids(&store.get_all_messages(1).unwrap()), vec![4, 1, 3, 2]);
    assert_eq!(store.upsert_message(message(1, 5, vec![1, 5], "new")), Ok(()));
    assert_eq!(store.len(), 6);
}

#[test]
fn a_batch_is_stored_whole_or_not_at_all() {
    let mut store = small_tree();
    let good = vec![message(3, 1, vec![1], "a"), message(3, 2, vec![1, 2], "b")];
    assert_eq!(store.batch_insert_messages(good), Ok(()));
    assert_eq!(store.len(), 7);
    let meets_store = vec![message(4, 1, vec![1], "a"), message(1, 4, vec![1, 2, 4], "dup")];
    assert_eq!(store.batch_insert_messages(meets_store), Err(DbError::Conflict));
    assert_eq!(store.len(), 7);
    assert_eq!(store.get_message(4, 1), Err(DbError::NotFound));
    let meets_itself = vec![message(5, 1, vec![1], "a"), message(5, 1, vec![1], "b")];
    assert_eq!(store.batch_insert_messages(meets_itself), Err(DbError::Conflict));
    assert_eq!(store.len(), 7);
    assert_eq!(store.batch_insert_messages(Vec::new()), Ok(()));
    assert_eq!(store.len(), 7);
}
