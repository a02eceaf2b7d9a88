use std::collections::HashMap;

use aigc_history::config::AppConfig;
use aigc_history::db::DbError;
use aigc_history::domain::content::{ContentType, TextContent};
use aigc_history::domain::{Message, MessageRole, Timestamp};
use aigc_history::repositories::{BranchRepository, LineageRepository};
use aigc_history::services::fork_service::{next_batch, plan_fork};
use aigc_history::services::{BranchService, ConversationService, ForkService};
use uuid::Uuid;

fn at(seconds: i64) -> Timestamp {
    Timestamp { seconds, nanoseconds: 0 }
}

fn text(s: &str) -> ContentType {
    ContentType::Text(TextContent { text: s.to_string() })
}

fn ids(messages: &[Message]) -> Vec<u128> {
    messages.iter().map(|m| m.message_id).collect()
}

fn config(batch: usize) -> AppConfig {
    AppConfig { max_lineage_depth: 10, max_batch_size: batch }
}

/// Conversation 1: 10 -> 11 -> 12 and 10 -> 13.
fn tree() -> LineageRepository {
    let service = ConversationService::new(config(2));
    let mut store = LineageRepository::new();
    service.create_conversation_with(&mut store, 1, 10, "T".to_string(), "u".to_string(), at(1)).unwrap();
    for (parent, id) in [(10u128, 11u128), (11, 12), (10, 13)] {
        service
            .append_message_with(
                &mut store,
                1,
                parent,
                MessageRole::Human,
                text("m"),
                HashMap::new(),
                "u".to_string(),
                id,
                at(2),
            )
            .unwrap();
    }
    store
}

fn metadata_of(root: &Message) -> (String, Option<String>, bool, Option<u128>, Option<u128>) {
    match &root.content {
        ContentType::Metadata(m) => (
            m.title.clone(),
            m.description.clone(),
            m.is_public,
            m.fork_from_conversation_id,
            m.fork_from_message_id,
        ),
        _ => panic!("a root holds metadata"),
    }
}

#[test]
fn fork_conversation_copies_every_message_but_the_root() {
    let mut store = tree();
    let source = store.get_all_messages(1).unwrap();
    let service = ForkService::new(config(2));
    let fork = service
        .fork_conversation_with(&mut store, 1, "F".to_string(), "v".to_string(), 2, 20, at(5))
        .unwrap();
    assert_eq!(fork.conversation_id, 2);
    let root = &fork.root_message;
    assert_eq!(root.message_id, 20);
    assert_eq!(root.lineage, vec![20]);
    assert_eq!(root.parent_message_id, None);
    assert_eq!(root.role, MessageRole::Root);
    assert_eq!(root.created_by, "v");
    assert_eq!(root.created_at, at(5));
    let description = format!("Forked from conversation {}", Uuid::from_u128(1));
    assert_eq!(
        metadata_of(root),
        ("F".to_string(), Some(description), false, Some(1), None)
    );

    let forked = store.get_all_messages(2).unwrap();
    assert_eq!(forked.len(), source.len());
    assert_eq!(forked[0], *root);
    for original in source.iter().filter(|m| !m.is_root()) {
        let copy = store.get_message(2, original.message_id).unwrap();
        assert_eq!(copy.conversation_id, 2);
        assert_eq!(copy.parent_message_id, original.parent_message_id);
        assert_eq!(copy.role, original.role);
        assert_eq!(copy.content, original.content);
        assert_eq!(copy.lineage, original.lineage);
        assert_eq!(copy.created_at, original.created_at);
        assert_eq!(copy.created_by, original.created_by);
    }
    // the source is untouched
    assert_eq!(store.get_all_messages(1).unwrap(), source);
    assert_eq!(store.len(), 8);
}

#[test]
fn fork_conversation_under_random_ids() {
    let mut store = tree();
    let service = ForkService::new(config(100));
    let fork = service.fork_conversation(&mut store, 1, "F".to_string(), "v".to_string()).unwrap();
    assert_ne!(fork.conversation_id, 1);
    assert_eq!(ids(&store.get_all_messages(fork.conversation_id).unwrap()), vec![
        fork.root_message.message_id,
        11,
        12,
        13
    ]);
    assert_eq!(metadata_of(&fork.root_message).3, Some(1));
}

#[test]
fn fork_branch_copies_the_path_and_no_sibling() {
    let mut store = tree();
    let mut branches = BranchRepository::new();
    BranchService::new()
        .create_branch_with(&mut branches, &store, 1, "a".to_string(), 12, "u".to_string(), 50, at(3))
        .unwrap();
    let service = ForkService::new(config(2));
    let fork = service
        .fork_branch_with(&mut store, &branches, 1, 50, "F".to_string(), "v".to_string(), 2, 20, at(5))
        .unwrap();
    assert_eq!(ids(&store.get_all_messages(2).unwrap()), vec![20, 11, 12]);
    assert_eq!(store.get_message(2, 13), Err(DbError::NotFound));
    assert_eq!(store.get_message(2, 10), Err(DbError::NotFound));
    assert_eq!(metadata_of(&fork.root_message).3, Some(1));
    assert_eq!(metadata_of(&fork.root_message).4, Some(12));
    assert_eq!(store.get_message(2, 12).unwrap().lineage, vec![10, 11, 12]);

    let missing = service.fork_branch_with(
        &mut store,
        &branches,
        1,
        51,
        "F".to_string(),
        "v".to_string(),
        3,
        30,
        at(5),
    );
    assert_eq!(missing.unwrap_err(), DbError::NotFound);
    assert_eq!(store.len(), 7);
    let random = service.fork_branch(&mut store, &branches, 1, 50, "R".to_string(), "v".to_string()).unwrap();
    assert_eq!(store.get_all_messages(random.conversation_id).unwrap().len(), 3);
}

#[test]
fn fork_from_message_anchors_the_new_root() {
    let mut store = tree();
    let service = ForkService::new(config(1));
    let fork = service
        .fork_from_message_with(&mut store, 1, 13, "F".to_string(), "v".to_string(), 2, 20, at(5))
        .unwrap();
    assert_eq!(ids(&store.get_all_messages(2).unwrap()), vec![20, 13]);
    assert_eq!(metadata_of(&fork.root_message).4, Some(13));
    let of_root = service
        .fork_from_message_with(&mut store, 1, 10, "G".to_string(), "v".to_string(), 3, 30, at(6))
        .unwrap();
    assert_eq!(ids(&store.get_all_messages(3).unwrap()), vec![30]);
    assert_eq!(metadata_of(&of_root.root_message).4, Some(10));
    let missing =
        service.fork_from_message_with(&mut store, 1, 99, "F".to_string(), "v".to_string(), 4, 40, at(5));
    assert_eq!(missing.unwrap_err(), DbError::NotFound);
    let random = service.fork_from_message(&mut store, 1, 12, "R".to_string(), "v".to_string()).unwrap();
    assert_eq!(store.get_all_messages(random.conversation_id).unwrap().len(), 3);
    assert_eq!(
        service.fork_from_message(&mut store, 1, 99, "R".to_string(), "v".to_string()).unwrap_err(),
        DbError::NotFound
    );
}

#[test]
fn a_refused_batch_ends_the_fork_and_keeps_what_was_written() {
    let mut store = tree();
    // conversation 2 holds a message under the id 12 already
    let conversations = ConversationService::new(config(2));
    conversations
        .create_conversation_with(&mut store, 2, 12, "taken".to_string(), "u".to_string(), at(1))
        .unwrap();
    let service = ForkService::new(config(2));
    // batches: [20, 11], [12, 13]; the second meets the stored message
    let result = service.fork_conversation_with(&mut store, 1, "F".to_string(), "v".to_string(), 2, 20, at(5));
    assert_eq!(result.unwrap_err(), DbError::Conflict);
    assert_eq!(ids(&store.get_all_messages(2).unwrap()), vec![12, 20, 11]);
    assert_eq!(store.len(), 7);
    // with one batch nothing is written
    let mut store = tree();
    conversations
        .create_conversation_with(&mut store, 2, 12, "taken".to_string(), "u".to_string(), at(1))
        .unwrap();
    let whole = ForkService::new(config(100));
    let result = whole.fork_conversation_with(&mut store, 1, "F".to_string(), "v".to_string(), 2, 20, at(5));
    assert_eq!(result.unwrap_err(), DbError::Conflict);
    assert_eq!(store.len(), 5);
}

#[test]
fn fork_messages_of_a_given_path() {
    let mut store = tree();
    let path = store.get_messages_by_ids(1, &[10, 11]).unwrap();
    let service = ForkService::new(config(3));
    let fork = service
        .fork_messages_with(&mut store, 1, path, "F".to_string(), "v".to_string(), 2, 20, at(5))
        .unwrap();
    assert_eq!(metadata_of(&fork.root_message).4, Some(11));
    assert_eq!(ids(&store.get_all_messages(2).unwrap()), vec![20, 11]);
    let empty = service
        .fork_messages_with(&mut store, 1, Vec::new(), "E".to_string(), "v".to_string(), 3, 30, at(5))
        .unwrap();
    assert_eq!(metadata_of(&empty.root_message).4, None);
    let path = store.get_messages_by_ids(1, &[10, 13]).unwrap();
    let random = service.fork_messages(&mut store, 1, path, "R".to_string(), "v".to_string()).unwrap();
    assert_eq!(metadata_of(&random.root_message).4, Some(13));
    assert_eq!(store.get_all_messages(random.conversation_id).unwrap().len(), 2);
}

#[test]
fn plan_fork_and_batches() {
    let store = tree();
    let source = store.get_all_messages(1).unwrap();
    let plan = plan_fork(1, source, Some(7), "F".to_string(), "v".to_string(), 2, 20, at(5));
    assert_eq!(ids(&plan), vec![20, 11, 12, 13]);
    assert!(plan.iter().all(|m| m.conversation_id == 2));
    assert_eq!(metadata_of(&plan[0]).4, Some(7));
    let mut remaining = plan;
    assert_eq!(ids(&next_batch(&mut remaining, 3)), vec![20, 11, 12]);
    assert_eq!(ids(&remaining), vec![13]);
    assert_eq!(ids(&next_batch(&mut remaining, 3)), vec![13]);
    assert_eq!(remaining.len(), 0);
    assert_eq!(next_batch(&mut remaining, 3).len(), 0);
}

#[test]
fn batch_insert_with_limit_writes_everything_in_order() {
    let store = tree();
    let source = store.get_all_messages(1).unwrap();
    let plan = plan_fork(1, source, None, "F".to_string(), "v".to_string(), 2, 20, at(5));
    for batch in [1usize, 2, 3, 4, 5] {
        let mut target = LineageRepository::new();
        let service = ForkService::new(config(batch));
        assert_eq!(service.batch_insert_with_limit(&mut target, plan.clone()), Ok(()));
        assert_eq!(target.get_all_messages(2).unwrap(), plan);
    }
}
