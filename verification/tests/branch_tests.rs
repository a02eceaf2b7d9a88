use std::collections::HashMap;

use aigc_history::config::AppConfig;
use aigc_history::db::DbError;
use aigc_history::domain::content::{ContentType, TextContent};
use aigc_history::domain::{Branch, Message, MessageRole, Timestamp};
use aigc_history::repositories::{BranchRepository, LineageRepository};
use aigc_history::services::{BranchService, ConversationService};

fn at(seconds: i64) -> Timestamp {
    Timestamp { seconds, nanoseconds: 0 }
}

fn text(s: &str) -> ContentType {
    ContentType::Text(TextContent { text: s.to_string() })
}

fn ids(messages: &[Message]) -> Vec<u128> {
    messages.iter().map(|m| m.message_id).collect()
}

/// Conversation 1: 10 -> 11 -> 12 and 10 -> 13.
fn tree() -> LineageRepository {
    let service = ConversationService::new(AppConfig { max_lineage_depth: 10, max_batch_size: 2 });
    let mut store = LineageRepository::new();
    service.create_conversation_with(&mut store, 1, 10, "T".to_string(), "u".to_string(), at(1)).unwrap();
    for (parent, id) in [(10u128, 11u128), (11, 12), (10, 13)] {
        service
            .append_message_with(
                &mut store,
                1,
                parent,
                MessageRole::Human,
                text("m"),
                HashMap::new(),
                "u".to_string(),
                id,
                at(2),
            )
            .unwrap();
    }
    store
}

#[test]
fn create_branch_needs_a_stored_leaf() {
    let store = tree();
    let mut branches = BranchRepository::new();
    let service = BranchService::new();
    let missing = service.create_branch(&mut branches, &store, 1, "b".to_string(), 99, "u".to_string());
    assert_eq!(missing, Err(DbError::NotFound));
    let wrong_conversation =
        service.create_branch(&mut branches, &store, 2, "b".to_string(), 12, "u".to_string());
    assert_eq!(wrong_conversation, Err(DbError::NotFound));
    assert_eq!(service.get_branches(&branches, 1).unwrap().len(), 0);

    let branch = service
        .create_branch(&mut branches, &store, 1, "main".to_string(), 12, "u".to_string())
        .unwrap();
    assert_eq!(branch.leaf_message_id, 12);
    assert!(branch.is_active);
    assert_eq!(branch.created_at, branch.last_updated);
    assert_eq!(service.get_branch(&branches, 1, branch.branch_id), Ok(branch.clone()));
    assert_eq!(branches.get_branch_by_leaf(12), Ok((1, branch.branch_id)));
}

#[test]
fn create_branch_under_a_taken_id_is_a_conflict() {
    let store = tree();
    let mut branches = BranchRepository::new();
    let service = BranchService::new();
    let first = service
        .create_branch_with(&mut branches, &store, 1, "a".to_string(), 12, "u".to_string(), 50, at(3))
        .unwrap();
    assert_eq!(first, Branch::with_id(1, 50, "a".to_string(), 12, "u".to_string(), at(3)));
    let again =
        service.create_branch_with(&mut branches, &store, 1, "b".to_string(), 13, "u".to_string(), 50, at(4));
    assert_eq!(again, Err(DbError::Conflict));
    assert_eq!(service.get_branches(&branches, 1).unwrap(), vec![first]);
    assert_eq!(branches.get_branch_by_leaf(13), Err(DbError::NotFound));
}

#[test]
fn moving_a_leaf_updates_the_reverse_index() {
    let store = tree();
    let mut branches = BranchRepository::new();
    let service = BranchService::new();
    service
        .create_branch_with(&mut branches, &store, 1, "a".to_string(), 11, "u".to_string(), 50, at(3))
        .unwrap();
    assert_eq!(branches.get_branch_by_leaf(11), Ok((1, 50)));

    assert_eq!(service.update_branch_leaf(&mut branches, &store, 1, 50, 12), Ok(()));
    assert_eq!(branches.get_branch_by_leaf(12), Ok((1, 50)));
    assert_eq!(branches.get_branch_by_leaf(11), Err(DbError::NotFound));
    let moved = service.get_branch(&branches, 1, 50).unwrap();
    assert_eq!(moved.leaf_message_id, 12);
    assert_eq!(moved.created_at, at(3));
    assert_eq!(moved.branch_name, "a");

    assert_eq!(service.update_branch_leaf(&mut branches, &store, 1, 50, 99), Err(DbError::NotFound));
    assert_eq!(service.update_branch_leaf(&mut branches, &store, 1, 51, 12), Err(DbError::NotFound));
    assert_eq!(branches.get_branch_by_leaf(12), Ok((1, 50)));

    // moving a branch onto the leaf it has keeps the entry
    assert_eq!(branches.update_branch_leaf_at(1, 50, 12, 12, at(9)), Ok(()));
    assert_eq!(branches.get_branch_by_leaf(12), Ok((1, 50)));
    assert_eq!(service.get_branch(&branches, 1, 50).unwrap().last_updated, at(9));
}

#[test]
fn a_branch_follows_an_appended_message() {
    let store = tree();
    let mut branches = BranchRepository::new();
    let service = BranchService::new();
    service
        .create_branch_with(&mut branches, &store, 1, "a".to_string(), 12, "u".to_string(), 50, at(3))
        .unwrap();
    // the message is not looked up
    assert_eq!(service.extend_branch_with_message(&mut branches, 1, 50, 777), Ok(()));
    assert_eq!(branches.get_branch_by_leaf(777), Ok((1, 50)));
    assert_eq!(branches.get_branch_by_leaf(12), Err(DbError::NotFound));
    assert_eq!(service.extend_branch_with_message(&mut branches, 1, 51, 778), Err(DbError::NotFound));
}

#[test]
fn branch_messages_are_the_path_to_the_leaf() {
    let store = tree();
    let mut branches = BranchRepository::new();
    let service = BranchService::new();
    service
        .create_branch_with(&mut branches, &store, 1, "a".to_string(), 12, "u".to_string(), 50, at(3))
        .unwrap();
    service
        .create_branch_with(&mut branches, &store, 1, "b".to_string(), 13, "u".to_string(), 51, at(3))
        .unwrap();
    assert_eq!(ids(&service.get_branch_messages(&branches, &store, 1, 50).unwrap()), vec![10, 11, 12]);
    assert_eq!(ids(&service.get_branch_messages(&branches, &store, 1, 51).unwrap()), vec![10, 13]);
    assert_eq!(service.get_branch_messages(&branches, &store, 1, 52), Err(DbError::NotFound));
    assert_eq!(service.get_branches(&branches, 1).unwrap().len(), 2);
    assert_eq!(service.get_branches(&branches, 2).unwrap().len(), 0);
}

#[test]
fn rename_and_delete() {
    let store = tree();
    let mut branches = BranchRepository::new();
    let service = BranchService::new();
    service
        .create_branch_with(&mut branches, &store, 1, "a".to_string(), 12, "u".to_string(), 50, at(3))
        .unwrap();
    assert_eq!(service.update_branch_name(&mut branches, 1, 50, "renamed".to_string()), Ok(()));
    assert_eq!(service.get_branch(&branches, 1, 50).unwrap().branch_name, "renamed");
    assert_eq!(branches.update_branch_name_at(1, 50, "again".to_string(), at(8)), Ok(()));
    let renamed = service.get_branch(&branches, 1, 50).unwrap();
    assert_eq!(renamed.branch_name, "again");
    assert_eq!(renamed.last_updated, at(8));
    assert_eq!(renamed.leaf_message_id, 12);
    assert_eq!(
        service.update_branch_name(&mut branches, 1, 51, "x".to_string()),
        Err(DbError::NotFound)
    );

    assert_eq!(service.delete_branch(&mut branches, 1, 50), Ok(()));
    assert_eq!(service.get_branch(&branches, 1, 50), Err(DbError::NotFound));
    assert_eq!(branches.get_branch_by_leaf(12), Err(DbError::NotFound));
    assert_eq!(service.delete_branch(&mut branches, 1, 50), Err(DbError::NotFound));
    // the messages stay
    assert_eq!(store.len(), 4);
    assert_eq!(branches.delete_branch(1, 50, 12), Ok(()));
}
