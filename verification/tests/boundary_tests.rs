use std::collections::HashMap;

use aigc_history::api::dto::CreateMessageRequest;
use aigc_history::api::handlers::{create_message, create_message_with};
use aigc_history::api::ApiError;
use aigc_history::config::AppConfig;
use aigc_history::db::migration::{
    after_failed_selection, follow_statement, plan_statement, Retry, StatementFollowUp,
    StatementKind, StatementOutcome, StatementStep,
};
use aigc_history::domain::content::{ContentType, TextContent};
use aigc_history::domain::Timestamp;
use aigc_history::repositories::{BranchRepository, LineageRepository};
use aigc_history::services::{BranchService, ConversationService};

fn at(seconds: i64) -> Timestamp {
    Timestamp { seconds, nanoseconds: 0 }
}

fn request(parent: u128, role: &str, branch: Option<u128>) -> CreateMessageRequest {
    CreateMessageRequest {
        parent_message_id: parent,
        role: role.to_string(),
        content: ContentType::Text(TextContent { text: "hi".to_string() }),
        content_metadata: HashMap::new(),
        created_by: "u".to_string(),
        branch_id: branch,
    }
}

fn setup() -> (ConversationService, BranchService, LineageRepository, BranchRepository) {
    let conversations = ConversationService::new(AppConfig { max_lineage_depth: 2, max_batch_size: 10 });
    let branch_service = BranchService::new();
    let mut store = LineageRepository::new();
    let mut branches = BranchRepository::new();
    conversations
        .create_conversation_with(&mut store, 1, 10, "T".to_string(), "u".to_string(), at(1))
        .unwrap();
    branch_service
        .create_branch_with(&mut branches, &store, 1, "main".to_string(), 10, "u".to_string(), 50, at(1))
        .unwrap();
    (conversations, branch_service, store, branches)
}

#[test]
fn create_message_moves_the_named_branch() {
    let (conversations, branch_service, mut store, mut branches) = setup();
    let response = create_message_with(
        &conversations,
        &branch_service,
        &mut store,
        &mut branches,
        1,
        request(10, "human", Some(50)),
        11,
        at(2),
    )
    .unwrap();
    assert_eq!(response.message_id, 11);
    assert_eq!(response.role, "human");
    assert_eq!(response.depth, 2);
    assert_eq!(response.lineage, vec![10, 11]);
    assert_eq!(response.parent_message_id, Some(10));
    assert_eq!(branches.get_branch_by_leaf(11), Ok((1, 50)));
    assert!(branches.get_branch_by_leaf(10).is_err());
    assert_eq!(branches.get_branch(1, 50).unwrap().leaf_message_id, 11);
}

#[test]
fn create_message_without_a_branch_moves_none() {
    let (conversations, branch_service, mut store, mut branches) = setup();
    let response =
        create_message(&conversations, &branch_service, &mut store, &mut branches, 1, request(10, "tool", None))
            .unwrap();
    assert_eq!(response.lineage, vec![10, response.message_id]);
    assert_eq!(branches.get_branch_by_leaf(10), Ok((1, 50)));
    assert_eq!(store.len(), 2);
}

#[test]
fn create_message_rejects_before_it_stores() {
    let (conversations, branch_service, mut store, mut branches) = setup();
    let bad_role = create_message(
        &conversations,
        &branch_service,
        &mut store,
        &mut branches,
        1,
        request(10, "robot", Some(50)),
    );
    assert_eq!(bad_role, Err(ApiError::BadRequest("Invalid role: robot".to_string())));
    let no_parent = create_message(
        &conversations,
        &branch_service,
        &mut store,
        &mut branches,
        1,
        request(99, "human", Some(50)),
    );
    assert_eq!(no_parent, Err(ApiError::NotFound("Resource not found".to_string())));
    assert_eq!(store.len(), 1);
    create_message_with(&conversations, &branch_service, &mut store, &mut branches, 1, request(10, "human", None), 11, at(2))
        .unwrap();
    let too_deep = create_message(
        &conversations,
        &branch_service,
        &mut store,
        &mut branches,
        1,
        request(11, "human", None),
    );
    assert_eq!(
        too_deep,
        Err(ApiError::BadRequest("Lineage depth 3 exceeds maximum allowed depth 2".to_string()))
    );
    assert_eq!(store.len(), 2);
    assert_eq!(branches.get_branch_by_leaf(10), Ok((1, 50)));
}

#[test]
fn create_message_keeps_the_message_when_the_branch_is_missing() {
    let (conversations, branch_service, mut store, mut branches) = setup();
    let result = create_message_with(
        &conversations,
        &branch_service,
        &mut store,
        &mut branches,
        1,
        request(10, "human", Some(51)),
        11,
        at(2),
    );
    assert_eq!(result, Err(ApiError::NotFound("Resource not found".to_string())));
    assert_eq!(store.len(), 2);
    assert_eq!(store.get_message(1, 11).unwrap().lineage, vec![10, 11]);
    assert_eq!(branches.get_branch_by_leaf(10), Ok((1, 50)));
}

#[test]
fn configured_limits() {
    let config = AppConfig::from_values(Some("7"), Some("3"));
    assert_eq!(config, AppConfig { max_lineage_depth: 7, max_batch_size: 3 });
    let config = AppConfig::from_values(None, Some("many"));
    assert_eq!(config, AppConfig { max_lineage_depth: 1000, max_batch_size: 100 });
    let config = AppConfig::from_values(Some("-1"), None);
    assert_eq!(config, AppConfig::default());
}

#[test]
fn migration_steps() {
    let send = StatementStep { select_keyspace: false, execute: true };
    assert_eq!(
        plan_statement(StatementKind::UseKeyspace, false),
        StatementStep { select_keyspace: true, execute: false }
    );
    assert_eq!(plan_statement(StatementKind::CreateKeyspace, false), send);
    assert_eq!(
        plan_statement(StatementKind::Other, false),
        StatementStep { select_keyspace: true, execute: true }
    );
    assert_eq!(plan_statement(StatementKind::Other, true), send);

    assert_eq!(
        follow_statement(StatementKind::CreateKeyspace, false, StatementOutcome::Applied),
        StatementFollowUp { settle_keyspace: true, abort: false, keyspace_ready: true }
    );
    assert_eq!(
        follow_statement(StatementKind::CreateKeyspace, false, StatementOutcome::AlreadyExists),
        StatementFollowUp { settle_keyspace: false, abort: false, keyspace_ready: false }
    );
    assert_eq!(
        follow_statement(StatementKind::Other, false, StatementOutcome::Failed),
        StatementFollowUp { settle_keyspace: false, abort: true, keyspace_ready: true }
    );
    assert_eq!(
        follow_statement(StatementKind::Other, true, StatementOutcome::Applied),
        StatementFollowUp { settle_keyspace: false, abort: false, keyspace_ready: true }
    );
}

#[test]
fn keyspace_selection_backs_off_and_gives_up() {
    assert_eq!(after_failed_selection(0), Retry::AfterMillis(250));
    assert_eq!(after_failed_selection(1), Retry::AfterMillis(500));
    assert_eq!(after_failed_selection(4), Retry::AfterMillis(1250));
    assert_eq!(after_failed_selection(5), Retry::GiveUp);
    assert_eq!(after_failed_selection(usize::MAX), Retry::GiveUp);
}
