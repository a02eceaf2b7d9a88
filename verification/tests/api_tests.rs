use std::collections::HashMap;

use aigc_history::api::dto::{
    conversation_response, message_responses, parse_permission, parse_role, share_response,
    tree_response, BranchResponse, MessageResponse,
};
use aigc_history::api::ApiError;
use aigc_history::config::AppConfig;
use aigc_history::db::models::{BranchRow, MessageRow, ShareRow};
use aigc_history::db::{DbError, InvalidData};
use aigc_history::domain::content::{ContentKind, ContentType, TextContent};
use aigc_history::domain::{
    Branch, Conversation, Message, MessageRole, Permission, Share, Timestamp,
};
use aigc_history::utils::lineage_utils::DepthExceeded;

fn at(seconds: i64) -> Timestamp {
    Timestamp { seconds, nanoseconds: 0 }
}

fn text_message() -> Message {
    Message {
        conversation_id: 1,
        message_id: 3,
        parent_message_id: Some(2),
        role: MessageRole::Assistant,
        content: ContentType::Text(TextContent { text: "hi".to_string() }),
        content_metadata: HashMap::from([("k".to_string(), "v".to_string())]),
        lineage: vec![1, 2, 3],
        created_at: at(4),
        created_by: "a".to_string(),
    }
}

#[test]
fn parse_role_and_permission_name_what_they_reject() {
    assert_eq!(parse_role("tool"), Ok(MessageRole::Tool));
    assert_eq!(parse_role("robot"), Err("Invalid role: robot".to_string()));
    assert_eq!(parse_permission("fork"), Ok(Permission::Fork));
    assert_eq!(parse_permission("own"), Err("Invalid permission: own".to_string()));
}

#[test]
fn default_limits() {
    let config = AppConfig::default();
    assert_eq!(config.max_lineage_depth, 1000);
    assert_eq!(config.max_batch_size, 100);
}

#[test]
fn message_response_counts_the_depth() {
    let response = MessageResponse::from(text_message());
    assert_eq!(response.role, "assistant");
    assert_eq!(response.depth, 3);
    assert_eq!(response.lineage, vec![1, 2, 3]);
    assert_eq!(response.parent_message_id, Some(2));
    assert_eq!(response.content, text_message().content);
    assert_eq!(response.content_metadata, text_message().content_metadata);
    let tree = tree_response(1, vec![text_message(), text_message()]);
    assert_eq!(tree.total_messages, 2);
    assert_eq!(tree.messages, message_responses(vec![text_message(), text_message()]));
    assert_eq!(tree.messages[1], response);
}

#[test]
fn branch_and_share_responses() {
    let branch = Branch::with_id(1, 2, "main".to_string(), 3, "u".to_string(), at(1));
    let response = BranchResponse::from(branch.clone());
    assert_eq!(response.branch_name, "main");
    assert_eq!(response.leaf_message_id, 3);
    assert_eq!(BranchRow::from_branch(&branch).to_branch(), branch);
    let share = Share {
        conversation_id: 1,
        shared_with: "ann".to_string(),
        permission: Permission::Branch,
        shared_at: at(2),
        shared_by: "bob".to_string(),
    };
    let row = ShareRow::from_share(&share);
    assert_eq!(row.permission, "branch");
    assert_eq!(row.to_share(), Ok(share.clone()));
    assert_eq!(share_response(share).permission, "branch");
    let unknown = ShareRow {
        conversation_id: 1,
        shared_with: "ann".to_string(),
        permission: "own".to_string(),
        shared_at: at(2),
        shared_by: "bob".to_string(),
    };
    assert_eq!(
        unknown.to_share(),
        Err(DbError::InvalidData(InvalidData::UnknownPermission("own".to_string())))
    );
}

#[test]
fn message_rows_carry_names_and_tags() {
    let row = MessageRow::from_message(text_message(), "{\"text\":\"hi\"}".to_string());
    assert_eq!(row.role, "assistant");
    assert_eq!(row.content_type, "text");
    assert_eq!(row.content_data, "{\"text\":\"hi\"}");
    assert_eq!(row.lineage, vec![1, 2, 3]);
    assert_eq!(row.parse_role(), Ok(MessageRole::Assistant));
    assert_eq!(row.parse_content_kind(), Ok(ContentKind::Text));
    let back = row.to_message(MessageRole::Assistant, text_message().content);
    assert_eq!(back, text_message());
    let mut odd = MessageRow::from_message(text_message(), String::new());
    odd.role = "robot".to_string();
    odd.content_type = "video".to_string();
    assert_eq!(
        odd.parse_content_kind(),
        Err(DbError::InvalidData(InvalidData::UnknownContentType("video".to_string())))
    );
    odd.content_metadata = None;
    assert_eq!(
        odd.parse_role(),
        Err(DbError::InvalidData(InvalidData::UnknownRole("robot".to_string())))
    );
    assert!(odd.to_message(MessageRole::Human, text_message().content).content_metadata.is_empty());
}

#[test]
fn conversation_response_needs_metadata_in_the_root() {
    let conversation = Conversation::with_ids(1, 2, "T".to_string(), "u".to_string(), at(1));
    let response = conversation_response(&conversation).unwrap();
    assert_eq!(response.conversation_id, 1);
    assert_eq!(response.title, "T");
    assert_eq!(response.description, None);
    assert!(!response.is_public);
    assert_eq!(response.created_by, "u");
    let broken = Conversation { conversation_id: 1, root_message: text_message() };
    assert_eq!(
        conversation_response(&broken),
        Err(ApiError::Internal("Invalid root message content".to_string()))
    );
    assert_eq!(broken.title(), None);
}

#[test]
fn errors_in_words() {
    assert_eq!(DbError::NotFound.message(), "Not found");
    assert_eq!(DbError::Conflict.message(), "Conflict");
    assert_eq!(DbError::QueryError("down".to_string()).message(), "Query error: down");
    assert_eq!(
        DbError::ConnectionError("refused".to_string()).message(),
        "Database connection error: refused"
    );
    assert_eq!(DbError::SerializationError("x".to_string()).message(), "Serialization error: x");
    assert_eq!(DbError::MigrationError("x".to_string()).message(), "Migration error: x");
    assert_eq!(DbError::Internal("x".to_string()).message(), "Internal error: x");
    let deep = DepthExceeded { depth: 1001, max_depth: 1000 };
    assert_eq!(deep.message(), "Lineage depth 1001 exceeds maximum allowed depth 1000");
    assert_eq!(
        DepthExceeded { depth: 7, max_depth: 0 }.message(),
        "Lineage depth 7 exceeds maximum allowed depth 0"
    );
    assert_eq!(
        DbError::InvalidData(InvalidData::DepthExceeded(deep)).message(),
        "Invalid data: Lineage depth 1001 exceeds maximum allowed depth 1000"
    );
    assert_eq!(InvalidData::UnknownRole("robot".to_string()).message(), "Invalid role: robot");
    assert_eq!(
        InvalidData::UnknownPermission("own".to_string()).message(),
        "Invalid permission: own"
    );
    assert_eq!(
        InvalidData::UnknownContentType("video".to_string()).message(),
        "Failed to deserialize content: Unknown content type: video"
    );
    assert_eq!(InvalidData::Malformed("bad json".to_string()).message(), "bad json");
}

#[test]
fn the_boundary_tells_client_errors_from_faults() {
    assert!(DbError::NotFound.is_caller_fixable());
    assert!(DbError::Conflict.is_caller_fixable());
    assert!(DbError::InvalidData(InvalidData::Malformed(String::new())).is_caller_fixable());
    assert!(!DbError::QueryError(String::new()).is_caller_fixable());
    assert!(!DbError::Internal(String::new()).is_caller_fixable());

    let missing = ApiError::from(DbError::NotFound);
    assert_eq!(missing, ApiError::NotFound("Resource not found".to_string()));
    assert_eq!(missing.status(), 404);
    let deep = ApiError::from(DbError::InvalidData(InvalidData::DepthExceeded(DepthExceeded {
        depth: 4,
        max_depth: 3,
    })));
    assert_eq!(
        deep,
        ApiError::BadRequest("Lineage depth 4 exceeds maximum allowed depth 3".to_string())
    );
    assert_eq!(deep.status(), 400);
    let fault = ApiError::from(DbError::QueryError("down".to_string()));
    assert_eq!(fault, ApiError::Database(DbError::QueryError("down".to_string())));
    assert_eq!(fault.status(), 500);
    assert_eq!(fault.message(), "Database error: Query error: down");
    assert_eq!(ApiError::from(DbError::Conflict), ApiError::Database(DbError::Conflict));
    assert_eq!(ApiError::Unauthorized("no".to_string()).status(), 401);
    assert_eq!(ApiError::Forbidden("no".to_string()).status(), 403);
    assert_eq!(ApiError::Internal("bad".to_string()).status(), 500);
    assert_eq!(ApiError::Forbidden("no".to_string()).message(), "no");
}
