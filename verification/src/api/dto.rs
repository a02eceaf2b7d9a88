//! The values that cross the boundary: requests as they come in, responses
//! as they go out.

use vstd::prelude::*;
use vstd::string::*;

use crate::api::error::ApiError;
use crate::domain::branch::Branch;
use crate::domain::content::{ContentMetadata, ContentType, ContentTypeView, MetadataView};
use crate::domain::conversation::Conversation;
use crate::domain::message::{role_of_text, role_text, Message, MessageRole};
use crate::domain::permissions::{permission_of_text, permission_text, Permission, Share};
use crate::domain::timestamp::Timestamp;
use crate::utils::text::{clone_optional_text, joined};

verus! {

#[derive(Debug)]
pub struct CreateConversationRequest {
    pub title: String,
    pub created_by: String,
}

#[derive(Debug)]
pub struct UpdateConversationRequest {
    pub title: Option<String>,
    pub description: Option<String>,
}

#[derive(Debug)]
pub struct CreateMessageRequest {
    pub parent_message_id: u128,
    pub role: String,
    pub content: ContentType,
    pub content_metadata: ContentMetadata,
    pub created_by: String,
    pub branch_id: Option<u128>,
}

#[derive(Debug)]
pub struct CreateBranchRequest {
    pub branch_name: String,
    pub leaf_message_id: u128,
    pub created_by: String,
}

#[derive(Debug)]
pub struct UpdateBranchRequest {
    pub branch_name: Option<String>,
    pub leaf_message_id: Option<u128>,
}

#[derive(Debug)]
pub struct ForkConversationRequest {
    pub title: String,
    pub created_by: String,
}

#[derive(Debug)]
pub struct ShareConversationRequest {
    pub shared_with: String,
    pub permission: String,
    pub shared_by: String,
}

#[derive(Debug, PartialEq)]
pub struct ConversationResponse {
    pub conversation_id: u128,
    pub title: String,
    pub description: Option<String>,
    pub created_at: Timestamp,
    pub created_by: String,
    pub is_public: bool,
    pub fork_from_conversation_id: Option<u128>,
    pub fork_from_message_id: Option<u128>,
}

#[derive(Debug, PartialEq)]
pub struct MessageResponse {
    pub conversation_id: u128,
    pub message_id: u128,
    pub parent_message_id: Option<u128>,
    pub role: String,
    pub content: ContentType,
    pub content_metadata: ContentMetadata,
    pub lineage: Vec<u128>,
    pub depth: usize,
    pub created_at: Timestamp,
    pub created_by: String,
}

#[derive(Debug, PartialEq)]
pub struct BranchResponse {
    pub conversation_id: u128,
    pub branch_id: u128,
    pub branch_name: String,
    pub leaf_message_id: u128,
    pub created_at: Timestamp,
    pub last_updated: Timestamp,
    pub created_by: String,
    pub is_active: bool,
}

#[derive(Debug, PartialEq)]
pub struct ShareResponse {
    pub conversation_id: u128,
    pub shared_with: String,
    pub permission: String,
    pub shared_at: Timestamp,
    pub shared_by: String,
}

#[derive(Debug, PartialEq)]
pub struct TreeResponse {
    pub conversation_id: u128,
    pub messages: Vec<MessageResponse>,
    pub total_messages: usize,
}

#[derive(Debug, PartialEq)]
pub struct HealthResponse {
    pub status: String,
    pub timestamp: Timestamp,
}

/// Whether a response shows a message: the same in every field, the role
/// by its name, and the depth counted out.
pub open spec fn shows_message(response: MessageResponse, message: Message) -> bool {
    &&& response.conversation_id == message.conversation_id
    &&& response.message_id == message.message_id
    &&& response.parent_message_id == message.parent_message_id
    &&& response.role@ == role_text(message.role)
    &&& response.content == message.content
    &&& response.content_metadata == message.content_metadata
    &&& response.lineage == message.lineage
    &&& response.depth == message.lineage@.len()
    &&& response.created_at == message.created_at
    &&& response.created_by == message.created_by
}

impl From<Message> for MessageResponse {
    fn from(msg: Message) -> (response: Self)
        ensures
            shows_message(response, msg),
    {
        let depth = msg.depth();
        let role = msg.role.as_str().to_owned();
        MessageResponse {
            conversation_id: msg.conversation_id,
            message_id: msg.message_id,
            parent_message_id: msg.parent_message_id,
            role,
            content: msg.content,
            content_metadata: msg.content_metadata,
            lineage: msg.lineage,
            depth,
            created_at: msg.created_at,
            created_by: msg.created_by,
        }
    }
}

/// The conversion is stated by `shows_message`: the name of the role is
/// built, so the result is given by its characters and not as a value.
impl vstd::std_specs::convert::FromSpecImpl<Message> for MessageResponse {
    open spec fn obeys_from_spec() -> bool {
        false
    }

    open spec fn from_spec(msg: Message) -> Self {
        arbitrary()
    }
}

/// The response that shows a branch.
pub open spec fn branch_response(branch: Branch) -> BranchResponse {
    BranchResponse {
        conversation_id: branch.conversation_id,
        branch_id: branch.branch_id,
        branch_name: branch.branch_name,
        leaf_message_id: branch.leaf_message_id,
        created_at: branch.created_at,
        last_updated: branch.last_updated,
        created_by: branch.created_by,
        is_active: branch.is_active,
    }
}

impl From<Branch> for BranchResponse {
    fn from(branch: Branch) -> (response: Self)
        ensures
            response == branch_response(branch),
    {
        BranchResponse {
            conversation_id: branch.conversation_id,
            branch_id: branch.branch_id,
            branch_name: branch.branch_name,
            leaf_message_id: branch.leaf_message_id,
            created_at: branch.created_at,
            last_updated: branch.last_updated,
            created_by: branch.created_by,
            is_active: branch.is_active,
        }
    }
}

impl vstd::std_specs::convert::FromSpecImpl<Branch> for BranchResponse {
    open spec fn obeys_from_spec() -> bool {
        true
    }

    open spec fn from_spec(branch: Branch) -> Self {
        branch_response(branch)
    }
}

/// Reads the name of a role as a request carries it.
pub fn parse_role(role_str: &str) -> (result: Result<MessageRole, String>)
    ensures
        match role_of_text(role_str@) {
            Some(role) => result == Ok::<MessageRole, String>(role),
            None => result matches Err(words) && words@ == "Invalid role: "@ + role_str@,
        },
{
    match MessageRole::parse(role_str) {
        Some(role) => Ok(role),
        None => Err(joined("Invalid role: ", role_str)),
    }
}

/// Reads the name of a permission tier as a request carries it.
pub fn parse_permission(permission_str: &str) -> (result: Result<Permission, String>)
    ensures
        match permission_of_text(permission_str@) {
            Some(permission) => result == Ok::<Permission, String>(permission),
            None => result matches Err(words) && words@ == "Invalid permission: "@
                + permission_str@,
        },
{
    match Permission::parse(permission_str) {
        Some(permission) => Ok(permission),
        None => Err(joined("Invalid permission: ", permission_str)),
    }
}

/// Whether a response shows a conversation whose root holds `metadata`.
pub open spec fn shows_conversation(
    response: ConversationResponse,
    conversation: Conversation,
    metadata: MetadataView,
) -> bool {
    &&& response.conversation_id == conversation.conversation_id
    &&& response.title@ == metadata.title
    &&& match metadata.description {
        Some(d) => response.description matches Some(shown) && shown@ == d,
        None => response.description is None,
    }
    &&& response.created_at == conversation.root_message.created_at
    &&& response.created_by == conversation.root_message.created_by
    &&& response.is_public == metadata.is_public
    &&& response.fork_from_conversation_id == metadata.fork_from_conversation_id
    &&& response.fork_from_message_id == metadata.fork_from_message_id
}

/// The response that shows a conversation. A root message that holds no
/// metadata contradicts what a root is: it is answered as an internal
/// error.
pub fn conversation_response(conversation: &Conversation) -> (result: Result<
    ConversationResponse,
    ApiError,
>)
    ensures
        match conversation.root_message.content@ {
            ContentTypeView::Metadata(metadata) => result matches Ok(response)
                && shows_conversation(response, *conversation, metadata),
            _ => result matches Err(ApiError::Internal(words)) && words@
                == "Invalid root message content"@,
        },
{
    match &conversation.root_message.content {
        ContentType::Metadata(metadata) => Ok(
            ConversationResponse {
                conversation_id: conversation.conversation_id,
                title: metadata.title.clone(),
                description: clone_optional_text(&metadata.description),
                created_at: conversation.root_message.created_at,
                created_by: conversation.root_message.created_by.clone(),
                is_public: metadata.is_public,
                fork_from_conversation_id: metadata.fork_from_conversation_id,
                fork_from_message_id: metadata.fork_from_message_id,
            },
        ),
        _ => Err(ApiError::Internal("Invalid root message content".to_owned())),
    }
}

/// Whether a response shows a share: the same in every field, the tier by
/// its name.
pub open spec fn shows_share(response: ShareResponse, share: Share) -> bool {
    &&& response.conversation_id == share.conversation_id
    &&& response.shared_with == share.shared_with
    &&& response.permission@ == permission_text(share.permission)
    &&& response.shared_at == share.shared_at
    &&& response.shared_by == share.shared_by
}

/// The response that shows a share.
pub fn share_response(share: Share) -> (response: ShareResponse)
    ensures
        shows_share(response, share),
{
    ShareResponse {
        conversation_id: share.conversation_id,
        shared_with: share.shared_with,
        permission: share.permission.as_str().to_owned(),
        shared_at: share.shared_at,
        shared_by: share.shared_by,
    }
}

/// The responses that show a list of messages, in order.
pub fn message_responses(messages: Vec<Message>) -> (responses: Vec<MessageResponse>)
    ensures
        responses@.len() == messages@.len(),
        forall|i: int|
            0 <= i < messages@.len() ==> shows_message(#[trigger] responses@[i], messages@[i]),
{
    let mut responses: Vec<MessageResponse> = Vec::new();
    for m in it: messages
        invariant
            it.seq() == messages@,
            responses@.len() == it.index(),
            forall|i: int|
                0 <= i < it.index() ==> shows_message(#[trigger] responses@[i], messages@[i]),
    {
        responses.push(MessageResponse::from(m));
    }
    responses
}

/// The response that shows the whole tree of a conversation.
pub fn tree_response(conversation_id: u128, messages: Vec<Message>) -> (response: TreeResponse)
    ensures
        response.conversation_id == conversation_id,
        response.total_messages == messages@.len(),
        response.messages@.len() == messages@.len(),
        forall|i: int|
            0 <= i < messages@.len() ==> shows_message(
                #[trigger] response.messages@[i],
                messages@[i],
            ),
{
    let total_messages = messages.len();
    TreeResponse { conversation_id, messages: message_responses(messages), total_messages }
}

} // verus!
