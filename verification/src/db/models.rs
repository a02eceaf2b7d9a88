//! Rows as the storage holds them: names in place of enums, and the content
//! of a message as a tag beside a serialized payload.

use vstd::prelude::*;

use crate::db::error::{DbError, InvalidData};
use crate::domain::branch::Branch;
use crate::domain::content::{
    content_kind_of_tag, content_tag, ContentKind, ContentMetadata, ContentType,
};
use crate::domain::message::{role_of_text, role_text, Message, MessageRole, MessageView};
use crate::domain::permissions::{permission_of_text, permission_text, Permission, Share};
use crate::domain::timestamp::Timestamp;

verus! {

/// A row of the table of messages.
#[derive(Debug)]
pub struct MessageRow {
    pub conversation_id: u128,
    pub message_id: u128,
    pub parent_message_id: Option<u128>,
    pub role: String,
    pub content_type: String,
    pub content_data: String,
    pub content_metadata: Option<ContentMetadata>,
    pub lineage: Vec<u128>,
    pub created_at: Timestamp,
    pub created_by: String,
}

/// A row of the table of branches.
#[derive(Debug, PartialEq)]
pub struct BranchRow {
    pub conversation_id: u128,
    pub branch_id: u128,
    pub branch_name: String,
    pub leaf_message_id: u128,
    pub created_at: Timestamp,
    pub last_updated: Timestamp,
    pub created_by: String,
    pub is_active: bool,
}

/// A row of the table of shares.
#[derive(Debug, PartialEq)]
pub struct ShareRow {
    pub conversation_id: u128,
    pub shared_with: String,
    pub permission: String,
    pub shared_at: Timestamp,
    pub shared_by: String,
}

/// A row of the table that lists the conversations of a user.
#[derive(Debug, PartialEq)]
pub struct UserConversationRow {
    pub user_id: String,
    pub last_activity: Timestamp,
    pub conversation_id: u128,
    pub active_branch_id: Option<u128>,
}

/// A row of the reverse index from a leaf message to its branch.
#[derive(Debug, Clone, Copy, PartialEq, Eq, Structural)]
pub struct BranchByLeafRow {
    pub leaf_message_id: u128,
    pub conversation_id: u128,
    pub branch_id: u128,
}

impl Clone for UserConversationRow {
    fn clone(&self) -> (copy: Self)
        ensures
            copy == *self,
    {
        UserConversationRow {
            user_id: self.user_id.clone(),
            last_activity: self.last_activity,
            conversation_id: self.conversation_id,
            active_branch_id: self.active_branch_id,
        }
    }
}

impl MessageRow {
    /// The row of a message. The payload `content_data` is the message's
    /// content, serialized by the caller.
    pub fn from_message(message: Message, content_data: String) -> (row: Self)
        ensures
            row.conversation_id == message.conversation_id,
            row.message_id == message.message_id,
            row.parent_message_id == message.parent_message_id,
            row.role@ == role_text(message.role),
            row.content_type@ == content_tag(message.content@.kind()),
            row.content_data == content_data,
            row.content_metadata == Some(message.content_metadata),
            row.lineage == message.lineage,
            row.created_at == message.created_at,
            row.created_by == message.created_by,
    {
        let role = message.role.as_str().to_owned();
        let content_type = message.content.to_type_string().to_owned();
        MessageRow {
            conversation_id: message.conversation_id,
            message_id: message.message_id,
            parent_message_id: message.parent_message_id,
            role,
            content_type,
            content_data,
            content_metadata: Some(message.content_metadata),
            lineage: message.lineage,
            created_at: message.created_at,
            created_by: message.created_by,
        }
    }

    /// The role that the row names, or the row's role name where it is
    /// none of the known ones.
    pub fn parse_role(&self) -> (result: Result<MessageRole, DbError>)
        ensures
            match role_of_text(self.role@) {
                Some(role) => result == Ok::<MessageRole, DbError>(role),
                None => result matches Err(DbError::InvalidData(InvalidData::UnknownRole(name)))
                    && name@ == self.role@,
            },
    {
        match MessageRole::parse(self.role.as_str()) {
            Some(role) => Ok(role),
            None => Err(DbError::InvalidData(InvalidData::UnknownRole(self.role.clone()))),
        }
    }

    /// The kind of content that the row's tag names, or the tag where it is
    /// none of the known ones.
    pub fn parse_content_kind(&self) -> (result: Result<ContentKind, DbError>)
        ensures
            match content_kind_of_tag(self.content_type@) {
                Some(kind) => result == Ok::<ContentKind, DbError>(kind),
                None => result matches Err(
                    DbError::InvalidData(InvalidData::UnknownContentType(tag)),
                ) && tag@ == self.content_type@,
            },
    {
        match ContentKind::parse(self.content_type.as_str()) {
            Some(kind) => Ok(kind),
            None => Err(
                DbError::InvalidData(InvalidData::UnknownContentType(self.content_type.clone())),
            ),
        }
    }

    /// The message of a row, with the role and the content that were read
    /// from the row's role name and payload. A row without metadata gives a
    /// message with an empty map.
    pub fn to_message(self, role: MessageRole, content: ContentType) -> (message: Message)
        ensures
            message@ == (MessageView {
                conversation_id: self.conversation_id,
                message_id: self.message_id,
                parent_message_id: self.parent_message_id,
                role,
                content: content@,
                content_metadata: match self.content_metadata {
                    Some(metadata) => metadata@,
                    None => Map::empty(),
                },
                lineage: self.lineage@,
                created_at: self.created_at,
                created_by: self.created_by,
            }),
    {
        let content_metadata = match self.content_metadata {
            Some(metadata) => metadata,
            None => ContentMetadata::new(),
        };
        Message {
            conversation_id: self.conversation_id,
            message_id: self.message_id,
            parent_message_id: self.parent_message_id,
            role,
            content,
            content_metadata,
            lineage: self.lineage,
            created_at: self.created_at,
            created_by: self.created_by,
        }
    }
}

impl BranchRow {
    pub fn from_branch(branch: &Branch) -> (row: Self)
        ensures
            row.to_branch_spec() == *branch,
    {
        BranchRow {
            conversation_id: branch.conversation_id,
            branch_id: branch.branch_id,
            branch_name: branch.branch_name.clone(),
            leaf_message_id: branch.leaf_message_id,
            created_at: branch.created_at,
            last_updated: branch.last_updated,
            created_by: branch.created_by.clone(),
            is_active: branch.is_active,
        }
    }

    /// The branch that a row stands for.
    pub open spec fn to_branch_spec(self) -> Branch {
        Branch {
            conversation_id: self.conversation_id,
            branch_id: self.branch_id,
            branch_name: self.branch_name,
            leaf_message_id: self.leaf_message_id,
            created_at: self.created_at,
            last_updated: self.last_updated,
            created_by: self.created_by,
            is_active: self.is_active,
        }
    }

    pub fn to_branch(self) -> (branch: Branch)
        ensures
            branch == self.to_branch_spec(),
    {
        Branch {
            conversation_id: self.conversation_id,
            branch_id: self.branch_id,
            branch_name: self.branch_name,
            leaf_message_id: self.leaf_message_id,
            created_at: self.created_at,
            last_updated: self.last_updated,
            created_by: self.created_by,
            is_active: self.is_active,
        }
    }
}

impl ShareRow {
    pub fn from_share(share: &Share) -> (row: Self)
        ensures
            row.conversation_id == share.conversation_id,
            row.shared_with == share.shared_with,
            row.permission@ == permission_text(share.permission),
            row.shared_at == share.shared_at,
            row.shared_by == share.shared_by,
    {
        ShareRow {
            conversation_id: share.conversation_id,
            shared_with: share.shared_with.clone(),
            permission: share.permission.as_str().to_owned(),
            shared_at: share.shared_at,
            shared_by: share.shared_by.clone(),
        }
    }

    /// The share of a row, or the row's permission name where it is none of
    /// the known ones.
    pub fn to_share(self) -> (result: Result<Share, DbError>)
        ensures
            match permission_of_text(self.permission@) {
                Some(permission) => result == Ok::<Share, DbError>(
                    Share {
                        conversation_id: self.conversation_id,
                        shared_with: self.shared_with,
                        permission,
                        shared_at: self.shared_at,
                        shared_by: self.shared_by,
                    },
                ),
                None => result matches Err(
                    DbError::InvalidData(InvalidData::UnknownPermission(name)),
                ) && name@ == self.permission@,
            },
    {
        match Permission::parse(self.permission.as_str()) {
            Some(permission) => Ok(
                Share {
                    conversation_id: self.conversation_id,
                    shared_with: self.shared_with,
                    permission,
                    shared_at: self.shared_at,
                    shared_by: self.shared_by,
                },
            ),
            None => Err(DbError::InvalidData(InvalidData::UnknownPermission(self.permission))),
        }
    }
}

} // verus!
