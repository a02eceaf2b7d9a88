//! Messages: the nodes of a conversation tree.

use vstd::prelude::*;

use crate::domain::content::{
    ContentMetadata, ContentType, ContentTypeView, MetadataContent, MetadataView,
};
use crate::domain::timestamp::Timestamp;
use crate::utils::text::text_eq;

verus! {

#[derive(Debug, Clone, Copy, PartialEq, Eq, Structural)]
pub enum MessageRole {
    Root,
    Human,
    Assistant,
    System,
    Tool,
}

/// The stored name of a role.
pub open spec fn role_text(role: MessageRole) -> Seq<char> {
    match role {
        MessageRole::Root => "root"@,
        MessageRole::Human => "human"@,
        MessageRole::Assistant => "assistant"@,
        MessageRole::System => "system"@,
        MessageRole::Tool => "tool"@,
    }
}

/// The role that a stored name stands for, if any.
pub open spec fn role_of_text(text: Seq<char>) -> Option<MessageRole> {
    if text == "root"@ {
        Some(MessageRole::Root)
    } else if text == "human"@ {
        Some(MessageRole::Human)
    } else if text == "assistant"@ {
        Some(MessageRole::Assistant)
    } else if text == "system"@ {
        Some(MessageRole::System)
    } else if text == "tool"@ {
        Some(MessageRole::Tool)
    } else {
        None
    }
}

impl MessageRole {
    pub fn as_str(&self) -> (text: &'static str)
        ensures
            text@ == role_text(*self),
    {
        match self {
            MessageRole::Root => "root",
            MessageRole::Human => "human",
            MessageRole::Assistant => "assistant",
            MessageRole::System => "system",
            MessageRole::Tool => "tool",
        }
    }

    pub fn parse(s: &str) -> (parsed: Option<Self>)
        ensures
            parsed == role_of_text(s@),
    {
        if text_eq(s, "root") {
            Some(MessageRole::Root)
        } else if text_eq(s, "human") {
            Some(MessageRole::Human)
        } else if text_eq(s, "assistant") {
            Some(MessageRole::Assistant)
        } else if text_eq(s, "system") {
            Some(MessageRole::System)
        } else if text_eq(s, "tool") {
            Some(MessageRole::Tool)
        } else {
            None
        }
    }
}

/// The five stored names are pairwise different, so a role is read back from
/// its own name.
pub proof fn lemma_role_text_round_trip(role: MessageRole)
    ensures
        role_of_text(role_text(role)) == Some(role),
{
    reveal_strlit("root");
    reveal_strlit("human");
    reveal_strlit("assistant");
    reveal_strlit("system");
    reveal_strlit("tool");
    assert("root"@.len() == 4);
    assert("human"@.len() == 5);
    assert("assistant"@.len() == 9);
    assert("system"@.len() == 6);
    assert("tool"@.len() == 4);
    assert("root"@[0] == 'r');
    assert("tool"@[0] == 't');
}

/// One message. It is never changed after it was made, but for the content
/// of a root message, which holds the conversation's metadata.
#[derive(Debug, PartialEq)]
pub struct Message {
    pub conversation_id: u128,
    pub message_id: u128,
    pub parent_message_id: Option<u128>,
    pub role: MessageRole,
    pub content: ContentType,
    pub content_metadata: ContentMetadata,
    /// The ids of the ancestors of this message, the root first, and then
    /// `message_id` itself.
    pub lineage: Vec<u128>,
    pub created_at: Timestamp,
    pub created_by: String,
}

/// A message with its collections as mathematical values.
pub struct MessageView {
    pub conversation_id: u128,
    pub message_id: u128,
    pub parent_message_id: Option<u128>,
    pub role: MessageRole,
    pub content: ContentTypeView,
    pub content_metadata: Map<String, String>,
    pub lineage: Seq<u128>,
    pub created_at: Timestamp,
    pub created_by: String,
}

impl View for Message {
    type V = MessageView;

    open spec fn view(&self) -> MessageView {
        MessageView {
            conversation_id: self.conversation_id,
            message_id: self.message_id,
            parent_message_id: self.parent_message_id,
            role: self.role,
            content: self.content@,
            content_metadata: self.content_metadata@,
            lineage: self.lineage@,
            created_at: self.created_at,
            created_by: self.created_by,
        }
    }
}

impl MessageView {
    /// The number of messages on the path from the root to this message,
    /// both counted.
    pub open spec fn depth(self) -> nat {
        self.lineage.len()
    }

    pub open spec fn is_root(self) -> bool {
        self.role == MessageRole::Root
    }

    /// What holds of every message that the library makes: its lineage ends
    /// in its own id, a message without a parent is alone in its lineage,
    /// and the id of a parent stands right before the message's own.
    pub open spec fn well_formed(self) -> bool {
        &&& self.lineage.len() >= 1
        &&& self.lineage.last() == self.message_id
        &&& self.parent_message_id is None ==> self.lineage.len() == 1
        &&& self.parent_message_id matches Some(parent) ==> self.lineage.len() >= 2
            && self.lineage[self.lineage.len() - 2] == parent
    }
}

/// The content of the root message of a conversation that is no fork.
pub open spec fn plain_metadata(title: Seq<char>) -> ContentTypeView {
    ContentTypeView::Metadata(
        MetadataView {
            title,
            description: None,
            is_public: false,
            fork_from_conversation_id: None,
            fork_from_message_id: None,
        },
    )
}

/// The root message of a new conversation.
pub open spec fn root_message(
    conversation_id: u128,
    message_id: u128,
    content: ContentTypeView,
    created_by: String,
    created_at: Timestamp,
) -> MessageView {
    MessageView {
        conversation_id,
        message_id,
        parent_message_id: None,
        role: MessageRole::Root,
        content,
        content_metadata: Map::empty(),
        lineage: seq![message_id],
        created_at,
        created_by,
    }
}

/// The message that is appended under `parent`.
pub open spec fn child_message(
    parent: MessageView,
    message_id: u128,
    role: MessageRole,
    content: ContentTypeView,
    content_metadata: Map<String, String>,
    created_by: String,
    created_at: Timestamp,
) -> MessageView {
    MessageView {
        conversation_id: parent.conversation_id,
        message_id,
        parent_message_id: Some(parent.message_id),
        role,
        content,
        content_metadata,
        lineage: parent.lineage.push(message_id),
        created_at,
        created_by,
    }
}

impl Clone for Message {
    fn clone(&self) -> (copy: Self)
        ensures
            copy@ == self@,
    {
        let lineage = self.lineage.clone();
        assert(lineage@ =~= self.lineage@);
        Message {
            conversation_id: self.conversation_id,
            message_id: self.message_id,
            parent_message_id: self.parent_message_id,
            role: self.role,
            content: self.content.clone(),
            content_metadata: self.content_metadata.clone(),
            lineage,
            created_at: self.created_at,
            created_by: self.created_by.clone(),
        }
    }
}

impl Message {
    /// The root message of a new conversation, made now.
    pub fn new_root(conversation_id: u128, message_id: u128, title: String, created_by: String) -> (root:
        Self)
        ensures
            root@ == root_message(
                conversation_id,
                message_id,
                plain_metadata(title@),
                created_by,
                root.created_at,
            ),
    {
        Message::new_root_at(conversation_id, message_id, title, created_by, Timestamp::now())
    }

    /// The root message of a new conversation, made at `created_at`.
    pub fn new_root_at(
        conversation_id: u128,
        message_id: u128,
        title: String,
        created_by: String,
        created_at: Timestamp,
    ) -> (root: Self)
        ensures
            root@ == root_message(
                conversation_id,
                message_id,
                plain_metadata(title@),
                created_by,
                created_at,
            ),
    {
        let mut lineage: Vec<u128> = Vec::new();
        lineage.push(message_id);
        assert(lineage@ =~= seq![message_id]);
        Message {
            conversation_id,
            message_id,
            parent_message_id: None,
            role: MessageRole::Root,
            content: ContentType::Metadata(
                MetadataContent {
                    title,
                    description: None,
                    is_public: false,
                    fork_from_conversation_id: None,
                    fork_from_message_id: None,
                },
            ),
            content_metadata: ContentMetadata::new(),
            lineage,
            created_at,
            created_by,
        }
    }

    pub fn is_root(&self) -> (root: bool)
        ensures
            root == self@.is_root(),
    {
        self.role == MessageRole::Root
    }

    pub fn depth(&self) -> (depth: usize)
        ensures
            depth == self@.depth(),
    {
        self.lineage.len()
    }
}

/// A root message is well formed and has depth 1; a child of a well-formed
/// parent is well formed, ends in its own id and is one deeper than the
/// parent.
pub proof fn lemma_made_messages_are_well_formed(
    conversation_id: u128,
    message_id: u128,
    content: ContentTypeView,
    content_metadata: Map<String, String>,
    role: MessageRole,
    created_by: String,
    created_at: Timestamp,
    parent: MessageView,
)
    ensures
        root_message(conversation_id, message_id, content, created_by, created_at).well_formed(),
        root_message(conversation_id, message_id, content, created_by, created_at).depth() == 1,
        parent.well_formed() ==> child_message(
            parent,
            message_id,
            role,
            content,
            content_metadata,
            created_by,
            created_at,
        ).well_formed(),
        child_message(
            parent,
            message_id,
            role,
            content,
            content_metadata,
            created_by,
            created_at,
        ).depth() == parent.depth() + 1,
        child_message(
            parent,
            message_id,
            role,
            content,
            content_metadata,
            created_by,
            created_at,
        ).lineage.last() == message_id,
{
}

} // verus!
