//! A conversation: its id and its root message.

use vstd::prelude::*;

use crate::domain::content::ContentType;
use crate::domain::message::{plain_metadata, root_message, Message};
use crate::domain::timestamp::Timestamp;
use crate::utils::uuid_utils::new_uuid;

verus! {

/// A conversation has no row of its own: it is its root message.
#[derive(Debug, PartialEq)]
pub struct Conversation {
    pub conversation_id: u128,
    pub root_message: Message,
}

impl Clone for Conversation {
    fn clone(&self) -> (copy: Self)
        ensures
            copy.conversation_id == self.conversation_id,
            copy.root_message@ == self.root_message@,
    {
        Conversation {
            conversation_id: self.conversation_id,
            root_message: self.root_message.clone(),
        }
    }
}

impl Conversation {
    /// A new conversation under fresh random ids, made now.
    pub fn new(title: String, created_by: String) -> (conversation: Self)
        ensures
            conversation.root_message@ == root_message(
                conversation.conversation_id,
                conversation.root_message.message_id,
                plain_metadata(title@),
                created_by,
                conversation.root_message.created_at,
            ),
    {
        let conversation_id = new_uuid();
        let root_message_id = new_uuid();
        Conversation::with_ids(
            conversation_id,
            root_message_id,
            title,
            created_by,
            Timestamp::now(),
        )
    }

    /// A new conversation under the given ids, made at `created_at`.
    pub fn with_ids(
        conversation_id: u128,
        root_message_id: u128,
        title: String,
        created_by: String,
        created_at: Timestamp,
    ) -> (conversation: Self)
        ensures
            conversation.conversation_id == conversation_id,
            conversation.root_message@ == root_message(
                conversation_id,
                root_message_id,
                plain_metadata(title@),
                created_by,
                created_at,
            ),
    {
        Conversation {
            conversation_id,
            root_message: Message::new_root_at(
                conversation_id,
                root_message_id,
                title,
                created_by,
                created_at,
            ),
        }
    }

    /// The title in the root message's metadata; `None` where the root
    /// message holds another kind of content.
    pub fn title(&self) -> (title: Option<String>)
        ensures
            title == match self.root_message.content {
                ContentType::Metadata(m) => Some(m.title),
                _ => None::<String>,
            },
    {
        match &self.root_message.content {
            ContentType::Metadata(m) => Some(m.title.clone()),
            _ => None,
        }
    }

    pub fn created_at(&self) -> (created_at: Timestamp)
        ensures
            created_at == self.root_message.created_at,
    {
        self.root_message.created_at
    }

    pub fn created_by(&self) -> (created_by: &str)
        ensures
            created_by@ == self.root_message.created_by@,
    {
        self.root_message.created_by.as_str()
    }
}

} // verus!
