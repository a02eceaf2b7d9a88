//! Creating conversations, appending messages and reading them back.

use vstd::prelude::*;

use crate::config::settings::AppConfig;
use crate::db::error::{depth_exceeded, DbError, InvalidData};
use crate::domain::content::{ContentMetadata, ContentType, ContentTypeView, MetadataView};
use crate::domain::conversation::Conversation;
use crate::domain::message::{
    child_message, plain_metadata, root_message, Message, MessageRole, MessageView,
};
use crate::domain::timestamp::Timestamp;
use crate::repositories::lineage_repo::{
    children_of, conversation_messages, has_key, lineage_path, message_at, message_views,
    upserted, without_conversation, LineageRepository,
};
use crate::utils::lineage_utils::{compute_lineage, validate_lineage_depth};
use crate::utils::uuid_utils::new_uuid;

verus! {

/// The first message of `messages` with the role of a root, if there is one.
pub open spec fn first_root(messages: Seq<MessageView>) -> Option<MessageView>
    decreases messages.len(),
{
    if messages.len() == 0 {
        None
    } else if messages[0].is_root() {
        Some(messages[0])
    } else {
        first_root(messages.skip(1))
    }
}

/// The content of a root message after an update: a new title and a new
/// description take the place of the old ones where they are given. Content
/// that is no metadata stays as it is.
pub open spec fn updated_content(
    content: ContentTypeView,
    title: Option<Seq<char>>,
    description: Option<Seq<char>>,
) -> ContentTypeView {
    match content {
        ContentTypeView::Metadata(m) => ContentTypeView::Metadata(
            MetadataView {
                title: match title {
                    Some(t) => t,
                    None => m.title,
                },
                description: match description {
                    Some(d) => Some(d),
                    None => m.description,
                },
                ..m
            },
        ),
        other => other,
    }
}

/// The characters of an optional string.
pub open spec fn optional_text(text: Option<String>) -> Option<Seq<char>> {
    match text {
        Some(t) => Some(t@),
        None => None,
    }
}

/// What an append under `parent` gives: the child, or the refusal of a
/// child that would be deeper than `max_depth`.
pub open spec fn appended(
    parent: MessageView,
    message_id: u128,
    role: MessageRole,
    content: ContentTypeView,
    content_metadata: Map<String, String>,
    created_by: String,
    created_at: Timestamp,
    max_depth: usize,
) -> Result<MessageView, DbError> {
    if parent.depth() + 1 > max_depth {
        Err(depth_exceeded(parent.depth() + 1, max_depth))
    } else {
        Ok(
            child_message(
                parent,
                message_id,
                role,
                content,
                content_metadata,
                created_by,
                created_at,
            ),
        )
    }
}

/// Why an append under a parent is refused, if it is: the parent is
/// missing, the child would be deeper than `max_depth`, or the child's key
/// is taken, asked in that order.
pub open spec fn append_refusal(
    store: Seq<MessageView>,
    conversation_id: u128,
    parent_message_id: u128,
    message_id: u128,
    max_depth: usize,
) -> Option<DbError> {
    if !has_key(store, conversation_id, parent_message_id) {
        Some(DbError::NotFound)
    } else if message_at(store, conversation_id, parent_message_id).depth() + 1 > max_depth {
        Some(
            depth_exceeded(
                message_at(store, conversation_id, parent_message_id).depth() + 1,
                max_depth,
            ),
        )
    } else if has_key(store, conversation_id, message_id) {
        Some(DbError::Conflict)
    } else {
        None
    }
}

/// The first message with the role of a root among the messages of a
/// conversation.
pub fn find_root(messages: Vec<Message>) -> (root: Option<Message>)
    ensures
        match root {
            Some(r) => first_root(message_views(messages@)) == Some(r@),
            None => first_root(message_views(messages@)) is None,
        },
{
    let ghost all = message_views(messages@);
    assert(all.skip(0) =~= all);
    for m in it: messages
        invariant
            it.seq() == messages@,
            all == message_views(messages@),
            first_root(all) == first_root(all.skip(it.index() as int)),
    {
        proof {
            let rest = all.skip(it.index() as int);
            assert(rest[0] == m@);
            assert(rest.skip(1) =~= all.skip(it.index() as int + 1));
        }
        if m.is_root() {
            return Some(m);
        }
    }
    assert(all.skip(messages@.len() as int).len() == 0);
    None
}

/// The child of `parent` under the id `message_id`, refused where it would
/// be deeper than `max_depth`.
pub fn build_child(
    parent: &Message,
    message_id: u128,
    role: MessageRole,
    content: ContentType,
    content_metadata: ContentMetadata,
    created_by: String,
    created_at: Timestamp,
    max_depth: usize,
) -> (result: Result<Message, DbError>)
    ensures
        match result {
            Ok(m) => appended(
                parent@,
                message_id,
                role,
                content@,
                content_metadata@,
                created_by,
                created_at,
                max_depth,
            ) == Ok::<MessageView, DbError>(m@),
            Err(e) => appended(
                parent@,
                message_id,
                role,
                content@,
                content_metadata@,
                created_by,
                created_at,
                max_depth,
            ) == Err::<MessageView, DbError>(e),
        },
{
    let lineage = compute_lineage(parent.lineage.as_slice(), message_id);
    match validate_lineage_depth(lineage.as_slice(), max_depth) {
        Err(exceeded) => Err(DbError::InvalidData(InvalidData::DepthExceeded(exceeded))),
        Ok(()) => Ok(
            Message {
                conversation_id: parent.conversation_id,
                message_id,
                parent_message_id: Some(parent.message_id),
                role,
                content,
                content_metadata,
                lineage,
                created_at,
                created_by,
            },
        ),
    }
}

/// A root message with its title and description replaced where new ones
/// are given.
pub fn apply_update(root: Message, title: Option<String>, description: Option<String>) -> (updated:
    Message)
    ensures
        updated@ == (MessageView {
            content: updated_content(
                root@.content,
                optional_text(title),
                optional_text(description),
            ),
            ..root@
        }),
{
    let Message {
        conversation_id,
        message_id,
        parent_message_id,
        role,
        content,
        content_metadata,
        lineage,
        created_at,
        created_by,
    } = root;
    let content = match content {
        ContentType::Metadata(mut metadata) => {
            if let Some(new_title) = title {
                metadata.title = new_title;
            }
            if let Some(new_description) = description {
                metadata.description = Some(new_description);
            }
            ContentType::Metadata(metadata)
        },
        other => other,
    };
    Message {
        conversation_id,
        message_id,
        parent_message_id,
        role,
        content,
        content_metadata,
        lineage,
        created_at,
        created_by,
    }
}

pub struct ConversationService {
    app_config: AppConfig,
}

impl ConversationService {
    /// The limits that this service enforces.
    pub closed spec fn config(&self) -> AppConfig {
        self.app_config
    }

    pub fn new(app_config: AppConfig) -> (service: Self)
        ensures
            service.config() == app_config,
    {
        ConversationService { app_config }
    }

    /// Creates a conversation under fresh random ids and stores its root
    /// message.
    pub fn create_conversation(
        &self,
        lineage_repo: &mut LineageRepository,
        title: String,
        created_by: String,
    ) -> (result: Result<Conversation, DbError>)
        ensures
            match result {
                Ok(c) => c.root_message@ == root_message(
                    c.conversation_id,
                    c.root_message.message_id,
                    plain_metadata(title@),
                    created_by,
                    c.root_message.created_at,
                ) && !has_key(old(lineage_repo)@, c.conversation_id, c.root_message.message_id)
                    && final(lineage_repo)@ == old(lineage_repo)@.push(c.root_message@),
                Err(e) => e == DbError::Conflict && final(lineage_repo)@ == old(lineage_repo)@,
            },
            old(lineage_repo)@.len() == 0 ==> result is Ok,
            result is Err ==> exists|conversation_id: u128, root_message_id: u128| #[trigger]
                has_key(old(lineage_repo)@, conversation_id, root_message_id),
            old(lineage_repo).well_formed() ==> final(lineage_repo).well_formed(),
    {
        let conversation_id = new_uuid();
        let root_message_id = new_uuid();
        let result = self.create_conversation_with(
            lineage_repo,
            conversation_id,
            root_message_id,
            title,
            created_by,
            Timestamp::now(),
        );
        proof {
            if result is Err {
                assert(has_key(old(lineage_repo)@, conversation_id, root_message_id));
            }
        }
        result
    }

    /// Creates a conversation under the given ids at `created_at` and stores
    /// its root message. Where the store holds a message under the root's
    /// key, nothing is stored and the outcome is `Conflict`.
    pub fn create_conversation_with(
        &self,
        lineage_repo: &mut LineageRepository,
        conversation_id: u128,
        root_message_id: u128,
        title: String,
        created_by: String,
        created_at: Timestamp,
    ) -> (result: Result<Conversation, DbError>)
        ensures
            result is Ok <==> !has_key(old(lineage_repo)@, conversation_id, root_message_id),
            match result {
                Ok(c) => c.conversation_id == conversation_id && c.root_message@ == root_message(
                    conversation_id,
                    root_message_id,
                    plain_metadata(title@),
                    created_by,
                    created_at,
                ) && final(lineage_repo)@ == old(lineage_repo)@.push(c.root_message@),
                Err(e) => e == DbError::Conflict && final(lineage_repo)@ == old(lineage_repo)@,
            },
            old(lineage_repo).well_formed() ==> final(lineage_repo).well_formed(),
    {
        let conversation = Conversation::with_ids(
            conversation_id,
            root_message_id,
            title,
            created_by,
            created_at,
        );
        match lineage_repo.insert_message(conversation.root_message.clone()) {
            Ok(()) => Ok(conversation),
            Err(e) => Err(e),
        }
    }

    /// The conversation under an id: its root message, found by its role
    /// among all messages of the conversation.
    pub fn get_conversation(&self, lineage_repo: &LineageRepository, conversation_id: u128) -> (result:
        Result<Conversation, DbError>)
        ensures
            match result {
                Ok(c) => c.conversation_id == conversation_id && first_root(
                    conversation_messages(lineage_repo@, conversation_id),
                ) == Some(c.root_message@),
                Err(e) => e == DbError::NotFound && first_root(
                    conversation_messages(lineage_repo@, conversation_id),
                ) is None,
            },
    {
        let all_messages = match lineage_repo.get_all_messages(conversation_id) {
            Ok(all) => all,
            Err(e) => {
                return Err(e);
            },
        };
        match find_root(all_messages) {
            Some(root_message) => Ok(Conversation { conversation_id, root_message }),
            None => Err(DbError::NotFound),
        }
    }

    /// Rewrites the title and the description of a conversation in place.
    /// The root message is written over the stored one: the last write wins.
    pub fn update_conversation(
        &self,
        lineage_repo: &mut LineageRepository,
        conversation_id: u128,
        title: Option<String>,
        description: Option<String>,
    ) -> (result: Result<(), DbError>)
        ensures
            match first_root(conversation_messages(old(lineage_repo)@, conversation_id)) {
                Some(root) => result is Ok && final(lineage_repo)@ == upserted(
                    old(lineage_repo)@,
                    MessageView {
                        content: updated_content(
                            root.content,
                            optional_text(title),
                            optional_text(description),
                        ),
                        ..root
                    },
                ),
                None => result == Err::<(), DbError>(DbError::NotFound) && final(lineage_repo)@
                    == old(lineage_repo)@,
            },
            old(lineage_repo).well_formed() ==> final(lineage_repo).well_formed(),
    {
        let conversation = match self.get_conversation(lineage_repo, conversation_id) {
            Ok(c) => c,
            Err(e) => {
                return Err(e);
            },
        };
        let updated = apply_update(conversation.root_message, title, description);
        lineage_repo.upsert_message(updated)
    }

    /// Removes every message of a conversation.
    pub fn delete_conversation(&self, lineage_repo: &mut LineageRepository, conversation_id: u128) -> (result:
        Result<(), DbError>)
        ensures
            result is Ok,
            final(lineage_repo)@ == without_conversation(old(lineage_repo)@, conversation_id),
            old(lineage_repo).well_formed() ==> final(lineage_repo).well_formed(),
    {
        lineage_repo.delete_conversation(conversation_id)
    }

    /// Appends a message under a parent, under a fresh random id, now.
    pub fn append_message(
        &self,
        lineage_repo: &mut LineageRepository,
        conversation_id: u128,
        parent_message_id: u128,
        role: MessageRole,
        content: ContentType,
        content_metadata: ContentMetadata,
        created_by: String,
    ) -> (result: Result<Message, DbError>)
        ensures
            match result {
                Ok(m) => append_refusal(
                    old(lineage_repo)@,
                    conversation_id,
                    parent_message_id,
                    m.message_id,
                    self.config().max_lineage_depth,
                ) is None && m@ == child_message(
                    message_at(old(lineage_repo)@, conversation_id, parent_message_id),
                    m.message_id,
                    role,
                    content@,
                    content_metadata@,
                    created_by,
                    m.created_at,
                ) && final(lineage_repo)@ == old(lineage_repo)@.push(m@),
                Err(e) => final(lineage_repo)@ == old(lineage_repo)@ && exists|message_id: u128|
                    append_refusal(
                        old(lineage_repo)@,
                        conversation_id,
                        parent_message_id,
                        message_id,
                        self.config().max_lineage_depth,
                    ) == Some(e),
            },
            !has_key(old(lineage_repo)@, conversation_id, parent_message_id) ==> result == Err::<
                Message,
                DbError,
            >(DbError::NotFound),
            has_key(old(lineage_repo)@, conversation_id, parent_message_id) && message_at(
                old(lineage_repo)@,
                conversation_id,
                parent_message_id,
            ).depth() + 1 > self.config().max_lineage_depth ==> result == Err::<Message, DbError>(
                depth_exceeded(
                    message_at(old(lineage_repo)@, conversation_id, parent_message_id).depth()
                        + 1,
                    self.config().max_lineage_depth,
                ),
            ),
            old(lineage_repo).well_formed() ==> final(lineage_repo).well_formed(),
    {
        let message_id = new_uuid();
        self.append_message_with(
            lineage_repo,
            conversation_id,
            parent_message_id,
            role,
            content,
            content_metadata,
            created_by,
            message_id,
            Timestamp::now(),
        )
    }

    /// Appends a message under a parent, under the id `message_id`, at
    /// `created_at`. The parent is fetched (`NotFound` where it is missing),
    /// the child's lineage is the parent's with `message_id` behind it, its
    /// depth is held against the limit before anything is stored, and the
    /// child is stored (`Conflict` where its key is taken).
    pub fn append_message_with(
        &self,
        lineage_repo: &mut LineageRepository,
        conversation_id: u128,
        parent_message_id: u128,
        role: MessageRole,
        content: ContentType,
        content_metadata: ContentMetadata,
        created_by: String,
        message_id: u128,
        created_at: Timestamp,
    ) -> (result: Result<Message, DbError>)
        ensures
            match append_refusal(
                old(lineage_repo)@,
                conversation_id,
                parent_message_id,
                message_id,
                self.config().max_lineage_depth,
            ) {
                Some(refusal) => result == Err::<Message, DbError>(refusal) && final(lineage_repo)@ == old(lineage_repo)@,
                None => result matches Ok(m) && m@ == child_message(
                    message_at(old(lineage_repo)@, conversation_id, parent_message_id),
                    message_id,
                    role,
                    content@,
                    content_metadata@,
                    created_by,
                    created_at,
                ) && final(lineage_repo)@ == old(lineage_repo)@.push(m@),
            },
            old(lineage_repo).well_formed() ==> final(lineage_repo).well_formed(),
    {
        let parent = match lineage_repo.get_message(conversation_id, parent_message_id) {
            Ok(parent) => parent,
            Err(e) => {
                return Err(e);
            },
        };
        let message = match build_child(
            &parent,
            message_id,
            role,
            content,
            content_metadata,
            created_by,
            created_at,
            self.app_config.max_lineage_depth,
        ) {
            Ok(message) => message,
            Err(e) => {
                return Err(e);
            },
        };
        match lineage_repo.insert_message(message.clone()) {
            Ok(()) => Ok(message),
            Err(e) => Err(e),
        }
    }

    /// The message under a key.
    pub fn get_message(
        &self,
        lineage_repo: &LineageRepository,
        conversation_id: u128,
        message_id: u128,
    ) -> (result: Result<Message, DbError>)
        ensures
            result is Ok <==> has_key(lineage_repo@, conversation_id, message_id),
            result matches Ok(m) ==> m@ == message_at(lineage_repo@, conversation_id, message_id)
                && lineage_repo@.contains(m@) && m.conversation_id == conversation_id
                && m.message_id == message_id,
            result matches Err(e) ==> e == DbError::NotFound,
    {
        lineage_repo.get_message(conversation_id, message_id)
    }

    /// The children of a message: the branches that start there.
    pub fn get_children(
        &self,
        lineage_repo: &LineageRepository,
        conversation_id: u128,
        parent_message_id: u128,
    ) -> (result: Result<Vec<Message>, DbError>)
        ensures
            result matches Ok(children) && message_views(children@) == children_of(
                lineage_repo@,
                conversation_id,
                parent_message_id,
            ),
    {
        lineage_repo.get_children(conversation_id, parent_message_id)
    }

    /// The stored messages on the path from the root to a message, the root
    /// first: the message is fetched, then every message whose id is in its
    /// lineage.
    pub fn get_lineage_path(
        &self,
        lineage_repo: &LineageRepository,
        conversation_id: u128,
        message_id: u128,
    ) -> (result: Result<Vec<Message>, DbError>)
        ensures
            result is Ok <==> has_key(lineage_repo@, conversation_id, message_id),
            result matches Ok(path) ==> message_views(path@) == lineage_path(
                lineage_repo@,
                conversation_id,
                message_at(lineage_repo@, conversation_id, message_id).lineage,
            ),
            result matches Err(e) ==> e == DbError::NotFound,
    {
        let message = match lineage_repo.get_message(conversation_id, message_id) {
            Ok(message) => message,
            Err(e) => {
                return Err(e);
            },
        };
        lineage_repo.get_messages_by_ids(conversation_id, message.lineage.as_slice())
    }

    /// The whole tree of a conversation. The caller rebuilds the edges from
    /// the ids of the parents.
    pub fn get_conversation_tree(&self, lineage_repo: &LineageRepository, conversation_id: u128) -> (result:
        Result<Vec<Message>, DbError>)
        ensures
            result matches Ok(all) && message_views(all@) == conversation_messages(
                lineage_repo@,
                conversation_id,
            ),
    {
        lineage_repo.get_all_messages(conversation_id)
    }
}

} // verus!
