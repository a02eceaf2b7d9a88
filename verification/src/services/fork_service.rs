//! Forks: a conversation, a branch's path or a message's path, cloned into a
//! new conversation.

use vstd::prelude::*;
use vstd::string::*;

use crate::config::settings::AppConfig;
use crate::db::error::DbError;
use crate::domain::content::{ContentMetadata, ContentType, ContentTypeView, MetadataContent, MetadataView};
use crate::domain::conversation::Conversation;
use crate::domain::message::{root_message, Message, MessageRole, MessageView};
use crate::domain::timestamp::Timestamp;
use crate::repositories::branch_repo::{branch_at, has_branch, BranchRepository};
use crate::repositories::lineage_repo::{
    conversation_messages, fresh_batch, has_key, keys_unique, lemma_filter_push, lineage_path,
    message_at, message_views, LineageRepository,
};
use crate::utils::uuid_utils::{hyphenated_uuid, new_uuid, uuid_text};

verus! {

/// The description that the root of a fork carries.
pub open spec fn fork_description(source_conversation_id: u128) -> Seq<char> {
    "Forked from conversation "@ + hyphenated_uuid(source_conversation_id)
}

/// The root message of a fork: it names the conversation it was forked
/// from and, for a fork of a path, the message at which the path ends.
pub open spec fn fork_root(
    new_conversation_id: u128,
    new_root_id: u128,
    source_conversation_id: u128,
    anchor: Option<u128>,
    title: Seq<char>,
    created_by: String,
    created_at: Timestamp,
) -> MessageView {
    root_message(
        new_conversation_id,
        new_root_id,
        ContentTypeView::Metadata(
            MetadataView {
                title,
                description: Some(fork_description(source_conversation_id)),
                is_public: false,
                fork_from_conversation_id: Some(source_conversation_id),
                fork_from_message_id: anchor,
            },
        ),
        created_by,
        created_at,
    )
}

/// `m` as it stands in the conversation `conversation_id`: the same in
/// everything but the conversation it belongs to.
pub open spec fn moved_to(m: MessageView, conversation_id: u128) -> MessageView {
    MessageView { conversation_id, ..m }
}

pub open spec fn not_root() -> spec_fn(MessageView) -> bool {
    |m: MessageView| !m.is_root()
}

pub open spec fn has_root_role() -> spec_fn(MessageView) -> bool {
    |m: MessageView| m.is_root()
}

/// The copies that a fork makes of `source`: every message that is no root,
/// moved to the new conversation, in the order of `source`.
pub open spec fn copies(source: Seq<MessageView>, conversation_id: u128) -> Seq<MessageView> {
    source.filter(not_root()).map_values(|m: MessageView| moved_to(m, conversation_id))
}

/// The messages of a fork: its root, then the copies.
pub open spec fn forked(root: MessageView, source: Seq<MessageView>) -> Seq<MessageView> {
    seq![root] + copies(source, root.conversation_id)
}

/// The message at which a forked path ends.
pub open spec fn path_anchor(path: Seq<MessageView>) -> Option<u128> {
    if path.len() == 0 {
        None
    } else {
        Some(path.last().message_id)
    }
}

/// The size of the next batch of `remaining` messages.
pub open spec fn batch_len(remaining: nat, batch_size: nat) -> nat {
    if 0 < batch_size < remaining {
        batch_size
    } else {
        remaining
    }
}

/// The store after `messages` were written in batches of at most
/// `batch_size`, and whether every batch was accepted. A batch is stored
/// whole or refused; after a refusal nothing more is written, and what was
/// written before stays.
pub open spec fn stored_in_batches(
    store: Seq<MessageView>,
    messages: Seq<MessageView>,
    batch_size: nat,
) -> (Seq<MessageView>, bool)
    decreases messages.len(),
{
    if messages.len() == 0 {
        (store, true)
    } else {
        let n = batch_len(messages.len(), batch_size) as int;
        if fresh_batch(store, messages.take(n)) {
            stored_in_batches(store + messages.take(n), messages.skip(n), batch_size)
        } else {
            (store, false)
        }
    }
}

/// What a fork of the path to a message does to the store, and what it
/// returns: the root of the fork, `NotFound` where the message is not
/// stored, `Conflict` where a batch was refused.
pub open spec fn fork_of_path(
    store: Seq<MessageView>,
    source_conversation_id: u128,
    message_id: u128,
    new_conversation_id: u128,
    new_root_id: u128,
    title: Seq<char>,
    created_by: String,
    created_at: Timestamp,
    batch_size: nat,
) -> (Seq<MessageView>, Result<MessageView, DbError>) {
    if !has_key(store, source_conversation_id, message_id) {
        (store, Err(DbError::NotFound))
    } else {
        let path = lineage_path(
            store,
            source_conversation_id,
            message_at(store, source_conversation_id, message_id).lineage,
        );
        let root = fork_root(
            new_conversation_id,
            new_root_id,
            source_conversation_id,
            path_anchor(path),
            title,
            created_by,
            created_at,
        );
        let outcome = stored_in_batches(store, forked(root, path), batch_size);
        (
            outcome.0,
            if outcome.1 {
                Ok(root)
            } else {
                Err(DbError::Conflict)
            },
        )
    }
}

/// Takes the next batch off the front of `remaining`: at most `batch_size`
/// messages, in order. What is left stays in `remaining`. A batch size of
/// zero is not allowed.
pub fn next_batch(remaining: &mut Vec<Message>, batch_size: usize) -> (batch: Vec<Message>)
    requires
        batch_size > 0,
    ensures
        message_views(batch@) == message_views(old(remaining)@).take(
            batch_len(old(remaining)@.len(), batch_size as nat) as int,
        ),
        message_views(final(remaining)@) == message_views(old(remaining)@).skip(
            batch_len(old(remaining)@.len(), batch_size as nat) as int,
        ),
        batch@.len() == batch_len(old(remaining)@.len(), batch_size as nat),
        final(remaining)@.len() == old(remaining)@.len() - batch@.len(),
{
    let ghost all = message_views(remaining@);
    let ghost n = batch_len(remaining@.len(), batch_size as nat) as int;
    let mut batch: Vec<Message> = Vec::new();
    if remaining.len() > batch_size {
        let mut tail = remaining.split_off(batch_size);
        std::mem::swap(remaining, &mut tail);
        batch = tail;
    } else {
        std::mem::swap(remaining, &mut batch);
    }
    proof {
        assert(message_views(batch@) =~= all.take(n));
        assert(message_views(remaining@) =~= all.skip(n));
    }
    batch
}

/// The messages of a fork of `source_messages`: a new root, then every
/// source message that is no root, changed in nothing but its conversation.
pub fn plan_fork(
    source_conversation_id: u128,
    source_messages: Vec<Message>,
    anchor: Option<u128>,
    title: String,
    created_by: String,
    new_conversation_id: u128,
    new_root_id: u128,
    created_at: Timestamp,
) -> (plan: Vec<Message>)
    ensures
        plan@.len() > 0,
        message_views(plan@) == forked(
            fork_root(
                new_conversation_id,
                new_root_id,
                source_conversation_id,
                anchor,
                title@,
                created_by,
                created_at,
            ),
            message_views(source_messages@),
        ),
{
    let mut description = "Forked from conversation ".to_owned();
    description.append(uuid_text(source_conversation_id).as_str());
    let mut lineage: Vec<u128> = Vec::new();
    lineage.push(new_root_id);
    assert(lineage@ =~= seq![new_root_id]);
    let root = Message {
        conversation_id: new_conversation_id,
        message_id: new_root_id,
        parent_message_id: None,
        role: MessageRole::Root,
        content: ContentType::Metadata(
            MetadataContent {
                title,
                description: Some(description),
                is_public: false,
                fork_from_conversation_id: Some(source_conversation_id),
                fork_from_message_id: anchor,
            },
        ),
        content_metadata: ContentMetadata::new(),
        lineage,
        created_at,
        created_by,
    };
    let ghost root_view = root@;
    let ghost source = message_views(source_messages@);
    let ghost to_new = |m: MessageView| moved_to(m, new_conversation_id);
    let mut plan: Vec<Message> = Vec::new();
    plan.push(root);
    proof {
        reveal(Seq::filter);
        assert(source.take(0).filter(not_root()) =~= Seq::<MessageView>::empty());
        assert(message_views(plan@) =~= seq![root_view] + source.take(0).filter(
            not_root(),
        ).map_values(to_new));
    }
    for m in it: source_messages
        invariant
            it.seq() == source_messages@,
            source == message_views(source_messages@),
            to_new == (|m: MessageView| moved_to(m, new_conversation_id)),
            plan@.len() > 0,
            message_views(plan@) == seq![root_view] + source.take(it.index() as int).filter(
                not_root(),
            ).map_values(to_new),
    {
        let ghost so_far = message_views(plan@);
        let ghost kept = source.take(it.index() as int).filter(not_root());
        proof {
            lemma_filter_push(source.take(it.index() as int), m@, not_root());
            assert(source.take(it.index() as int).push(m@) =~= source.take(
                it.index() as int + 1,
            ));
        }
        if !m.is_root() {
            let ghost original = m@;
            let mut copy = m;
            copy.conversation_id = new_conversation_id;
            let ghost copied = copy@;
            plan.push(copy);
            proof {
                assert(copied == moved_to(original, new_conversation_id));
                assert(message_views(plan@) =~= so_far.push(copied));
                assert(kept.push(original).map_values(to_new) =~= kept.map_values(to_new).push(
                    copied,
                ));
                assert(so_far.push(copied) =~= seq![root_view] + kept.push(original).map_values(
                    to_new,
                ));
            }
        }
    }
    assert(source.take(source_messages@.len() as int) =~= source);
    plan
}

pub struct ForkService {
    app_config: AppConfig,
}

impl ForkService {
    /// The limits that this service enforces.
    pub closed spec fn config(&self) -> AppConfig {
        self.app_config
    }

    pub fn new(app_config: AppConfig) -> (service: Self)
        ensures
            service.config() == app_config,
    {
        ForkService { app_config }
    }

    /// Writes `messages` in batches of at most the configured size. A batch
    /// that is refused ends the writing; the batches before it stay stored.
    /// The configured size must not be zero.
    pub fn batch_insert_with_limit(&self, lineage_repo: &mut LineageRepository, messages: Vec<Message>) -> (result:
        Result<(), DbError>)
        requires
            self.config().max_batch_size > 0,
        ensures
            final(lineage_repo)@ == stored_in_batches(
                old(lineage_repo)@,
                message_views(messages@),
                self.config().max_batch_size as nat,
            ).0,
            result is Ok <==> stored_in_batches(
                old(lineage_repo)@,
                message_views(messages@),
                self.config().max_batch_size as nat,
            ).1,
            result matches Err(e) ==> e == DbError::Conflict,
            old(lineage_repo).well_formed() ==> final(lineage_repo).well_formed(),
    {
        let batch_size = self.app_config.max_batch_size;
        let ghost before = lineage_repo@;
        let ghost all = message_views(messages@);
        let mut remaining = messages;
        while remaining.len() > 0
            invariant
                batch_size > 0,
                batch_size == self.config().max_batch_size,
                before == old(lineage_repo)@,
                all == message_views(messages@),
                stored_in_batches(before, all, batch_size as nat) == stored_in_batches(
                    lineage_repo@,
                    message_views(remaining@),
                    batch_size as nat,
                ),
                keys_unique(before) ==> keys_unique(lineage_repo@),
            decreases remaining@.len(),
        {
            let ghost rest = message_views(remaining@);
            let ghost n = batch_len(rest.len(), batch_size as nat) as int;
            let ghost store = lineage_repo@;
            let batch = next_batch(&mut remaining, batch_size);
            proof {
                assert(stored_in_batches(store, rest, batch_size as nat) == if fresh_batch(
                    store,
                    rest.take(n),
                ) {
                    stored_in_batches(store + rest.take(n), rest.skip(n), batch_size as nat)
                } else {
                    (store, false)
                });
            }
            match lineage_repo.batch_insert_messages(batch) {
                Ok(()) => {},
                Err(e) => {
                    return Err(e);
                },
            }
        }
        Ok(())
    }

    /// Forks a whole conversation under fresh random ids, now.
    pub fn fork_conversation(
        &self,
        lineage_repo: &mut LineageRepository,
        source_conversation_id: u128,
        title: String,
        created_by: String,
    ) -> (result: Result<Conversation, DbError>)
        requires
            self.config().max_batch_size > 0,
        ensures
            match result {
                Ok(c) => c.root_message@ == fork_root(
                    c.conversation_id,
                    c.root_message.message_id,
                    source_conversation_id,
                    None,
                    title@,
                    created_by,
                    c.root_message.created_at,
                ) && final(lineage_repo)@ == old(lineage_repo)@ + forked(
                    c.root_message@,
                    conversation_messages(old(lineage_repo)@, source_conversation_id),
                ),
                Err(e) => e == DbError::Conflict && old(lineage_repo)@.is_prefix_of(
                    final(lineage_repo)@,
                ),
            },
            result is Err ==> exists|
                new_conversation_id: u128,
                new_root_id: u128,
                created_at: Timestamp,
            |
                stored_in_batches(
                    old(lineage_repo)@,
                    forked(
                        #[trigger] fork_root(
                            new_conversation_id,
                            new_root_id,
                            source_conversation_id,
                            None,
                            title@,
                            created_by,
                            created_at,
                        ),
                        conversation_messages(old(lineage_repo)@, source_conversation_id),
                    ),
                    self.config().max_batch_size as nat,
                ) == (final(lineage_repo)@, false),
            old(lineage_repo).well_formed() ==> final(lineage_repo).well_formed(),
    {
        let new_conversation_id = new_uuid();
        let new_root_id = new_uuid();
        let now = Timestamp::now();
        let ghost root = fork_root(
            new_conversation_id,
            new_root_id,
            source_conversation_id,
            None,
            title@,
            created_by,
            now,
        );
        proof {
            lemma_stored_in_batches(
                lineage_repo@,
                forked(root, conversation_messages(lineage_repo@, source_conversation_id)),
                self.config().max_batch_size as nat,
            );
        }
        let result = self.fork_conversation_with(
            lineage_repo,
            source_conversation_id,
            title,
            created_by,
            new_conversation_id,
            new_root_id,
            now,
        );
        proof {
            if result is Err {
                assert(stored_in_batches(
                    old(lineage_repo)@,
                    forked(
                        root,
                        conversation_messages(old(lineage_repo)@, source_conversation_id),
                    ),
                    self.config().max_batch_size as nat,
                ) == (lineage_repo@, false));
            }
        }
        result
    }

    /// Forks a whole conversation: reads the whole source tree, makes a new
    /// root that names the source, copies every message that is no root
    /// into the new conversation and writes root and copies in batches.
    pub fn fork_conversation_with(
        &self,
        lineage_repo: &mut LineageRepository,
        source_conversation_id: u128,
        title: String,
        created_by: String,
        new_conversation_id: u128,
        new_root_id: u128,
        created_at: Timestamp,
    ) -> (result: Result<Conversation, DbError>)
        requires
            self.config().max_batch_size > 0,
        ensures
            ({
                let root = fork_root(
                    new_conversation_id,
                    new_root_id,
                    source_conversation_id,
                    None,
                    title@,
                    created_by,
                    created_at,
                );
                let outcome = stored_in_batches(
                    old(lineage_repo)@,
                    forked(
                        root,
                        conversation_messages(old(lineage_repo)@, source_conversation_id),
                    ),
                    self.config().max_batch_size as nat,
                );
                &&& final(lineage_repo)@ == outcome.0
                &&& result is Ok <==> outcome.1
                &&& result matches Ok(c) ==> c.conversation_id == new_conversation_id
                    && c.root_message@ == root
                &&& result matches Err(e) ==> e == DbError::Conflict
            }),
            old(lineage_repo).well_formed() ==> final(lineage_repo).well_formed(),
    {
        let source_messages = match lineage_repo.get_all_messages(source_conversation_id) {
            Ok(all) => all,
            Err(e) => {
                return Err(e);
            },
        };
        self.store_fork(
            lineage_repo,
            source_conversation_id,
            source_messages,
            None,
            title,
            created_by,
            new_conversation_id,
            new_root_id,
            created_at,
        )
    }

    /// Plans the fork of `source_messages` and writes it in batches.
    fn store_fork(
        &self,
        lineage_repo: &mut LineageRepository,
        source_conversation_id: u128,
        source_messages: Vec<Message>,
        anchor: Option<u128>,
        title: String,
        created_by: String,
        new_conversation_id: u128,
        new_root_id: u128,
        created_at: Timestamp,
    ) -> (result: Result<Conversation, DbError>)
        requires
            self.config().max_batch_size > 0,
        ensures
            ({
                let root = fork_root(
                    new_conversation_id,
                    new_root_id,
                    source_conversation_id,
                    anchor,
                    title@,
                    created_by,
                    created_at,
                );
                let outcome = stored_in_batches(
                    old(lineage_repo)@,
                    forked(root, message_views(source_messages@)),
                    self.config().max_batch_size as nat,
                );
                &&& final(lineage_repo)@ == outcome.0
                &&& result is Ok <==> outcome.1
                &&& result matches Ok(c) ==> c.conversation_id == new_conversation_id
                    && c.root_message@ == root
                &&& result matches Err(e) ==> e == DbError::Conflict
            }),
            old(lineage_repo).well_formed() ==> final(lineage_repo).well_formed(),
    {
        let plan = plan_fork(
            source_conversation_id,
            source_messages,
            anchor,
            title,
            created_by,
            new_conversation_id,
            new_root_id,
            created_at,
        );
        let root_message = plan[0].clone();
        assert(message_views(plan@)[0] == plan@[0]@);
        match self.batch_insert_with_limit(lineage_repo, plan) {
            Ok(()) => Ok(Conversation { conversation_id: new_conversation_id, root_message }),
            Err(e) => Err(e),
        }
    }

    /// Forks a path of messages under fresh random ids, now. The new root
    /// names the last message of the path.
    pub fn fork_messages(
        &self,
        lineage_repo: &mut LineageRepository,
        source_conversation_id: u128,
        source_messages: Vec<Message>,
        title: String,
        created_by: String,
    ) -> (result: Result<Conversation, DbError>)
        requires
            self.config().max_batch_size > 0,
        ensures
            match result {
                Ok(c) => c.root_message@ == fork_root(
                    c.conversation_id,
                    c.root_message.message_id,
                    source_conversation_id,
                    path_anchor(message_views(source_messages@)),
                    title@,
                    created_by,
                    c.root_message.created_at,
                ) && final(lineage_repo)@ == old(lineage_repo)@ + forked(
                    c.root_message@,
                    message_views(source_messages@),
                ),
                Err(e) => e == DbError::Conflict && old(lineage_repo)@.is_prefix_of(
                    final(lineage_repo)@,
                ),
            },
            result is Err ==> exists|
                new_conversation_id: u128,
                new_root_id: u128,
                created_at: Timestamp,
            |
                stored_in_batches(
                    old(lineage_repo)@,
                    forked(
                        #[trigger] fork_root(
                            new_conversation_id,
                            new_root_id,
                            source_conversation_id,
                            path_anchor(message_views(source_messages@)),
                            title@,
                            created_by,
                            created_at,
                        ),
                        message_views(source_messages@),
                    ),
                    self.config().max_batch_size as nat,
                ) == (final(lineage_repo)@, false),
            old(lineage_repo).well_formed() ==> final(lineage_repo).well_formed(),
    {
        let new_conversation_id = new_uuid();
        let new_root_id = new_uuid();
        let now = Timestamp::now();
        let ghost source = message_views(source_messages@);
        let ghost root = fork_root(
            new_conversation_id,
            new_root_id,
            source_conversation_id,
            path_anchor(source),
            title@,
            created_by,
            now,
        );
        proof {
            lemma_stored_in_batches(
                lineage_repo@,
                forked(root, source),
                self.config().max_batch_size as nat,
            );
        }
        let result = self.fork_messages_with(
            lineage_repo,
            source_conversation_id,
            source_messages,
            title,
            created_by,
            new_conversation_id,
            new_root_id,
            now,
        );
        proof {
            if result is Err {
                assert(stored_in_batches(
                    old(lineage_repo)@,
                    forked(root, source),
                    self.config().max_batch_size as nat,
                ) == (lineage_repo@, false));
            }
        }
        result
    }

    /// Forks a path of messages: the routine into which the forks of a
    /// branch and of a message run. The new root names the source
    /// conversation and the last message of the path.
    pub fn fork_messages_with(
        &self,
        lineage_repo: &mut LineageRepository,
        source_conversation_id: u128,
        source_messages: Vec<Message>,
        title: String,
        created_by: String,
        new_conversation_id: u128,
        new_root_id: u128,
        created_at: Timestamp,
    ) -> (result: Result<Conversation, DbError>)
        requires
            self.config().max_batch_size > 0,
        ensures
            ({
                let root = fork_root(
                    new_conversation_id,
                    new_root_id,
                    source_conversation_id,
                    path_anchor(message_views(source_messages@)),
                    title@,
                    created_by,
                    created_at,
                );
                let outcome = stored_in_batches(
                    old(lineage_repo)@,
                    forked(root, message_views(source_messages@)),
                    self.config().max_batch_size as nat,
                );
                &&& final(lineage_repo)@ == outcome.0
                &&& result is Ok <==> outcome.1
                &&& result matches Ok(c) ==> c.conversation_id == new_conversation_id
                    && c.root_message@ == root
                &&& result matches Err(e) ==> e == DbError::Conflict
            }),
            old(lineage_repo).well_formed() ==> final(lineage_repo).well_formed(),
    {
        let anchor = if source_messages.len() > 0 {
            let last = &source_messages[source_messages.len() - 1];
            assert(message_views(source_messages@).last() == last@);
            Some(last.message_id)
        } else {
            None
        };
        self.store_fork(
            lineage_repo,
            source_conversation_id,
            source_messages,
            anchor,
            title,
            created_by,
            new_conversation_id,
            new_root_id,
            created_at,
        )
    }

    /// Forks the path of a branch under fresh random ids, now.
    pub fn fork_branch(
        &self,
        lineage_repo: &mut LineageRepository,
        branch_repo: &BranchRepository,
        source_conversation_id: u128,
        source_branch_id: u128,
        title: String,
        created_by: String,
    ) -> (result: Result<Conversation, DbError>)
        requires
            self.config().max_batch_size > 0,
        ensures
            match result {
                Ok(c) => has_branch(
                    branch_repo.branches(),
                    source_conversation_id,
                    source_branch_id,
                ) && fork_of_path(
                    old(lineage_repo)@,
                    source_conversation_id,
                    branch_at(
                        branch_repo.branches(),
                        source_conversation_id,
                        source_branch_id,
                    ).leaf_message_id,
                    c.conversation_id,
                    c.root_message.message_id,
                    title@,
                    created_by,
                    c.root_message.created_at,
                    self.config().max_batch_size as nat,
                ) == (final(lineage_repo)@, Ok::<MessageView, DbError>(c.root_message@)),
                Err(e) => (e == DbError::NotFound && final(lineage_repo)@ == old(lineage_repo)@)
                    || (e == DbError::Conflict && old(lineage_repo)@.is_prefix_of(
                    final(lineage_repo)@,
                )),
            },
            result == Err::<Conversation, DbError>(DbError::NotFound) <==> !has_branch(
                branch_repo.branches(),
                source_conversation_id,
                source_branch_id,
            ) || !has_key(
                old(lineage_repo)@,
                source_conversation_id,
                branch_at(
                    branch_repo.branches(),
                    source_conversation_id,
                    source_branch_id,
                ).leaf_message_id,
            ),
            result == Err::<Conversation, DbError>(DbError::Conflict) ==> exists|
                new_conversation_id: u128,
                new_root_id: u128,
                created_at: Timestamp,
            | #[trigger]
                fork_of_path(
                    old(lineage_repo)@,
                    source_conversation_id,
                    branch_at(
                        branch_repo.branches(),
                        source_conversation_id,
                        source_branch_id,
                    ).leaf_message_id,
                    new_conversation_id,
                    new_root_id,
                    title@,
                    created_by,
                    created_at,
                    self.config().max_batch_size as nat,
                ) == (final(lineage_repo)@, Err::<MessageView, DbError>(DbError::Conflict)),
            old(lineage_repo).well_formed() ==> final(lineage_repo).well_formed(),
    {
        let new_conversation_id = new_uuid();
        let new_root_id = new_uuid();
        let now = Timestamp::now();
        let ghost title_text = title@;
        let ghost author = created_by;
        let ghost leaf = branch_at(
            branch_repo.branches(),
            source_conversation_id,
            source_branch_id,
        ).leaf_message_id;
        proof {
            lemma_fork_of_path_keeps_store(
                lineage_repo@,
                source_conversation_id,
                leaf,
                new_conversation_id,
                new_root_id,
                title_text,
                author,
                now,
                self.config().max_batch_size as nat,
            );
        }
        let result = self.fork_branch_with(
            lineage_repo,
            branch_repo,
            source_conversation_id,
            source_branch_id,
            title,
            created_by,
            new_conversation_id,
            new_root_id,
            now,
        );
        proof {
            if result == Err::<Conversation, DbError>(DbError::Conflict) {
                assert(fork_of_path(
                    old(lineage_repo)@,
                    source_conversation_id,
                    leaf,
                    new_conversation_id,
                    new_root_id,
                    title_text,
                    author,
                    now,
                    self.config().max_batch_size as nat,
                ) == (lineage_repo@, Err::<MessageView, DbError>(DbError::Conflict)));
            }
        }
        result
    }

    /// Forks the path of a branch: resolves the branch's leaf and forks the
    /// path from the root to that leaf, as `fork_from_message_with` does.
    /// Messages of other branches are not copied. A branch that is not
    /// stored gives `NotFound`.
    pub fn fork_branch_with(
        &self,
        lineage_repo: &mut LineageRepository,
        branch_repo: &BranchRepository,
        source_conversation_id: u128,
        source_branch_id: u128,
        title: String,
        created_by: String,
        new_conversation_id: u128,
        new_root_id: u128,
        created_at: Timestamp,
    ) -> (result: Result<Conversation, DbError>)
        requires
            self.config().max_batch_size > 0,
        ensures
            !has_branch(branch_repo.branches(), source_conversation_id, source_branch_id)
                ==> result == Err::<Conversation, DbError>(DbError::NotFound) && final(lineage_repo)@ == old(lineage_repo)@,
            has_branch(branch_repo.branches(), source_conversation_id, source_branch_id) ==> ({
                let outcome = fork_of_path(
                    old(lineage_repo)@,
                    source_conversation_id,
                    branch_at(
                        branch_repo.branches(),
                        source_conversation_id,
                        source_branch_id,
                    ).leaf_message_id,
                    new_conversation_id,
                    new_root_id,
                    title@,
                    created_by,
                    created_at,
                    self.config().max_batch_size as nat,
                );
                &&& final(lineage_repo)@ == outcome.0
                &&& match result {
                    Ok(c) => c.conversation_id == new_conversation_id && outcome.1 == Ok::<
                        MessageView,
                        DbError,
                    >(c.root_message@),
                    Err(e) => outcome.1 == Err::<MessageView, DbError>(e),
                }
            }),
            old(lineage_repo).well_formed() ==> final(lineage_repo).well_formed(),
    {
        let branch = match branch_repo.get_branch(source_conversation_id, source_branch_id) {
            Ok(branch) => branch,
            Err(e) => {
                return Err(e);
            },
        };
        self.fork_from_message_with(
            lineage_repo,
            source_conversation_id,
            branch.leaf_message_id,
            title,
            created_by,
            new_conversation_id,
            new_root_id,
            created_at,
        )
    }

    /// Forks the path to a message under fresh random ids, now.
    pub fn fork_from_message(
        &self,
        lineage_repo: &mut LineageRepository,
        source_conversation_id: u128,
        source_message_id: u128,
        title: String,
        created_by: String,
    ) -> (result: Result<Conversation, DbError>)
        requires
            self.config().max_batch_size > 0,
        ensures
            match result {
                Ok(c) => fork_of_path(
                    old(lineage_repo)@,
                    source_conversation_id,
                    source_message_id,
                    c.conversation_id,
                    c.root_message.message_id,
                    title@,
                    created_by,
                    c.root_message.created_at,
                    self.config().max_batch_size as nat,
                ) == (final(lineage_repo)@, Ok::<MessageView, DbError>(c.root_message@)),
                Err(e) => (e == DbError::NotFound && final(lineage_repo)@ == old(lineage_repo)@)
                    || (e == DbError::Conflict && old(lineage_repo)@.is_prefix_of(
                    final(lineage_repo)@,
                )),
            },
            result == Err::<Conversation, DbError>(DbError::NotFound) <==> !has_key(
                old(lineage_repo)@,
                source_conversation_id,
                source_message_id,
            ),
            result == Err::<Conversation, DbError>(DbError::Conflict) ==> exists|
                new_conversation_id: u128,
                new_root_id: u128,
                created_at: Timestamp,
            | #[trigger]
                fork_of_path(
                    old(lineage_repo)@,
                    source_conversation_id,
                    source_message_id,
                    new_conversation_id,
                    new_root_id,
                    title@,
                    created_by,
                    created_at,
                    self.config().max_batch_size as nat,
                ) == (final(lineage_repo)@, Err::<MessageView, DbError>(DbError::Conflict)),
            old(lineage_repo).well_formed() ==> final(lineage_repo).well_formed(),
    {
        let new_conversation_id = new_uuid();
        let new_root_id = new_uuid();
        let now = Timestamp::now();
        let ghost title_text = title@;
        let ghost author = created_by;
        proof {
            lemma_fork_of_path_keeps_store(
                lineage_repo@,
                source_conversation_id,
                source_message_id,
                new_conversation_id,
                new_root_id,
                title_text,
                author,
                now,
                self.config().max_batch_size as nat,
            );
        }
        let result = self.fork_from_message_with(
            lineage_repo,
            source_conversation_id,
            source_message_id,
            title,
            created_by,
            new_conversation_id,
            new_root_id,
            now,
        );
        proof {
            if result == Err::<Conversation, DbError>(DbError::Conflict) {
                assert(fork_of_path(
                    old(lineage_repo)@,
                    source_conversation_id,
                    source_message_id,
                    new_conversation_id,
                    new_root_id,
                    title_text,
                    author,
                    now,
                    self.config().max_batch_size as nat,
                ) == (lineage_repo@, Err::<MessageView, DbError>(DbError::Conflict)));
            }
        }
        result
    }

    /// Forks the path to a message: fetches the message (`NotFound` where
    /// it is missing), then every stored message of its lineage, the root
    /// first, and forks that path. The new root names the message at which
    /// the path ends.
    pub fn fork_from_message_with(
        &self,
        lineage_repo: &mut LineageRepository,
        source_conversation_id: u128,
        source_message_id: u128,
        title: String,
        created_by: String,
        new_conversation_id: u128,
        new_root_id: u128,
        created_at: Timestamp,
    ) -> (result: Result<Conversation, DbError>)
        requires
            self.config().max_batch_size > 0,
        ensures
            ({
                let outcome = fork_of_path(
                    old(lineage_repo)@,
                    source_conversation_id,
                    source_message_id,
                    new_conversation_id,
                    new_root_id,
                    title@,
                    created_by,
                    created_at,
                    self.config().max_batch_size as nat,
                );
                &&& final(lineage_repo)@ == outcome.0
                &&& match result {
                    Ok(c) => c.conversation_id == new_conversation_id && outcome.1 == Ok::<
                        MessageView,
                        DbError,
                    >(c.root_message@),
                    Err(e) => outcome.1 == Err::<MessageView, DbError>(e),
                }
            }),
            old(lineage_repo).well_formed() ==> final(lineage_repo).well_formed(),
    {
        let message = match lineage_repo.get_message(source_conversation_id, source_message_id) {
            Ok(message) => message,
            Err(e) => {
                return Err(e);
            },
        };
        let source_messages = match lineage_repo.get_messages_by_ids(
            source_conversation_id,
            message.lineage.as_slice(),
        ) {
            Ok(path) => path,
            Err(e) => {
                return Err(e);
            },
        };
        self.fork_messages_with(
            lineage_repo,
            source_conversation_id,
            source_messages,
            title,
            created_by,
            new_conversation_id,
            new_root_id,
            created_at,
        )
    }
}

/// A fork of a path never removes or changes what the store held: the
/// store after it begins with the store before it, and where the fork
/// succeeded, root and copies stand behind it.
pub proof fn lemma_fork_of_path_keeps_store(
    store: Seq<MessageView>,
    source_conversation_id: u128,
    message_id: u128,
    new_conversation_id: u128,
    new_root_id: u128,
    title: Seq<char>,
    created_by: String,
    created_at: Timestamp,
    batch_size: nat,
)
    ensures
        ({
            let outcome = fork_of_path(
                store,
                source_conversation_id,
                message_id,
                new_conversation_id,
                new_root_id,
                title,
                created_by,
                created_at,
                batch_size,
            );
            &&& store.is_prefix_of(outcome.0)
            &&& outcome.1 == Err::<MessageView, DbError>(DbError::NotFound) ==> outcome.0 == store
            &&& outcome.1 matches Ok(root) ==> outcome.0 == store + forked(
                root,
                lineage_path(
                    store,
                    source_conversation_id,
                    message_at(store, source_conversation_id, message_id).lineage,
                ),
            )
        }),
{
    if has_key(store, source_conversation_id, message_id) {
        let path = lineage_path(
            store,
            source_conversation_id,
            message_at(store, source_conversation_id, message_id).lineage,
        );
        let root = fork_root(
            new_conversation_id,
            new_root_id,
            source_conversation_id,
            path_anchor(path),
            title,
            created_by,
            created_at,
        );
        lemma_stored_in_batches(store, forked(root, path), batch_size);
    }
}

/// Where every batch was accepted, all messages stand behind the store, in
/// order; where one was refused, the store still begins with what it held.
pub proof fn lemma_stored_in_batches(
    store: Seq<MessageView>,
    messages: Seq<MessageView>,
    batch_size: nat,
)
    ensures
        stored_in_batches(store, messages, batch_size).1 ==> stored_in_batches(
            store,
            messages,
            batch_size,
        ).0 == store + messages,
        store.is_prefix_of(stored_in_batches(store, messages, batch_size).0),
    decreases messages.len(),
{
    if messages.len() == 0 {
        assert(store + messages =~= store);
    } else {
        let n = batch_len(messages.len(), batch_size) as int;
        if fresh_batch(store, messages.take(n)) {
            lemma_stored_in_batches(store + messages.take(n), messages.skip(n), batch_size);
            assert(messages.take(n) + messages.skip(n) =~= messages);
            assert((store + messages.take(n)) + messages.skip(n) =~= store + messages);
            let end = stored_in_batches(store, messages, batch_size).0;
            assert(store.is_prefix_of(store + messages.take(n)));
            assert(store.is_prefix_of(end)) by {
                assert((store + messages.take(n)).is_prefix_of(end));
                assert forall|i: int| 0 <= i < store.len() implies store[i] == end[i] by {
                    assert((store + messages.take(n))[i] == end[i]);
                }
            }
        }
    }
}

} // verus!
