//! What a fork keeps and what it leaves behind.

use vstd::prelude::*;

use crate::domain::content::ContentTypeView;
use crate::domain::message::MessageView;
use crate::domain::timestamp::Timestamp;
use crate::repositories::lineage_path::{lemma_lineage_path_follows_lineage, lineage_resolves};
use crate::repositories::lineage_repo::{
    conversation_messages, fresh_batch, has_key, in_conversation, keys_unique,
    lemma_filter_keeps_keys_unique, lemma_filter_members, lineage_path,
};
use crate::services::fork_service::{
    batch_len, fork_root, forked, has_root_role, lemma_stored_in_batches, moved_to, not_root,
    stored_in_batches,
};

verus! {

/// The root of a fork is a root of depth 1 that names the conversation it
/// was forked from and the message at which the forked path ends.
pub proof fn lemma_fork_root_names_its_source(
    new_conversation_id: u128,
    new_root_id: u128,
    source_conversation_id: u128,
    anchor: Option<u128>,
    title: Seq<char>,
    created_by: String,
    created_at: Timestamp,
)
    ensures
        ({
            let root = fork_root(
                new_conversation_id,
                new_root_id,
                source_conversation_id,
                anchor,
                title,
                created_by,
                created_at,
            );
            &&& root.is_root()
            &&& root.depth() == 1
            &&& root.well_formed()
            &&& root.conversation_id == new_conversation_id
            &&& root.content matches ContentTypeView::Metadata(metadata)
            &&& metadata.fork_from_conversation_id == Some(source_conversation_id)
            &&& metadata.fork_from_message_id == anchor
            &&& metadata.title == title
        }),
{
}

/// A key is held by a store with more behind it if the store or what is
/// behind it holds the key.
pub proof fn lemma_has_key_concat(
    store: Seq<MessageView>,
    more: Seq<MessageView>,
    conversation_id: u128,
    message_id: u128,
)
    ensures
        has_key(store + more, conversation_id, message_id) <==> has_key(
            store,
            conversation_id,
            message_id,
        ) || has_key(more, conversation_id, message_id),
{
    let both = store + more;
    if has_key(both, conversation_id, message_id) {
        let i = choose|i: int|
            0 <= i < both.len() && (#[trigger] both[i]).conversation_id == conversation_id
                && both[i].message_id == message_id;
        if i < store.len() {
            assert(store[i] == both[i]);
        } else {
            assert(more[i - store.len()] == both[i]);
        }
    }
    if has_key(store, conversation_id, message_id) {
        let i = choose|i: int|
            0 <= i < store.len() && (#[trigger] store[i]).conversation_id == conversation_id
                && store[i].message_id == message_id;
        assert(both[i] == store[i]);
    }
    if has_key(more, conversation_id, message_id) {
        let i = choose|i: int|
            0 <= i < more.len() && (#[trigger] more[i]).conversation_id == conversation_id
                && more[i].message_id == message_id;
        assert(both[i + store.len()] == more[i]);
    }
}

/// A batch is fresh as a whole if and only if its first part is fresh and
/// the rest is fresh once the first part is stored.
pub proof fn lemma_fresh_batch_split(store: Seq<MessageView>, messages: Seq<MessageView>, n: int)
    requires
        0 <= n <= messages.len(),
    ensures
        fresh_batch(store, messages) <==> fresh_batch(store, messages.take(n)) && fresh_batch(
            store + messages.take(n),
            messages.skip(n),
        ),
{
    let head = messages.take(n);
    let tail = messages.skip(n);
    if fresh_batch(store, messages) {
        assert forall|i: int, j: int| 0 <= i < j < head.len() implies !((
        #[trigger] head[i]).conversation_id == (#[trigger] head[j]).conversation_id
            && head[i].message_id == head[j].message_id) by {
            assert(head[i] == messages[i] && head[j] == messages[j]);
        }
        assert forall|i: int, j: int| 0 <= i < j < tail.len() implies !((
        #[trigger] tail[i]).conversation_id == (#[trigger] tail[j]).conversation_id
            && tail[i].message_id == tail[j].message_id) by {
            assert(tail[i] == messages[i + n] && tail[j] == messages[j + n]);
        }
        assert forall|i: int| 0 <= i < head.len() implies !has_key(
            store,
            (#[trigger] head[i]).conversation_id,
            head[i].message_id,
        ) by {
            assert(head[i] == messages[i]);
        }
        assert forall|i: int| 0 <= i < tail.len() implies !has_key(
            store + head,
            (#[trigger] tail[i]).conversation_id,
            tail[i].message_id,
        ) by {
            assert(tail[i] == messages[i + n]);
            lemma_has_key_concat(store, head, tail[i].conversation_id, tail[i].message_id);
            if has_key(head, tail[i].conversation_id, tail[i].message_id) {
                let j = choose|j: int|
                    0 <= j < head.len() && (#[trigger] head[j]).conversation_id
                        == tail[i].conversation_id && head[j].message_id == tail[i].message_id;
                assert(head[j] == messages[j]);
            }
        }
    }
    if fresh_batch(store, head) && fresh_batch(store + head, tail) {
        assert forall|i: int| 0 <= i < messages.len() implies !has_key(
            store,
            (#[trigger] messages[i]).conversation_id,
            messages[i].message_id,
        ) by {
            if i < n {
                assert(head[i] == messages[i]);
            } else {
                assert(tail[i - n] == messages[i]);
                lemma_has_key_concat(store, head, messages[i].conversation_id, messages[i].message_id);
            }
        }
        assert forall|i: int, j: int| 0 <= i < j < messages.len() implies !((
        #[trigger] messages[i]).conversation_id == (#[trigger] messages[j]).conversation_id
            && messages[i].message_id == messages[j].message_id) by {
            if j < n {
                assert(head[i] == messages[i] && head[j] == messages[j]);
            } else if i >= n {
                assert(tail[i - n] == messages[i] && tail[j - n] == messages[j]);
            } else {
                assert(head[i] == messages[i]);
                assert(tail[j - n] == messages[j]);
                lemma_has_key_concat(store, head, messages[j].conversation_id, messages[j].message_id);
            }
        }
    }
}

/// Writing in batches succeeds if and only if the messages are fresh as a
/// whole: their keys differ from one another and from every key of the
/// store. The size of the batches does not matter for that.
pub proof fn lemma_batches_accept_fresh(
    store: Seq<MessageView>,
    messages: Seq<MessageView>,
    batch_size: nat,
)
    ensures
        stored_in_batches(store, messages, batch_size).1 <==> fresh_batch(store, messages),
        fresh_batch(store, messages) ==> stored_in_batches(store, messages, batch_size).0 == store
            + messages,
    decreases messages.len(),
{
    lemma_stored_in_batches(store, messages, batch_size);
    if messages.len() > 0 {
        let n = batch_len(messages.len(), batch_size) as int;
        lemma_fresh_batch_split(store, messages, n);
        if fresh_batch(store, messages.take(n)) {
            lemma_batches_accept_fresh(store + messages.take(n), messages.skip(n), batch_size);
        }
    }
}

/// A sequence falls into the messages with the role of a root and the
/// others.
pub proof fn lemma_roots_and_others(messages: Seq<MessageView>)
    ensures
        messages.filter(has_root_role()).len() + messages.filter(not_root()).len()
            == messages.len(),
    decreases messages.len(),
{
    reveal(Seq::filter);
    if messages.len() > 0 {
        lemma_roots_and_others(messages.drop_last());
    }
}

/// Whether `x` is the copy of a message of `source` that is no root.
pub open spec fn is_copy_from(x: MessageView, source: Seq<MessageView>, conversation_id: u128) -> bool {
    exists|m: MessageView|
        source.contains(m) && !m.is_root() && x == #[trigger] moved_to(m, conversation_id)
}

/// A fork holds its root, and beside it exactly the copies of the source
/// messages that are no root: each of them has its copy, the same in id,
/// parent, role, content and lineage, and every other message of the fork
/// is such a copy.
pub proof fn lemma_fork_copies_every_message(root: MessageView, source: Seq<MessageView>)
    ensures
        forked(root, source)[0] == root,
        forked(root, source).len() == 1 + source.filter(not_root()).len(),
        forall|m: MessageView|
            source.contains(m) && !m.is_root() ==> #[trigger] forked(root, source).contains(
                moved_to(m, root.conversation_id),
            ),
        forall|i: int|
            1 <= i < forked(root, source).len() ==> is_copy_from(
                #[trigger] forked(root, source)[i],
                source,
                root.conversation_id,
            ),
{
    let kept = source.filter(not_root());
    let all = forked(root, source);
    lemma_filter_members(source, not_root());
    assert forall|m: MessageView| source.contains(m) && !m.is_root() implies #[trigger] all.contains(
        moved_to(m, root.conversation_id),
    ) by {
        assert(kept.contains(m));
        let i = choose|i: int| 0 <= i < kept.len() && kept[i] == m;
        assert(all[i + 1] == moved_to(m, root.conversation_id));
    }
    assert forall|i: int| 1 <= i < all.len() implies is_copy_from(
        #[trigger] all[i],
        source,
        root.conversation_id,
    ) by {
        let m = kept[i - 1];
        assert(kept.contains(m));
        assert(all[i] == moved_to(m, root.conversation_id));
    }
}

/// A fork of a source with exactly one root holds as many messages as the
/// source.
pub proof fn lemma_fork_keeps_count(root: MessageView, source: Seq<MessageView>)
    requires
        source.filter(has_root_role()).len() == 1,
    ensures
        forked(root, source).len() == source.len(),
{
    lemma_roots_and_others(source);
    lemma_fork_copies_every_message(root, source);
}

/// A filter that every message meets changes nothing; one that no message
/// meets leaves nothing.
pub proof fn lemma_filter_all_or_none(messages: Seq<MessageView>, pred: spec_fn(MessageView) -> bool)
    ensures
        (forall|i: int| 0 <= i < messages.len() ==> pred(#[trigger] messages[i]))
            ==> messages.filter(pred) == messages,
        (forall|i: int| 0 <= i < messages.len() ==> !pred(#[trigger] messages[i]))
            ==> messages.filter(pred).len() == 0,
    decreases messages.len(),
{
    reveal(Seq::filter);
    if messages.len() > 0 {
        let rest = messages.drop_last();
        lemma_filter_all_or_none(rest, pred);
        if forall|i: int| 0 <= i < messages.len() ==> pred(#[trigger] messages[i]) {
            assert forall|i: int| 0 <= i < rest.len() implies pred(#[trigger] rest[i]) by {
                assert(rest[i] == messages[i]);
            }
            assert(pred(messages[messages.len() - 1]));
            assert(rest.push(messages.last()) =~= messages);
        }
        if forall|i: int| 0 <= i < messages.len() ==> !pred(#[trigger] messages[i]) {
            assert forall|i: int| 0 <= i < rest.len() implies !pred(#[trigger] rest[i]) by {
                assert(rest[i] == messages[i]);
            }
            assert(!pred(messages[messages.len() - 1]));
        }
    }
}

/// After a fork was stored behind a store that held nothing of the new
/// conversation, the new conversation is the fork, and every other
/// conversation is what it was.
pub proof fn lemma_fork_is_new_conversation(
    store: Seq<MessageView>,
    root: MessageView,
    source: Seq<MessageView>,
    other_conversation_id: u128,
)
    requires
        conversation_messages(store, root.conversation_id).len() == 0,
        other_conversation_id != root.conversation_id,
    ensures
        conversation_messages(store + forked(root, source), root.conversation_id) == forked(
            root,
            source,
        ),
        conversation_messages(store + forked(root, source), other_conversation_id)
            == conversation_messages(store, other_conversation_id),
{
    let fork = forked(root, source);
    let new = in_conversation(root.conversation_id);
    let other = in_conversation(other_conversation_id);
    Seq::filter_distributes_over_add(store, fork, new);
    Seq::filter_distributes_over_add(store, fork, other);
    lemma_filter_all_or_none(fork, new);
    lemma_filter_all_or_none(fork, other);
    assert(forall|i: int| 0 <= i < fork.len() ==> new(#[trigger] fork[i]));
    assert(forall|i: int| 0 <= i < fork.len() ==> !other(#[trigger] fork[i]));
    assert(store.filter(new) + fork =~= fork);
    assert(store.filter(other) + fork.filter(other) =~= store.filter(other));
}

/// A fork into a conversation of which the store holds nothing is stored
/// whole, whatever the size of the batches, where the keys of the source
/// are unique and the id of the new root is the id of no source message
/// that is copied.
pub proof fn lemma_fork_into_new_conversation_succeeds(
    store: Seq<MessageView>,
    root: MessageView,
    source: Seq<MessageView>,
    source_conversation_id: u128,
    batch_size: nat,
)
    requires
        conversation_messages(store, root.conversation_id).len() == 0,
        keys_unique(source),
        forall|i: int|
            0 <= i < source.len() ==> (#[trigger] source[i]).conversation_id
                == source_conversation_id,
        forall|i: int|
            0 <= i < source.len() && !source[i].is_root() ==> (#[trigger] source[i]).message_id
                != root.message_id,
    ensures
        stored_in_batches(store, forked(root, source), batch_size) == (
            store + forked(root, source),
            true,
        ),
{
    let fork = forked(root, source);
    let kept = source.filter(not_root());
    lemma_filter_members(source, not_root());
    lemma_filter_keeps_keys_unique(source, not_root());
    lemma_filter_members(store, in_conversation(root.conversation_id));
    assert forall|i: int| 0 <= i < fork.len() implies !has_key(
        store,
        (#[trigger] fork[i]).conversation_id,
        fork[i].message_id,
    ) by {
        if has_key(store, fork[i].conversation_id, fork[i].message_id) {
            let j = choose|j: int|
                0 <= j < store.len() && (#[trigger] store[j]).conversation_id
                    == fork[i].conversation_id && store[j].message_id == fork[i].message_id;
            assert(store.contains(store[j]));
            assert(store.filter(in_conversation(root.conversation_id)).contains(store[j]));
        }
    }
    assert forall|i: int, j: int| 0 <= i < j < fork.len() implies !((
    #[trigger] fork[i]).conversation_id == (#[trigger] fork[j]).conversation_id
        && fork[i].message_id == fork[j].message_id) by {
        assert(fork[j] == moved_to(kept[j - 1], root.conversation_id));
        assert(kept.contains(kept[j - 1]));
        if i == 0 {
            let a = choose|a: int| 0 <= a < source.len() && source[a] == kept[j - 1];
            assert(source[a].message_id != root.message_id);
        } else {
            assert(fork[i] == moved_to(kept[i - 1], root.conversation_id));
            assert(kept.contains(kept[i - 1]));
            let a = choose|a: int| 0 <= a < source.len() && source[a] == kept[i - 1];
            let b = choose|b: int| 0 <= b < source.len() && source[b] == kept[j - 1];
            assert(kept[i - 1].conversation_id == source_conversation_id);
            assert(kept[j - 1].conversation_id == source_conversation_id);
        }
    }
    lemma_batches_accept_fresh(store, fork, batch_size);
}

/// A fork of the path to a message copies that path and nothing else: the
/// fork is as long as the path where the path holds one root, every message
/// of the fork but its root carries an id of the lineage, and a message
/// whose id is not in the lineage, such as one of a sibling branch, has no
/// copy.
pub proof fn lemma_fork_of_path_copies_the_path(
    store: Seq<MessageView>,
    leaf: MessageView,
    root: MessageView,
)
    requires
        keys_unique(store),
        store.contains(leaf),
        lineage_resolves(store, leaf),
    ensures
        ({
            let path = lineage_path(store, leaf.conversation_id, leaf.lineage);
            let fork = forked(root, path);
            &&& forall|k: int|
                0 <= k < leaf.lineage.len() && !(#[trigger] path[k]).is_root() ==> fork.contains(
                    moved_to(path[k], root.conversation_id),
                )
            &&& forall|i: int|
                1 <= i < fork.len() ==> leaf.lineage.contains((#[trigger] fork[i]).message_id)
            &&& forall|m: MessageView|
                store.contains(m) && m.conversation_id == leaf.conversation_id
                    && !leaf.lineage.contains(m.message_id) ==> !exists|i: int|
                    1 <= i < fork.len() && (#[trigger] fork[i]).message_id == m.message_id
            &&& path.filter(has_root_role()).len() == 1 ==> fork.len() == leaf.lineage.len()
        }),
{
    let path = lineage_path(store, leaf.conversation_id, leaf.lineage);
    let fork = forked(root, path);
    lemma_lineage_path_follows_lineage(store, leaf);
    lemma_fork_copies_every_message(root, path);
    lemma_roots_and_others(path);
    assert forall|k: int| 0 <= k < leaf.lineage.len() && !(
    #[trigger] path[k]).is_root() implies fork.contains(
        moved_to(path[k], root.conversation_id),
    ) by {
        assert(path.contains(path[k]));
    }
    assert forall|i: int| 1 <= i < fork.len() implies leaf.lineage.contains(
        (#[trigger] fork[i]).message_id,
    ) by {
        assert(is_copy_from(fork[i], path, root.conversation_id));
        let m = choose|m: MessageView|
            path.contains(m) && !m.is_root() && fork[i] == #[trigger] moved_to(
                m,
                root.conversation_id,
            );
        let k = choose|k: int| 0 <= k < path.len() && path[k] == m;
        assert(path[k].message_id == leaf.lineage[k]);
    }
}

} // verus!
