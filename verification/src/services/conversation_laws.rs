//! What creating conversations and appending messages keep true of a store.

use vstd::prelude::*;

use crate::db::error::{depth_exceeded, DbError};
use crate::domain::content::ContentTypeView;
use crate::domain::message::{MessageRole, MessageView};
use crate::domain::timestamp::Timestamp;
use crate::repositories::lineage_path::{ancestor_stored, conversation_closed, lineage_resolves};
use crate::services::conversation_service::appended;
use crate::repositories::lineage_repo::{
    conversation_messages, has_key, in_conversation, index_of_key, lemma_filter_members,
    message_at, outside_conversation, without_conversation,
};

verus! {

/// The depth limit counts the child: an append that gives a message of a
/// depth up to `max_depth` succeeds and the child is one deeper than its
/// parent, and an append that would give a deeper one is refused as too
/// deep.
pub proof fn lemma_append_at_the_depth_limit(
    parent: MessageView,
    message_id: u128,
    role: MessageRole,
    content: ContentTypeView,
    content_metadata: Map<String, String>,
    created_by: String,
    created_at: Timestamp,
    max_depth: usize,
)
    ensures
        parent.depth() + 1 <= max_depth ==> (appended(
            parent,
            message_id,
            role,
            content,
            content_metadata,
            created_by,
            created_at,
            max_depth,
        ) matches Ok(child) && child.depth() == parent.depth() + 1 && child.lineage.last()
            == message_id),
        parent.depth() + 1 > max_depth ==> appended(
            parent,
            message_id,
            role,
            content,
            content_metadata,
            created_by,
            created_at,
            max_depth,
        ) == Err::<MessageView, DbError>(depth_exceeded(parent.depth() + 1, max_depth)),
{
}

/// A lineage that resolves in a store resolves in the store with more
/// messages behind it.
pub proof fn lemma_resolves_in_larger_store(
    store: Seq<MessageView>,
    more: Seq<MessageView>,
    m: MessageView,
)
    requires
        lineage_resolves(store, m),
    ensures
        lineage_resolves(store + more, m),
{
    let larger = store + more;
    assert forall|k: int| 0 <= k < m.lineage.len() implies #[trigger] ancestor_stored(
        larger,
        m,
        k,
    ) by {
        assert(ancestor_stored(store, m, k));
        let j = choose|j: int|
            0 <= j < store.len() && (#[trigger] store[j]).conversation_id == m.conversation_id
                && store[j].message_id == m.lineage[k] && store[j].lineage == m.lineage.take(
                k + 1,
            );
        assert(larger[j] == store[j]);
    }
}

/// The first conversation message: once the root of a conversation is
/// stored in a store that held nothing of that conversation, every lineage
/// of the conversation resolves.
pub proof fn lemma_new_conversation_is_closed(store: Seq<MessageView>, root: MessageView)
    requires
        conversation_messages(store, root.conversation_id).len() == 0,
        root.lineage == seq![root.message_id],
    ensures
        lineage_resolves(store.push(root), root),
        conversation_closed(store.push(root), root.conversation_id),
{
    let after = store.push(root);
    assert(after[store.len() as int] == root);
    assert(root.lineage.take(1) =~= root.lineage);
    assert(ancestor_stored(after, root, 0));
    lemma_filter_members(store, in_conversation(root.conversation_id));
    assert forall|i: int|
        0 <= i < after.len() && (#[trigger] after[i]).conversation_id
            == root.conversation_id implies lineage_resolves(after, after[i]) by {
        if i < store.len() {
            assert(after[i] == store[i]);
            assert(store.contains(store[i]));
            assert(store.filter(in_conversation(root.conversation_id)).contains(store[i]));
        }
    }
}

/// Appending keeps a conversation closed: where every lineage of the
/// conversation resolves and `child` extends the lineage of a stored
/// message of the conversation by its own id, every lineage resolves after
/// `child` was stored, that of `child` too.
pub proof fn lemma_append_keeps_closed(
    store: Seq<MessageView>,
    parent: MessageView,
    child: MessageView,
)
    requires
        conversation_closed(store, parent.conversation_id),
        store.contains(parent),
        child.conversation_id == parent.conversation_id,
        child.lineage == parent.lineage.push(child.message_id),
    ensures
        lineage_resolves(store.push(child), child),
        conversation_closed(store.push(child), parent.conversation_id),
        child.depth() == parent.depth() + 1,
        child.lineage.last() == child.message_id,
{
    let after = store.push(child);
    let c = parent.conversation_id;
    assert(after =~= store + seq![child]);
    let p = choose|p: int| 0 <= p < store.len() && store[p] == parent;
    assert(lineage_resolves(store, store[p]));
    assert forall|k: int| 0 <= k < child.lineage.len() implies #[trigger] ancestor_stored(
        after,
        child,
        k,
    ) by {
        if k < parent.lineage.len() {
            assert(ancestor_stored(store, parent, k));
            let j = choose|j: int|
                0 <= j < store.len() && (#[trigger] store[j]).conversation_id == c
                    && store[j].message_id == parent.lineage[k] && store[j].lineage
                    == parent.lineage.take(k + 1);
            assert(after[j] == store[j]);
            assert(child.lineage.take(k + 1) =~= parent.lineage.take(k + 1));
        } else {
            assert(after[store.len() as int] == child);
            assert(child.lineage.take(k + 1) =~= child.lineage);
        }
    }
    assert forall|i: int|
        0 <= i < after.len() && (#[trigger] after[i]).conversation_id == c implies lineage_resolves(
        after,
        after[i],
    ) by {
        if i < store.len() {
            assert(after[i] == store[i]);
            lemma_resolves_in_larger_store(store, seq![child], store[i]);
        }
    }
}

/// Messages of other conversations do not touch a closed conversation:
/// it stays closed when they are stored behind the store.
pub proof fn lemma_other_messages_keep_closed(
    store: Seq<MessageView>,
    more: Seq<MessageView>,
    conversation_id: u128,
)
    requires
        conversation_closed(store, conversation_id),
        forall|i: int| 0 <= i < more.len() ==> (#[trigger] more[i]).conversation_id != conversation_id,
    ensures
        conversation_closed(store + more, conversation_id),
{
    let larger = store + more;
    assert forall|i: int|
        0 <= i < larger.len() && (#[trigger] larger[i]).conversation_id
            == conversation_id implies lineage_resolves(larger, larger[i]) by {
        if i < store.len() {
            assert(larger[i] == store[i]);
            lemma_resolves_in_larger_store(store, more, store[i]);
        } else {
            assert(larger[i] == more[i - store.len()]);
        }
    }
}

/// Deleting one conversation keeps every other conversation closed, and
/// leaves nothing of the deleted one: none of its messages resolves any
/// more.
pub proof fn lemma_delete_keeps_others_closed(
    store: Seq<MessageView>,
    deleted_conversation_id: u128,
    conversation_id: u128,
    message_id: u128,
)
    requires
        conversation_closed(store, conversation_id),
        conversation_id != deleted_conversation_id,
    ensures
        conversation_closed(without_conversation(store, deleted_conversation_id), conversation_id),
        !has_key(
            without_conversation(store, deleted_conversation_id),
            deleted_conversation_id,
            message_id,
        ),
        conversation_messages(
            without_conversation(store, deleted_conversation_id),
            deleted_conversation_id,
        ).len() == 0,
{
    let pred = outside_conversation(deleted_conversation_id);
    let after = without_conversation(store, deleted_conversation_id);
    lemma_filter_members(store, pred);
    lemma_filter_members(after, in_conversation(deleted_conversation_id));
    if has_key(after, deleted_conversation_id, message_id) {
        let i = choose|i: int|
            0 <= i < after.len() && (#[trigger] after[i]).conversation_id
                == deleted_conversation_id && after[i].message_id == message_id;
        assert(after.contains(after[i]));
    }
    if conversation_messages(after, deleted_conversation_id).len() > 0 {
        let gone = conversation_messages(after, deleted_conversation_id);
        assert(gone.contains(gone[0]));
        assert(after.contains(gone[0]));
    }
    assert forall|i: int|
        0 <= i < after.len() && (#[trigger] after[i]).conversation_id
            == conversation_id implies lineage_resolves(after, after[i]) by {
        let m = after[i];
        assert(after.contains(m));
        assert(store.contains(m));
        let a = choose|a: int| 0 <= a < store.len() && store[a] == m;
        assert(lineage_resolves(store, store[a]));
        assert forall|k: int| 0 <= k < m.lineage.len() implies #[trigger] ancestor_stored(
            after,
            m,
            k,
        ) by {
            assert(ancestor_stored(store, m, k));
            let j = choose|j: int|
                0 <= j < store.len() && (#[trigger] store[j]).conversation_id
                    == m.conversation_id && store[j].message_id == m.lineage[k]
                    && store[j].lineage == m.lineage.take(k + 1);
            assert(store.contains(store[j]) && pred(store[j]));
            assert(after.contains(store[j]));
            let b = choose|b: int| 0 <= b < after.len() && after[b] == store[j];
            assert(after[b].conversation_id == m.conversation_id);
        }
    }
}

/// Branching is no conflict: after a child was appended under a parent,
/// the parent is still found as it was, and a second child can be appended
/// under it if and only if its id is free and differs from the first
/// child's.
pub proof fn lemma_siblings_do_not_conflict(
    store: Seq<MessageView>,
    first_child: MessageView,
    parent_message_id: u128,
    second_id: u128,
)
    requires
        has_key(store, first_child.conversation_id, parent_message_id),
    ensures
        has_key(store.push(first_child), first_child.conversation_id, parent_message_id),
        message_at(store.push(first_child), first_child.conversation_id, parent_message_id)
            == message_at(store, first_child.conversation_id, parent_message_id),
        has_key(store.push(first_child), first_child.conversation_id, second_id) <==> has_key(
            store,
            first_child.conversation_id,
            second_id,
        ) || second_id == first_child.message_id,
{
    let c = first_child.conversation_id;
    let after = store.push(first_child);
    let i = index_of_key(store, c, parent_message_id);
    let w = choose|w: int|
        0 <= w < store.len() && (#[trigger] store[w]).conversation_id == c && store[w].message_id
            == parent_message_id;
    lemma_first_index(store, c, parent_message_id, w);
    assert(after[i] == store[i]);
    assert forall|j: int| 0 <= j < i implies !((#[trigger] after[j]).conversation_id == c
        && after[j].message_id == parent_message_id) by {
        assert(after[j] == store[j]);
    }
    let k = index_of_key(after, c, parent_message_id);
    lemma_first_index(after, c, parent_message_id, i);
    if k < i {
        assert(after[k] == store[k]);
    } else if i < k {
        assert(after[i].conversation_id == c);
    }
    if has_key(after, c, second_id) {
        let a = choose|a: int|
            0 <= a < after.len() && (#[trigger] after[a]).conversation_id == c
                && after[a].message_id == second_id;
        if a < store.len() {
            assert(store[a] == after[a]);
        }
    }
    if has_key(store, c, second_id) {
        let a = choose|a: int|
            0 <= a < store.len() && (#[trigger] store[a]).conversation_id == c
                && store[a].message_id == second_id;
        assert(after[a] == store[a]);
    }
    if second_id == first_child.message_id {
        assert(after[store.len() as int] == first_child);
    }
}

/// Where a store holds a key, `index_of_key` is the first place that holds
/// it.
pub proof fn lemma_first_index(store: Seq<MessageView>, conversation_id: u128, message_id: u128, witness: int)
    requires
        0 <= witness < store.len(),
        store[witness].conversation_id == conversation_id,
        store[witness].message_id == message_id,
    ensures
        0 <= index_of_key(store, conversation_id, message_id) <= witness,
        store[index_of_key(store, conversation_id, message_id)].conversation_id
            == conversation_id,
        store[index_of_key(store, conversation_id, message_id)].message_id == message_id,
        forall|j: int|
            0 <= j < index_of_key(store, conversation_id, message_id) ==> !((
            #[trigger] store[j]).conversation_id == conversation_id && store[j].message_id
                == message_id),
    decreases witness,
{
    reveal(index_of_key);
    if exists|j: int|
        0 <= j < witness && (#[trigger] store[j]).conversation_id == conversation_id
            && store[j].message_id == message_id {
        let j = choose|j: int|
            0 <= j < witness && (#[trigger] store[j]).conversation_id == conversation_id
                && store[j].message_id == message_id;
        lemma_first_index(store, conversation_id, message_id, j);
    } else {
        let k = index_of_key(store, conversation_id, message_id);
        assert(0 <= witness < store.len() && store[witness].conversation_id == conversation_id
            && store[witness].message_id == message_id && forall|j: int|
            0 <= j < witness ==> !((#[trigger] store[j]).conversation_id == conversation_id
                && store[j].message_id == message_id));
        if k > witness {
            assert(store[witness].conversation_id == conversation_id);
        }
    }
}

} // verus!
