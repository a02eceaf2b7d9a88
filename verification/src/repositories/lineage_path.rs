//! What the order by depth does, and why a multi-get along a lineage returns
//! the path from the root.

use vstd::prelude::*;

use crate::domain::message::MessageView;
use crate::repositories::lineage_repo::{
    ascending_by_depth, insert_by_depth, is_one_of, keys_unique,
    lemma_filter_keeps_keys_unique, lemma_filter_members, lineage_path, messages_with_ids,
    sorted_by_depth,
};

verus! {

/// The place at which `insert_by_depth` puts `m`: the number of leading
/// messages of `sorted` that are shallower than `m`.
pub open spec fn place_by_depth(m: MessageView, sorted: Seq<MessageView>) -> int
    decreases sorted.len(),
{
    if sorted.len() == 0 || m.depth() <= sorted[0].depth() {
        0
    } else {
        1 + place_by_depth(m, sorted.skip(1))
    }
}

/// `insert_by_depth` puts `m` in at `place_by_depth` and moves nothing else.
pub proof fn lemma_insert_by_depth_is_insert(m: MessageView, sorted: Seq<MessageView>)
    ensures
        0 <= place_by_depth(m, sorted) <= sorted.len(),
        insert_by_depth(m, sorted) == sorted.insert(place_by_depth(m, sorted), m),
        forall|j: int|
            0 <= j < place_by_depth(m, sorted) ==> (#[trigger] sorted[j]).depth() < m.depth(),
        place_by_depth(m, sorted) < sorted.len() ==> m.depth() <= sorted[place_by_depth(
            m,
            sorted,
        )].depth(),
    decreases sorted.len(),
{
    if sorted.len() == 0 || m.depth() <= sorted[0].depth() {
        assert(seq![m] + sorted =~= sorted.insert(0, m));
    } else {
        let rest = sorted.skip(1);
        let p = place_by_depth(m, rest);
        lemma_insert_by_depth_is_insert(m, rest);
        assert(seq![sorted[0]] + rest.insert(p, m) =~= sorted.insert(p + 1, m));
        assert forall|j: int| 0 <= j < p + 1 implies (#[trigger] sorted[j]).depth()
            < m.depth() by {
            if j > 0 {
                assert(rest[j - 1] == sorted[j]);
            }
        }
        if p + 1 < sorted.len() {
            assert(rest[p] == sorted[p + 1]);
        }
    }
}

/// The order by depth is a rearrangement: the sorted sequence holds the
/// same messages, each as often as before; no message stands before a
/// shallower one; and keys that were unique stay unique.
pub proof fn lemma_sorted_by_depth(messages: Seq<MessageView>)
    ensures
        sorted_by_depth(messages).to_multiset() == messages.to_multiset(),
        sorted_by_depth(messages).len() == messages.len(),
        forall|x: MessageView| #[trigger]
            sorted_by_depth(messages).contains(x) <==> messages.contains(x),
        ascending_by_depth(sorted_by_depth(messages)),
        keys_unique(messages) ==> keys_unique(sorted_by_depth(messages)),
    decreases messages.len(),
{
    let sorted = sorted_by_depth(messages);
    if messages.len() == 0 {
    } else {
        let first = messages[0];
        let rest = messages.skip(1);
        let tail = sorted_by_depth(rest);
        let p = place_by_depth(first, tail);
        lemma_sorted_by_depth(rest);
        lemma_insert_by_depth_is_insert(first, tail);
        assert(sorted == tail.insert(p, first));
        assert(messages =~= rest.insert(0, first));
        vstd::seq_lib::to_multiset_insert(tail, p, first);
        vstd::seq_lib::to_multiset_insert(rest, 0, first);
        assert(sorted.to_multiset() =~= messages.to_multiset());
        assert forall|x: MessageView| #[trigger] sorted.contains(x) <==> messages.contains(
            x,
        ) by {
            if sorted.contains(x) {
                let i = choose|i: int| 0 <= i < sorted.len() && sorted[i] == x;
                if i < p {
                    assert(tail[i] == x);
                    assert(tail.contains(x));
                } else if i > p {
                    assert(tail[i - 1] == x);
                    assert(tail.contains(x));
                }
                if tail.contains(x) {
                    assert(rest.contains(x));
                    let j = choose|j: int| 0 <= j < rest.len() && rest[j] == x;
                    assert(messages[j + 1] == x);
                } else {
                    assert(messages[0] == x);
                }
            }
            if messages.contains(x) {
                let j = choose|j: int| 0 <= j < messages.len() && messages[j] == x;
                if j == 0 {
                    assert(sorted[p] == x);
                } else {
                    assert(rest[j - 1] == x);
                    assert(rest.contains(x));
                    assert(tail.contains(x));
                    let i = choose|i: int| 0 <= i < tail.len() && tail[i] == x;
                    if i < p {
                        assert(sorted[i] == x);
                    } else {
                        assert(sorted[i + 1] == x);
                    }
                }
            }
        }
        assert forall|i: int, j: int| 0 <= i < j < sorted.len() implies (
        #[trigger] sorted[i]).depth() <= (#[trigger] sorted[j]).depth() by {
            let i0 = if i < p { i } else { i - 1 };
            let j0 = if j < p { j } else { j - 1 };
            if i != p {
                assert(sorted[i] == tail[i0]);
            }
            if j != p {
                assert(sorted[j] == tail[j0]);
            }
        }
        if keys_unique(messages) {
            assert forall|i: int, j: int| 0 <= i < j < rest.len() implies !((
            #[trigger] rest[i]).conversation_id == (#[trigger] rest[j]).conversation_id
                && rest[i].message_id == rest[j].message_id) by {
                assert(rest[i] == messages[i + 1]);
                assert(rest[j] == messages[j + 1]);
            }
            assert forall|i: int, j: int| 0 <= i < j < sorted.len() implies !((
            #[trigger] sorted[i]).conversation_id == (#[trigger] sorted[j]).conversation_id
                && sorted[i].message_id == sorted[j].message_id) by {
                let i0 = if i < p { i } else { i - 1 };
                let j0 = if j < p { j } else { j - 1 };
                if i != p && j != p {
                    assert(sorted[i] == tail[i0]);
                    assert(sorted[j] == tail[j0]);
                } else {
                    let other = if i == p { sorted[j] } else { sorted[i] };
                    let o = if i == p { j0 } else { i0 };
                    assert(other == tail[o]);
                    assert(tail.contains(other));
                    assert(rest.contains(other));
                    let r = choose|r: int| 0 <= r < rest.len() && rest[r] == other;
                    assert(messages[r + 1] == other);
                    assert(messages[0] == first);
                }
            }
        }
    }
}

/// Whether `store` holds the ancestor at position `k` of the lineage of
/// `m`, with the lineage that an ancestor at that position has: the lineage
/// of `m` up to that position.
pub open spec fn ancestor_stored(store: Seq<MessageView>, m: MessageView, k: int) -> bool {
    exists|j: int|
        0 <= j < store.len() && (#[trigger] store[j]).conversation_id == m.conversation_id
            && store[j].message_id == m.lineage[k] && store[j].lineage == m.lineage.take(k + 1)
}

/// The lineage of `m` is the exact, gapless chain of its ancestors in
/// `store`: it ends in the id of `m`, and every id in it belongs to a stored
/// message of the conversation whose own lineage is the chain up to there.
pub open spec fn lineage_resolves(store: Seq<MessageView>, m: MessageView) -> bool {
    &&& m.lineage.len() >= 1
    &&& m.lineage.last() == m.message_id
    &&& forall|k: int| 0 <= k < m.lineage.len() ==> #[trigger] ancestor_stored(store, m, k)
}

/// Every stored message of a conversation has a lineage that resolves.
pub open spec fn conversation_closed(store: Seq<MessageView>, conversation_id: u128) -> bool {
    forall|i: int|
        0 <= i < store.len() && (#[trigger] store[i]).conversation_id == conversation_id
            ==> lineage_resolves(store, store[i])
}

/// `x` is the message that stands in the chain `lineage` at the place that
/// its own depth gives.
pub open spec fn on_chain(x: MessageView, conversation_id: u128, lineage: Seq<u128>) -> bool {
    &&& x.conversation_id == conversation_id
    &&& 1 <= x.depth() <= lineage.len()
    &&& x.lineage == lineage.take(x.depth() as int)
    &&& x.message_id == lineage[x.depth() - 1]
}

/// Whether `path` holds a message of depth `k + 1`.
pub open spec fn holds_place(path: Seq<MessageView>, k: int) -> bool {
    exists|i: int| 0 <= i < path.len() && (#[trigger] path[i]).depth() == k + 1
}

proof fn lemma_chain_depth_from_below(path: Seq<MessageView>, conversation_id: u128, lineage: Seq<u128>, i: int)
    requires
        0 <= i < path.len(),
        forall|a: int| 0 <= a < path.len() ==> on_chain(#[trigger] path[a], conversation_id, lineage),
        forall|a: int, b: int|
            0 <= a < b < path.len() ==> (#[trigger] path[a]).depth() < (#[trigger] path[b]).depth(),
    ensures
        path[i].depth() >= i + 1,
    decreases i,
{
    if i > 0 {
        lemma_chain_depth_from_below(path, conversation_id, lineage, i - 1);
        assert(path[i - 1].depth() < path[i].depth());
    } else {
        assert(on_chain(path[0], conversation_id, lineage));
    }
}

proof fn lemma_chain_is_complete(path: Seq<MessageView>, conversation_id: u128, lineage: Seq<u128>, v: int)
    requires
        0 <= v < lineage.len(),
        forall|a: int| 0 <= a < path.len() ==> on_chain(#[trigger] path[a], conversation_id, lineage),
        forall|a: int, b: int|
            0 <= a < b < path.len() ==> (#[trigger] path[a]).depth() < (#[trigger] path[b]).depth(),
        forall|k: int| 0 <= k < lineage.len() ==> #[trigger] holds_place(path, k),
    ensures
        v < path.len(),
        path[v].depth() == v + 1,
    decreases v,
{
    assert(holds_place(path, v));
    let i = choose|i: int| 0 <= i < path.len() && (#[trigger] path[i]).depth() == v + 1;
    lemma_chain_depth_from_below(path, conversation_id, lineage, i);
    if i < v {
        lemma_chain_is_complete(path, conversation_id, lineage, i);
    }
}

/// The path that is read along the lineage of a stored message is the
/// chain of its ancestors, the root first: it is as long as the lineage,
/// its message at each place carries the id that the lineage holds there,
/// and it ends in the message itself.
pub proof fn lemma_lineage_path_follows_lineage(store: Seq<MessageView>, m: MessageView)
    requires
        keys_unique(store),
        store.contains(m),
        lineage_resolves(store, m),
    ensures
        lineage_path(store, m.conversation_id, m.lineage).len() == m.lineage.len(),
        forall|k: int|
            0 <= k < m.lineage.len() ==> (#[trigger] lineage_path(
                store,
                m.conversation_id,
                m.lineage,
            )[k]).message_id == m.lineage[k] && lineage_path(
                store,
                m.conversation_id,
                m.lineage,
            )[k].lineage == m.lineage.take(k + 1) && lineage_path(
                store,
                m.conversation_id,
                m.lineage,
            )[k].conversation_id == m.conversation_id && store.contains(
                lineage_path(store, m.conversation_id, m.lineage)[k],
            ),
        lineage_path(store, m.conversation_id, m.lineage).last() == m,
{
    let c = m.conversation_id;
    let chain = m.lineage;
    let n = chain.len();
    let pred = is_one_of(c, chain);
    let found = messages_with_ids(store, c, chain);
    let path = sorted_by_depth(found);
    lemma_filter_members(store, pred);
    lemma_filter_keeps_keys_unique(store, pred);
    lemma_sorted_by_depth(found);
    assert forall|a: int| 0 <= a < path.len() implies on_chain(#[trigger] path[a], c, chain)
        && store.contains(path[a]) by {
        let x = path[a];
        assert(path.contains(x));
        assert(found.contains(x));
        assert(store.contains(x) && pred(x));
        let k = choose|k: int| 0 <= k < chain.len() && chain[k] == x.message_id;
        assert(ancestor_stored(store, m, k));
        let j = choose|j: int|
            0 <= j < store.len() && (#[trigger] store[j]).conversation_id == c
                && store[j].message_id == chain[k] && store[j].lineage == chain.take(k + 1);
        let i = choose|i: int| 0 <= i < store.len() && store[i] == x;
        if i < j {
            assert(store[i].conversation_id == store[j].conversation_id);
        } else if j < i {
            assert(store[j].conversation_id == store[i].conversation_id);
        }
        assert(i == j);
    }
    assert forall|a: int, b: int| 0 <= a < b < path.len() implies (#[trigger] path[a]).depth() < (
    #[trigger] path[b]).depth() by {
        assert(on_chain(path[a], c, chain));
        assert(on_chain(path[b], c, chain));
        assert(path[a].depth() <= path[b].depth());
        if path[a].depth() == path[b].depth() {
            assert(path[a].conversation_id == path[b].conversation_id);
        }
    }
    assert forall|k: int| 0 <= k < chain.len() implies #[trigger] holds_place(path, k) by {
        assert(ancestor_stored(store, m, k));
        let j = choose|j: int|
            0 <= j < store.len() && (#[trigger] store[j]).conversation_id == c
                && store[j].message_id == chain[k] && store[j].lineage == chain.take(k + 1);
        assert(chain.contains(store[j].message_id));
        assert(store.contains(store[j]) && pred(store[j]));
        assert(found.contains(store[j]));
        assert(path.contains(store[j]));
        let i = choose|i: int| 0 <= i < path.len() && path[i] == store[j];
        assert(path[i].depth() == k + 1);
    }
    assert forall|k: int| 0 <= k < n implies k < path.len() && (#[trigger] path[k]).message_id
        == chain[k] && path[k].lineage == chain.take(k + 1) && path[k].conversation_id == c
        && store.contains(path[k]) by {
        lemma_chain_is_complete(path, c, chain, k);
        assert(on_chain(path[k], c, chain));
    }
    lemma_chain_is_complete(path, c, chain, n - 1);
    if path.len() > n {
        lemma_chain_depth_from_below(path, c, chain, n as int);
        assert(on_chain(path[n as int], c, chain));
    }
    assert(path.len() == n);
    let last = path[n - 1];
    assert(store.contains(last));
    assert(last.message_id == m.message_id);
    let i = choose|i: int| 0 <= i < store.len() && store[i] == last;
    let j = choose|j: int| 0 <= j < store.len() && store[j] == m;
    if i < j {
        assert(store[i].conversation_id == store[j].conversation_id);
    } else if j < i {
        assert(store[j].conversation_id == store[i].conversation_id);
    }
}

} // verus!
