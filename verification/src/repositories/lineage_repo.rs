//! The tree store: every message of every conversation, keyed by
//! conversation id and message id.

use vstd::prelude::*;

use crate::db::error::DbError;
use crate::domain::message::{Message, MessageView};
use crate::utils::lineage_utils::is_ancestor;

verus! {

/// The views of a sequence of messages.
pub open spec fn message_views(messages: Seq<Message>) -> Seq<MessageView> {
    messages.map_values(|m: Message| m@)
}

/// Whether `store` holds a message under the key `(conversation_id, message_id)`.
pub open spec fn has_key(store: Seq<MessageView>, conversation_id: u128, message_id: u128) -> bool {
    exists|i: int|
        0 <= i < store.len() && (#[trigger] store[i]).conversation_id == conversation_id
            && store[i].message_id == message_id
}

/// No two messages of `store` share a key.
pub open spec fn keys_unique(store: Seq<MessageView>) -> bool {
    forall|i: int, j: int|
        0 <= i < j < store.len() ==> !((#[trigger] store[i]).conversation_id == (
        #[trigger] store[j]).conversation_id && store[i].message_id == store[j].message_id)
}

pub open spec fn in_conversation(conversation_id: u128) -> spec_fn(MessageView) -> bool {
    |m: MessageView| m.conversation_id == conversation_id
}

pub open spec fn outside_conversation(conversation_id: u128) -> spec_fn(MessageView) -> bool {
    |m: MessageView| m.conversation_id != conversation_id
}

pub open spec fn is_child_of(conversation_id: u128, parent_message_id: u128) -> spec_fn(
    MessageView,
) -> bool {
    |m: MessageView|
        m.conversation_id == conversation_id && m.parent_message_id == Some(parent_message_id)
}

pub open spec fn is_one_of(conversation_id: u128, message_ids: Seq<u128>) -> spec_fn(
    MessageView,
) -> bool {
    |m: MessageView| m.conversation_id == conversation_id && message_ids.contains(m.message_id)
}

/// The messages of one conversation, in the order in which they were stored.
pub open spec fn conversation_messages(store: Seq<MessageView>, conversation_id: u128) -> Seq<
    MessageView,
> {
    store.filter(in_conversation(conversation_id))
}

/// The store without the messages of one conversation.
pub open spec fn without_conversation(store: Seq<MessageView>, conversation_id: u128) -> Seq<
    MessageView,
> {
    store.filter(outside_conversation(conversation_id))
}

/// The messages of a conversation whose parent is `parent_message_id`.
pub open spec fn children_of(
    store: Seq<MessageView>,
    conversation_id: u128,
    parent_message_id: u128,
) -> Seq<MessageView> {
    store.filter(is_child_of(conversation_id, parent_message_id))
}

/// The messages of a conversation whose id is among `message_ids`, in the
/// order in which they were stored.
pub open spec fn messages_with_ids(
    store: Seq<MessageView>,
    conversation_id: u128,
    message_ids: Seq<u128>,
) -> Seq<MessageView> {
    store.filter(is_one_of(conversation_id, message_ids))
}

/// The place of the first message of `store` under a key.
#[verifier::opaque]
pub open spec fn index_of_key(store: Seq<MessageView>, conversation_id: u128, message_id: u128) -> int {
    choose|i: int|
        0 <= i < store.len() && (#[trigger] store[i]).conversation_id == conversation_id
            && store[i].message_id == message_id && forall|j: int|
            0 <= j < i ==> !((#[trigger] store[j]).conversation_id == conversation_id
                && store[j].message_id == message_id)
}

/// The first message of `store` under a key.
pub open spec fn message_at(store: Seq<MessageView>, conversation_id: u128, message_id: u128) -> MessageView {
    store[index_of_key(store, conversation_id, message_id)]
}

/// The store after `message` was written over the message under its key,
/// or added where there was none.
pub open spec fn upserted(store: Seq<MessageView>, message: MessageView) -> Seq<MessageView> {
    if has_key(store, message.conversation_id, message.message_id) {
        store.update(index_of_key(store, message.conversation_id, message.message_id), message)
    } else {
        store.push(message)
    }
}

/// A batch that can be added whole: its keys differ from one another and
/// from every key of the store.
pub open spec fn fresh_batch(store: Seq<MessageView>, batch: Seq<MessageView>) -> bool {
    &&& keys_unique(batch)
    &&& forall|i: int|
        0 <= i < batch.len() ==> !has_key(
            store,
            (#[trigger] batch[i]).conversation_id,
            batch[i].message_id,
        )
}

/// `m` put into `sorted` before the first message that is at least as deep.
pub open spec fn insert_by_depth(m: MessageView, sorted: Seq<MessageView>) -> Seq<MessageView>
    decreases sorted.len(),
{
    if sorted.len() == 0 || m.depth() <= sorted[0].depth() {
        seq![m] + sorted
    } else {
        seq![sorted[0]] + insert_by_depth(m, sorted.skip(1))
    }
}

/// `messages` in the order of ascending depth; messages of one depth keep
/// the order in which they came.
pub open spec fn sorted_by_depth(messages: Seq<MessageView>) -> Seq<MessageView>
    decreases messages.len(),
{
    if messages.len() == 0 {
        messages
    } else {
        insert_by_depth(messages[0], sorted_by_depth(messages.skip(1)))
    }
}

/// No message of `messages` stands before a shallower one.
pub open spec fn ascending_by_depth(messages: Seq<MessageView>) -> bool {
    forall|i: int, j: int|
        0 <= i < j < messages.len() ==> (#[trigger] messages[i]).depth() <= (
        #[trigger] messages[j]).depth()
}

/// What a multi-get returns: the messages of a conversation whose id is
/// among `message_ids`, the root end first.
pub open spec fn lineage_path(
    store: Seq<MessageView>,
    conversation_id: u128,
    message_ids: Seq<u128>,
) -> Seq<MessageView> {
    sorted_by_depth(messages_with_ids(store, conversation_id, message_ids))
}

/// Filtering a sequence that ends in `last`: `last` is kept or dropped, the
/// rest is filtered as before.
pub proof fn lemma_filter_push<A>(s: Seq<A>, last: A, pred: spec_fn(A) -> bool)
    ensures
        s.push(last).filter(pred) == if pred(last) {
            s.filter(pred).push(last)
        } else {
            s.filter(pred)
        },
{
    reveal(Seq::filter);
    assert(s.push(last).drop_last() =~= s);
}

/// A filtered sequence holds exactly the members of the sequence that meet
/// the predicate.
pub proof fn lemma_filter_members<A>(s: Seq<A>, pred: spec_fn(A) -> bool)
    ensures
        forall|x: A| #[trigger] s.filter(pred).contains(x) <==> s.contains(x) && pred(x),
{
    assert forall|x: A| s.contains(x) && pred(x) implies #[trigger] s.filter(pred).contains(
        x,
    ) by {
        let i = choose|i: int| 0 <= i < s.len() && s[i] == x;
        s.lemma_filter_contains(pred, i);
    }
    assert forall|x: A| #[trigger] s.filter(pred).contains(x) implies s.contains(x) && pred(
        x,
    ) by {
        let i = choose|i: int| 0 <= i < s.filter(pred).len() && s.filter(pred)[i] == x;
        s.lemma_filter_pred(pred, i);
        s.lemma_filter_contains_rev(pred, x);
    }
}

/// The in-memory tree store.
pub struct LineageRepository {
    messages: Vec<Message>,
}

impl View for LineageRepository {
    type V = Seq<MessageView>;

    closed spec fn view(&self) -> Seq<MessageView> {
        message_views(self.messages@)
    }
}

impl LineageRepository {
    /// No two stored messages share a key. It holds of a new store, and
    /// every operation keeps it.
    pub open spec fn well_formed(&self) -> bool {
        keys_unique(self@)
    }

    /// An empty store.
    pub fn new() -> (store: Self)
        ensures
            store@ == Seq::<MessageView>::empty(),
            store.well_formed(),
    {
        let store = LineageRepository { messages: Vec::new() };
        assert(store@ =~= Seq::<MessageView>::empty());
        store
    }

    /// The number of stored messages, over all conversations.
    pub fn len(&self) -> (len: usize)
        ensures
            len == self@.len(),
    {
        self.messages.len()
    }

    /// The place of the message under a key, if it is stored.
    fn position(&self, conversation_id: u128, message_id: u128) -> (place: Option<usize>)
        ensures
            place matches Some(i) ==> i < self@.len() && self@[i as int].conversation_id
                == conversation_id && self@[i as int].message_id == message_id && forall|j: int|
                0 <= j < i ==> !((#[trigger] self@[j]).conversation_id == conversation_id
                    && self@[j].message_id == message_id),
            place is None ==> !has_key(self@, conversation_id, message_id),
    {
        let mut i: usize = 0;
        while i < self.messages.len()
            invariant
                i <= self.messages.len(),
                forall|j: int|
                    0 <= j < i ==> !((#[trigger] self@[j]).conversation_id == conversation_id
                        && self@[j].message_id == message_id),
            decreases self.messages.len() - i,
        {
            if self.messages[i].conversation_id == conversation_id && self.messages[i].message_id
                == message_id {
                return Some(i);
            }
            i = i + 1;
        }
        None
    }

    /// Stores a new message. A message under the same key is never
    /// replaced: the insert is refused and the store stays as it was.
    pub fn insert_message(&mut self, message: Message) -> (result: Result<(), DbError>)
        ensures
            has_key(old(self)@, message.conversation_id, message.message_id) ==> result == Err::<
                (),
                DbError,
            >(DbError::Conflict) && final(self)@ == old(self)@,
            !has_key(old(self)@, message.conversation_id, message.message_id) ==> result is Ok
                && final(self)@ == old(self)@.push(message@),
            old(self).well_formed() ==> final(self).well_formed(),
    {
        match self.position(message.conversation_id, message.message_id) {
            Some(_) => Err(DbError::Conflict),
            None => {
                let ghost before = self@;
                let ghost added = message@;
                self.messages.push(message);
                proof {
                    assert(self@ =~= before.push(added));
                    if keys_unique(before) {
                        lemma_push_keeps_keys_unique(before, added);
                    }
                }
                Ok(())
            },
        }
    }

    /// The message under a key.
    pub fn get_message(&self, conversation_id: u128, message_id: u128) -> (result: Result<
        Message,
        DbError,
    >)
        ensures
            result is Ok <==> has_key(self@, conversation_id, message_id),
            result matches Ok(m) ==> m@ == message_at(self@, conversation_id, message_id)
                && self@.contains(m@) && m.conversation_id == conversation_id && m.message_id
                == message_id,
            result matches Err(e) ==> e == DbError::NotFound,
    {
        match self.position(conversation_id, message_id) {
            Some(i) => {
                let found = self.messages[i].clone();
                proof {
                    reveal(index_of_key);
                    assert(self@[i as int] == found@);
                    let k = index_of_key(self@, conversation_id, message_id);
                    if k < i {
                        assert(self@[k].conversation_id == conversation_id);
                    }
                }
                Ok(found)
            },
            None => Err(DbError::NotFound),
        }
    }
}

/// Which messages of a conversation a read asks for.
enum Selector<'a> {
    Whole,
    ChildrenOf(u128),
    OneOf(&'a [u128]),
}

impl<'a> Selector<'a> {
    spec fn predicate(self, conversation_id: u128) -> spec_fn(MessageView) -> bool {
        match self {
            Selector::Whole => in_conversation(conversation_id),
            Selector::ChildrenOf(parent) => is_child_of(conversation_id, parent),
            Selector::OneOf(ids) => is_one_of(conversation_id, ids@),
        }
    }

    fn selects(&self, conversation_id: u128, message: &Message) -> (selected: bool)
        ensures
            selected == (self.predicate(conversation_id))(message@),
    {
        if message.conversation_id != conversation_id {
            return false;
        }
        match self {
            Selector::Whole => true,
            Selector::ChildrenOf(parent) => match message.parent_message_id {
                Some(p) => p == *parent,
                None => false,
            },
            Selector::OneOf(ids) => is_ancestor(message.message_id, ids),
        }
    }
}

impl LineageRepository {
    /// Copies of the selected messages, in the order in which they are
    /// stored.
    fn select(&self, conversation_id: u128, selector: Selector) -> (found: Vec<Message>)
        ensures
            message_views(found@) == self@.filter(selector.predicate(conversation_id)),
    {
        let mut found: Vec<Message> = Vec::new();
        let ghost pred = selector.predicate(conversation_id);
        let mut i: usize = 0;
        proof {
            reveal(Seq::filter);
            assert(self@.take(0).filter(pred) =~= Seq::<MessageView>::empty());
            assert(message_views(found@) =~= Seq::<MessageView>::empty());
        }
        while i < self.messages.len()
            invariant
                i <= self.messages.len(),
                pred == selector.predicate(conversation_id),
                message_views(found@) == self@.take(i as int).filter(pred),
            decreases self.messages.len() - i,
        {
            let ghost before = message_views(found@);
            proof {
                lemma_filter_push(self@.take(i as int), self@[i as int], pred);
                assert(self@.take(i as int).push(self@[i as int]) =~= self@.take(i as int + 1));
            }
            if selector.selects(conversation_id, &self.messages[i]) {
                let copy = self.messages[i].clone();
                let ghost copied = copy@;
                found.push(copy);
                assert(message_views(found@) =~= before.push(copied));
            }
            i = i + 1;
        }
        assert(self@.take(i as int) =~= self@);
        found
    }

    /// All messages of a conversation whose parent is `parent_message_id`:
    /// the branches that start at that message.
    pub fn get_children(&self, conversation_id: u128, parent_message_id: u128) -> (result: Result<
        Vec<Message>,
        DbError,
    >)
        ensures
            result matches Ok(children) && message_views(children@) == children_of(
                self@,
                conversation_id,
                parent_message_id,
            ),
    {
        Ok(self.select(conversation_id, Selector::ChildrenOf(parent_message_id)))
    }

    /// The messages of a conversation whose id is among `message_ids`, in
    /// the order of ascending depth.
    pub fn get_messages_by_ids(&self, conversation_id: u128, message_ids: &[u128]) -> (result:
        Result<Vec<Message>, DbError>)
        ensures
            result matches Ok(found) && message_views(found@) == lineage_path(
                self@,
                conversation_id,
                message_ids@,
            ),
    {
        if message_ids.len() == 0 {
            proof {
                let pred = is_one_of(conversation_id, message_ids@);
                if self@.filter(pred).len() > 0 {
                    self@.lemma_filter_pred(pred, 0);
                    assert(message_ids@.contains(self@.filter(pred)[0].message_id));
                }
                assert(sorted_by_depth(self@.filter(pred)) =~= Seq::<MessageView>::empty());
            }
            let none: Vec<Message> = Vec::new();
            assert(message_views(none@) =~= Seq::<MessageView>::empty());
            return Ok(none);
        }
        Ok(sort_by_depth(self.select(conversation_id, Selector::OneOf(message_ids))))
    }

    /// The whole tree of a conversation.
    pub fn get_all_messages(&self, conversation_id: u128) -> (result: Result<Vec<Message>, DbError>)
        ensures
            result matches Ok(all) && message_views(all@) == conversation_messages(
                self@,
                conversation_id,
            ),
    {
        Ok(self.select(conversation_id, Selector::Whole))
    }

    /// Removes every message of a conversation. Branches and shares of the
    /// conversation are not touched.
    pub fn delete_conversation(&mut self, conversation_id: u128) -> (result: Result<(), DbError>)
        ensures
            result is Ok,
            final(self)@ == without_conversation(old(self)@, conversation_id),
            old(self).well_formed() ==> final(self).well_formed(),
    {
        let mut all: Vec<Message> = Vec::new();
        std::mem::swap(&mut self.messages, &mut all);
        let ghost before = message_views(all@);
        let ghost pred = outside_conversation(conversation_id);
        let mut kept: Vec<Message> = Vec::new();
        proof {
            reveal(Seq::filter);
            assert(before.take(0).filter(pred) =~= Seq::<MessageView>::empty());
            assert(message_views(kept@) =~= Seq::<MessageView>::empty());
        }
        for m in it: all
            invariant
                it.seq() == all@,
                before == message_views(all@),
                pred == outside_conversation(conversation_id),
                message_views(kept@) == before.take(it.index() as int).filter(pred),
        {
            proof {
                lemma_filter_push(before.take(it.index() as int), m@, pred);
                assert(before.take(it.index() as int).push(m@) =~= before.take(
                    it.index() as int + 1,
                ));
            }
            let ghost so_far = message_views(kept@);
            if m.conversation_id != conversation_id {
                let ghost kept_one = m@;
                kept.push(m);
                assert(message_views(kept@) =~= so_far.push(kept_one));
            }
        }
        proof {
            assert(before.take(all@.len() as int) =~= before);
            if keys_unique(before) {
                lemma_filter_keeps_keys_unique(before, pred);
            }
        }
        self.messages = kept;
        Ok(())
    }

    /// Writes a message over the one under its key, or adds it where there
    /// is none. This is the path by which a root message is rewritten.
    pub fn upsert_message(&mut self, message: Message) -> (result: Result<(), DbError>)
        ensures
            result is Ok,
            final(self)@ == upserted(old(self)@, message@),
            old(self).well_formed() ==> final(self).well_formed(),
    {
        let ghost before = self@;
        let ghost written = message@;
        match self.position(message.conversation_id, message.message_id) {
            Some(i) => {
                self.messages[i] = message;
                proof {
                    reveal(index_of_key);
                    let k = index_of_key(before, written.conversation_id, written.message_id);
                    assert(before[i as int].conversation_id == written.conversation_id);
                    if k < i {
                        assert(before[k].conversation_id == written.conversation_id);
                    }
                    assert(k == i);
                    assert(self@ =~= before.update(i as int, written));
                    if keys_unique(before) {
                        assert forall|a: int, b: int| 0 <= a < b < self@.len() implies !((
                        #[trigger] self@[a]).conversation_id == (
                        #[trigger] self@[b]).conversation_id && self@[a].message_id
                            == self@[b].message_id) by {
                            assert(before[a].conversation_id == self@[a].conversation_id);
                            assert(before[b].conversation_id == self@[b].conversation_id);
                        }
                    }
                }
            },
            None => {
                self.messages.push(message);
                proof {
                    assert(self@ =~= before.push(written));
                    if keys_unique(before) {
                        lemma_push_keeps_keys_unique(before, written);
                    }
                }
            },
        }
        Ok(())
    }

    /// Whether a batch can be added whole.
    fn accepts_batch(&self, messages: &Vec<Message>) -> (fresh: bool)
        ensures
            fresh == fresh_batch(self@, message_views(messages@)),
    {
        let ghost batch = message_views(messages@);
        let mut i: usize = 0;
        while i < messages.len()
            invariant
                i <= messages.len(),
                batch == message_views(messages@),
                forall|a: int|
                    0 <= a < i ==> !has_key(
                        self@,
                        (#[trigger] batch[a]).conversation_id,
                        batch[a].message_id,
                    ),
                forall|a: int, b: int|
                    0 <= a < b < i ==> !((#[trigger] batch[a]).conversation_id == (
                    #[trigger] batch[b]).conversation_id && batch[a].message_id
                        == batch[b].message_id),
            decreases messages.len() - i,
        {
            let conversation_id = messages[i].conversation_id;
            let message_id = messages[i].message_id;
            assert(batch[i as int] == messages@[i as int]@);
            if self.position(conversation_id, message_id).is_some() {
                return false;
            }
            let mut j: usize = 0;
            while j < i
                invariant
                    j <= i,
                    i < messages.len(),
                    batch == message_views(messages@),
                    conversation_id == batch[i as int].conversation_id,
                    message_id == batch[i as int].message_id,
                    forall|a: int|
                        0 <= a < j ==> !((#[trigger] batch[a]).conversation_id == conversation_id
                            && batch[a].message_id == message_id),
                decreases i - j,
            {
                assert(batch[j as int] == messages@[j as int]@);
                if messages[j].conversation_id == conversation_id && messages[j].message_id
                    == message_id {
                    return false;
                }
                j = j + 1;
            }
            i = i + 1;
        }
        true
    }

    /// Stores a batch of new messages, all of them or none: where one of
    /// them meets a key of the store or of the batch itself, the batch is
    /// refused and the store stays as it was.
    pub fn batch_insert_messages(&mut self, messages: Vec<Message>) -> (result: Result<
        (),
        DbError,
    >)
        ensures
            fresh_batch(old(self)@, message_views(messages@)) ==> result is Ok && final(self)@
                == old(self)@ + message_views(messages@),
            !fresh_batch(old(self)@, message_views(messages@)) ==> result == Err::<(), DbError>(
                DbError::Conflict,
            ) && final(self)@ == old(self)@,
            old(self).well_formed() ==> final(self).well_formed(),
    {
        if !self.accepts_batch(&messages) {
            return Err(DbError::Conflict);
        }
        let ghost before = self@;
        let ghost batch = message_views(messages@);
        assert(self@ =~= before + batch.take(0));
        for m in it: messages
            invariant
                it.seq() == messages@,
                batch == message_views(messages@),
                self@ == before + batch.take(it.index() as int),
        {
            let ghost so_far = self@;
            let ghost added = m@;
            assert(added == batch[it.index() as int]);
            self.messages.push(m);
            assert(self@ =~= so_far.push(added));
            assert(so_far.push(added) =~= before + batch.take(it.index() as int + 1));
        }
        proof {
            assert(batch.take(messages@.len() as int) =~= batch);
            if keys_unique(before) {
                lemma_batch_keeps_keys_unique(before, batch);
            }
        }
        Ok(())
    }
}

/// `sorted` with `m` put in at `place` is `insert_by_depth`, where every
/// message before `place` is shallower than `m` and the one at `place` is
/// not.
pub proof fn lemma_insert_by_depth_at(m: MessageView, sorted: Seq<MessageView>, place: int)
    requires
        0 <= place <= sorted.len(),
        forall|j: int| 0 <= j < place ==> (#[trigger] sorted[j]).depth() < m.depth(),
        place == sorted.len() || m.depth() <= sorted[place].depth(),
    ensures
        insert_by_depth(m, sorted) == sorted.insert(place, m),
    decreases sorted.len(),
{
    if sorted.len() == 0 || m.depth() <= sorted[0].depth() {
        if place > 0 {
            assert(sorted[0].depth() < m.depth());
        }
        assert(seq![m] + sorted =~= sorted.insert(0, m));
    } else {
        assert(place > 0);
        let rest = sorted.skip(1);
        assert forall|j: int| 0 <= j < place - 1 implies (#[trigger] rest[j]).depth()
            < m.depth() by {
            assert(rest[j] == sorted[j + 1]);
        }
        lemma_insert_by_depth_at(m, rest, place - 1);
        assert(seq![sorted[0]] + rest.insert(place - 1, m) =~= sorted.insert(place, m));
    }
}

/// Orders messages by ascending depth. Messages of one depth keep the order
/// in which they came.
pub fn sort_by_depth(messages: Vec<Message>) -> (sorted: Vec<Message>)
    ensures
        message_views(sorted@) == sorted_by_depth(message_views(messages@)),
{
    let ghost all = message_views(messages@);
    let mut rest = messages;
    let mut sorted: Vec<Message> = Vec::new();
    proof {
        assert(all.skip(all.len() as int) =~= Seq::<MessageView>::empty());
        assert(message_views(sorted@) =~= Seq::<MessageView>::empty());
    }
    while rest.len() > 0
        invariant
            rest@.len() <= all.len(),
            message_views(rest@) == all.take(rest@.len() as int),
            message_views(sorted@) == sorted_by_depth(all.skip(rest@.len() as int)),
        decreases rest@.len(),
    {
        let ghost before = message_views(rest@);
        let ghost tail = message_views(sorted@);
        let m = rest.pop().unwrap();
        let ghost mv = m@;
        proof {
            assert(mv == before[before.len() - 1]);
            assert(mv == all[rest@.len() as int]);
            assert(message_views(rest@) =~= all.take(rest@.len() as int));
            assert(all.skip(rest@.len() as int).skip(1) =~= all.skip(rest@.len() as int + 1));
            assert(all.skip(rest@.len() as int)[0] == mv);
        }
        let depth = m.depth();
        let mut place: usize = 0;
        while place < sorted.len() && sorted[place].depth() < depth
            invariant
                place <= sorted.len(),
                depth == mv.depth(),
                tail == message_views(sorted@),
                forall|j: int| 0 <= j < place ==> (#[trigger] tail[j]).depth() < mv.depth(),
            decreases sorted.len() - place,
        {
            assert(tail[place as int] == sorted@[place as int]@);
            place = place + 1;
        }
        proof {
            if place < sorted.len() {
                assert(tail[place as int] == sorted@[place as int]@);
            }
            lemma_insert_by_depth_at(mv, tail, place as int);
        }
        sorted.insert(place, m);
        assert(message_views(sorted@) =~= tail.insert(place as int, mv));
    }
    assert(all.skip(0) =~= all);
    sorted
}

/// Adding a message under a key that the store does not hold keeps the keys
/// unique.
pub proof fn lemma_push_keeps_keys_unique(store: Seq<MessageView>, message: MessageView)
    requires
        keys_unique(store),
        !has_key(store, message.conversation_id, message.message_id),
    ensures
        keys_unique(store.push(message)),
{
    let after = store.push(message);
    assert forall|i: int, j: int| 0 <= i < j < after.len() implies !((
    #[trigger] after[i]).conversation_id == (#[trigger] after[j]).conversation_id
        && after[i].message_id == after[j].message_id) by {
        if j == store.len() {
            assert(after[i] == store[i]);
        } else {
            assert(after[i] == store[i]);
            assert(after[j] == store[j]);
        }
    }
}

/// Adding a batch of fresh keys to a store with unique keys keeps the keys
/// unique.
pub proof fn lemma_batch_keeps_keys_unique(store: Seq<MessageView>, batch: Seq<MessageView>)
    requires
        keys_unique(store),
        fresh_batch(store, batch),
    ensures
        keys_unique(store + batch),
{
    let after = store + batch;
    assert forall|i: int, j: int| 0 <= i < j < after.len() implies !((
    #[trigger] after[i]).conversation_id == (#[trigger] after[j]).conversation_id
        && after[i].message_id == after[j].message_id) by {
        if j < store.len() {
            assert(after[i] == store[i]);
            assert(after[j] == store[j]);
        } else if i < store.len() {
            assert(after[i] == store[i]);
            assert(after[j] == batch[j - store.len()]);
        } else {
            assert(after[i] == batch[i - store.len()]);
            assert(after[j] == batch[j - store.len()]);
        }
    }
}

/// A filtered store has unique keys if the store has.
pub proof fn lemma_filter_keeps_keys_unique(store: Seq<MessageView>, pred: spec_fn(MessageView) -> bool)
    requires
        keys_unique(store),
    ensures
        keys_unique(store.filter(pred)),
    decreases store.len(),
{
    reveal(Seq::filter);
    if store.len() > 0 {
        let rest = store.drop_last();
        assert forall|i: int, j: int| 0 <= i < j < rest.len() implies !((
        #[trigger] rest[i]).conversation_id == (#[trigger] rest[j]).conversation_id
            && rest[i].message_id == rest[j].message_id) by {
            assert(rest[i] == store[i]);
            assert(rest[j] == store[j]);
        }
        lemma_filter_keeps_keys_unique(rest, pred);
        if pred(store.last()) {
            let last = store.last();
            if has_key(rest.filter(pred), last.conversation_id, last.message_id) {
                let i = choose|i: int|
                    0 <= i < rest.filter(pred).len() && (#[trigger] rest.filter(
                        pred,
                    )[i]).conversation_id == last.conversation_id && rest.filter(
                        pred,
                    )[i].message_id == last.message_id;
                lemma_filter_members(rest, pred);
                assert(rest.filter(pred).contains(rest.filter(pred)[i]));
                let k = choose|k: int| 0 <= k < rest.len() && rest[k] == rest.filter(pred)[i];
                assert(store[k] == rest[k]);
                assert(store[store.len() - 1] == last);
                assert(false);
            }
            lemma_push_keeps_keys_unique(rest.filter(pred), last);
        }
    }
}

} // verus!
