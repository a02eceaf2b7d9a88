//! Shares, and the list of conversations that each user was active in.

use vstd::prelude::*;

use crate::db::error::DbError;
use crate::db::models::UserConversationRow;
use crate::domain::permissions::Share;
use crate::domain::timestamp::Timestamp;
use crate::repositories::lineage_repo::lemma_filter_push;
use crate::utils::text::text_eq;

verus! {

/// Whether `shares` holds a share of a conversation with a user.
pub open spec fn has_share(shares: Seq<Share>, conversation_id: u128, user: Seq<char>) -> bool {
    exists|i: int|
        0 <= i < shares.len() && (#[trigger] shares[i]).conversation_id == conversation_id
            && shares[i].shared_with@ == user
}

/// The place of the first share of a conversation with a user.
#[verifier::opaque]
pub open spec fn index_of_share(shares: Seq<Share>, conversation_id: u128, user: Seq<char>) -> int {
    choose|i: int|
        0 <= i < shares.len() && (#[trigger] shares[i]).conversation_id == conversation_id
            && shares[i].shared_with@ == user && forall|j: int|
            0 <= j < i ==> !((#[trigger] shares[j]).conversation_id == conversation_id
                && shares[j].shared_with@ == user)
}

/// The share of a conversation with a user.
pub open spec fn share_at(shares: Seq<Share>, conversation_id: u128, user: Seq<char>) -> Share {
    shares[index_of_share(shares, conversation_id, user)]
}

/// No conversation is shared twice with one user.
pub open spec fn share_keys_unique(shares: Seq<Share>) -> bool {
    forall|i: int, j: int|
        0 <= i < j < shares.len() ==> !((#[trigger] shares[i]).conversation_id == (
        #[trigger] shares[j]).conversation_id && shares[i].shared_with@
            == shares[j].shared_with@)
}

pub open spec fn shared_conversation(conversation_id: u128) -> spec_fn(Share) -> bool {
    |s: Share| s.conversation_id == conversation_id
}

pub open spec fn activity_of(user: Seq<char>) -> spec_fn(UserConversationRow) -> bool {
    |row: UserConversationRow| row.user_id@ == user
}

/// The number of rows that a listing with the limit `limit` returns of
/// `available` rows.
pub open spec fn listed(available: nat, limit: i32) -> int {
    if limit <= 0 {
        0
    } else if limit < available {
        limit as int
    } else {
        available as int
    }
}

/// The rows of one user, the one written last first, cut off after `limit`
/// rows.
pub open spec fn recent_activity(log: Seq<UserConversationRow>, user: Seq<char>, limit: i32) -> Seq<
    UserConversationRow,
> {
    log.filter(activity_of(user)).reverse().take(
        listed(log.filter(activity_of(user)).len(), limit),
    )
}

/// The in-memory store of shares and of user activity.
pub struct ShareRepository {
    shares: Vec<Share>,
    activity: Vec<UserConversationRow>,
}

impl ShareRepository {
    /// The stored shares, in the order in which they were first granted.
    pub closed spec fn shares(&self) -> Seq<Share> {
        self.shares@
    }

    /// Every entry of user activity, in the order in which it was written.
    pub closed spec fn activity(&self) -> Seq<UserConversationRow> {
        self.activity@
    }

    /// No conversation is shared twice with one user. It holds of a new
    /// store, and every operation keeps it.
    pub open spec fn well_formed(&self) -> bool {
        share_keys_unique(self.shares())
    }

    pub fn new() -> (store: Self)
        ensures
            store.shares() == Seq::<Share>::empty(),
            store.activity() == Seq::<UserConversationRow>::empty(),
            store.well_formed(),
    {
        ShareRepository { shares: Vec::new(), activity: Vec::new() }
    }

    fn position(&self, conversation_id: u128, shared_with: &str) -> (place: Option<usize>)
        ensures
            place matches Some(i) ==> i < self.shares().len() && i == index_of_share(
                self.shares(),
                conversation_id,
                shared_with@,
            ) && has_share(self.shares(), conversation_id, shared_with@)
                && self.shares()[i as int].conversation_id == conversation_id
                && self.shares()[i as int].shared_with@ == shared_with@,
            place is None ==> !has_share(self.shares(), conversation_id, shared_with@),
    {
        let mut i: usize = 0;
        while i < self.shares.len()
            invariant
                i <= self.shares.len(),
                forall|j: int|
                    0 <= j < i ==> !((#[trigger] self.shares@[j]).conversation_id
                        == conversation_id && self.shares@[j].shared_with@ == shared_with@),
            decreases self.shares.len() - i,
        {
            if self.shares[i].conversation_id == conversation_id && text_eq(
                self.shares[i].shared_with.as_str(),
                shared_with,
            ) {
                proof {
                    reveal(index_of_share);
                    let k = index_of_share(self.shares@, conversation_id, shared_with@);
                    if k < i {
                        assert(self.shares@[k].conversation_id == conversation_id);
                    }
                }
                return Some(i);
            }
            i = i + 1;
        }
        None
    }

    /// Grants a share. A share of the same conversation with the same user
    /// is written over: a user holds one tier on a conversation.
    pub fn insert_share(&mut self, share: Share) -> (result: Result<(), DbError>)
        ensures
            result is Ok,
            final(self).activity() == old(self).activity(),
            has_share(old(self).shares(), share.conversation_id, share.shared_with@) ==> final(self).shares() == old(self).shares().update(
                index_of_share(old(self).shares(), share.conversation_id, share.shared_with@),
                share,
            ),
            !has_share(old(self).shares(), share.conversation_id, share.shared_with@) ==> final(self).shares() == old(self).shares().push(share),
            old(self).well_formed() ==> final(self).well_formed(),
    {
        let ghost before = self.shares@;
        match self.position(share.conversation_id, share.shared_with.as_str()) {
            Some(i) => {
                self.shares[i] = share;
                proof {
                    if share_keys_unique(before) {
                        assert forall|a: int, b: int| 0 <= a < b < self.shares@.len() implies !((
                        #[trigger] self.shares@[a]).conversation_id == (
                        #[trigger] self.shares@[b]).conversation_id
                            && self.shares@[a].shared_with@ == self.shares@[b].shared_with@) by {
                            assert(before[a].conversation_id == self.shares@[a].conversation_id);
                            assert(before[b].conversation_id == self.shares@[b].conversation_id);
                        }
                    }
                }
            },
            None => {
                self.shares.push(share);
                proof {
                    if share_keys_unique(before) {
                        assert forall|a: int, b: int| 0 <= a < b < self.shares@.len() implies !((
                        #[trigger] self.shares@[a]).conversation_id == (
                        #[trigger] self.shares@[b]).conversation_id
                            && self.shares@[a].shared_with@ == self.shares@[b].shared_with@) by {
                            assert(self.shares@[a] == before[a]);
                            if b < before.len() {
                                assert(self.shares@[b] == before[b]);
                            }
                        }
                    }
                }
            },
        }
        Ok(())
    }

    /// The share of a conversation with a user.
    pub fn get_share(&self, conversation_id: u128, shared_with: &str) -> (result: Result<
        Share,
        DbError,
    >)
        ensures
            has_share(self.shares(), conversation_id, shared_with@) ==> result == Ok::<
                Share,
                DbError,
            >(share_at(self.shares(), conversation_id, shared_with@)),
            !has_share(self.shares(), conversation_id, shared_with@) ==> result == Err::<
                Share,
                DbError,
            >(DbError::NotFound),
    {
        match self.position(conversation_id, shared_with) {
            Some(i) => Ok(self.shares[i].clone()),
            None => Err(DbError::NotFound),
        }
    }

    /// All shares of a conversation.
    pub fn get_shares_by_conversation(&self, conversation_id: u128) -> (result: Result<
        Vec<Share>,
        DbError,
    >)
        ensures
            result matches Ok(found) && found@ == self.shares().filter(
                shared_conversation(conversation_id),
            ),
    {
        let mut found: Vec<Share> = Vec::new();
        let ghost pred = shared_conversation(conversation_id);
        let mut i: usize = 0;
        proof {
            reveal(Seq::filter);
            assert(self.shares@.take(0).filter(pred) =~= Seq::<Share>::empty());
        }
        while i < self.shares.len()
            invariant
                i <= self.shares.len(),
                pred == shared_conversation(conversation_id),
                found@ == self.shares@.take(i as int).filter(pred),
            decreases self.shares.len() - i,
        {
            proof {
                lemma_filter_push(self.shares@.take(i as int), self.shares@[i as int], pred);
                assert(self.shares@.take(i as int).push(self.shares@[i as int])
                    =~= self.shares@.take(i as int + 1));
            }
            if self.shares[i].conversation_id == conversation_id {
                found.push(self.shares[i].clone());
            }
            i = i + 1;
        }
        assert(self.shares@.take(i as int) =~= self.shares@);
        Ok(found)
    }

    /// Revokes a share. Revoking a share that is not there changes nothing.
    pub fn delete_share(&mut self, conversation_id: u128, shared_with: &str) -> (result: Result<
        (),
        DbError,
    >)
        ensures
            result is Ok,
            final(self).activity() == old(self).activity(),
            has_share(old(self).shares(), conversation_id, shared_with@) ==> final(self).shares()
                == old(self).shares().remove(
                index_of_share(old(self).shares(), conversation_id, shared_with@),
            ),
            !has_share(old(self).shares(), conversation_id, shared_with@) ==> final(self).shares()
                == old(self).shares(),
            old(self).well_formed() ==> final(self).well_formed(),
    {
        match self.position(conversation_id, shared_with) {
            Some(i) => {
                let ghost before = self.shares@;
                self.shares.remove(i);
                proof {
                    if share_keys_unique(before) {
                        let after = before.remove(i as int);
                        assert forall|a: int, b: int| 0 <= a < b < after.len() implies !((
                        #[trigger] after[a]).conversation_id == (
                        #[trigger] after[b]).conversation_id && after[a].shared_with@
                            == after[b].shared_with@) by {
                            let a0 = if a < i { a } else { a + 1 };
                            let b0 = if b < i { b } else { b + 1 };
                            assert(after[a] == before[a0]);
                            assert(after[b] == before[b0]);
                        }
                    }
                }
            },
            None => {},
        }
        Ok(())
    }

    /// Notes that a user was active in a conversation at `now`.
    pub fn upsert_user_conversation(
        &mut self,
        user_id: &str,
        conversation_id: u128,
        active_branch_id: Option<u128>,
        now: Timestamp,
    ) -> (result: Result<(), DbError>)
        ensures
            result is Ok,
            final(self).shares() == old(self).shares(),
            final(self).activity().len() == old(self).activity().len() + 1,
            final(self).activity().drop_last() == old(self).activity(),
            final(self).activity().last().user_id@ == user_id@,
            final(self).activity().last().last_activity == now,
            final(self).activity().last().conversation_id == conversation_id,
            final(self).activity().last().active_branch_id == active_branch_id,
    {
        let ghost before = self.activity@;
        self.activity.push(
            UserConversationRow {
                user_id: user_id.to_owned(),
                last_activity: now,
                conversation_id,
                active_branch_id,
            },
        );
        assert(self.activity@.drop_last() =~= before);
        Ok(())
    }

    /// The activity of a user, the entry written last first, at most
    /// `limit` entries. A limit of zero or less gives none.
    pub fn get_user_conversations(&self, user_id: &str, limit: i32) -> (result: Result<
        Vec<UserConversationRow>,
        DbError,
    >)
        ensures
            result matches Ok(rows) && rows@ == recent_activity(self.activity(), user_id@, limit),
    {
        let ghost pred = activity_of(user_id@);
        let mut own: Vec<UserConversationRow> = Vec::new();
        let mut i: usize = 0;
        proof {
            reveal(Seq::filter);
            assert(self.activity@.take(0).filter(pred) =~= Seq::<UserConversationRow>::empty());
        }
        while i < self.activity.len()
            invariant
                i <= self.activity.len(),
                pred == activity_of(user_id@),
                own@ == self.activity@.take(i as int).filter(pred),
            decreases self.activity.len() - i,
        {
            proof {
                lemma_filter_push(self.activity@.take(i as int), self.activity@[i as int], pred);
                assert(self.activity@.take(i as int).push(self.activity@[i as int])
                    =~= self.activity@.take(i as int + 1));
            }
            if text_eq(self.activity[i].user_id.as_str(), user_id) {
                own.push(self.activity[i].clone());
            }
            i = i + 1;
        }
        assert(self.activity@.take(i as int) =~= self.activity@);
        let ghost all = own@;
        assert(all == self.activity@.filter(pred));
        let mut rows: Vec<UserConversationRow> = Vec::new();
        assert(rows@ =~= all.reverse().take(0));
        assert(own@ =~= all.take(own@.len() as int));
        while own.len() > 0 && limit > 0 && rows.len() < limit as usize
            invariant
                own@.len() + rows@.len() == all.len(),
                own@ == all.take(own@.len() as int),
                rows@ == all.reverse().take(rows@.len() as int),
                limit > 0 ==> rows@.len() <= limit,
                limit <= 0 ==> rows@.len() == 0,
            decreases own@.len(),
        {
            let ghost taken = rows@;
            let row = own.pop().unwrap();
            rows.push(row);
            proof {
                assert(row == all[all.len() - taken.len() - 1]);
                assert(all.reverse()[taken.len() as int] == row);
                assert(rows@ =~= all.reverse().take(rows@.len() as int));
                assert(own@ =~= all.take(own@.len() as int));
            }
        }
        Ok(rows)
    }
}

} // verus!
