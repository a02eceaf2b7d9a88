//! Granting and revoking shares, and deciding what a share allows.

use vstd::prelude::*;

use crate::db::error::DbError;
use crate::db::models::UserConversationRow;
use crate::domain::permissions::{Permission, Share};
use crate::domain::timestamp::Timestamp;
use crate::repositories::share_repo::{
    has_share, index_of_share, recent_activity, share_at, shared_conversation, ShareRepository,
};

verus! {

/// The decision on a request, from the outcome of looking a share up: a share
/// allows what its tier allows, a missing share allows nothing, and a
/// failed lookup is handed on.
pub open spec fn permitted(lookup: Result<Share, DbError>, required: Permission) -> Result<
    bool,
    DbError,
> {
    match lookup {
        Ok(share) => Ok(share.permission.allows(required)),
        Err(DbError::NotFound) => Ok(false),
        Err(e) => Err(e),
    }
}

/// The ids of the conversations of a list of activity entries, in order.
pub open spec fn conversation_ids(rows: Seq<UserConversationRow>) -> Seq<u128> {
    rows.map_values(|row: UserConversationRow| row.conversation_id)
}

/// Decides on a request from the outcome of looking the user's share up.
pub fn decide_permission(lookup: Result<Share, DbError>, required_permission: Permission) -> (result:
    Result<bool, DbError>)
    ensures
        result == permitted(lookup, required_permission),
{
    match lookup {
        Ok(share) => Ok(share.permission.satisfies(required_permission)),
        Err(DbError::NotFound) => Ok(false),
        Err(e) => Err(e),
    }
}

pub struct ShareService {}

impl ShareService {
    pub fn new() -> Self {
        ShareService {  }
    }

    /// Shares a conversation with a user, now.
    pub fn share_conversation(
        &self,
        share_repo: &mut ShareRepository,
        conversation_id: u128,
        shared_with: String,
        permission: Permission,
        shared_by: String,
    ) -> (result: Result<Share, DbError>)
        ensures
            result matches Ok(share) && share == (Share {
                conversation_id,
                shared_with,
                permission,
                shared_at: share.shared_at,
                shared_by,
            }) && has_share(final(share_repo).shares(), conversation_id, shared_with@)
                && share_at(final(share_repo).shares(), conversation_id, shared_with@) == share
                && final(share_repo).shares() == (if has_share(
                old(share_repo).shares(),
                conversation_id,
                shared_with@,
            ) {
                old(share_repo).shares().update(
                    index_of_share(old(share_repo).shares(), conversation_id, shared_with@),
                    share,
                )
            } else {
                old(share_repo).shares().push(share)
            }),
            final(share_repo).activity() == old(share_repo).activity(),
            old(share_repo).well_formed() ==> final(share_repo).well_formed(),
    {
        self.share_conversation_at(
            share_repo,
            conversation_id,
            shared_with,
            permission,
            shared_by,
            Timestamp::now(),
        )
    }

    /// Shares a conversation with a user at `shared_at`. A share that the
    /// user held on the conversation is replaced.
    pub fn share_conversation_at(
        &self,
        share_repo: &mut ShareRepository,
        conversation_id: u128,
        shared_with: String,
        permission: Permission,
        shared_by: String,
        shared_at: Timestamp,
    ) -> (result: Result<Share, DbError>)
        ensures
            result == Ok::<Share, DbError>(
                Share { conversation_id, shared_with, permission, shared_at, shared_by },
            ),
            final(share_repo).activity() == old(share_repo).activity(),
            has_share(old(share_repo).shares(), conversation_id, shared_with@) ==> final(share_repo).shares() == old(share_repo).shares().update(
                index_of_share(old(share_repo).shares(), conversation_id, shared_with@),
                Share { conversation_id, shared_with, permission, shared_at, shared_by },
            ),
            !has_share(old(share_repo).shares(), conversation_id, shared_with@) ==> final(share_repo).shares() == old(share_repo).shares().push(
                Share { conversation_id, shared_with, permission, shared_at, shared_by },
            ),
            has_share(final(share_repo).shares(), conversation_id, shared_with@),
            share_at(final(share_repo).shares(), conversation_id, shared_with@) == (Share {
                conversation_id,
                shared_with,
                permission,
                shared_at,
                shared_by,
            }),
            old(share_repo).well_formed() ==> final(share_repo).well_formed(),
    {
        let share = Share { conversation_id, shared_with, permission, shared_at, shared_by };
        let ghost before = share_repo.shares();
        match share_repo.insert_share(share.clone()) {
            Ok(()) => {
                proof {
                    lemma_granted_share_is_found(before, share);
                }
                Ok(share)
            },
            Err(e) => Err(e),
        }
    }

    /// The share of a conversation with a user.
    pub fn get_share(&self, share_repo: &ShareRepository, conversation_id: u128, shared_with: &str) -> (result:
        Result<Share, DbError>)
        ensures
            has_share(share_repo.shares(), conversation_id, shared_with@) ==> result == Ok::<
                Share,
                DbError,
            >(share_at(share_repo.shares(), conversation_id, shared_with@)),
            !has_share(share_repo.shares(), conversation_id, shared_with@) ==> result == Err::<
                Share,
                DbError,
            >(DbError::NotFound),
    {
        share_repo.get_share(conversation_id, shared_with)
    }

    /// All shares of a conversation.
    pub fn get_conversation_shares(&self, share_repo: &ShareRepository, conversation_id: u128) -> (result:
        Result<Vec<Share>, DbError>)
        ensures
            result matches Ok(found) && found@ == share_repo.shares().filter(
                shared_conversation(conversation_id),
            ),
    {
        share_repo.get_shares_by_conversation(conversation_id)
    }

    /// Revokes a share.
    pub fn revoke_share(&self, share_repo: &mut ShareRepository, conversation_id: u128, shared_with: &str) -> (result:
        Result<(), DbError>)
        ensures
            result is Ok,
            final(share_repo).activity() == old(share_repo).activity(),
            has_share(old(share_repo).shares(), conversation_id, shared_with@) ==> final(share_repo).shares() == old(share_repo).shares().remove(
                index_of_share(old(share_repo).shares(), conversation_id, shared_with@),
            ),
            !has_share(old(share_repo).shares(), conversation_id, shared_with@) ==> final(share_repo).shares() == old(share_repo).shares(),
            old(share_repo).well_formed() ==> final(share_repo).well_formed(),
    {
        share_repo.delete_share(conversation_id, shared_with)
    }

    /// Whether a user may do on a conversation what `required_permission`
    /// asks for. A user without a share may do nothing.
    pub fn check_permission(
        &self,
        share_repo: &ShareRepository,
        conversation_id: u128,
        user_id: &str,
        required_permission: Permission,
    ) -> (result: Result<bool, DbError>)
        ensures
            has_share(share_repo.shares(), conversation_id, user_id@) ==> result == Ok::<
                bool,
                DbError,
            >(
                share_at(share_repo.shares(), conversation_id, user_id@).permission.allows(
                    required_permission,
                ),
            ),
            !has_share(share_repo.shares(), conversation_id, user_id@) ==> result == Ok::<
                bool,
                DbError,
            >(false),
    {
        decide_permission(share_repo.get_share(conversation_id, user_id), required_permission)
    }

    /// Notes that a user was active in a conversation, now.
    pub fn update_user_activity(
        &self,
        share_repo: &mut ShareRepository,
        user_id: &str,
        conversation_id: u128,
        active_branch_id: Option<u128>,
    ) -> (result: Result<(), DbError>)
        ensures
            result is Ok,
            final(share_repo).shares() == old(share_repo).shares(),
            final(share_repo).activity().len() == old(share_repo).activity().len() + 1,
            final(share_repo).activity().drop_last() == old(share_repo).activity(),
            final(share_repo).activity().last().user_id@ == user_id@,
            final(share_repo).activity().last().conversation_id == conversation_id,
            final(share_repo).activity().last().active_branch_id == active_branch_id,
    {
        share_repo.upsert_user_conversation(
            user_id,
            conversation_id,
            active_branch_id,
            Timestamp::now(),
        )
    }

    /// The conversations that a user was active in, the latest activity
    /// first, at most `limit` of them.
    pub fn get_user_conversations(&self, share_repo: &ShareRepository, user_id: &str, limit: i32) -> (result:
        Result<Vec<u128>, DbError>)
        ensures
            result matches Ok(ids) && ids@ == conversation_ids(
                recent_activity(share_repo.activity(), user_id@, limit),
            ),
    {
        let rows = match share_repo.get_user_conversations(user_id, limit) {
            Ok(rows) => rows,
            Err(e) => {
                return Err(e);
            },
        };
        let mut ids: Vec<u128> = Vec::new();
        let mut i: usize = 0;
        while i < rows.len()
            invariant
                i <= rows.len(),
                ids@ == conversation_ids(rows@.take(i as int)),
            decreases rows.len() - i,
        {
            ids.push(rows[i].conversation_id);
            i = i + 1;
            assert(ids@ =~= conversation_ids(rows@.take(i as int)));
        }
        assert(rows@.take(i as int) =~= rows@);
        Ok(ids)
    }
}

/// After a share was granted it is the share that is found for its
/// conversation and user, whether it replaced another or not.
pub proof fn lemma_granted_share_is_found(shares: Seq<Share>, share: Share)
    ensures
        ({
            let after = if has_share(shares, share.conversation_id, share.shared_with@) {
                shares.update(
                    index_of_share(shares, share.conversation_id, share.shared_with@),
                    share,
                )
            } else {
                shares.push(share)
            };
            &&& has_share(after, share.conversation_id, share.shared_with@)
            &&& share_at(after, share.conversation_id, share.shared_with@) == share
        }),
{
    let c = share.conversation_id;
    let u = share.shared_with@;
    if has_share(shares, c, u) {
        let w = choose|w: int|
            0 <= w < shares.len() && (#[trigger] shares[w]).conversation_id == c
                && shares[w].shared_with@ == u;
        lemma_first_share(shares, c, u, w);
        let i = index_of_share(shares, c, u);
        let after = shares.update(i, share);
        assert(after[i] == share);
        lemma_first_share(after, c, u, i);
        let k = index_of_share(after, c, u);
        if k < i {
            assert(after[k] == shares[k]);
        }
    } else {
        let after = shares.push(share);
        let n = shares.len() as int;
        assert(after[n] == share);
        lemma_first_share(after, c, u, n);
        let k = index_of_share(after, c, u);
        if k < n {
            assert(after[k] == shares[k]);
        }
    }
}

/// Where a conversation is shared with a user, `index_of_share` is the
/// first place that holds such a share.
pub proof fn lemma_first_share(shares: Seq<Share>, conversation_id: u128, user: Seq<char>, witness: int)
    requires
        0 <= witness < shares.len(),
        shares[witness].conversation_id == conversation_id,
        shares[witness].shared_with@ == user,
    ensures
        has_share(shares, conversation_id, user),
        0 <= index_of_share(shares, conversation_id, user) <= witness,
        shares[index_of_share(shares, conversation_id, user)].conversation_id == conversation_id,
        shares[index_of_share(shares, conversation_id, user)].shared_with@ == user,
        forall|j: int|
            0 <= j < index_of_share(shares, conversation_id, user) ==> !((
            #[trigger] shares[j]).conversation_id == conversation_id && shares[j].shared_with@
                == user),
    decreases witness,
{
    reveal(index_of_share);
    if exists|j: int|
        0 <= j < witness && (#[trigger] shares[j]).conversation_id == conversation_id
            && shares[j].shared_with@ == user {
        let j = choose|j: int|
            0 <= j < witness && (#[trigger] shares[j]).conversation_id == conversation_id
                && shares[j].shared_with@ == user;
        lemma_first_share(shares, conversation_id, user, j);
    } else {
        let k = index_of_share(shares, conversation_id, user);
        assert(0 <= witness < shares.len() && shares[witness].conversation_id == conversation_id
            && shares[witness].shared_with@ == user && forall|j: int|
            0 <= j < witness ==> !((#[trigger] shares[j]).conversation_id == conversation_id
                && shares[j].shared_with@ == user));
        if k > witness {
            assert(shares[witness].conversation_id == conversation_id);
        }
    }
}

} // verus!
