//! Creating, moving, renaming and deleting branches.

use vstd::prelude::*;

use crate::db::error::DbError;
use crate::domain::branch::{new_branch, Branch};
use crate::domain::message::Message;
use crate::domain::timestamp::Timestamp;
use crate::repositories::branch_repo::{
    branch_at, branch_renamed, conversation_branches, has_branch, index_of_branch, leaf_moved,
    moved_leaf, BranchRepository,
};
use crate::repositories::lineage_repo::{
    has_key, lineage_path, message_at, message_views, LineageRepository,
};
use crate::utils::uuid_utils::new_uuid;

verus! {

pub struct BranchService {}

impl BranchService {
    pub fn new() -> Self {
        BranchService {  }
    }

    /// Creates a branch that points at an existing message, under a fresh
    /// random id, now.
    pub fn create_branch(
        &self,
        branch_repo: &mut BranchRepository,
        lineage_repo: &LineageRepository,
        conversation_id: u128,
        branch_name: String,
        leaf_message_id: u128,
        created_by: String,
    ) -> (result: Result<Branch, DbError>)
        ensures
            !has_key(lineage_repo@, conversation_id, leaf_message_id) ==> result == Err::<
                Branch,
                DbError,
            >(DbError::NotFound),
            match result {
                Ok(branch) => branch == new_branch(
                    conversation_id,
                    branch.branch_id,
                    branch_name,
                    leaf_message_id,
                    created_by,
                    branch.created_at,
                ) && has_key(lineage_repo@, conversation_id, leaf_message_id) && !has_branch(
                    old(branch_repo).branches(),
                    conversation_id,
                    branch.branch_id,
                ) && final(branch_repo).branches() == old(branch_repo).branches().push(branch)
                    && final(branch_repo).leaf_index() == old(branch_repo).leaf_index().insert(
                    leaf_message_id,
                    (conversation_id, branch.branch_id),
                ),
                Err(e) => (e == DbError::NotFound || e == DbError::Conflict) && final(branch_repo).branches() == old(branch_repo).branches() && final(branch_repo).leaf_index()
                    == old(branch_repo).leaf_index(),
            },
            result == Err::<Branch, DbError>(DbError::NotFound) <==> !has_key(
                lineage_repo@,
                conversation_id,
                leaf_message_id,
            ),
            result == Err::<Branch, DbError>(DbError::Conflict) ==> exists|branch_id: u128| #[trigger]
                has_branch(old(branch_repo).branches(), conversation_id, branch_id),
            has_key(lineage_repo@, conversation_id, leaf_message_id) && (forall|branch_id: u128|
                !#[trigger] has_branch(old(branch_repo).branches(), conversation_id, branch_id))
                ==> result is Ok,
            old(branch_repo).well_formed() ==> final(branch_repo).well_formed(),
    {
        let branch_id = new_uuid();
        let result = self.create_branch_with(
            branch_repo,
            lineage_repo,
            conversation_id,
            branch_name,
            leaf_message_id,
            created_by,
            branch_id,
            Timestamp::now(),
        );
        proof {
            if result == Err::<Branch, DbError>(DbError::Conflict) {
                assert(has_branch(old(branch_repo).branches(), conversation_id, branch_id));
            }
        }
        result
    }

    /// Creates a branch under the id `branch_id` at `now`. The leaf must
    /// resolve to a stored message of the conversation (`NotFound`
    /// otherwise); the branch is stored and its leaf entered into the
    /// reverse index (`Conflict` where the branch's key is taken).
    pub fn create_branch_with(
        &self,
        branch_repo: &mut BranchRepository,
        lineage_repo: &LineageRepository,
        conversation_id: u128,
        branch_name: String,
        leaf_message_id: u128,
        created_by: String,
        branch_id: u128,
        now: Timestamp,
    ) -> (result: Result<Branch, DbError>)
        ensures
            result is Ok <==> has_key(lineage_repo@, conversation_id, leaf_message_id)
                && !has_branch(old(branch_repo).branches(), conversation_id, branch_id),
            match result {
                Ok(branch) => branch == new_branch(
                    conversation_id,
                    branch_id,
                    branch_name,
                    leaf_message_id,
                    created_by,
                    now,
                ) && final(branch_repo).branches() == old(branch_repo).branches().push(branch)
                    && final(branch_repo).leaf_index() == old(branch_repo).leaf_index().insert(
                    leaf_message_id,
                    (conversation_id, branch_id),
                ),
                Err(e) => e == (if !has_key(lineage_repo@, conversation_id, leaf_message_id) {
                    DbError::NotFound
                } else {
                    DbError::Conflict
                }) && final(branch_repo).branches() == old(branch_repo).branches() && final(branch_repo).leaf_index() == old(branch_repo).leaf_index(),
            },
            old(branch_repo).well_formed() ==> final(branch_repo).well_formed(),
    {
        match lineage_repo.get_message(conversation_id, leaf_message_id) {
            Ok(_) => {},
            Err(e) => {
                return Err(e);
            },
        }
        let branch = Branch::with_id(
            conversation_id,
            branch_id,
            branch_name,
            leaf_message_id,
            created_by,
            now,
        );
        match branch_repo.insert_branch(branch.clone()) {
            Ok(()) => Ok(branch),
            Err(e) => Err(e),
        }
    }

    /// The branch under a key.
    pub fn get_branch(&self, branch_repo: &BranchRepository, conversation_id: u128, branch_id: u128) -> (result:
        Result<Branch, DbError>)
        ensures
            has_branch(branch_repo.branches(), conversation_id, branch_id) ==> result == Ok::<
                Branch,
                DbError,
            >(branch_at(branch_repo.branches(), conversation_id, branch_id)),
            !has_branch(branch_repo.branches(), conversation_id, branch_id) ==> result == Err::<
                Branch,
                DbError,
            >(DbError::NotFound),
    {
        branch_repo.get_branch(conversation_id, branch_id)
    }

    /// All branches of a conversation.
    pub fn get_branches(&self, branch_repo: &BranchRepository, conversation_id: u128) -> (result:
        Result<Vec<Branch>, DbError>)
        ensures
            result matches Ok(found) && found@ == conversation_branches(
                branch_repo.branches(),
                conversation_id,
            ),
    {
        branch_repo.get_branches_by_conversation(conversation_id)
    }

    /// The stored messages on the path of a branch, from the root to the
    /// branch's leaf.
    pub fn get_branch_messages(
        &self,
        branch_repo: &BranchRepository,
        lineage_repo: &LineageRepository,
        conversation_id: u128,
        branch_id: u128,
    ) -> (result: Result<Vec<Message>, DbError>)
        ensures
            result is Ok <==> has_branch(branch_repo.branches(), conversation_id, branch_id)
                && has_key(
                lineage_repo@,
                conversation_id,
                branch_at(branch_repo.branches(), conversation_id, branch_id).leaf_message_id,
            ),
            result matches Ok(path) ==> message_views(path@) == lineage_path(
                lineage_repo@,
                conversation_id,
                message_at(
                    lineage_repo@,
                    conversation_id,
                    branch_at(branch_repo.branches(), conversation_id, branch_id).leaf_message_id,
                ).lineage,
            ),
            result matches Err(e) ==> e == DbError::NotFound,
    {
        let branch = match branch_repo.get_branch(conversation_id, branch_id) {
            Ok(branch) => branch,
            Err(e) => {
                return Err(e);
            },
        };
        let leaf_message = match lineage_repo.get_message(conversation_id, branch.leaf_message_id) {
            Ok(message) => message,
            Err(e) => {
                return Err(e);
            },
        };
        lineage_repo.get_messages_by_ids(conversation_id, leaf_message.lineage.as_slice())
    }

    /// Moves a branch to another stored message. The new leaf must resolve
    /// (`NotFound` otherwise), and so must the branch; then the branch row
    /// is rewritten and the reverse index follows: the entry of the old
    /// leaf is deleted, one for the new leaf is entered.
    pub fn update_branch_leaf(
        &self,
        branch_repo: &mut BranchRepository,
        lineage_repo: &LineageRepository,
        conversation_id: u128,
        branch_id: u128,
        new_leaf_id: u128,
    ) -> (result: Result<(), DbError>)
        ensures
            result is Ok <==> has_key(lineage_repo@, conversation_id, new_leaf_id) && has_branch(
                old(branch_repo).branches(),
                conversation_id,
                branch_id,
            ),
            result matches Err(e) ==> e == DbError::NotFound && final(branch_repo).branches()
                == old(branch_repo).branches() && final(branch_repo).leaf_index() == old(branch_repo).leaf_index(),
            result is Ok ==> final(branch_repo).leaf_index() == moved_leaf(
                old(branch_repo).leaf_index(),
                branch_at(old(branch_repo).branches(), conversation_id, branch_id).leaf_message_id,
                new_leaf_id,
                conversation_id,
                branch_id,
            ) && leaf_moved(
                old(branch_repo).branches(),
                final(branch_repo).branches(),
                conversation_id,
                branch_id,
                new_leaf_id,
            ),
            old(branch_repo).well_formed() ==> final(branch_repo).well_formed(),
    {
        match lineage_repo.get_message(conversation_id, new_leaf_id) {
            Ok(_) => {},
            Err(e) => {
                return Err(e);
            },
        }
        self.extend_branch_with_message(branch_repo, conversation_id, branch_id, new_leaf_id)
    }

    /// Renames a branch.
    pub fn update_branch_name(
        &self,
        branch_repo: &mut BranchRepository,
        conversation_id: u128,
        branch_id: u128,
        new_name: String,
    ) -> (result: Result<(), DbError>)
        ensures
            result is Ok <==> has_branch(old(branch_repo).branches(), conversation_id, branch_id),
            result matches Err(e) ==> e == DbError::NotFound && final(branch_repo).branches()
                == old(branch_repo).branches(),
            result is Ok ==> branch_renamed(
                old(branch_repo).branches(),
                final(branch_repo).branches(),
                conversation_id,
                branch_id,
                new_name,
            ),
            final(branch_repo).leaf_index() == old(branch_repo).leaf_index(),
            old(branch_repo).well_formed() ==> final(branch_repo).well_formed(),
    {
        branch_repo.update_branch_name(conversation_id, branch_id, new_name)
    }

    /// Deletes a branch and the index entry of its leaf. The messages of
    /// the branch stay in the conversation.
    pub fn delete_branch(&self, branch_repo: &mut BranchRepository, conversation_id: u128, branch_id: u128) -> (result:
        Result<(), DbError>)
        ensures
            result is Ok <==> has_branch(old(branch_repo).branches(), conversation_id, branch_id),
            result matches Err(e) ==> e == DbError::NotFound && final(branch_repo).branches()
                == old(branch_repo).branches() && final(branch_repo).leaf_index() == old(branch_repo).leaf_index(),
            result is Ok ==> final(branch_repo).branches() == old(branch_repo).branches().remove(
                index_of_branch(old(branch_repo).branches(), conversation_id, branch_id),
            ) && final(branch_repo).leaf_index() == old(branch_repo).leaf_index().remove(
                branch_at(old(branch_repo).branches(), conversation_id, branch_id).leaf_message_id,
            ),
            old(branch_repo).well_formed() ==> final(branch_repo).well_formed(),
    {
        let branch = match branch_repo.get_branch(conversation_id, branch_id) {
            Ok(branch) => branch,
            Err(e) => {
                return Err(e);
            },
        };
        branch_repo.delete_branch(conversation_id, branch_id, branch.leaf_message_id)
    }

    /// Lets a branch follow a message that was appended to it: the branch
    /// is moved to `new_message_id` as `update_branch_leaf` moves it, but
    /// the message is not looked up.
    pub fn extend_branch_with_message(
        &self,
        branch_repo: &mut BranchRepository,
        conversation_id: u128,
        branch_id: u128,
        new_message_id: u128,
    ) -> (result: Result<(), DbError>)
        ensures
            result is Ok <==> has_branch(old(branch_repo).branches(), conversation_id, branch_id),
            result matches Err(e) ==> e == DbError::NotFound && final(branch_repo).branches()
                == old(branch_repo).branches() && final(branch_repo).leaf_index() == old(branch_repo).leaf_index(),
            result is Ok ==> final(branch_repo).leaf_index() == moved_leaf(
                old(branch_repo).leaf_index(),
                branch_at(old(branch_repo).branches(), conversation_id, branch_id).leaf_message_id,
                new_message_id,
                conversation_id,
                branch_id,
            ) && leaf_moved(
                old(branch_repo).branches(),
                final(branch_repo).branches(),
                conversation_id,
                branch_id,
                new_message_id,
            ),
            old(branch_repo).well_formed() ==> final(branch_repo).well_formed(),
    {
        let branch = match branch_repo.get_branch(conversation_id, branch_id) {
            Ok(branch) => branch,
            Err(e) => {
                return Err(e);
            },
        };
        branch_repo.update_branch_leaf(
            conversation_id,
            branch_id,
            branch.leaf_message_id,
            new_message_id,
        )
    }
}

} // verus!
