//! Branches: named pointers to a leaf of a conversation tree.

use vstd::prelude::*;

use crate::domain::timestamp::Timestamp;
use crate::utils::uuid_utils::new_uuid;

verus! {

/// A named, movable pointer to one message of a conversation. The branch's
/// path is that message's lineage.
#[derive(Debug, PartialEq)]
pub struct Branch {
    pub conversation_id: u128,
    pub branch_id: u128,
    pub branch_name: String,
    pub leaf_message_id: u128,
    pub created_at: Timestamp,
    pub last_updated: Timestamp,
    pub created_by: String,
    pub is_active: bool,
}

impl Clone for Branch {
    fn clone(&self) -> (copy: Self)
        ensures
            copy == *self,
    {
        Branch {
            conversation_id: self.conversation_id,
            branch_id: self.branch_id,
            branch_name: self.branch_name.clone(),
            leaf_message_id: self.leaf_message_id,
            created_at: self.created_at,
            last_updated: self.last_updated,
            created_by: self.created_by.clone(),
            is_active: self.is_active,
        }
    }
}

/// A branch as it stands right after it was made at `now`.
pub open spec fn new_branch(
    conversation_id: u128,
    branch_id: u128,
    branch_name: String,
    leaf_message_id: u128,
    created_by: String,
    now: Timestamp,
) -> Branch {
    Branch {
        conversation_id,
        branch_id,
        branch_name,
        leaf_message_id,
        created_at: now,
        last_updated: now,
        created_by,
        is_active: true,
    }
}

impl Branch {
    /// `self` after its leaf was moved to `new_leaf_id` at `now`.
    pub open spec fn with_leaf(self, new_leaf_id: u128, now: Timestamp) -> Branch {
        Branch { leaf_message_id: new_leaf_id, last_updated: now, ..self }
    }

    /// `self` after it was renamed to `new_name` at `now`.
    pub open spec fn with_name(self, new_name: String, now: Timestamp) -> Branch {
        Branch { branch_name: new_name, last_updated: now, ..self }
    }

    /// A new active branch under a fresh random id, made now.
    pub fn new(
        conversation_id: u128,
        branch_name: String,
        leaf_message_id: u128,
        created_by: String,
    ) -> (branch: Self)
        ensures
            branch == new_branch(
                conversation_id,
                branch.branch_id,
                branch_name,
                leaf_message_id,
                created_by,
                branch.created_at,
            ),
    {
        Branch::with_id(
            conversation_id,
            new_uuid(),
            branch_name,
            leaf_message_id,
            created_by,
            Timestamp::now(),
        )
    }

    /// A new active branch under the given id, made at `now`.
    pub fn with_id(
        conversation_id: u128,
        branch_id: u128,
        branch_name: String,
        leaf_message_id: u128,
        created_by: String,
        now: Timestamp,
    ) -> (branch: Self)
        ensures
            branch == new_branch(
                conversation_id,
                branch_id,
                branch_name,
                leaf_message_id,
                created_by,
                now,
            ),
    {
        Branch {
            conversation_id,
            branch_id,
            branch_name,
            leaf_message_id,
            created_at: now,
            last_updated: now,
            created_by,
            is_active: true,
        }
    }

    /// Moves the branch to another leaf, now.
    pub fn update_leaf(&mut self, new_leaf_id: u128)
        ensures
            *final(self) == old(self).with_leaf(new_leaf_id, final(self).last_updated),
    {
        self.update_leaf_at(new_leaf_id, Timestamp::now());
    }

    /// Moves the branch to another leaf, at `now`.
    pub fn update_leaf_at(&mut self, new_leaf_id: u128, now: Timestamp)
        ensures
            *final(self) == old(self).with_leaf(new_leaf_id, now),
    {
        self.leaf_message_id = new_leaf_id;
        self.last_updated = now;
    }
}

} // verus!
