//! The branch directory: the branches of every conversation, and the index
//! that leads from a leaf message back to the branch that points at it.

use std::collections::HashMap;
use vstd::prelude::*;
use vstd::std_specs::hash::*;

use crate::db::error::DbError;
use crate::domain::branch::Branch;
use crate::domain::timestamp::Timestamp;

verus! {

broadcast use group_hash_axioms;

/// Whether `branches` holds a branch under the key `(conversation_id, branch_id)`.
pub open spec fn has_branch(branches: Seq<Branch>, conversation_id: u128, branch_id: u128) -> bool {
    exists|i: int|
        0 <= i < branches.len() && (#[trigger] branches[i]).conversation_id == conversation_id
            && branches[i].branch_id == branch_id
}

/// No two branches share a key.
pub open spec fn branch_keys_unique(branches: Seq<Branch>) -> bool {
    forall|i: int, j: int|
        0 <= i < j < branches.len() ==> !((#[trigger] branches[i]).conversation_id == (
        #[trigger] branches[j]).conversation_id && branches[i].branch_id
            == branches[j].branch_id)
}

/// The place of the first branch under a key.
#[verifier::opaque]
pub open spec fn index_of_branch(branches: Seq<Branch>, conversation_id: u128, branch_id: u128) -> int {
    choose|i: int|
        0 <= i < branches.len() && (#[trigger] branches[i]).conversation_id == conversation_id
            && branches[i].branch_id == branch_id && forall|j: int|
            0 <= j < i ==> !((#[trigger] branches[j]).conversation_id == conversation_id
                && branches[j].branch_id == branch_id)
}

/// The branch under a key.
pub open spec fn branch_at(branches: Seq<Branch>, conversation_id: u128, branch_id: u128) -> Branch {
    branches[index_of_branch(branches, conversation_id, branch_id)]
}

pub open spec fn of_conversation(conversation_id: u128) -> spec_fn(Branch) -> bool {
    |b: Branch| b.conversation_id == conversation_id
}

/// The branches of one conversation, in the order in which they were made.
pub open spec fn conversation_branches(branches: Seq<Branch>, conversation_id: u128) -> Seq<Branch> {
    branches.filter(of_conversation(conversation_id))
}

/// The leaf index after a branch was moved from `old_leaf_id` to
/// `new_leaf_id`: the old entry is gone, the new one leads to the branch.
pub open spec fn moved_leaf(
    leaf_index: Map<u128, (u128, u128)>,
    old_leaf_id: u128,
    new_leaf_id: u128,
    conversation_id: u128,
    branch_id: u128,
) -> Map<u128, (u128, u128)> {
    leaf_index.remove(old_leaf_id).insert(new_leaf_id, (conversation_id, branch_id))
}

/// Whether `after` is `before` with the leaf of one branch moved to
/// `new_leaf_id` at some time.
pub open spec fn leaf_moved(
    before: Seq<Branch>,
    after: Seq<Branch>,
    conversation_id: u128,
    branch_id: u128,
    new_leaf_id: u128,
) -> bool {
    exists|now: Timestamp|
        after == before.update(
            index_of_branch(before, conversation_id, branch_id),
            #[trigger] branch_at(before, conversation_id, branch_id).with_leaf(new_leaf_id, now),
        )
}

/// Whether `after` is `before` with one branch renamed to `new_name` at
/// some time.
pub open spec fn branch_renamed(
    before: Seq<Branch>,
    after: Seq<Branch>,
    conversation_id: u128,
    branch_id: u128,
    new_name: String,
) -> bool {
    exists|now: Timestamp|
        after == before.update(
            index_of_branch(before, conversation_id, branch_id),
            #[trigger] branch_at(before, conversation_id, branch_id).with_name(new_name, now),
        )
}

/// The in-memory branch directory.
pub struct BranchRepository {
    branches: Vec<Branch>,
    by_leaf: HashMap<u128, (u128, u128)>,
}

impl BranchRepository {
    /// The stored branches, in the order in which they were made.
    pub closed spec fn branches(&self) -> Seq<Branch> {
        self.branches@
    }

    /// The reverse index: from the id of a leaf message to the conversation
    /// and the branch that points at it.
    pub closed spec fn leaf_index(&self) -> Map<u128, (u128, u128)> {
        self.by_leaf@
    }

    /// No two stored branches share a key. It holds of a new directory, and
    /// every operation keeps it.
    pub open spec fn well_formed(&self) -> bool {
        branch_keys_unique(self.branches())
    }

    /// An empty directory.
    pub fn new() -> (directory: Self)
        ensures
            directory.branches() == Seq::<Branch>::empty(),
            directory.leaf_index() == Map::<u128, (u128, u128)>::empty(),
            directory.well_formed(),
    {
        BranchRepository { branches: Vec::new(), by_leaf: HashMap::new() }
    }

    /// The place of the branch under a key, if it is stored.
    fn position(&self, conversation_id: u128, branch_id: u128) -> (place: Option<usize>)
        ensures
            place matches Some(i) ==> i < self.branches().len() && i == index_of_branch(
                self.branches(),
                conversation_id,
                branch_id,
            ) && has_branch(self.branches(), conversation_id, branch_id)
                && self.branches()[i as int].conversation_id == conversation_id
                && self.branches()[i as int].branch_id == branch_id,
            place is None ==> !has_branch(self.branches(), conversation_id, branch_id),
    {
        let mut i: usize = 0;
        while i < self.branches.len()
            invariant
                i <= self.branches.len(),
                forall|j: int|
                    0 <= j < i ==> !((#[trigger] self.branches@[j]).conversation_id
                        == conversation_id && self.branches@[j].branch_id == branch_id),
            decreases self.branches.len() - i,
        {
            if self.branches[i].conversation_id == conversation_id && self.branches[i].branch_id
                == branch_id {
                proof {
                    reveal(index_of_branch);
                    let k = index_of_branch(self.branches@, conversation_id, branch_id);
                    if k < i {
                        assert(self.branches@[k].conversation_id == conversation_id);
                    }
                }
                return Some(i);
            }
            i = i + 1;
        }
        None
    }

    /// Stores a new branch, then enters its leaf into the reverse index. A
    /// branch under the same key is never replaced: the insert is refused
    /// and nothing changes.
    pub fn insert_branch(&mut self, branch: Branch) -> (result: Result<(), DbError>)
        ensures
            has_branch(old(self).branches(), branch.conversation_id, branch.branch_id) ==> result
                == Err::<(), DbError>(DbError::Conflict) && final(self).branches() == old(self).branches() && final(self).leaf_index() == old(self).leaf_index(),
            !has_branch(old(self).branches(), branch.conversation_id, branch.branch_id)
                ==> result is Ok && final(self).branches() == old(self).branches().push(branch)
                && final(self).leaf_index() == old(self).leaf_index().insert(
                branch.leaf_message_id,
                (branch.conversation_id, branch.branch_id),
            ),
            old(self).well_formed() ==> final(self).well_formed(),
    {
        match self.position(branch.conversation_id, branch.branch_id) {
            Some(_) => Err(DbError::Conflict),
            None => {
                let leaf_message_id = branch.leaf_message_id;
                let conversation_id = branch.conversation_id;
                let branch_id = branch.branch_id;
                let ghost before = self.branches@;
                self.branches.push(branch);
                self.by_leaf.insert(leaf_message_id, (conversation_id, branch_id));
                proof {
                    if branch_keys_unique(before) {
                        lemma_push_keeps_branch_keys_unique(before, branch);
                    }
                }
                Ok(())
            },
        }
    }

    /// The branch under a key.
    pub fn get_branch(&self, conversation_id: u128, branch_id: u128) -> (result: Result<
        Branch,
        DbError,
    >)
        ensures
            has_branch(self.branches(), conversation_id, branch_id) ==> result == Ok::<
                Branch,
                DbError,
            >(branch_at(self.branches(), conversation_id, branch_id)),
            !has_branch(self.branches(), conversation_id, branch_id) ==> result == Err::<
                Branch,
                DbError,
            >(DbError::NotFound),
    {
        match self.position(conversation_id, branch_id) {
            Some(i) => Ok(self.branches[i].clone()),
            None => Err(DbError::NotFound),
        }
    }

    /// All branches of a conversation.
    pub fn get_branches_by_conversation(&self, conversation_id: u128) -> (result: Result<
        Vec<Branch>,
        DbError,
    >)
        ensures
            result matches Ok(found) && found@ == conversation_branches(
                self.branches(),
                conversation_id,
            ),
    {
        let mut found: Vec<Branch> = Vec::new();
        let ghost pred = of_conversation(conversation_id);
        let mut i: usize = 0;
        proof {
            reveal(Seq::filter);
            assert(self.branches@.take(0).filter(pred) =~= Seq::<Branch>::empty());
        }
        while i < self.branches.len()
            invariant
                i <= self.branches.len(),
                pred == of_conversation(conversation_id),
                found@ == self.branches@.take(i as int).filter(pred),
            decreases self.branches.len() - i,
        {
            proof {
                crate::repositories::lineage_repo::lemma_filter_push(
                    self.branches@.take(i as int),
                    self.branches@[i as int],
                    pred,
                );
                assert(self.branches@.take(i as int).push(self.branches@[i as int])
                    =~= self.branches@.take(i as int + 1));
            }
            if self.branches[i].conversation_id == conversation_id {
                found.push(self.branches[i].clone());
            }
            i = i + 1;
        }
        assert(self.branches@.take(i as int) =~= self.branches@);
        Ok(found)
    }

    /// Moves a branch to another leaf, now. See `update_branch_leaf_at`.
    pub fn update_branch_leaf(
        &mut self,
        conversation_id: u128,
        branch_id: u128,
        old_leaf_id: u128,
        new_leaf_id: u128,
    ) -> (result: Result<(), DbError>)
        ensures
            result is Ok <==> has_branch(old(self).branches(), conversation_id, branch_id),
            result matches Err(e) ==> e == DbError::NotFound && final(self).branches() == old(self).branches() && final(self).leaf_index() == old(self).leaf_index(),
            result is Ok ==> final(self).leaf_index() == moved_leaf(
                old(self).leaf_index(),
                old_leaf_id,
                new_leaf_id,
                conversation_id,
                branch_id,
            ) && leaf_moved(
                old(self).branches(),
                final(self).branches(),
                conversation_id,
                branch_id,
                new_leaf_id,
            ),
            old(self).well_formed() ==> final(self).well_formed(),
    {
        self.update_branch_leaf_at(
            conversation_id,
            branch_id,
            old_leaf_id,
            new_leaf_id,
            Timestamp::now(),
        )
    }

    /// Moves a branch to another leaf at `now`: the branch row is rewritten,
    /// the index entry of the old leaf is deleted and one for the new leaf is
    /// entered. A branch that is not stored gives `NotFound`, and nothing
    /// changes.
    pub fn update_branch_leaf_at(
        &mut self,
        conversation_id: u128,
        branch_id: u128,
        old_leaf_id: u128,
        new_leaf_id: u128,
        now: Timestamp,
    ) -> (result: Result<(), DbError>)
        ensures
            result is Ok <==> has_branch(old(self).branches(), conversation_id, branch_id),
            result matches Err(e) ==> e == DbError::NotFound && final(self).branches() == old(self).branches() && final(self).leaf_index() == old(self).leaf_index(),
            result is Ok ==> final(self).leaf_index() == moved_leaf(
                old(self).leaf_index(),
                old_leaf_id,
                new_leaf_id,
                conversation_id,
                branch_id,
            ) && final(self).branches() == old(self).branches().update(
                index_of_branch(old(self).branches(), conversation_id, branch_id),
                branch_at(old(self).branches(), conversation_id, branch_id).with_leaf(
                    new_leaf_id,
                    now,
                ),
            ),
            old(self).well_formed() ==> final(self).well_formed(),
    {
        match self.position(conversation_id, branch_id) {
            None => Err(DbError::NotFound),
            Some(i) => {
                let ghost before = self.branches@;
                let mut branch = self.branches[i].clone();
                branch.update_leaf_at(new_leaf_id, now);
                self.branches[i] = branch;
                self.by_leaf.remove(&old_leaf_id);
                self.by_leaf.insert(new_leaf_id, (conversation_id, branch_id));
                proof {
                    if branch_keys_unique(before) {
                        lemma_update_keeps_branch_keys_unique(before, i as int, branch);
                    }
                }
                Ok(())
            },
        }
    }

    /// Renames a branch, now. See `update_branch_name_at`.
    pub fn update_branch_name(&mut self, conversation_id: u128, branch_id: u128, new_name: String) -> (result:
        Result<(), DbError>)
        ensures
            result is Ok <==> has_branch(old(self).branches(), conversation_id, branch_id),
            result matches Err(e) ==> e == DbError::NotFound && final(self).branches() == old(self).branches(),
            result is Ok ==> branch_renamed(
                old(self).branches(),
                final(self).branches(),
                conversation_id,
                branch_id,
                new_name,
            ),
            final(self).leaf_index() == old(self).leaf_index(),
            old(self).well_formed() ==> final(self).well_formed(),
    {
        self.update_branch_name_at(conversation_id, branch_id, new_name, Timestamp::now())
    }

    /// Renames a branch at `now`. A branch that is not stored gives
    /// `NotFound`, and nothing changes.
    pub fn update_branch_name_at(
        &mut self,
        conversation_id: u128,
        branch_id: u128,
        new_name: String,
        now: Timestamp,
    ) -> (result: Result<(), DbError>)
        ensures
            result is Ok <==> has_branch(old(self).branches(), conversation_id, branch_id),
            result matches Err(e) ==> e == DbError::NotFound && final(self).branches() == old(self).branches(),
            result is Ok ==> final(self).branches() == old(self).branches().update(
                index_of_branch(old(self).branches(), conversation_id, branch_id),
                branch_at(old(self).branches(), conversation_id, branch_id).with_name(
                    new_name,
                    now,
                ),
            ),
            final(self).leaf_index() == old(self).leaf_index(),
            old(self).well_formed() ==> final(self).well_formed(),
    {
        match self.position(conversation_id, branch_id) {
            None => Err(DbError::NotFound),
            Some(i) => {
                let ghost before = self.branches@;
                let mut branch = self.branches[i].clone();
                branch.branch_name = new_name;
                branch.last_updated = now;
                self.branches[i] = branch;
                proof {
                    if branch_keys_unique(before) {
                        lemma_update_keeps_branch_keys_unique(before, i as int, branch);
                    }
                }
                Ok(())
            },
        }
    }

    /// Removes a branch and the index entry of `leaf_message_id`. The
    /// messages of the branch stay. Removing a branch that is not stored
    /// changes no branch.
    pub fn delete_branch(&mut self, conversation_id: u128, branch_id: u128, leaf_message_id: u128) -> (result:
        Result<(), DbError>)
        ensures
            result is Ok,
            has_branch(old(self).branches(), conversation_id, branch_id) ==> final(self).branches() == old(self).branches().remove(
                index_of_branch(old(self).branches(), conversation_id, branch_id),
            ),
            !has_branch(old(self).branches(), conversation_id, branch_id) ==> final(self).branches() == old(self).branches(),
            final(self).leaf_index() == old(self).leaf_index().remove(leaf_message_id),
            old(self).well_formed() ==> final(self).well_formed(),
    {
        match self.position(conversation_id, branch_id) {
            Some(i) => {
                let ghost before = self.branches@;
                self.branches.remove(i);
                proof {
                    if branch_keys_unique(before) {
                        let after = before.remove(i as int);
                        assert forall|a: int, b: int| 0 <= a < b < after.len() implies !((
                        #[trigger] after[a]).conversation_id == (
                        #[trigger] after[b]).conversation_id && after[a].branch_id
                            == after[b].branch_id) by {
                            let a0 = if a < i { a } else { a + 1 };
                            let b0 = if b < i { b } else { b + 1 };
                            assert(after[a] == before[a0]);
                            assert(after[b] == before[b0]);
                        }
                    }
                }
            },
            None => {},
        }
        self.by_leaf.remove(&leaf_message_id);
        Ok(())
    }

    /// The conversation and the branch that the reverse index holds for a
    /// leaf message.
    pub fn get_branch_by_leaf(&self, leaf_message_id: u128) -> (result: Result<
        (u128, u128),
        DbError,
    >)
        ensures
            self.leaf_index().contains_key(leaf_message_id) ==> result == Ok::<
                (u128, u128),
                DbError,
            >(self.leaf_index()[leaf_message_id]),
            !self.leaf_index().contains_key(leaf_message_id) ==> result == Err::<
                (u128, u128),
                DbError,
            >(DbError::NotFound),
    {
        match self.by_leaf.get(&leaf_message_id) {
            Some(entry) => Ok(*entry),
            None => Err(DbError::NotFound),
        }
    }
}

/// Adding a branch under a key that is not held keeps the keys unique.
pub proof fn lemma_push_keeps_branch_keys_unique(branches: Seq<Branch>, branch: Branch)
    requires
        branch_keys_unique(branches),
        !has_branch(branches, branch.conversation_id, branch.branch_id),
    ensures
        branch_keys_unique(branches.push(branch)),
{
    let after = branches.push(branch);
    assert forall|i: int, j: int| 0 <= i < j < after.len() implies !((
    #[trigger] after[i]).conversation_id == (#[trigger] after[j]).conversation_id
        && after[i].branch_id == after[j].branch_id) by {
        assert(after[i] == branches[i]);
        if j < branches.len() {
            assert(after[j] == branches[j]);
        }
    }
}

/// Rewriting a branch without changing its key keeps the keys unique.
pub proof fn lemma_update_keeps_branch_keys_unique(branches: Seq<Branch>, place: int, branch: Branch)
    requires
        branch_keys_unique(branches),
        0 <= place < branches.len(),
        branches[place].conversation_id == branch.conversation_id,
        branches[place].branch_id == branch.branch_id,
    ensures
        branch_keys_unique(branches.update(place, branch)),
{
    let after = branches.update(place, branch);
    assert forall|i: int, j: int| 0 <= i < j < after.len() implies !((
    #[trigger] after[i]).conversation_id == (#[trigger] after[j]).conversation_id
        && after[i].branch_id == after[j].branch_id) by {
        assert(after[i].conversation_id == branches[i].conversation_id);
        assert(after[j].conversation_id == branches[j].conversation_id);
    }
}

/// Moving a branch's leaf updates the reverse index: the new leaf leads to
/// the branch, and the old leaf, where it is another message, leads nowhere.
pub proof fn lemma_moved_leaf_resolves(
    leaf_index: Map<u128, (u128, u128)>,
    old_leaf_id: u128,
    new_leaf_id: u128,
    conversation_id: u128,
    branch_id: u128,
)
    ensures
        moved_leaf(leaf_index, old_leaf_id, new_leaf_id, conversation_id, branch_id).contains_key(
            new_leaf_id,
        ),
        moved_leaf(leaf_index, old_leaf_id, new_leaf_id, conversation_id, branch_id)[new_leaf_id]
            == (conversation_id, branch_id),
        old_leaf_id != new_leaf_id ==> !moved_leaf(
            leaf_index,
            old_leaf_id,
            new_leaf_id,
            conversation_id,
            branch_id,
        ).contains_key(old_leaf_id),
{
}

} // verus!
