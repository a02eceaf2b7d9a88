//! Shares and the three permission tiers.

use vstd::prelude::*;

use crate::domain::timestamp::Timestamp;
use crate::utils::text::text_eq;

verus! {

/// What a share allows. The tiers are ordered `Read < Branch < Fork`, and a
/// higher tier allows everything a lower one does.
#[derive(Debug, Clone, Copy, PartialEq, Eq, Structural)]
pub enum Permission {
    Read,
    Branch,
    Fork,
}

/// A grant of one permission tier on one conversation to one user.
#[derive(Debug, PartialEq)]
pub struct Share {
    pub conversation_id: u128,
    pub shared_with: String,
    pub permission: Permission,
    pub shared_at: Timestamp,
    pub shared_by: String,
}

impl Clone for Share {
    fn clone(&self) -> (copy: Self)
        ensures
            copy == *self,
    {
        Share {
            conversation_id: self.conversation_id,
            shared_with: self.shared_with.clone(),
            permission: self.permission,
            shared_at: self.shared_at,
            shared_by: self.shared_by.clone(),
        }
    }
}

/// The stored name of a permission tier.
pub open spec fn permission_text(permission: Permission) -> Seq<char> {
    match permission {
        Permission::Read => "read"@,
        Permission::Branch => "branch"@,
        Permission::Fork => "fork"@,
    }
}

/// The permission tier that a stored name stands for, if any.
pub open spec fn permission_of_text(text: Seq<char>) -> Option<Permission> {
    if text == "read"@ {
        Some(Permission::Read)
    } else if text == "branch"@ {
        Some(Permission::Branch)
    } else if text == "fork"@ {
        Some(Permission::Fork)
    } else {
        None
    }
}

impl Permission {
    /// The position of a tier in the order `Read < Branch < Fork`.
    pub open spec fn rank(self) -> nat {
        match self {
            Permission::Read => 0,
            Permission::Branch => 1,
            Permission::Fork => 2,
        }
    }

    /// Whether a holder of `self` may do what `required` asks for.
    pub open spec fn allows(self, required: Permission) -> bool {
        required.rank() <= self.rank()
    }

    pub fn as_str(&self) -> (text: &'static str)
        ensures
            text@ == permission_text(*self),
    {
        match self {
            Permission::Read => "read",
            Permission::Branch => "branch",
            Permission::Fork => "fork",
        }
    }

    pub fn parse(s: &str) -> (parsed: Option<Self>)
        ensures
            parsed == permission_of_text(s@),
    {
        if text_eq(s, "read") {
            Some(Permission::Read)
        } else if text_eq(s, "branch") {
            Some(Permission::Branch)
        } else if text_eq(s, "fork") {
            Some(Permission::Fork)
        } else {
            None
        }
    }

    pub fn can_read(&self) -> (allowed: bool)
        ensures
            allowed == self.allows(Permission::Read),
            allowed,
    {
        match self {
            Permission::Read | Permission::Branch | Permission::Fork => true,
        }
    }

    pub fn can_branch(&self) -> (allowed: bool)
        ensures
            allowed == self.allows(Permission::Branch),
    {
        match self {
            Permission::Branch | Permission::Fork => true,
            Permission::Read => false,
        }
    }

    pub fn can_fork(&self) -> (allowed: bool)
        ensures
            allowed == self.allows(Permission::Fork),
    {
        match self {
            Permission::Fork => true,
            Permission::Read | Permission::Branch => false,
        }
    }

    /// Whether `self` is enough where `required` is asked for.
    pub fn satisfies(&self, required: Permission) -> (allowed: bool)
        ensures
            allowed == self.allows(required),
    {
        match required {
            Permission::Read => self.can_read(),
            Permission::Branch => self.can_branch(),
            Permission::Fork => self.can_fork(),
        }
    }
}

/// The three stored names are pairwise different, so a tier is read back
/// from its own name.
pub proof fn lemma_permission_text_round_trip(permission: Permission)
    ensures
        permission_of_text(permission_text(permission)) == Some(permission),
{
    reveal_strlit("read");
    reveal_strlit("branch");
    reveal_strlit("fork");
    assert("read"@.len() == 4);
    assert("branch"@.len() == 6);
    assert("fork"@.len() == 4);
    assert("read"@[0] == 'r');
    assert("fork"@[0] == 'f');
}

/// The tiers form a chain: a tier that allows `b` allows every `c` that `b`
/// allows, and of two tiers one allows the other.
pub proof fn lemma_permission_order(a: Permission, b: Permission, c: Permission)
    ensures
        a.allows(a),
        a.allows(b) && b.allows(c) ==> a.allows(c),
        a.allows(b) || b.allows(a),
        a.allows(b) && b.allows(a) ==> a == b,
        Permission::Fork.allows(a),
        a.allows(Permission::Read),
{
}

} // verus!
