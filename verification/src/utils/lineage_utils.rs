//! The lineage engine: pure functions on root-first chains of message ids.

use vstd::prelude::*;

verus! {

/// A lineage that is deeper than the configured limit.
#[derive(Debug, Clone, Copy, PartialEq, Eq, Structural)]
pub struct DepthExceeded {
    /// The length of the rejected lineage.
    pub depth: usize,
    /// The limit it was held against.
    pub max_depth: usize,
}

/// The number of leading positions at which `a` and `b` hold the same id.
pub open spec fn common_prefix_len(a: Seq<u128>, b: Seq<u128>) -> nat
    decreases a.len(),
{
    if a.len() == 0 || b.len() == 0 || a[0] != b[0] {
        0
    } else {
        1 + common_prefix_len(a.skip(1), b.skip(1))
    }
}

/// The longest chain that both `a` and `b` start with.
pub open spec fn common_prefix(a: Seq<u128>, b: Seq<u128>) -> Seq<u128> {
    a.take(common_prefix_len(a, b) as int)
}

/// The number of edges on the tree path between the ends of `a` and `b`.
pub open spec fn tree_distance(a: Seq<u128>, b: Seq<u128>) -> nat {
    ((a.len() - common_prefix_len(a, b)) + (b.len() - common_prefix_len(a, b))) as nat
}

/// `common_prefix_len` is the length of the longest common prefix: the two
/// chains agree below it, and either one of them ends there or they differ
/// at that position.
pub proof fn lemma_common_prefix_len(a: Seq<u128>, b: Seq<u128>)
    ensures
        common_prefix_len(a, b) <= a.len(),
        common_prefix_len(a, b) <= b.len(),
        forall|i: int| 0 <= i < common_prefix_len(a, b) ==> a[i] == b[i],
        common_prefix_len(a, b) == a.len() || common_prefix_len(a, b) == b.len()
            || a[common_prefix_len(a, b) as int] != b[common_prefix_len(a, b) as int],
    decreases a.len(),
{
    if a.len() == 0 || b.len() == 0 || a[0] != b[0] {
    } else {
        let n = common_prefix_len(a.skip(1), b.skip(1));
        lemma_common_prefix_len(a.skip(1), b.skip(1));
        assert forall|i: int| 0 <= i < n + 1 implies a[i] == b[i] by {
            if i > 0 {
                assert(a.skip(1)[i - 1] == b.skip(1)[i - 1]);
            }
        }
        if n < a.skip(1).len() && n < b.skip(1).len() {
            assert(a.skip(1)[n as int] == a[n as int + 1]);
            assert(b.skip(1)[n as int] == b[n as int + 1]);
        }
    }
}

/// Any length with the three properties of `lemma_common_prefix_len` is
/// `common_prefix_len`.
pub proof fn lemma_common_prefix_len_unique(a: Seq<u128>, b: Seq<u128>, n: nat)
    requires
        n <= a.len(),
        n <= b.len(),
        forall|i: int| 0 <= i < n ==> a[i] == b[i],
        n == a.len() || n == b.len() || a[n as int] != b[n as int],
    ensures
        n == common_prefix_len(a, b),
{
    lemma_common_prefix_len(a, b);
    let c = common_prefix_len(a, b);
    if c < n {
        assert(a[c as int] == b[c as int]);
    } else if n < c {
        assert(a[n as int] == b[n as int]);
    }
}

/// The lineage of a new message: its parent's lineage followed by its own id.
pub fn compute_lineage(parent_lineage: &[u128], new_message_id: u128) -> (lineage: Vec<u128>)
    ensures
        lineage@ == parent_lineage@.push(new_message_id),
{
    let mut lineage: Vec<u128> = Vec::new();
    let mut i: usize = 0;
    while i < parent_lineage.len()
        invariant
            i <= parent_lineage.len(),
            lineage@ == parent_lineage@.take(i as int),
        decreases parent_lineage.len() - i,
    {
        lineage.push(parent_lineage[i]);
        i = i + 1;
        assert(lineage@ =~= parent_lineage@.take(i as int));
    }
    assert(parent_lineage@.take(i as int) =~= parent_lineage@);
    lineage.push(new_message_id);
    lineage
}

/// Accepts a lineage of at most `max_depth` ids and rejects a longer one.
pub fn validate_lineage_depth(lineage: &[u128], max_depth: usize) -> (result: Result<
    (),
    DepthExceeded,
>)
    ensures
        lineage@.len() <= max_depth ==> result == Ok::<(), DepthExceeded>(()),
        lineage@.len() > max_depth ==> result == Err::<(), DepthExceeded>(
            DepthExceeded { depth: lineage@.len() as usize, max_depth },
        ),
{
    if lineage.len() > max_depth {
        return Err(DepthExceeded { depth: lineage.len(), max_depth });
    }
    Ok(())
}

/// Whether `ancestor_id` occurs in `descendant_lineage`.
pub fn is_ancestor(ancestor_id: u128, descendant_lineage: &[u128]) -> (found: bool)
    ensures
        found == descendant_lineage@.contains(ancestor_id),
{
    let mut i: usize = 0;
    while i < descendant_lineage.len()
        invariant
            i <= descendant_lineage.len(),
            forall|j: int| 0 <= j < i ==> descendant_lineage@[j] != ancestor_id,
        decreases descendant_lineage.len() - i,
    {
        if descendant_lineage[i] == ancestor_id {
            return true;
        }
        i = i + 1;
    }
    false
}

/// The longest shared prefix of two root-first chains.
pub fn common_ancestor_path(lineage_a: &[u128], lineage_b: &[u128]) -> (path: Vec<u128>)
    ensures
        path@ == common_prefix(lineage_a@, lineage_b@),
{
    let mut path: Vec<u128> = Vec::new();
    let mut i: usize = 0;
    while i < lineage_a.len() && i < lineage_b.len() && lineage_a[i] == lineage_b[i]
        invariant
            i <= lineage_a.len(),
            i <= lineage_b.len(),
            forall|j: int| 0 <= j < i ==> lineage_a@[j] == lineage_b@[j],
            path@ == lineage_a@.take(i as int),
        decreases lineage_a.len() - i,
    {
        path.push(lineage_a[i]);
        i = i + 1;
        assert(path@ =~= lineage_a@.take(i as int));
    }
    proof {
        lemma_common_prefix_len_unique(lineage_a@, lineage_b@, i as nat);
    }
    path
}

/// The distance between two messages of one tree: the steps from each up to
/// their deepest common ancestor, added.
pub fn depth_difference(lineage_a: &[u128], lineage_b: &[u128]) -> (distance: usize)
    requires
        lineage_a@.len() + lineage_b@.len() <= usize::MAX,
    ensures
        distance == tree_distance(lineage_a@, lineage_b@),
{
    let common = common_ancestor_path(lineage_a, lineage_b).len();
    proof {
        lemma_common_prefix_len(lineage_a@, lineage_b@);
    }
    (lineage_a.len() - common) + (lineage_b.len() - common)
}

} // verus!
