//! The abstract state of a pool and the laws its operations obey.
//!
//! A pool's observable state is which node indices are on the free list, in
//! which order; which indices are held by an outstanding handle; and how many
//! node slots exist at all. Every executable operation promises, in its
//! contract, to be exactly one of the transitions below. The operations are
//! linearizable: each one takes effect in a single successful swap of the
//! stack head, so a run of alloc, free and grow calls issued by nested,
//! mutually preempting contexts is, at the level of this state, some sequence
//! of these transitions. The lemmas at the end therefore cover every such
//! interleaving.

use vstd::prelude::*;

verus! {

/// The abstract state of a pool.
#[verifier::ext_equal]
pub struct PoolView {
    /// Indices of the nodes on the free list, top of the stack first.
    pub free: Seq<usize>,
    /// Indices of the nodes currently held by a live handle: claimed by an
    /// allocation and not yet returned.
    pub claimed: Set<usize>,
    /// How many node slots the pool has ever registered through growth.
    pub slot_count: nat,
}

/// One pool operation, as it appears at its linearization point.
pub enum PoolOp {
    /// Claim the top free node, if any.
    Alloc,
    /// Return the claimed node with this index to the free list.
    Free(usize),
    /// Register this many fresh node slots, pushing each in turn.
    Grow(usize),
}

/// The structural invariant of a pool: the free list is an acyclic chain (no
/// index appears on it twice), every index it holds names a real slot, no node
/// is both on the free list and held by a live handle, and every held index
/// names a real slot too.
pub open spec fn inv(v: PoolView) -> bool {
    &&& v.slot_count <= usize::MAX
    &&& forall|k: int| 0 <= k < v.free.len() ==> (#[trigger] v.free[k]) < v.slot_count
    &&& forall|j: int, k: int|
        0 <= j < k < v.free.len() ==> #[trigger] v.free[j] != #[trigger] v.free[k]
    &&& forall|k: int| 0 <= k < v.free.len() ==> !v.claimed.contains(#[trigger] v.free[k])
    &&& forall|i: usize| v.claimed.contains(i) ==> i < v.slot_count
}

/// The fresh indices that growing by `n` slots pushes, in the order they end up
/// on the stack: the last slot pushed is on top.
pub open spec fn fresh_stack(base: nat, n: nat) -> Seq<usize>
    recommends
        base + n <= usize::MAX,
{
    Seq::new(n, |k: int| (base + n - 1 - k) as usize)
}

/// Pushing the next fresh index on top of the stack of `j - 1` fresh indices
/// gives the stack of `j` fresh indices.
pub proof fn lemma_fresh_stack_extend(base: nat, j: nat, rest: Seq<usize>)
    requires
        1 <= j,
        base + j <= usize::MAX,
    ensures
        seq![((base + j - 1) as usize)] + (fresh_stack(base, (j - 1) as nat) + rest)
            =~= fresh_stack(base, j as nat) + rest,
{
    let lhs = seq![((base + j - 1) as usize)] + (fresh_stack(base, (j - 1) as nat) + rest);
    let rhs = fresh_stack(base, j as nat) + rest;
    assert(lhs.len() == rhs.len());
    assert forall|k: int| 0 <= k < lhs.len() implies lhs[k] == rhs[k] by {
        if k == 0 {
        } else if k < j {
            assert(lhs[k] == fresh_stack(base, (j - 1) as nat)[k - 1]);
            assert(rhs[k] == fresh_stack(base, j as nat)[k]);
        } else {
            assert(lhs[k] == rest[k - j]);
            assert(rhs[k] == rest[k - j]);
        }
    }
}

/// What an allocation returns in state `v`: the top of the free list, or
/// nothing when the pool is exhausted.
pub open spec fn alloc_result(v: PoolView) -> Option<usize> {
    if v.free.len() == 0 {
        None
    } else {
        Some(v.free[0])
    }
}

/// The state transition of one operation. An operation whose precondition does
/// not hold (freeing an index that no handle holds, or growth that would
/// overflow the index space) leaves the state unchanged; the executable pool
/// never takes such a step.
pub open spec fn apply(v: PoolView, op: PoolOp) -> PoolView {
    match op {
        PoolOp::Alloc => {
            if v.free.len() == 0 {
                v
            } else {
                PoolView {
                    free: v.free.drop_first(),
                    claimed: v.claimed.insert(v.free[0]),
                    slot_count: v.slot_count,
                }
            }
        },
        PoolOp::Free(i) => {
            if v.claimed.contains(i) {
                PoolView {
                    free: seq![i] + v.free,
                    claimed: v.claimed.remove(i),
                    slot_count: v.slot_count,
                }
            } else {
                v
            }
        },
        PoolOp::Grow(n) => {
            if v.slot_count + n <= usize::MAX {
                PoolView {
                    free: fresh_stack(v.slot_count, n as nat) + v.free,
                    claimed: v.claimed,
                    slot_count: (v.slot_count + n) as nat,
                }
            } else {
                v
            }
        },
    }
}

/// The state after a whole sequence of operations.
pub open spec fn apply_all(v: PoolView, ops: Seq<PoolOp>) -> PoolView
    decreases ops.len(),
{
    if ops.len() == 0 {
        v
    } else {
        apply_all(apply(v, ops[0]), ops.drop_first())
    }
}

/// Every single operation preserves the structural invariant.
pub proof fn lemma_step_preserves_inv(v: PoolView, op: PoolOp)
    requires
        inv(v),
    ensures
        inv(apply(v, op)),
{
    match op {
        PoolOp::Alloc => {},
        PoolOp::Free(i) => {
            if v.claimed.contains(i) {
                assert(forall|k: int| 0 <= k < v.free.len() ==> (#[trigger] v.free[k]) != i);
            }
        },
        PoolOp::Grow(n) => {},
    }
}

/// The law behind safety under preemption: start from any state satisfying the
/// structural invariant and run any sequence of alloc, free and grow steps --
/// that is, any interleaving that nested handler contexts can produce, since
/// each call takes effect atomically at its successful head swap -- and the
/// free list is still a valid acyclic chain and no node is simultaneously on
/// the free list and held by a live handle.
pub proof fn lemma_interleaving_preserves_inv(v: PoolView, ops: Seq<PoolOp>)
    requires
        inv(v),
    ensures
        inv(apply_all(v, ops)),
    decreases ops.len(),
{
    if ops.len() > 0 {
        lemma_step_preserves_inv(v, ops[0]);
        lemma_interleaving_preserves_inv(apply(v, ops[0]), ops.drop_first());
    }
}

/// Allocation from a pool whose free list is empty -- in particular from a
/// freshly constructed, never-grown pool -- yields nothing and changes nothing.
pub proof fn lemma_alloc_on_empty(v: PoolView)
    requires
        v.free.len() == 0,
    ensures
        alloc_result(v) is None,
        apply(v, PoolOp::Alloc) == v,
{
}

/// The state after `n` consecutive allocations.
pub open spec fn apply_allocs(v: PoolView, n: nat) -> PoolView
    decreases n,
{
    if n == 0 {
        v
    } else {
        apply_allocs(apply(v, PoolOp::Alloc), (n - 1) as nat)
    }
}

/// Each allocation takes the free list apart from the top: after `n` of them,
/// the nodes left free are exactly the part of the list below the first `n`.
pub proof fn lemma_allocs_consume_prefix(v: PoolView, n: nat)
    requires
        n <= v.free.len(),
    ensures
        apply_allocs(v, n).free =~= v.free.skip(n as int),
        apply_allocs(v, n).slot_count == v.slot_count,
    decreases n,
{
    if n > 0 {
        lemma_allocs_consume_prefix(apply(v, PoolOp::Alloc), (n - 1) as nat);
        assert(v.free.drop_first().skip(n as int - 1) =~= v.free.skip(n as int));
    }
}

/// Growing a pool whose free list is empty by exactly `k` nodes buys exactly
/// `k` allocations: for every `j` below `k` the allocation made after `j`
/// earlier ones succeeds, and the one made after `k` of them reports the pool
/// exhausted.
pub proof fn lemma_exact_capacity(v: PoolView, k: usize, j: nat)
    requires
        v.free.len() == 0,
        v.slot_count + k <= usize::MAX,
        j < k,
    ensures
        alloc_result(apply_allocs(apply(v, PoolOp::Grow(k)), j)) is Some,
        alloc_result(apply_allocs(apply(v, PoolOp::Grow(k)), k as nat)) is None,
{
    let g = apply(v, PoolOp::Grow(k));
    assert(g.free.len() == k);
    lemma_allocs_consume_prefix(g, j);
    lemma_allocs_consume_prefix(g, k as nat);
}

/// Growth that yields no nodes changes nothing.
pub proof fn lemma_grow_nothing(v: PoolView)
    requires
        inv(v),
    ensures
        apply(v, PoolOp::Grow(0)) == v,
{
    assert(fresh_stack(v.slot_count, 0) + v.free =~= v.free);
    assert(apply(v, PoolOp::Grow(0)) =~= v);
}

/// Reuse is last-freed-first: claim two nodes, give them back in the opposite
/// order, and the next two allocations return them in the order they were
/// given back -- the node freed last comes out first. Stated over node
/// identity, for any pool with at least two free nodes.
pub proof fn lemma_lifo_reuse(v: PoolView)
    requires
        inv(v),
        v.free.len() >= 2,
    ensures
        ({
            let a = v.free[0];
            let b = v.free[1];
            let v1 = apply(v, PoolOp::Alloc);
            let v2 = apply(v1, PoolOp::Alloc);
            let v3 = apply(v2, PoolOp::Free(b));
            let v4 = apply(v3, PoolOp::Free(a));
            alloc_result(v4) == Some(a) && alloc_result(apply(v4, PoolOp::Alloc)) == Some(b)
                && apply(v4, PoolOp::Alloc).free[0] == b
        }),
{
    let a = v.free[0];
    let b = v.free[1];
    let v1 = apply(v, PoolOp::Alloc);
    assert(v1.free[0] == b);
    let v2 = apply(v1, PoolOp::Alloc);
    assert(a != b);
    assert(v2.claimed.contains(b));
    let v3 = apply(v2, PoolOp::Free(b));
    assert(v3.claimed.contains(a));
    let v4 = apply(v3, PoolOp::Free(a));
    assert(v4.free[0] == a);
    assert(v4.free.len() >= 2);
    assert(v4.free[1] == b);
}

} // verus!
