//! A heap-less, fixed-block memory pool for single-core, interrupt-driven
//! targets, verified as an executable model.
//!
//! The pool keeps its free blocks on a Treiber stack: a singly-linked list of
//! nodes whose head is only ever replaced through an exclusive-access
//! primitive, so that allocation and deallocation stay safe under preemption
//! by nested interrupt handlers. Here the nodes live in an arena indexed by
//! plain integers, and the two low-level synchronization backends
//! (compare-and-swap, and load-link/store-conditional with an explicit
//! reservation) are modelled as verified state machines, so every structural
//! claim about the free list is proved rather than argued.
//!
//! A claimed block is represented by a type-state handle: `Box<T, Uninit>`
//! owns a node whose value slot is empty, `Box<T, Init>` owns a node holding a
//! live value. Freeing an initialized handle runs the value's destructor
//! exactly once; freeing an uninitialized one never runs any destructor.

use vstd::prelude::*;

pub mod layout;
pub mod model;
pub mod sync;

use crate::layout::{NodeLayout, Region, spec_grow_count};
use crate::model::{alloc_result, apply, fresh_stack, inv, PoolOp, PoolView};
use crate::sync::Head;
use core::marker::PhantomData;

verus! {

/// A handle's type state: either the node holds a live value or it does not.
/// The state is a compile-time tag; its one runtime reflection is the bit that
/// tells `free` whether a destructor must run.
pub trait State {
    /// Whether a handle in this state owns a live value.
    spec fn is_init() -> bool;

    /// Runtime mirror of `is_init`.
    fn runtime_is_init() -> (r: bool)
        ensures
            r == Self::is_init(),
    ;
}

/// Uninitialized type state: the node was claimed but holds no value yet.
pub enum Uninit {
    /// The tag's only inhabitant; handles carry the type, not the value.
    Marker,
}

/// Initialized type state: the node holds a live value.
pub enum Init {
    /// The tag's only inhabitant; handles carry the type, not the value.
    Marker,
}

impl State for Uninit {
    open spec fn is_init() -> bool {
        false
    }

    fn runtime_is_init() -> (r: bool) {
        false
    }
}

impl State for Init {
    open spec fn is_init() -> bool {
        true
    }

    fn runtime_is_init() -> (r: bool) {
        true
    }
}

/// One storage cell of the pool arena. While the node sits on the free list it
/// carries the link to the node below it and no value; once claimed, the link
/// is meaningless and the value slot belongs to the handle that claimed it --
/// never both interpretations at once.
pub struct Node<T> {
    next: Option<usize>,
    value: Option<T>,
}

impl<T> Node<T> {
    /// The free-list link.
    pub closed spec fn spec_next(&self) -> Option<usize> {
        self.next
    }

    /// The value slot.
    pub closed spec fn spec_value(&self) -> Option<T> {
        self.value
    }

    /// An empty cell: not linked anywhere, holding no value.
    pub fn new() -> (r: Node<T>)
        ensures
            r.spec_next() is None,
            r.spec_value() is None,
    {
        Node { next: None, value: None }
    }
}

/// A memory block claimed from a pool: the exclusively owned right to one
/// node's value slot and to returning that node. The handle is not clonable,
/// so at most one live handle exists per claimed node; `init` and `free`
/// consume it. Its view is the index of the node it owns, which is how tests
/// and laws track node identity.
pub struct Box<T, S> {
    idx: usize,
    marker: PhantomData<(T, S)>,
}

impl<T, S: State> View for Box<T, S> {
    type V = usize;

    closed spec fn view(&self) -> usize {
        self.idx
    }
}

impl<T, S: State> Box<T, S> {
    /// A handle is valid for a pool when the node it names is a real slot that
    /// the pool holds as claimed, and the node's value slot matches the
    /// handle's type state: live exactly when the state is initialized.
    pub open spec fn wf(&self, pool: &Pool<T>) -> bool {
        &&& pool@.claimed.contains(self@)
        &&& (self@ as nat) < pool@.slot_count
        &&& (S::is_init() ==> pool.value_at(self@) is Some)
        &&& (!S::is_init() ==> pool.value_at(self@) is None)
    }

    /// The index of the node this handle owns: its identity.
    pub fn node_id(&self) -> (r: usize)
        ensures
            r == self@,
    {
        self.idx
    }
}

/// A lock-free, fixed-block memory pool: a free list of nodes kept as a
/// Treiber stack, an arena of node slots registered through growth, and the
/// node layout of the modelled target.
pub struct Pool<T> {
    head: Head,
    slots: Vec<Node<T>>,
    layout: NodeLayout,
    free: Ghost<Seq<usize>>,
    claimed: Ghost<Set<usize>>,
}

impl<T> View for Pool<T> {
    type V = PoolView;

    closed spec fn view(&self) -> PoolView {
        PoolView { free: self.free@, claimed: self.claimed@, slot_count: self.slots@.len() }
    }
}

impl<T> Pool<T> {
    /// The value currently stored in slot `i`, if any.
    pub closed spec fn value_at(&self, i: usize) -> Option<T> {
        if (i as nat) < self.slots@.len() {
            self.slots@[i as int].spec_value()
        } else {
            None
        }
    }

    /// The node layout this pool carves regions with.
    pub closed spec fn spec_layout(&self) -> NodeLayout {
        self.layout
    }

    /// The pool's internal well-formedness: the head names the top of the free
    /// list; the free list is an acyclic chain threaded through the nodes'
    /// links, ending in an empty link; every free index names a real slot, is
    /// held by no handle, and its node carries no value; every claimed index
    /// names a real slot; and the synchronization backend is consistent and
    /// quiescent, with no reservation left dangling between operations.
    pub closed spec fn wf(&self) -> bool {
        &&& self.head.wf()
        &&& self.head.quiescent()
        &&& self.layout.wf()
        &&& self.head.spec_value() == (if self.free@.len() == 0 {
            None::<usize>
        } else {
            Some(self.free@[0])
        })
        &&& forall|k: int|
            0 <= k < self.free@.len() ==> ((#[trigger] self.free@[k]) as nat) < self.slots@.len()
        &&& forall|k: int|
            0 <= k < self.free@.len() - 1 ==> self.slots@[(#[trigger] self.free@[k]) as int].spec_next()
                == Some(self.free@[k + 1])
        &&& (self.free@.len() > 0 ==> self.slots@[self.free@[self.free@.len() - 1] as int].spec_next()
            is None)
        &&& forall|j: int, k: int|
            0 <= j < k < self.free@.len() ==> #[trigger] self.free@[j] != #[trigger] self.free@[k]
        &&& forall|k: int|
            0 <= k < self.free@.len() ==> !self.claimed@.contains(#[trigger] self.free@[k])
        &&& forall|i: usize| self.claimed@.contains(i) ==> (i as nat) < self.slots@.len()
        &&& forall|k: int|
            0 <= k < self.free@.len() ==> self.slots@[(#[trigger] self.free@[k]) as int].spec_value()
                is None
    }

    /// A well-formed pool's abstract state satisfies the structural invariant
    /// of the model.
    pub proof fn lemma_wf_implies_inv(&self)
        requires
            self.wf(),
        ensures
            inv(self@),
    {
        broadcast use vstd::std_specs::vec::axiom_spec_len;

        assert(vstd::std_specs::vec::spec_vec_len(&self.slots) == self.slots@.len());
    }

    /// Creates a new empty pool over nodes of the given layout, backed by the
    /// portable compare-and-swap primitive. No allocation succeeds before the
    /// first growth.
    pub fn new(layout: NodeLayout) -> (r: Pool<T>)
        requires
            layout.wf(),
        ensures
            r.wf(),
            r@.free.len() == 0,
            r@.claimed == Set::<usize>::empty(),
            r@.slot_count == 0,
            r.spec_layout() == layout,
            forall|i: usize| r.value_at(i) is None,
    {
        Pool {
            head: Head::new_cas(),
            slots: Vec::new(),
            layout,
            free: Ghost(Seq::empty()),
            claimed: Ghost(Set::empty()),
        }
    }

    /// Like `new`, but backed by the load-link/store-conditional primitive.
    /// Which backend a pool uses is an explicit build-time choice; the two are
    /// interchangeable and meet the same contract.
    pub fn new_llsc(layout: NodeLayout) -> (r: Pool<T>)
        requires
            layout.wf(),
        ensures
            r.wf(),
            r@.free.len() == 0,
            r@.claimed == Set::<usize>::empty(),
            r@.slot_count == 0,
            r.spec_layout() == layout,
            forall|i: usize| r.value_at(i) is None,
    {
        Pool {
            head: Head::new_llsc(),
            slots: Vec::new(),
            layout,
            free: Ghost(Seq::empty()),
            claimed: Ghost(Set::empty()),
        }
    }

    /// The node layout this pool carves regions with.
    pub fn node_layout(&self) -> (r: NodeLayout)
        ensures
            r == self.spec_layout(),
    {
        self.layout
    }

    /// How many node slots the pool has registered through growth so far.
    pub fn slot_count(&self) -> (r: usize)
        ensures
            r as nat == self@.slot_count,
    {
        self.slots.len()
    }

    /// Pops the top node off the free stack: observe the head; if the stack is
    /// empty, give up the observation and report exhaustion; otherwise read
    /// the top node's link and attempt the exclusive swap, retrying from
    /// scratch if something ran in between.
    fn pop(&mut self) -> (r: Option<usize>)
        requires
            old(self).wf(),
        ensures
            final (self).wf(),
            final (self)@.claimed == old(self)@.claimed,
            final (self)@.slot_count == old(self)@.slot_count,
            final (self).spec_layout() == old(self).spec_layout(),
            forall|i: usize| final (self).value_at(i) == old(self).value_at(i),
            match r {
                None => old(self)@.free.len() == 0 && final (self)@.free == old(self)@.free,
                Some(i) => old(self)@.free.len() > 0 && i == old(self)@.free[0] && final (self)@.free
                    == old(self)@.free.drop_first(),
            },
    {
        let ghost snap = *old(self);
        loop
            invariant
                *self == snap,
                snap == *old(self),
                snap.wf(),
            decreases 0int,
        {
            let observed = self.head.observe();
            match observed {
                None => {
                    self.head.abandon();
                    return None;
                },
                Some(h) => {
                    let next = self.slots[h].next;
                    match self.head.attempt_swap(observed, next) {
                        Ok(()) => {
                            self.free = Ghost(snap.free@.drop_first());
                            return Some(h);
                        },
                        Err(_) => {
                            // a failed swap means something ran between the
                            // observation and the attempt; with exclusive
                            // access to the pool nothing can, so this retry
                            // arm is provably never taken -- interference is
                            // the subject of the model's interleaving law
                            proof {
                                assert(false);
                            }
                        },
                    }
                },
            }
        }
    }

    /// Pushes node `i` onto the free stack: observe the head, write it into
    /// the node's link, and attempt the exclusive swap of the head to `i`,
    /// retrying from scratch if something ran in between.
    fn push(&mut self, i: usize)
        requires
            old(self).wf(),
            (i as nat) < old(self)@.slot_count,
            !old(self)@.free.contains(i),
            !old(self)@.claimed.contains(i),
            old(self).value_at(i) is None,
        ensures
            final (self).wf(),
            final (self)@.free == seq![i] + old(self)@.free,
            final (self)@.claimed == old(self)@.claimed,
            final (self)@.slot_count == old(self)@.slot_count,
            final (self).spec_layout() == old(self).spec_layout(),
            forall|j: usize| final (self).value_at(j) == old(self).value_at(j),
    {
        let ghost snap = *old(self);
        loop
            invariant
                *self == snap,
                snap == *old(self),
                snap.wf(),
                (i as nat) < snap@.slot_count,
                !snap@.free.contains(i),
                !snap@.claimed.contains(i),
                snap.value_at(i) is None,
            decreases 0int,
        {
            let observed = self.head.observe();
            self.slots[i].next = observed;
            match self.head.attempt_swap(observed, Some(i)) {
                Ok(()) => {
                    self.free = Ghost(seq![i] + snap.free@);
                    proof {
                        assert forall|k: int| 0 <= k < self.free@.len() implies !self.claimed@
                            .contains(#[trigger] self.free@[k]) by {
                            if k > 0 {
                                assert(self.free@[k] == snap.free@[k - 1]);
                            }
                        }
                        if snap.free@.len() == 0 {
                            assert(self.free@[self.free@.len() - 1] == i);
                        }
                    }
                    return ;
                },
                Err(_) => {
                    // provably never taken: see the matching arm in `pop`
                    proof {
                        assert(false);
                    }
                },
            }
        }
    }

    /// Claims a memory block from the pool: pops the top free node and hands
    /// back an exclusively owned, uninitialized handle to it. Returns `None`
    /// when the pool is observed as exhausted -- allocation never blocks and
    /// never fails any other way.
    pub fn claim(&mut self) -> (r: Option<Box<T, Uninit>>)
        requires
            old(self).wf(),
        ensures
            final (self).wf(),
            final (self)@ == apply(old(self)@, PoolOp::Alloc),
            final (self).spec_layout() == old(self).spec_layout(),
            forall|i: usize| final (self).value_at(i) == old(self).value_at(i),
            match r {
                None => old(self)@.free.len() == 0,
                Some(b) => alloc_result(old(self)@) == Some(b@) && b.wf(final (self)),
            },
    {
        match self.pop() {
            None => {
                proof {
                    assert(self@ =~= apply(old(self)@, PoolOp::Alloc));
                }
                None
            },
            Some(i) => {
                proof {
                    assert(old(self).value_at(i) is None);
                    assert forall|k: int| 0 <= k < self.free@.len() implies self.free@[k] != i by {
                        assert(self.free@[k] == old(self)@.free[k + 1]);
                    }
                }
                self.claimed = Ghost(self.claimed@.insert(i));
                proof {
                    assert(self@ =~= apply(old(self)@, PoolOp::Alloc));
                }
                Some(Box { idx: i, marker: PhantomData })
            },
        }
    }

    /// Returns a memory block to the pool. If the handle is initialized, the
    /// contained value's destructor runs, in place, exactly once before the
    /// node rejoins the free list; an uninitialized handle owns no value, so
    /// no destructor ever runs for it. Consumes the handle, so a block can be
    /// freed at most once.
    pub fn free<S: State>(&mut self, value: Box<T, S>)
        requires
            old(self).wf(),
            value.wf(old(self)),
        ensures
            final (self).wf(),
            final (self)@ == apply(old(self)@, PoolOp::Free(value@)),
            final (self).spec_layout() == old(self).spec_layout(),
            final (self).value_at(value@) is None,
            forall|i: usize| i != value@ ==> final (self).value_at(i) == old(self).value_at(i),
    {
        let idx = value.idx;
        proof {
            assert(!self.free@.contains(idx)) by {
                if self.free@.contains(idx) {
                    let k = choose|k: int| 0 <= k < self.free@.len() && self.free@[k] == idx;
                    assert(!self.claimed@.contains(self.free@[k]));
                }
            }
        }
        if S::runtime_is_init() {
            // take the live value out of the node; dropping it here is the
            // exactly-once destructor call that freeing an initialized block owes
            let slot = &mut self.slots[idx];
            let _value = slot.value.take();
        }
        self.claimed = Ghost(self.claimed@.remove(idx));
        self.push(idx);
    }

    /// Registers `n` fresh node slots and pushes each onto the free stack.
    /// Each push is itself a complete stack operation, so growth is safe to
    /// run concurrently with unrelated traffic on the same pool.
    fn grow_by(&mut self, n: usize)
        requires
            old(self).wf(),
            old(self)@.slot_count + n <= usize::MAX,
        ensures
            final (self).wf(),
            final (self)@ == apply(old(self)@, PoolOp::Grow(n)),
            final (self).spec_layout() == old(self).spec_layout(),
            forall|i: usize| final (self).value_at(i) == old(self).value_at(i),
    {
        let ghost base = old(self)@.slot_count;
        let mut j: usize = 0;
        while j < n
            invariant
                self.wf(),
                old(self).wf(),
                j <= n,
                base == old(self)@.slot_count,
                base + n <= usize::MAX,
                self@.slot_count == base + j,
                self@.claimed == old(self)@.claimed,
                self@.free == fresh_stack(base, j as nat) + old(self)@.free,
                self.spec_layout() == old(self).spec_layout(),
                forall|i: usize| self.value_at(i) == old(self).value_at(i),
            decreases n - j,
        {
            let idx = self.slots.len();
            proof {
                assert forall|k: int| 0 <= k < self.free@.len() implies self.free@[k] != idx by {
                    if k < fresh_stack(base, j as nat).len() {
                        assert(self.free@[k] == fresh_stack(base, j as nat)[k]);
                    } else {
                        let k2 = k - fresh_stack(base, j as nat).len();
                        assert(self.free@[k] == old(self)@.free[k2]);
                        assert(((old(self)@.free[k2]) as nat) < base);
                    }
                }
            }
            self.slots.push(Node::new());
            proof {
                assert(self.wf());
                assert(!self.free@.contains(idx));
                assert(self.value_at(idx) is None);
            }
            self.push(idx);
            proof {
                crate::model::lemma_fresh_stack_extend(base, (j + 1) as nat, old(self)@.free);
                assert(self@.free == seq![idx] + (fresh_stack(base, j as nat) + old(self)@.free));
                assert(self@.free =~= fresh_stack(base, (j + 1) as nat) + old(self)@.free);
            }
            j += 1;
        }
        proof {
            assert(self@ =~= apply(old(self)@, PoolOp::Grow(n)));
        }
    }

    /// Increases the capacity of the pool: carves `region` into as many whole,
    /// aligned nodes as fit and pushes each onto the free stack. A region too
    /// small for even one aligned node is silently absorbed -- no nodes are
    /// added and no error is reported; the slack is permanently wasted. The
    /// region's bytes are donated for the life of the pool.
    pub fn grow(&mut self, region: Region)
        requires
            old(self).wf(),
            old(self)@.slot_count + spec_grow_count(old(self).spec_layout(), region)
                <= usize::MAX,
        ensures
            final (self).wf(),
            final (self)@ == apply(
                old(self)@,
                PoolOp::Grow(spec_grow_count(old(self).spec_layout(), region) as usize),
            ),
            final (self).spec_layout() == old(self).spec_layout(),
            forall|i: usize| final (self).value_at(i) == old(self).value_at(i),
    {
        let n = self.layout.node_capacity(region);
        self.grow_by(n);
    }

    /// Increases the capacity of the pool with memory already shaped as an
    /// array of nodes: every slot is used, with no alignment slack. The array
    /// is donated to the pool.
    pub fn grow_exact(&mut self, nodes: Vec<Node<T>>)
        requires
            old(self).wf(),
            old(self)@.slot_count + nodes@.len() <= usize::MAX,
        ensures
            final (self).wf(),
            final (self)@ == apply(old(self)@, PoolOp::Grow(nodes@.len() as usize)),
            final (self).spec_layout() == old(self).spec_layout(),
            forall|i: usize| final (self).value_at(i) == old(self).value_at(i),
    {
        let n = nodes.len();
        self.grow_by(n);
    }
}

impl<T> Box<T, Uninit> {
    /// Initializes this memory block: writes `value` into the node's value
    /// slot and hands back a handle to the same node in the initialized state.
    /// Consumes the uninitialized handle, so the transition happens at most
    /// once per claim.
    pub fn init(self, pool: &mut Pool<T>, value: T) -> (r: Box<T, Init>)
        requires
            old(pool).wf(),
            self.wf(old(pool)),
        ensures
            final (pool).wf(),
            final (pool)@ == old(pool)@,
            final (pool).spec_layout() == old(pool).spec_layout(),
            r@ == self@,
            r.wf(final (pool)),
            final (pool).value_at(r@) == Some(value),
            forall|i: usize| i != r@ ==> final (pool).value_at(i) == old(pool).value_at(i),
    {
        let idx = self.idx;
        proof {
            assert(!pool.free@.contains(idx)) by {
                if pool.free@.contains(idx) {
                    let k = choose|k: int| 0 <= k < pool.free@.len() && pool.free@[k] == idx;
                    assert(!pool.claimed@.contains(pool.free@[k]));
                }
            }
        }
        let slot = &mut pool.slots[idx];
        slot.value = Some(value);
        Box { idx, marker: PhantomData }
    }
}

impl<T> Box<T, Init> {
    /// Read access to the value this initialized handle owns.
    pub fn get<'a>(&self, pool: &'a Pool<T>) -> (r: &'a T)
        requires
            pool.wf(),
            self.wf(pool),
        ensures
            pool.value_at(self@) == Some(*r),
    {
        let slot = &pool.slots[self.idx];
        match &slot.value {
            Some(v) => v,
            None => vstd::pervasive::unreached(),
        }
    }

    /// Write access to the value this initialized handle owns.
    pub fn get_mut<'a>(&self, pool: &'a mut Pool<T>) -> (r: &'a mut T)
        requires
            old(pool).wf(),
            self.wf(old(pool)),
        ensures
            old(pool).value_at(self@) == Some(*r),
            final (pool).wf(),
            final (pool)@ == old(pool)@,
            final (pool).spec_layout() == old(pool).spec_layout(),
            final (pool).value_at(self@) == Some(*final (r)),
            self.wf(final (pool)),
            forall|i: usize| i != self@ ==> final (pool).value_at(i) == old(pool).value_at(i),
    {
        proof {
            assert(!pool.free@.contains(self.idx)) by {
                if pool.free@.contains(self.idx) {
                    let k = choose|k: int| 0 <= k < pool.free@.len() && pool.free@[k] == self.idx;
                    assert(!pool.claimed@.contains(pool.free@[k]));
                }
            }
        }
        let slot = &mut pool.slots[self.idx];
        match &mut slot.value {
            Some(v) => v,
            None => vstd::pervasive::unreached(),
        }
    }
}

} // verus!
