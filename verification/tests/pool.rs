use std::cell::Cell;
use std::rc::Rc;

use lifo::layout::{NodeLayout, Region};
use lifo::{Node, Pool};

/// A value that keeps a shared live-count: construction increments it, the
/// destructor decrements it.
struct DropCounter {
    count: Rc<Cell<i32>>,
}

impl DropCounter {
    fn new(count: &Rc<Cell<i32>>) -> DropCounter {
        count.set(count.get() + 1);
        DropCounter { count: count.clone() }
    }
}

impl Drop for DropCounter {
    fn drop(&mut self) {
        self.count.set(self.count.get() - 1);
    }
}

// On a 64-bit host a `u8` node with disjoint value and link fields is 16 bytes,
// so a 31-byte region holds exactly one node.
#[test]
fn tests_sanity() {
    let layout = NodeLayout::two_field(1, 1, 8);
    let mut pool: Pool<u8> = Pool::new(layout);

    // empty pool
    assert!(pool.claim().is_none());

    pool.grow(Region { addr: 64, len: 31 });

    let x = pool.claim().unwrap().init(&mut pool, 0);
    assert_eq!(*x.get(&pool), 0);

    // pool exhausted
    assert!(pool.claim().is_none());

    pool.free(x);

    // should be possible to allocate again
    let y = pool.claim().unwrap().init(&mut pool, 1);
    assert_eq!(*y.get(&pool), 1);
}

// A zero-sized value over a two-field node on a 64-bit host gives 8-byte nodes,
// so a 31-byte region holds exactly three.
#[test]
fn tests_destructors() {
    let count = Rc::new(Cell::new(0));

    let layout = NodeLayout::two_field(0, 1, 8);
    let mut pool: Pool<DropCounter> = Pool::new(layout);
    pool.grow(Region { addr: 128, len: 31 });

    let x = pool.claim().unwrap().init(&mut pool, DropCounter::new(&count));
    let y = pool.claim().unwrap().init(&mut pool, DropCounter::new(&count));
    let z = pool.claim().unwrap().init(&mut pool, DropCounter::new(&count));

    assert_eq!(count.get(), 3);

    // this leaks memory: the handle is gone but the value stays in its node
    drop(x);

    assert_eq!(count.get(), 3);

    // this leaks memory
    std::mem::forget(y);

    assert_eq!(count.get(), 3);

    // this runs the destructor
    pool.free(z);

    assert_eq!(count.get(), 2);
}

#[test]
fn claim_on_never_grown_pool_is_none() {
    let layout = NodeLayout::two_field(1, 1, 8);
    let mut pool: Pool<u8> = Pool::new(layout);
    assert!(pool.claim().is_none());
    assert!(pool.claim().is_none());

    let mut llsc: Pool<u8> = Pool::new_llsc(layout);
    assert!(llsc.claim().is_none());
}

// A 1-byte element with disjoint value and link fields on a 4-byte-pointer
// target: node size 8, alignment 4. A 31-byte region starting one byte past an
// aligned address loses 3 bytes to padding and yields exactly 3 nodes.
#[test]
fn two_field_layout_carves_three_nodes_from_31_bytes() {
    let layout = NodeLayout::two_field(1, 1, 4);
    assert_eq!(layout.size(), 8);
    assert_eq!(layout.align(), 4);

    let mut pool: Pool<u8> = Pool::new(layout);
    pool.grow(Region { addr: 101, len: 31 });

    let a = pool.claim();
    let b = pool.claim();
    let c = pool.claim();
    assert!(a.is_some());
    assert!(b.is_some());
    assert!(c.is_some());
    assert!(pool.claim().is_none());
}

// The same element with overlapping value/link storage: node size 4. The same
// 31-byte region now yields exactly 7 nodes.
#[test]
fn overlapping_layout_carves_seven_nodes_from_31_bytes() {
    let layout = NodeLayout::overlapping(1, 1, 4);
    assert_eq!(layout.size(), 4);
    assert_eq!(layout.align(), 4);

    let mut pool: Pool<u8> = Pool::new(layout);
    pool.grow(Region { addr: 101, len: 31 });

    for _ in 0..7 {
        assert!(pool.claim().is_some());
    }
    assert!(pool.claim().is_none());
}

#[test]
fn node_capacity_accounts_for_alignment_padding() {
    let layout = NodeLayout::two_field(1, 1, 4);
    assert_eq!(layout.node_capacity(Region { addr: 100, len: 31 }), 3);
    assert_eq!(layout.node_capacity(Region { addr: 101, len: 31 }), 3);
    assert_eq!(layout.node_capacity(Region { addr: 100, len: 32 }), 4);
    assert_eq!(layout.node_capacity(Region { addr: 101, len: 32 }), 3);
    assert_eq!(layout.node_capacity(Region { addr: 100, len: 7 }), 0);
    assert_eq!(layout.node_capacity(Region { addr: 101, len: 0 }), 0);
}

// An undersized region changes nothing and reports no error.
#[test]
fn undersized_growth_is_a_silent_no_op() {
    let layout = NodeLayout::two_field(1, 1, 4);
    let mut pool: Pool<u8> = Pool::new(layout);

    // too short even before padding
    pool.grow(Region { addr: 100, len: 7 });
    assert!(pool.claim().is_none());

    // shorter than the padding alone
    pool.grow(Region { addr: 103, len: 2 });
    assert!(pool.claim().is_none());

    // exactly one node once grown properly
    pool.grow(Region { addr: 100, len: 8 });
    assert!(pool.claim().is_some());
    assert!(pool.claim().is_none());
}

// Last freed is first reused, tracked by node identity.
#[test]
fn reuse_is_lifo_by_node_identity() {
    let layout = NodeLayout::two_field(1, 1, 8);
    let mut pool: Pool<u8> = Pool::new(layout);
    pool.grow_exact(vec![Node::new(), Node::new(), Node::new()]);

    let a = pool.claim().unwrap();
    let b = pool.claim().unwrap();
    let a_id = a.node_id();
    let b_id = b.node_id();
    assert_ne!(a_id, b_id);

    pool.free(b);
    pool.free(a);

    let first = pool.claim().unwrap();
    let second = pool.claim().unwrap();
    assert_eq!(first.node_id(), a_id);
    assert_eq!(second.node_id(), b_id);
}

// A region shaped as whole nodes is fully used: every slot becomes a claimable
// block.
#[test]
fn grow_exact_uses_every_slot() {
    let layout = NodeLayout::two_field(1, 1, 8);
    let mut pool: Pool<u8> = Pool::new(layout);

    let mut donated: Vec<Node<u8>> = Vec::new();
    for _ in 0..5 {
        donated.push(Node::new());
    }
    pool.grow_exact(donated);

    for _ in 0..5 {
        assert!(pool.claim().is_some());
    }
    assert!(pool.claim().is_none());
}

// Freeing an initialized handle runs the destructor exactly once; freeing or
// discarding an uninitialized handle never runs one.
#[test]
fn destructor_runs_exactly_once_on_free() {
    let count = Rc::new(Cell::new(0));
    let layout = NodeLayout::two_field(8, 8, 8);
    let mut pool: Pool<DropCounter> = Pool::new(layout);
    pool.grow_exact(vec![Node::new(), Node::new()]);

    let x = pool.claim().unwrap().init(&mut pool, DropCounter::new(&count));
    assert_eq!(count.get(), 1);
    pool.free(x);
    assert_eq!(count.get(), 0);

    // an uninitialized handle owns no value: freeing it runs no destructor
    let u = pool.claim().unwrap();
    pool.free(u);
    assert_eq!(count.get(), 0);

    // discarding an uninitialized handle leaks its node and runs no destructor
    let leaked = pool.claim().unwrap();
    drop(leaked);
    assert_eq!(count.get(), 0);
}

#[test]
fn get_mut_writes_through_the_handle() {
    let layout = NodeLayout::two_field(4, 4, 8);
    let mut pool: Pool<u32> = Pool::new(layout);
    pool.grow_exact(vec![Node::new()]);

    let x = pool.claim().unwrap().init(&mut pool, 1);
    assert_eq!(*x.get(&pool), 1);
    *x.get_mut(&mut pool) = 42;
    assert_eq!(*x.get(&pool), 42);
    pool.free(x);
}

// The same flows on the load-link/store-conditional backend, including the
// empty-stack path that must clear its reservation.
#[test]
fn llsc_backend_pool_behaves_like_cas_backend_pool() {
    let layout = NodeLayout::two_field(1, 1, 8);
    let mut pool: Pool<u8> = Pool::new_llsc(layout);

    assert!(pool.claim().is_none());

    pool.grow(Region { addr: 64, len: 31 });

    let x = pool.claim().unwrap().init(&mut pool, 9);
    assert_eq!(*x.get(&pool), 9);
    assert!(pool.claim().is_none());

    pool.free(x);
    let y = pool.claim().unwrap();
    pool.free(y);

    // and still empty-safe after traffic
    let z = pool.claim().unwrap();
    assert!(pool.claim().is_none());
    pool.free(z);
}
