//! Size and alignment arithmetic for carving donated memory regions into nodes.
//!
//! A pool never reads the bytes of a donated region; the only thing that decides
//! how many nodes a region yields is its start address, its length, and the
//! node's size and alignment on the modelled target. This module holds that
//! arithmetic, stated exactly.

use vstd::prelude::*;

verus! {

/// A raw byte region donated to a pool, described by its start address and its
/// length in bytes. Ownership of the bytes is transferred for the life of the
/// pool; no two donated regions may alias.
#[derive(Clone, Copy)]
pub struct Region {
    /// Start address of the first byte.
    pub addr: usize,
    /// Length of the region in bytes.
    pub len: usize,
}

/// The size and alignment, in bytes, of one pool node on the modelled target.
///
/// A node must be big enough and aligned enough to hold either the pooled value
/// or the free-list link. The two constructors correspond to the two accepted
/// node representations: disjoint value and link fields, or a single storage
/// area reused for both.
#[derive(Clone, Copy)]
pub struct NodeLayout {
    size: usize,
    align: usize,
}

/// The larger of two integers.
pub open spec fn spec_max(a: int, b: int) -> int {
    if a >= b {
        a
    } else {
        b
    }
}

/// `x` rounded up to the next multiple of `a`.
pub open spec fn spec_round_up(x: int, a: int) -> int
    recommends
        0 <= x,
        1 <= a,
{
    if x % a == 0 {
        x
    } else {
        x + a - (x % a)
    }
}

/// Bytes wasted at the front of a region starting at `addr` before the first
/// address aligned to `align`.
pub open spec fn spec_pad(addr: int, align: int) -> int
    recommends
        0 <= addr,
        1 <= align,
{
    if addr % align == 0 {
        0
    } else {
        align - (addr % align)
    }
}

/// How many whole nodes of layout `l` fit in region `r` once the front of the
/// region has been padded to the node alignment. A region too small for even
/// one aligned node yields zero.
pub open spec fn spec_grow_count(l: NodeLayout, r: Region) -> int
    recommends
        l.wf(),
{
    let pad = spec_pad(r.addr as int, l.spec_align() as int);
    if pad <= r.len {
        (r.len - pad) / (l.spec_size() as int)
    } else {
        0
    }
}

fn round_up(x: usize, a: usize) -> (r: usize)
    requires
        1 <= a,
        x + a <= usize::MAX,
    ensures
        r == spec_round_up(x as int, a as int),
        x <= r <= x + a,
{
    let rem = x % a;
    if rem == 0 {
        x
    } else {
        x + (a - rem)
    }
}

impl NodeLayout {
    /// The size in bytes of one node.
    pub closed spec fn spec_size(&self) -> usize {
        self.size
    }

    /// The alignment in bytes of one node.
    pub closed spec fn spec_align(&self) -> usize {
        self.align
    }

    /// A layout is meaningful when the size and the alignment are each at least
    /// one byte.
    pub open spec fn wf(&self) -> bool {
        1 <= self.spec_size() && 1 <= self.spec_align()
    }

    /// The size in bytes of one node.
    pub fn size(&self) -> (r: usize)
        ensures
            r == self.spec_size(),
    {
        self.size
    }

    /// The alignment in bytes of one node.
    pub fn align(&self) -> (r: usize)
        ensures
            r == self.spec_align(),
    {
        self.align
    }

    /// Layout of a node that keeps the value and the free-list link in two
    /// disjoint fields: the link is placed after the value at the link's own
    /// alignment, and the whole node is padded to the larger of the two
    /// alignments. This wastes one link-width of space per node but never
    /// overlaps the two interpretations.
    ///
    /// `ptr_size` is the width of a link pointer on the modelled target and is
    /// also taken as the link's alignment.
    pub fn two_field(value_size: usize, value_align: usize, ptr_size: usize) -> (r: NodeLayout)
        requires
            1 <= value_align,
            1 <= ptr_size,
            value_size + 3 * ptr_size + value_align <= usize::MAX,
        ensures
            r.wf(),
            r.spec_align() == spec_max(value_align as int, ptr_size as int),
            r.spec_size() == spec_round_up(
                spec_round_up(value_size as int, ptr_size as int) + ptr_size,
                r.spec_align() as int,
            ),
    {
        let align = if value_align >= ptr_size {
            value_align
        } else {
            ptr_size
        };
        let body = round_up(value_size, ptr_size);
        let size = round_up(body + ptr_size, align);
        NodeLayout { size, align }
    }

    /// Layout of a node whose single storage area is reinterpreted as either
    /// the value or the free-list link, but never both at once: the node is as
    /// large as the larger of the two, padded to the larger alignment. This is
    /// the space-saving representation.
    ///
    /// `ptr_size` is the width of a link pointer on the modelled target and is
    /// also taken as the link's alignment.
    pub fn overlapping(value_size: usize, value_align: usize, ptr_size: usize) -> (r: NodeLayout)
        requires
            1 <= value_align,
            1 <= ptr_size,
            value_size + 2 * ptr_size + value_align <= usize::MAX,
        ensures
            r.wf(),
            r.spec_align() == spec_max(value_align as int, ptr_size as int),
            r.spec_size() == spec_round_up(
                spec_max(value_size as int, ptr_size as int),
                r.spec_align() as int,
            ),
    {
        let align = if value_align >= ptr_size {
            value_align
        } else {
            ptr_size
        };
        let body = if value_size >= ptr_size {
            value_size
        } else {
            ptr_size
        };
        let size = round_up(body, align);
        NodeLayout { size, align }
    }

    /// How many whole, aligned nodes of this layout fit in `region`.
    pub fn node_capacity(&self, region: Region) -> (n: usize)
        requires
            self.wf(),
        ensures
            n == spec_grow_count(*self, region),
            n <= region.len,
    {
        let rem = region.addr % self.align;
        let pad = if rem == 0 {
            0
        } else {
            self.align - rem
        };
        if pad <= region.len {
            let n = (region.len - pad) / self.size;
            proof {
                vstd::arithmetic::div_mod::lemma_div_nonincreasing(
                    region.len - pad,
                    self.size as int,
                );
            }
            n
        } else {
            0
        }
    }
}

/// A region whose usable remainder after alignment padding is smaller than one
/// node contributes no nodes at all: growth with such a region is a no-op.
pub proof fn lemma_undersized_region(l: NodeLayout, r: Region)
    requires
        l.wf(),
        (r.len as int) < spec_pad(r.addr as int, l.spec_align() as int) + l.spec_size(),
    ensures
        spec_grow_count(l, r) == 0,
{
    let pad = spec_pad(r.addr as int, l.spec_align() as int);
    if pad <= r.len {
        vstd::arithmetic::div_mod::lemma_basic_div(r.len - pad, l.spec_size() as int);
    }
}

} // verus!
