use vstd::arithmetic::power2::is_pow2;
use vstd::prelude::*;

verus! {

/// A (size, alignment) pair describing a requested block of storage.
///
/// The invariant of a well-formed layout is that the alignment is a power
/// of two (and hence nonzero). A size of zero denotes a "no storage"
/// request that must never reach the primitive capability.
#[derive(Clone, Copy, Debug, PartialEq, Eq, Structural)]
pub struct Layout {
    pub size: usize,
    pub align: usize,
}

impl Layout {
    /// A layout is well formed when its alignment is a power of two.
    pub open spec fn wf(self) -> bool {
        is_pow2(self.align as int)
    }

    /// Builds a layout, rejecting alignments that are not powers of two.
    pub fn new(size: usize, align: usize) -> (r: Option<Layout>)
        ensures
            match r {
                Some(l) => l.size == size && l.align == align && l.wf(),
                None => !is_pow2(align as int),
            },
    {
        if power_of_two(align) {
            Some(Layout { size, align })
        } else {
            None
        }
    }
}

/// An exclusively owned handle to storage obtained from the facade,
/// identified by its base address. A zero-size block is the empty
/// sentinel: non-null and aligned, but backed by no real storage.
#[derive(Clone, Copy, Debug, PartialEq, Eq, Structural)]
pub struct Block {
    pub addr: usize,
    pub size: usize,
}

impl Block {
    /// The empty-block sentinel for a given alignment: its address is the
    /// alignment itself, which is non-null and trivially aligned, and it
    /// must never be dereferenced.
    pub open spec fn spec_empty(align: usize) -> Block {
        Block { addr: align, size: 0 }
    }

    /// Builds the empty-block sentinel for an alignment.
    pub fn empty(align: usize) -> (r: Block)
        ensures
            r == Block::spec_empty(align),
    {
        Block { addr: align, size: 0 }
    }
}

/// For any well-formed alignment, the empty-block sentinel is non-null
/// and aligned to it, like every successfully allocated block.
pub proof fn lemma_empty_block_aligned(align: usize)
    requires
        is_pow2(align as int),
    ensures
        Block::spec_empty(align).addr != 0,
        Block::spec_empty(align).addr % align == 0,
{
    assert(align >= 1) by {
        reveal(is_pow2);
    }
    assert(align % align == 0) by (nonlinear_arith)
        requires
            align >= 1,
    ;
}

/// Decides whether `n` is a power of two, by repeated halving.
pub fn power_of_two(n: usize) -> (r: bool)
    ensures
        r == is_pow2(n as int),
{
    if n == 0 {
        proof {
            reveal(is_pow2);
        }
        return false;
    }
    let mut m: usize = n;
    while m > 1 && m % 2 == 0
        invariant
            1 <= m,
            is_pow2(n as int) == is_pow2(m as int),
        decreases m,
    {
        proof {
            reveal(is_pow2);
            assert(is_pow2(m as int) == is_pow2((m / 2) as int));
        }
        m = m / 2;
    }
    proof {
        reveal(is_pow2);
    }
    m == 1
}

} // verus!
