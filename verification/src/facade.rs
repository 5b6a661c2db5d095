use crate::layout::{Block, Layout};
use crate::primitive::{zero_bytes, AllocPrimitive, StatsSink};
use crate::version::{spec_decode_version, Version};
use vstd::math::min;
use vstd::prelude::*;

verus! {

/// The one recoverable failure of the facade: the primitive returned a
/// null result (out of memory, or an alignment it cannot serve).
#[derive(Clone, Copy, Debug, PartialEq, Eq, Structural)]
pub struct AllocError;

/// The redirection facade: a zero-sized capability that translates
/// generic allocation intents into calls on a primitive capability,
/// enforcing the zero-size boundary (a zero-size request never reaches
/// the primitive) and the grow/shrink edge cases.
#[derive(Clone, Copy, Debug, Default)]
pub struct MiMalloc;

/// A successful fresh allocation: `b` is a new non-null block of `size`
/// bytes aligned to `align`; every prior block of `h0` is untouched in
/// `h1`.
pub open spec fn fresh_block_in(
    h0: Map<usize, Seq<u8>>,
    h1: Map<usize, Seq<u8>>,
    b: Block,
    size: usize,
    align: usize,
) -> bool {
    &&& b.addr != 0
    &&& b.size == size
    &&& b.addr % align == 0
    &&& !h0.dom().contains(b.addr)
    &&& h1.dom() == h0.dom().insert(b.addr)
    &&& h1[b.addr].len() == size as nat
    &&& forall|a: usize| a != b.addr && #[trigger] h0.dom().contains(a) ==> h1[a] == h0[a]
}

/// A successful reallocation: the block at `from` became `b`, a
/// non-null block of `new_size` bytes aligned to `align` whose first
/// `preserved` bytes are the old contents; every other block of `h0` is
/// untouched in `h1`.
pub open spec fn moved_block_in(
    h0: Map<usize, Seq<u8>>,
    h1: Map<usize, Seq<u8>>,
    from: usize,
    b: Block,
    new_size: usize,
    align: usize,
    preserved: int,
) -> bool {
    &&& b.addr != 0
    &&& b.size == new_size
    &&& b.addr % align == 0
    &&& !h0.remove(from).dom().contains(b.addr)
    &&& h1.dom() == h0.dom().remove(from).insert(b.addr)
    &&& h1[b.addr].len() == new_size as nat
    &&& h1[b.addr].subrange(0, preserved) == h0[from].subrange(0, preserved)
    &&& forall|a: usize|
        a != from && a != b.addr && #[trigger] h0.dom().contains(a) ==> h1[a] == h0[a]
}

/// The heap after deallocating a block of `size` bytes at `addr`: a
/// zero-size block was never backed by the primitive, so the heap is
/// untouched; otherwise its entry is gone.
pub open spec fn heap_after_dealloc(
    h: Map<usize, Seq<u8>>,
    addr: usize,
    size: usize,
) -> Map<usize, Seq<u8>> {
    if size == 0 {
        h
    } else {
        h.remove(addr)
    }
}

impl MiMalloc {
    /// Allocates a block for `layout`. A zero-size layout yields the
    /// empty-block sentinel without ever invoking the primitive; any
    /// other size either allocates a fresh aligned block or fails with
    /// [`AllocError`] when the primitive returns null.
    pub fn allocate<P: AllocPrimitive>(&self, p: &mut P, layout: Layout) -> (r: Result<
        Block,
        AllocError,
    >)
        requires
            layout.wf(),
        ensures
            layout.size == 0 ==> r == Ok::<Block, AllocError>(Block::spec_empty(layout.align))
                && final(p).heap() == old(p).heap() && final(p).op_count() == old(p).op_count(),
            layout.size != 0 ==> final(p).op_count() == old(p).op_count() + 1 && match r {
                Ok(b) => fresh_block_in(old(p).heap(), final(p).heap(), b, layout.size, layout.align),
                Err(_) => final(p).heap() == old(p).heap(),
            },
    {
        if layout.size == 0 {
            Ok(Block::empty(layout.align))
        } else {
            let a = p.alloc_aligned(layout.size, layout.align);
            if a == 0 {
                Err(AllocError)
            } else {
                Ok(Block { addr: a, size: layout.size })
            }
        }
    }

    /// Like [`Self::allocate`], but a successful block reads as all
    /// zeroes.
    pub fn allocate_zeroed<P: AllocPrimitive>(&self, p: &mut P, layout: Layout) -> (r: Result<
        Block,
        AllocError,
    >)
        requires
            layout.wf(),
        ensures
            layout.size == 0 ==> r == Ok::<Block, AllocError>(Block::spec_empty(layout.align))
                && final(p).heap() == old(p).heap() && final(p).op_count() == old(p).op_count(),
            layout.size != 0 ==> final(p).op_count() == old(p).op_count() + 1 && match r {
                Ok(b) => fresh_block_in(old(p).heap(), final(p).heap(), b, layout.size, layout.align)
                    && final(p).heap()[b.addr] == zero_bytes(layout.size as nat),
                Err(_) => final(p).heap() == old(p).heap(),
            },
    {
        if layout.size == 0 {
            Ok(Block::empty(layout.align))
        } else {
            let a = p.zalloc_aligned(layout.size, layout.align);
            if a == 0 {
                Err(AllocError)
            } else {
                Ok(Block { addr: a, size: layout.size })
            }
        }
    }

    /// Returns a block to the primitive. A zero-size layout means the
    /// block is the empty sentinel, which was never backed by real
    /// storage: the primitive is not invoked. The caller must pass the
    /// block's last-agreed layout and never reuse the block.
    pub fn deallocate<P: AllocPrimitive>(&self, p: &mut P, block: Block, layout: Layout)
        requires
            layout.wf(),
            block.size == layout.size,
            layout.size != 0 ==> old(p).heap().dom().contains(block.addr) && old(p).heap()[block.addr].len() == layout.size as nat,
        ensures
            final(p).heap() == heap_after_dealloc(old(p).heap(), block.addr, layout.size),
            layout.size == 0 ==> final(p).op_count() == old(p).op_count(),
            layout.size != 0 ==> final(p).op_count() == old(p).op_count() + 1,
    {
        if layout.size != 0 {
            p.free(block.addr);
        }
    }

    /// Grows `block` from `old_layout` to `new_layout`. When the old
    /// size is zero the block is the empty sentinel, which must not be
    /// handed to the primitive's realloc, so this delegates to
    /// [`Self::allocate`]. On a failed realloc the original block must
    /// be treated as no longer usable.
    pub fn grow<P: AllocPrimitive>(
        &self,
        p: &mut P,
        block: Block,
        old_layout: Layout,
        new_layout: Layout,
    ) -> (r: Result<Block, AllocError>)
        requires
            old_layout.wf(),
            new_layout.wf(),
            new_layout.size >= old_layout.size,
            block.size == old_layout.size,
            old_layout.size != 0 ==> old(p).heap().dom().contains(block.addr) && old(p).heap()[block.addr].len() == old_layout.size as nat,
        ensures
            old_layout.size == 0 && new_layout.size == 0 ==> r == Ok::<Block, AllocError>(
                Block::spec_empty(new_layout.align),
            ) && final(p).heap() == old(p).heap() && final(p).op_count() == old(p).op_count(),
            old_layout.size == 0 && new_layout.size != 0 ==> final(p).op_count() == old(
                p,
            ).op_count() + 1 && match r {
                Ok(b) => fresh_block_in(
                    old(p).heap(),
                    final(p).heap(),
                    b,
                    new_layout.size,
                    new_layout.align,
                ),
                Err(_) => final(p).heap() == old(p).heap(),
            },
            old_layout.size != 0 ==> final(p).op_count() == old(p).op_count() + 1 && match r {
                Ok(b) => moved_block_in(
                    old(p).heap(),
                    final(p).heap(),
                    block.addr,
                    b,
                    new_layout.size,
                    new_layout.align,
                    old_layout.size as int,
                ),
                Err(_) => final(p).heap().remove(block.addr) == old(p).heap().remove(block.addr),
            },
    {
        if old_layout.size == 0 {
            self.allocate(p, new_layout)
        } else {
            let a = p.realloc_aligned(block.addr, new_layout.size, new_layout.align);
            if a == 0 {
                Err(AllocError)
            } else {
                proof {
                    assert(min(old(p).heap()[block.addr].len() as int, new_layout.size as int)
                        == old_layout.size as int);
                }
                Ok(Block { addr: a, size: new_layout.size })
            }
        }
    }

    /// Like [`Self::grow`], but the grown tail `[old_layout.size,
    /// new_layout.size)` reads as all zeroes. The primitive's realloc
    /// does not promise zeroed growth, so the facade zero-fills the tail
    /// itself, defensively.
    pub fn grow_zeroed<P: AllocPrimitive>(
        &self,
        p: &mut P,
        block: Block,
        old_layout: Layout,
        new_layout: Layout,
    ) -> (r: Result<Block, AllocError>)
        requires
            old_layout.wf(),
            new_layout.wf(),
            new_layout.size >= old_layout.size,
            block.size == old_layout.size,
            old_layout.size != 0 ==> old(p).heap().dom().contains(block.addr) && old(p).heap()[block.addr].len() == old_layout.size as nat,
        ensures
            old_layout.size == 0 && new_layout.size == 0 ==> r == Ok::<Block, AllocError>(
                Block::spec_empty(new_layout.align),
            ) && final(p).heap() == old(p).heap() && final(p).op_count() == old(p).op_count(),
            old_layout.size == 0 && new_layout.size != 0 ==> final(p).op_count() == old(
                p,
            ).op_count() + 1 && match r {
                Ok(b) => fresh_block_in(
                    old(p).heap(),
                    final(p).heap(),
                    b,
                    new_layout.size,
                    new_layout.align,
                ) && final(p).heap()[b.addr] == zero_bytes(new_layout.size as nat),
                Err(_) => final(p).heap() == old(p).heap(),
            },
            old_layout.size != 0 ==> final(p).op_count() == old(p).op_count() + 1 && match r {
                Ok(b) => moved_block_in(
                    old(p).heap(),
                    final(p).heap(),
                    block.addr,
                    b,
                    new_layout.size,
                    new_layout.align,
                    old_layout.size as int,
                ) && final(p).heap()[b.addr].subrange(old_layout.size as int, new_layout.size as int)
                    == zero_bytes((new_layout.size - old_layout.size) as nat),
                Err(_) => final(p).heap().remove(block.addr) == old(p).heap().remove(block.addr),
            },
    {
        if old_layout.size == 0 {
            self.allocate_zeroed(p, new_layout)
        } else {
            let ghost h0 = p.heap();
            let a = p.realloc_aligned(block.addr, new_layout.size, new_layout.align);
            if a == 0 {
                Err(AllocError)
            } else {
                let ghost h1 = p.heap();
                proof {
                    assert(min(h0[block.addr].len() as int, new_layout.size as int)
                        == old_layout.size as int);
                }
                p.fill(a, old_layout.size, new_layout.size - old_layout.size, 0);
                proof {
                    let h2 = p.heap();
                    assert(h2.dom() =~= h1.dom());
                    assert(h2[a].subrange(0, old_layout.size as int) =~= h1[a].subrange(
                        0,
                        old_layout.size as int,
                    ));
                    assert(h2[a].subrange(old_layout.size as int, new_layout.size as int)
                        =~= zero_bytes((new_layout.size - old_layout.size) as nat));
                }
                Ok(Block { addr: a, size: new_layout.size })
            }
        }
    }

    /// Shrinks `block` from `old_layout` to `new_layout`. Shrinking to
    /// size zero always succeeds: it is exactly a [`Self::deallocate`]
    /// followed by the empty sentinel, and never hands a zero-size
    /// request to the primitive's realloc.
    pub fn shrink<P: AllocPrimitive>(
        &self,
        p: &mut P,
        block: Block,
        old_layout: Layout,
        new_layout: Layout,
    ) -> (r: Result<Block, AllocError>)
        requires
            old_layout.wf(),
            new_layout.wf(),
            new_layout.size <= old_layout.size,
            block.size == old_layout.size,
            old_layout.size != 0 ==> old(p).heap().dom().contains(block.addr) && old(p).heap()[block.addr].len() == old_layout.size as nat,
        ensures
            new_layout.size == 0 ==> r == Ok::<Block, AllocError>(
                Block::spec_empty(new_layout.align),
            ) && final(p).heap() == heap_after_dealloc(old(p).heap(), block.addr, old_layout.size),
            new_layout.size == 0 && old_layout.size == 0 ==> final(p).op_count() == old(
                p,
            ).op_count(),
            new_layout.size == 0 && old_layout.size != 0 ==> final(p).op_count() == old(
                p,
            ).op_count() + 1,
            new_layout.size != 0 ==> final(p).op_count() == old(p).op_count() + 1 && match r {
                Ok(b) => moved_block_in(
                    old(p).heap(),
                    final(p).heap(),
                    block.addr,
                    b,
                    new_layout.size,
                    new_layout.align,
                    new_layout.size as int,
                ),
                Err(_) => final(p).heap().remove(block.addr) == old(p).heap().remove(block.addr),
            },
    {
        if new_layout.size == 0 {
            self.deallocate(p, block, old_layout);
            Ok(Block::empty(new_layout.align))
        } else {
            let a = p.realloc_aligned(block.addr, new_layout.size, new_layout.align);
            if a == 0 {
                Err(AllocError)
            } else {
                proof {
                    assert(min(old(p).heap()[block.addr].len() as int, new_layout.size as int)
                        == new_layout.size as int);
                }
                Ok(Block { addr: a, size: new_layout.size })
            }
        }
    }

    /// The raw global-allocator adapter's allocate: failure is a null
    /// address, and the raw interface's conventions guarantee a
    /// non-zero size, so the facade's zero-size bookkeeping is
    /// bypassed.
    pub fn raw_alloc<P: AllocPrimitive>(&self, p: &mut P, layout: Layout) -> (r: usize)
        requires
            layout.wf(),
            layout.size != 0,
        ensures
            final(p).op_count() == old(p).op_count() + 1,
            r == 0 ==> final(p).heap() == old(p).heap(),
            r != 0 ==> fresh_block_in(
                old(p).heap(),
                final(p).heap(),
                Block { addr: r, size: layout.size },
                layout.size,
                layout.align,
            ),
    {
        p.alloc_aligned(layout.size, layout.align)
    }

    /// The raw adapter's zeroed allocate.
    pub fn alloc_zeroed<P: AllocPrimitive>(&self, p: &mut P, layout: Layout) -> (r: usize)
        requires
            layout.wf(),
            layout.size != 0,
        ensures
            final(p).op_count() == old(p).op_count() + 1,
            r == 0 ==> final(p).heap() == old(p).heap(),
            r != 0 ==> fresh_block_in(
                old(p).heap(),
                final(p).heap(),
                Block { addr: r, size: layout.size },
                layout.size,
                layout.align,
            ) && final(p).heap()[r] == zero_bytes(layout.size as nat),
    {
        p.zalloc_aligned(layout.size, layout.align)
    }

    /// The raw adapter's deallocate: frees unconditionally. The layout
    /// is what the raw interface hands along; the primitive does not
    /// need it.
    pub fn dealloc<P: AllocPrimitive>(&self, p: &mut P, addr: usize, _layout: Layout)
        requires
            old(p).heap().dom().contains(addr),
        ensures
            final(p).op_count() == old(p).op_count() + 1,
            final(p).heap() == old(p).heap().remove(addr),
    {
        p.free(addr)
    }

    /// The raw adapter's reallocate, keeping the original layout's
    /// alignment as the raw interface prescribes. The conventions
    /// guarantee a non-zero new size.
    pub fn realloc<P: AllocPrimitive>(
        &self,
        p: &mut P,
        addr: usize,
        layout: Layout,
        new_size: usize,
    ) -> (r: usize)
        requires
            layout.wf(),
            new_size != 0,
            old(p).heap().dom().contains(addr),
        ensures
            final(p).op_count() == old(p).op_count() + 1,
            r == 0 ==> final(p).heap().remove(addr) == old(p).heap().remove(addr),
            r != 0 ==> moved_block_in(
                old(p).heap(),
                final(p).heap(),
                addr,
                Block { addr: r, size: new_size },
                new_size,
                layout.align,
                min(old(p).heap()[addr].len() as int, new_size as int),
            ),
    {
        p.realloc_aligned(addr, new_size, layout.align)
    }

    /// Obtains the primitive's version, decoded from its raw integer
    /// under the encoding that matches the primitive generation the shim
    /// is built against.
    pub fn get_version<P: AllocPrimitive>(p: &P) -> (v: Version)
        ensures
            v == spec_decode_version(P::raw_version_spec(), P::encoding_spec()),
    {
        let raw = p.raw_version();
        let enc = p.version_encoding();
        Version::decode(raw, enc)
    }

    /// Streams the primitive's statistics report, fragment by fragment,
    /// into the caller-supplied sink. The primitive may invoke the sink
    /// any number of times, but at least once, and never with empty
    /// text: a sink that counts bytes always counts more than zero.
    pub fn print_stats_to<P: AllocPrimitive, S: StatsSink>(&self, p: &P, sink: &mut S)
        ensures
            final(sink).received() == old(sink).received() + p.stats_fragments(),
            p.stats_fragments().len() >= 1,
            forall|i: int|
                0 <= i < p.stats_fragments().len() ==> #[trigger] p.stats_fragments()[i].len() > 0,
    {
        let frags = p.stats_report();
        let mut j: usize = 0;
        while j < frags.len()
            invariant
                j <= frags@.len(),
                frags@.map_values(|s: String| s@) == p.stats_fragments(),
                sink.received() == old(sink).received() + p.stats_fragments().take(j as int),
            decreases frags@.len() - j,
        {
            let ghost prev = sink.received();
            sink.put(frags[j].as_str());
            j = j + 1;
            proof {
                assert(prev.push(frags@[j - 1]@) =~= old(sink).received() + p.stats_fragments().take(
                    j as int,
                ));
            }
        }
        proof {
            assert(p.stats_fragments().take(frags@.len() as int) =~= p.stats_fragments());
        }
    }
}

} // verus!
