use crate::version::{raw_version_fits, VersionEncoding};
use vstd::arithmetic::power2::is_pow2;
use vstd::math::min;
use vstd::prelude::*;

verus! {

/// A sequence of `n` zero bytes.
pub open spec fn zero_bytes(n: nat) -> Seq<u8> {
    Seq::new(n, |i: int| 0u8)
}

/// `s` with the byte range `[offset, offset + count)` overwritten by `val`.
pub open spec fn overwrite_bytes(s: Seq<u8>, offset: int, count: int, val: u8) -> Seq<u8> {
    Seq::new(s.len(), |i: int| if offset <= i < offset + count { val } else { s[i] })
}

/// The primitive capability: the underlying allocator's aligned
/// entry points, which the facade wraps but does not reimplement.
///
/// Its abstract state is a heap, a map from the base address of each live
/// block to that block's bytes, together with a count of entry-point
/// calls made so far. The count lets callers state that an operation
/// never reached the primitive at all.
///
/// [`crate::ModelHeap`] is a verified in-memory implementation; a
/// deployment backs the trait with the native allocator's entry points,
/// which this contract then describes.
pub trait AllocPrimitive: Sized {
    /// The live blocks the primitive currently backs: base address to
    /// contents. Base addresses of distinct live blocks are distinct,
    /// and an address of zero is never backed.
    spec fn heap(&self) -> Map<usize, Seq<u8>>;

    /// How many primitive entry-point calls have been made on this
    /// capability so far.
    spec fn op_count(&self) -> nat;

    /// The raw version integer the primitive reports.
    spec fn raw_version_spec() -> u32;

    /// The decimal encoding that this primitive generation uses for its
    /// raw version integer.
    spec fn encoding_spec() -> VersionEncoding;

    /// The statistics report, as the sequence of text fragments the
    /// primitive streams to a statistics callback.
    spec fn stats_fragments(&self) -> Seq<Seq<char>>;

    /// Allocates `size` bytes aligned to `align`, returning the base
    /// address of a fresh block, or null (zero) on failure. The new
    /// block's contents are unspecified.
    fn alloc_aligned(&mut self, size: usize, align: usize) -> (r: usize)
        requires
            is_pow2(align as int),
        ensures
            final(self).op_count() == old(self).op_count() + 1,
            r == 0 ==> final(self).heap() == old(self).heap(),
            r != 0 ==> {
                &&& r % align == 0
                &&& !old(self).heap().dom().contains(r)
                &&& final(self).heap().dom() == old(self).heap().dom().insert(r)
                &&& final(self).heap()[r].len() == size as nat
                &&& forall|a: usize|
                    a != r && #[trigger] old(self).heap().dom().contains(a)
                        ==> final(self).heap()[a] == old(self).heap()[a]
            },
    ;

    /// Like [`Self::alloc_aligned`], but the new block reads as all
    /// zeroes.
    fn zalloc_aligned(&mut self, size: usize, align: usize) -> (r: usize)
        requires
            is_pow2(align as int),
        ensures
            final(self).op_count() == old(self).op_count() + 1,
            r == 0 ==> final(self).heap() == old(self).heap(),
            r != 0 ==> {
                &&& r % align == 0
                &&& !old(self).heap().dom().contains(r)
                &&& final(self).heap().dom() == old(self).heap().dom().insert(r)
                &&& final(self).heap()[r] == zero_bytes(size as nat)
                &&& forall|a: usize|
                    a != r && #[trigger] old(self).heap().dom().contains(a)
                        ==> final(self).heap()[a] == old(self).heap()[a]
            },
    ;

    /// Reallocates the live block at `addr` to `new_size` bytes aligned
    /// to `align`. On success the surviving prefix keeps its bytes and
    /// any grown tail is unspecified. On failure (null result) every
    /// other block is untouched, but the fate of the block at `addr`
    /// itself is unspecified and it must be treated as no longer usable.
    fn realloc_aligned(&mut self, addr: usize, new_size: usize, align: usize) -> (r: usize)
        requires
            is_pow2(align as int),
            old(self).heap().dom().contains(addr),
            new_size > 0,
        ensures
            final(self).op_count() == old(self).op_count() + 1,
            r == 0 ==> final(self).heap().remove(addr) == old(self).heap().remove(addr),
            r != 0 ==> {
                &&& r % align == 0
                &&& !old(self).heap().remove(addr).dom().contains(r)
                &&& final(self).heap().dom() == old(self).heap().dom().remove(addr).insert(r)
                &&& final(self).heap()[r].len() == new_size as nat
                &&& final(self).heap()[r].subrange(
                    0,
                    min(old(self).heap()[addr].len() as int, new_size as int),
                ) == old(self).heap()[addr].subrange(
                    0,
                    min(old(self).heap()[addr].len() as int, new_size as int),
                )
                &&& forall|a: usize|
                    a != addr && a != r && #[trigger] old(self).heap().dom().contains(a)
                        ==> final(self).heap()[a] == old(self).heap()[a]
            },
    ;

    /// Frees the live block at `addr`.
    fn free(&mut self, addr: usize)
        requires
            old(self).heap().dom().contains(addr),
        ensures
            final(self).op_count() == old(self).op_count() + 1,
            final(self).heap() == old(self).heap().remove(addr),
    ;

    /// Queries the primitive's raw version integer.
    fn raw_version(&self) -> (r: u32)
        ensures
            r == Self::raw_version_spec(),
            raw_version_fits(r, Self::encoding_spec()),
    ;

    /// The encoding that matches this primitive's raw version integer,
    /// fixed when the shim is built against it.
    fn version_encoding(&self) -> (e: VersionEncoding)
        ensures
            e == Self::encoding_spec(),
    ;

    /// Reads one byte of the live block at `addr`. This stands for a
    /// plain load through a pointer into the block, not for a primitive
    /// entry point.
    fn read_byte(&self, addr: usize, offset: usize) -> (r: u8)
        requires
            self.heap().dom().contains(addr),
            offset < self.heap()[addr].len(),
        ensures
            r == self.heap()[addr][offset as int],
    ;

    /// Overwrites the byte range `[offset, offset + count)` of the live
    /// block at `addr` with `val`. This stands for plain stores through
    /// a pointer into the block, not for a primitive entry point.
    fn fill(&mut self, addr: usize, offset: usize, count: usize, val: u8)
        requires
            old(self).heap().dom().contains(addr),
            offset + count <= old(self).heap()[addr].len(),
        ensures
            final(self).op_count() == old(self).op_count(),
            final(self).heap() == old(self).heap().insert(
                addr,
                overwrite_bytes(old(self).heap()[addr], offset as int, count as int, val),
            ),
    ;

    /// The statistics report: the primitive may stream any number of
    /// fragments, but always at least one, and never an empty one.
    fn stats_report(&self) -> (r: Vec<String>)
        ensures
            r@.map_values(|s: String| s@) == self.stats_fragments(),
            self.stats_fragments().len() >= 1,
            forall|i: int|
                0 <= i < self.stats_fragments().len() ==> #[trigger] self.stats_fragments()[i].len() > 0,
    ;
}

/// An "accepts text fragments" capability: the destination of a
/// statistics report. Implementations that cannot actually deliver a
/// fragment drop it silently; `received` records what was handed to the
/// sink, not what reached its destination.
pub trait StatsSink {
    /// The fragments handed to this sink so far.
    spec fn received(&self) -> Seq<Seq<char>>;

    /// Accepts one text fragment, best effort.
    fn put(&mut self, fragment: &str)
        ensures
            final(self).received() == old(self).received().push(fragment@),
    ;
}

} // verus!
