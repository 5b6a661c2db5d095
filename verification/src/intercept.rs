use crate::facade::fresh_block_in;
use crate::layout::{power_of_two, Block};
use crate::primitive::AllocPrimitive;
use vstd::arithmetic::div_mod::{lemma_fundamental_div_mod, lemma_mod_multiples_basic};
use vstd::arithmetic::power2::is_pow2;
use vstd::prelude::*;

verus! {

/// What an intercepted `posix_memalign` call decides: an
/// invalid-argument error before the primitive is ever invoked, an
/// out-of-memory failure from the primitive, or a fresh block.
#[derive(Clone, Copy, Debug, PartialEq, Eq, Structural)]
pub enum PosixMemalignOutcome {
    /// The requested alignment is not a power of two at least as large
    /// as a pointer; the primitive was not invoked.
    InvalidAlignment,
    /// The primitive returned null.
    OutOfMemory,
    /// The primitive produced a block at this address.
    Allocated(usize),
}

/// What an intercepted `valloc`/`pvalloc` call decides.
#[derive(Clone, Copy, Debug, PartialEq, Eq, Structural)]
pub enum VallocOutcome {
    /// The system page size could not be determined (or the
    /// page-rounded size overflows); the primitive was not invoked.
    PageSizeUnavailable,
    /// The primitive returned null.
    OutOfMemory,
    /// The primitive produced a block at this address.
    Allocated(usize),
}

/// An alignment `posix_memalign` accepts: a power of two at least
/// pointer-sized.
pub open spec fn posix_align_ok(align: usize) -> bool {
    &&& vstd::layout::size_of::<usize>() <= align as nat
    &&& is_pow2(align as int)
}

/// A usable page size report: positive, representable, and a power of
/// two.
pub open spec fn page_size_ok(ps: i64) -> bool {
    &&& 0 < ps as int <= usize::MAX as int
    &&& is_pow2(ps as int)
}

/// The least multiple of `ps` that is at least `size`.
pub open spec fn spec_round_up(size: int, ps: int) -> int
    recommends
        ps > 0,
{
    if size % ps == 0 {
        size
    } else {
        (size / ps + 1) * ps
    }
}

/// The rounded size is a multiple of the page size and overshoots by
/// less than one page.
pub proof fn lemma_round_up_bounds(size: int, ps: int)
    requires
        0 < ps,
        0 <= size,
    ensures
        size <= spec_round_up(size, ps) < size + ps,
        spec_round_up(size, ps) % ps == 0,
{
    lemma_fundamental_div_mod(size, ps);
    lemma_mod_multiples_basic(size / ps, ps);
    if size % ps != 0 {
        let q = size / ps;
        assert((q + 1) * ps == ps * q + ps) by (nonlinear_arith);
        lemma_mod_multiples_basic(q + 1, ps);
    }
}

/// Validates a page size reported by the system: it must be positive,
/// fit an address, and be a power of two.
pub fn checked_page_size(raw: i64) -> (r: Option<usize>)
    ensures
        match r {
            Some(ps) => page_size_ok(raw) && ps as int == raw as int,
            None => !page_size_ok(raw),
        },
{
    if raw <= 0 {
        return None;
    }
    let wide = raw as u64;
    if wide > usize::MAX as u64 {
        return None;
    }
    let ps = wide as usize;
    if power_of_two(ps) {
        Some(ps)
    } else {
        None
    }
}

/// Rounds `size` up to the next multiple of `ps`, or reports that the
/// result does not fit an address.
pub fn round_up_to_multiple(size: usize, ps: usize) -> (r: Option<usize>)
    requires
        1 <= ps,
    ensures
        match r {
            Some(k) => k == spec_round_up(size as int, ps as int) && k % ps == 0 && size <= k
                < size + ps,
            None => spec_round_up(size as int, ps as int) > usize::MAX,
        },
{
    let rem = size % ps;
    proof {
        lemma_round_up_bounds(size as int, ps as int);
        lemma_fundamental_div_mod(size as int, ps as int);
    }
    if rem == 0 {
        Some(size)
    } else {
        let q = size / ps;
        match q.checked_add(1) {
            Some(q1) => match q1.checked_mul(ps) {
                Some(k) => Some(k),
                None => None,
            },
            None => None,
        }
    }
}

/// The decision logic of the intercepted `posix_memalign` stub: reject a
/// malformed alignment before ever calling the primitive, otherwise
/// forward to the aligned-allocate entry point and classify its result.
pub fn posix_memalign<P: AllocPrimitive>(p: &mut P, alignment: usize, size: usize) -> (r:
    PosixMemalignOutcome)
    ensures
        !posix_align_ok(alignment) ==> r == PosixMemalignOutcome::InvalidAlignment && final(p).heap() == old(p).heap() && final(p).op_count() == old(p).op_count(),
        posix_align_ok(alignment) ==> final(p).op_count() == old(p).op_count() + 1 && match r {
            PosixMemalignOutcome::Allocated(a) => fresh_block_in(
                old(p).heap(),
                final(p).heap(),
                Block { addr: a, size },
                size,
                alignment,
            ),
            PosixMemalignOutcome::OutOfMemory => final(p).heap() == old(p).heap(),
            PosixMemalignOutcome::InvalidAlignment => false,
        },
{
    if alignment < core::mem::size_of::<usize>() || !power_of_two(alignment) {
        return PosixMemalignOutcome::InvalidAlignment;
    }
    let a = p.alloc_aligned(size, alignment);
    if a == 0 {
        PosixMemalignOutcome::OutOfMemory
    } else {
        PosixMemalignOutcome::Allocated(a)
    }
}

/// The decision logic of the intercepted `valloc` stub: a request for
/// `size` bytes aligned to the system page. The stub itself queries the
/// page size (`sysconf`) and hands the raw report in; the logic
/// validates it and forwards to the aligned-allocate entry point.
pub fn valloc<P: AllocPrimitive>(p: &mut P, size: usize, raw_page: i64) -> (r:
    VallocOutcome)
    ensures
        !page_size_ok(raw_page) ==> r == VallocOutcome::PageSizeUnavailable && final(p).heap()
            == old(p).heap() && final(p).op_count() == old(p).op_count(),
        page_size_ok(raw_page) ==> final(p).op_count() == old(p).op_count() + 1 && match r {
            VallocOutcome::Allocated(a) => fresh_block_in(
                old(p).heap(),
                final(p).heap(),
                Block { addr: a, size },
                size,
                raw_page as usize,
            ),
            VallocOutcome::OutOfMemory => final(p).heap() == old(p).heap(),
            VallocOutcome::PageSizeUnavailable => false,
        },
{
    match checked_page_size(raw_page) {
        None => VallocOutcome::PageSizeUnavailable,
        Some(ps) => {
            let a = p.alloc_aligned(size, ps);
            if a == 0 {
                VallocOutcome::OutOfMemory
            } else {
                VallocOutcome::Allocated(a)
            }
        },
    }
}

/// The decision logic of the intercepted `pvalloc` stub: like
/// [`valloc`], but the size is first rounded up to a whole number of
/// pages. A rounded size that cannot be represented is reported as out
/// of memory without invoking the primitive.
pub fn pvalloc<P: AllocPrimitive>(p: &mut P, size: usize, raw_page: i64) -> (r:
    VallocOutcome)
    ensures
        !page_size_ok(raw_page) ==> r == VallocOutcome::PageSizeUnavailable && final(p).heap()
            == old(p).heap() && final(p).op_count() == old(p).op_count(),
        page_size_ok(raw_page) && spec_round_up(size as int, raw_page as int) > usize::MAX ==> r
            == VallocOutcome::OutOfMemory && final(p).heap() == old(p).heap() && final(p).op_count() == old(p).op_count(),
        page_size_ok(raw_page) && spec_round_up(size as int, raw_page as int) <= usize::MAX ==>
            final(p).op_count() == old(p).op_count() + 1 && match r {
            VallocOutcome::Allocated(a) => fresh_block_in(
                old(p).heap(),
                final(p).heap(),
                Block {
                    addr: a,
                    size: spec_round_up(size as int, raw_page as int) as usize,
                },
                spec_round_up(size as int, raw_page as int) as usize,
                raw_page as usize,
            ),
            VallocOutcome::OutOfMemory => final(p).heap() == old(p).heap(),
            VallocOutcome::PageSizeUnavailable => false,
        },
{
    match checked_page_size(raw_page) {
        None => VallocOutcome::PageSizeUnavailable,
        Some(ps) => match round_up_to_multiple(size, ps) {
            None => VallocOutcome::OutOfMemory,
            Some(rounded) => {
                let a = p.alloc_aligned(rounded, ps);
                if a == 0 {
                    VallocOutcome::OutOfMemory
                } else {
                    VallocOutcome::Allocated(a)
                }
            },
        },
    }
}

} // verus!
