use crate::primitive::{overwrite_bytes, AllocPrimitive};
use crate::version::VersionEncoding;
use vstd::arithmetic::div_mod::{lemma_fundamental_div_mod, lemma_mod_multiples_basic};
use vstd::arithmetic::power2::is_pow2;
use vstd::math::min;
use vstd::prelude::*;

verus! {

/// One region of the model's address space: a block that was handed out
/// at `addr` and either still lives or has been freed.
struct Region {
    addr: usize,
    data: Vec<u8>,
    live: bool,
}

/// An in-memory reference implementation of the primitive capability.
///
/// Addresses are handed out from a bump counter and never reused, so a
/// freed or moved block's address can never collide with a later one.
/// Fresh bytes of a plain (non-zeroing) allocation are filled with a junk
/// marker, which keeps the model honest about "unspecified contents".
pub struct ModelHeap {
    regions: Vec<Region>,
    next: usize,
    ops: Ghost<nat>,
}

/// The heap that a sequence of regions denotes: each live region
/// contributes its address and bytes.
spec fn heap_of(s: Seq<Region>) -> Map<usize, Seq<u8>>
    decreases s.len(),
{
    if s.len() == 0 {
        Map::empty()
    } else {
        let rest = heap_of(s.drop_last());
        if s.last().live {
            rest.insert(s.last().addr, s.last().data@)
        } else {
            rest
        }
    }
}

/// Distinct live regions have distinct addresses.
spec fn distinct_live(s: Seq<Region>) -> bool {
    forall|i: int, j: int|
        0 <= i < j < s.len() && (#[trigger] s[i]).live && (#[trigger] s[j]).live
            ==> s[i].addr != s[j].addr
}

/// A live region's address is in the denoted heap.
proof fn lemma_heap_of_contains(s: Seq<Region>, i: int)
    requires
        0 <= i < s.len(),
        s[i].live,
    ensures
        heap_of(s).dom().contains(s[i].addr),
    decreases s.len(),
{
    if i == s.len() - 1 {
    } else {
        lemma_heap_of_contains(s.drop_last(), i);
    }
}

/// An address in the denoted heap comes from some live region.
proof fn lemma_heap_of_dom(s: Seq<Region>, a: usize)
    requires
        heap_of(s).dom().contains(a),
    ensures
        exists|i: int| 0 <= i < s.len() && (#[trigger] s[i]).live && s[i].addr == a,
    decreases s.len(),
{
    if s.len() == 0 {
    } else if s.last().live && s.last().addr == a {
        assert(0 <= s.len() - 1 < s.len() && (s[s.len() - 1]).live && s[s.len() - 1].addr == a);
    } else {
        lemma_heap_of_dom(s.drop_last(), a);
        let i = choose|i: int|
            0 <= i < s.drop_last().len() && (#[trigger] s.drop_last()[i]).live
                && s.drop_last()[i].addr == a;
        assert(0 <= i < s.len() && (s[i]).live && s[i].addr == a);
    }
}

/// With distinct addresses, the denoted heap maps a live region's
/// address to that region's bytes.
proof fn lemma_heap_of_lookup(s: Seq<Region>, i: int)
    requires
        distinct_live(s),
        0 <= i < s.len(),
        s[i].live,
    ensures
        heap_of(s).dom().contains(s[i].addr),
        heap_of(s)[s[i].addr] == s[i].data@,
    decreases s.len(),
{
    lemma_heap_of_contains(s, i);
    if i == s.len() - 1 {
    } else {
        assert(distinct_live(s.drop_last())) by {
            assert(forall|x: int, y: int|
                0 <= x < y < s.drop_last().len() && (#[trigger] s.drop_last()[x]).live
                    && (#[trigger] s.drop_last()[y]).live ==> s[x].addr != s[y].addr);
        }
        lemma_heap_of_lookup(s.drop_last(), i);
        if s.last().live {
            assert(s[i].addr != s.last().addr);
        }
    }
}

/// Pushing a region inserts it into the denoted heap (live), or leaves
/// the heap unchanged (dead).
proof fn lemma_heap_of_push(s: Seq<Region>, rep: Region)
    ensures
        rep.live ==> heap_of(s.push(rep)) == heap_of(s).insert(rep.addr, rep.data@),
        !rep.live ==> heap_of(s.push(rep)) == heap_of(s),
{
    assert(s.push(rep).drop_last() =~= s);
    assert(s.push(rep).last() == rep);
}

/// Replacing a live region by a dead one removes its address from the
/// denoted heap.
proof fn lemma_heap_of_kill(s: Seq<Region>, i: int, rep: Region)
    requires
        distinct_live(s),
        0 <= i < s.len(),
        s[i].live,
        !rep.live,
    ensures
        heap_of(s.update(i, rep)) == heap_of(s).remove(s[i].addr),
    decreases s.len(),
{
    let t = s.update(i, rep);
    let a = s[i].addr;
    if i == s.len() - 1 {
        assert(t.drop_last() =~= s.drop_last());
        if heap_of(s.drop_last()).dom().contains(a) {
            lemma_heap_of_dom(s.drop_last(), a);
            let j = choose|j: int|
                0 <= j < s.drop_last().len() && (#[trigger] s.drop_last()[j]).live
                    && s.drop_last()[j].addr == a;
            assert(s[j].live && s[j].addr == a && j < i);
            assert(false);
        }
        assert(heap_of(t) =~= heap_of(s).remove(a));
    } else {
        assert(distinct_live(s.drop_last())) by {
            assert(forall|x: int, y: int|
                0 <= x < y < s.drop_last().len() && (#[trigger] s.drop_last()[x]).live
                    && (#[trigger] s.drop_last()[y]).live ==> s[x].addr != s[y].addr);
        }
        assert(t.drop_last() =~= s.drop_last().update(i, rep));
        lemma_heap_of_kill(s.drop_last(), i, rep);
        if s.last().live {
            assert(s[i].addr != s.last().addr);
            assert(heap_of(t) =~= heap_of(s).remove(a));
        } else {
            assert(heap_of(t) =~= heap_of(s).remove(a));
        }
    }
}

/// Replacing a live region's bytes (same address, still live) updates
/// its entry in the denoted heap.
proof fn lemma_heap_of_update(s: Seq<Region>, i: int, rep: Region)
    requires
        distinct_live(s),
        0 <= i < s.len(),
        s[i].live,
        rep.live,
        rep.addr == s[i].addr,
    ensures
        heap_of(s.update(i, rep)) == heap_of(s).insert(rep.addr, rep.data@),
    decreases s.len(),
{
    let t = s.update(i, rep);
    let a = s[i].addr;
    if i == s.len() - 1 {
        assert(t.drop_last() =~= s.drop_last());
        assert(heap_of(t) =~= heap_of(s).insert(a, rep.data@));
    } else {
        assert(distinct_live(s.drop_last())) by {
            assert(forall|x: int, y: int|
                0 <= x < y < s.drop_last().len() && (#[trigger] s.drop_last()[x]).live
                    && (#[trigger] s.drop_last()[y]).live ==> s[x].addr != s[y].addr);
        }
        assert(t.drop_last() =~= s.drop_last().update(i, rep));
        lemma_heap_of_update(s.drop_last(), i, rep);
        if s.last().live {
            assert(s[i].addr != s.last().addr);
            assert(heap_of(t) =~= heap_of(s).insert(a, rep.data@));
        } else {
            assert(heap_of(t) =~= heap_of(s).insert(a, rep.data@));
        }
    }
}

impl ModelHeap {
    /// Every live region sits below the bump counter (so fresh addresses
    /// never collide), is non-null, and live addresses are distinct.
    #[verifier::type_invariant]
    spec fn wf(self) -> bool {
        &&& 1 <= self.next
        &&& forall|i: int|
            0 <= i < self.regions@.len() && (#[trigger] self.regions@[i]).live
                ==> 1 <= self.regions@[i].addr
                    && self.regions@[i].addr + self.regions@[i].data@.len() < self.next
        &&& distinct_live(self.regions@)
    }

    /// A fresh model heap backing no blocks.
    pub fn new() -> (r: ModelHeap)
        ensures
            r.heap() == Map::<usize, Seq<u8>>::empty(),
            r.op_count() == 0,
    {
        ModelHeap { regions: Vec::new(), next: 1, ops: Ghost(0) }
    }

    /// A cheap refusal for requests the bump space clearly cannot
    /// hold, made before any bytes are materialized.
    fn out_of_space(&self, size: usize) -> (r: bool)
        ensures
            !r ==> size <= usize::MAX - self.next,
    {
        usize::MAX - self.next < size
    }

    /// Scans for the live region at `addr`.
    fn find_live(&self, addr: usize) -> (r: Option<usize>)
        ensures
            match r {
                Some(i) => i < self.regions@.len() && self.regions@[i as int].live
                    && self.regions@[i as int].addr == addr,
                None => forall|i: int|
                    0 <= i < self.regions@.len()
                        ==> !((#[trigger] self.regions@[i]).live && self.regions@[i].addr == addr),
            },
    {
        let mut j: usize = 0;
        while j < self.regions.len()
            invariant
                j <= self.regions@.len(),
                forall|i: int|
                    0 <= i < j ==> !((#[trigger] self.regions@[i]).live
                        && self.regions@[i].addr == addr),
            decreases self.regions@.len() - j,
        {
            if self.regions[j].live && self.regions[j].addr == addr {
                return Some(j);
            }
            j = j + 1;
        }
        None
    }

    /// Hands out a fresh aligned address for `data` and records the new
    /// live region, or returns null when the address space is exhausted.
    fn place_vec(&mut self, data: Vec<u8>, align: usize) -> (r: usize)
        requires
            is_pow2(align as int),
        ensures
            final(self).op_count() == old(self).op_count() + 1,
            r == 0 ==> final(self).heap() == old(self).heap()
                && final(self).regions@ == old(self).regions@,
            r != 0 ==> {
                &&& r % align == 0
                &&& !old(self).heap().dom().contains(r)
                &&& final(self).heap() == old(self).heap().insert(r, data@)
                &&& final(self).regions@.len() == old(self).regions@.len() + 1
                &&& final(self).regions@.drop_last() == old(self).regions@
                &&& final(self).regions@.last().live
                &&& final(self).regions@.last().addr == r
            },
    {
        proof {
            use_type_invariant(&*self);
        }
        let ghost s0 = self.regions@;
        assert(align >= 1) by {
            reveal(is_pow2);
        }
        let rem = self.next % align;
        let pad = if rem == 0 {
            0usize
        } else {
            align - rem
        };
        let addr = match self.next.checked_add(pad) {
            Some(a) => a,
            None => {
                self.ops = Ghost(self.ops@ + 1);
                return 0;
            },
        };
        let end = match addr.checked_add(data.len()) {
            Some(e) => e,
            None => {
                self.ops = Ghost(self.ops@ + 1);
                return 0;
            },
        };
        let new_next = match end.checked_add(1) {
            Some(x) => x,
            None => {
                self.ops = Ghost(self.ops@ + 1);
                return 0;
            },
        };
        proof {
            lemma_fundamental_div_mod(self.next as int, align as int);
            if rem == 0 {
                lemma_mod_multiples_basic(self.next as int / align as int, align as int);
            } else {
                let q = self.next as int / align as int;
                assert((q + 1) * align as int == align as int * q + align as int)
                    by (nonlinear_arith);
                assert(addr as int == (q + 1) * align as int);
                lemma_mod_multiples_basic(q + 1, align as int);
            }
            assert(addr % align == 0);
            assert(addr >= self.next);
            if heap_of(s0).dom().contains(addr) {
                lemma_heap_of_dom(s0, addr);
                let i = choose|i: int|
                    0 <= i < s0.len() && (#[trigger] s0[i]).live && s0[i].addr == addr;
                assert(false);
            }
        }
        let mut regions: Vec<Region> = Vec::new();
        std::mem::swap(&mut regions, &mut self.regions);
        let rep = Region { addr, data, live: true };
        let ghost grep = rep;
        regions.push(rep);
        proof {
            assert(regions@ =~= s0.push(grep));
            assert forall|i: int|
                0 <= i < regions@.len() && (#[trigger] regions@[i]).live
                    implies 1 <= regions@[i].addr
                        && regions@[i].addr + regions@[i].data@.len() < new_next by {
                if i < s0.len() {
                    assert(regions@[i] == s0[i]);
                }
            }
            assert(distinct_live(regions@)) by {
                assert forall|x: int, y: int|
                    0 <= x < y < regions@.len() && (#[trigger] regions@[x]).live
                        && (#[trigger] regions@[y]).live implies regions@[x].addr
                        != regions@[y].addr by {
                    if y < s0.len() {
                        assert(regions@[x] == s0[x] && regions@[y] == s0[y]);
                    } else {
                        assert(regions@[x] == s0[x] && regions@[y] == grep);
                    }
                }
            }
        }
        self.next = new_next;
        self.regions = regions;
        self.ops = Ghost(self.ops@ + 1);
        proof {
            lemma_heap_of_push(s0, grep);
        }
        addr
    }
}

/// How many regions of `s` are live.
spec fn live_count(s: Seq<Region>) -> nat
    decreases s.len(),
{
    if s.len() == 0 {
        0
    } else {
        live_count(s.drop_last()) + if s.last().live {
            1nat
        } else {
            0nat
        }
    }
}

/// The statistics fragments the model reports when `k` blocks live: a
/// header line, then one line per live block.
spec fn fragments_for(k: nat) -> Seq<Seq<char>> {
    seq!["model heap statistics\n"@] + Seq::new(k, |i: int| "live block\n"@)
}

/// Extending a prefix by one region raises the live count by one
/// exactly when that region is live.
proof fn lemma_live_count_step(s: Seq<Region>, j: int)
    requires
        0 <= j < s.len(),
    ensures
        live_count(s.take(j + 1)) == live_count(s.take(j)) + if s[j].live {
            1nat
        } else {
            0nat
        },
{
    assert(s.take(j + 1).drop_last() =~= s.take(j));
    assert(s.take(j + 1).last() == s[j]);
}

impl AllocPrimitive for ModelHeap {
    closed spec fn heap(&self) -> Map<usize, Seq<u8>> {
        heap_of(self.regions@)
    }

    closed spec fn op_count(&self) -> nat {
        self.ops@
    }

    closed spec fn raw_version_spec() -> u32 {
        202
    }

    closed spec fn encoding_spec() -> VersionEncoding {
        VersionEncoding::Digits
    }

    closed spec fn stats_fragments(&self) -> Seq<Seq<char>> {
        fragments_for(live_count(self.regions@))
    }

    fn alloc_aligned(&mut self, size: usize, align: usize) -> (r: usize) {
        proof {
            use_type_invariant(&*self);
        }
        if self.out_of_space(size) {
            self.ops = Ghost(self.ops@ + 1);
            return 0;
        }
        let data = filled_vec(size, 0xAA);
        self.place_vec(data, align)
    }

    fn zalloc_aligned(&mut self, size: usize, align: usize) -> (r: usize) {
        proof {
            use_type_invariant(&*self);
        }
        if self.out_of_space(size) {
            self.ops = Ghost(self.ops@ + 1);
            return 0;
        }
        let data = filled_vec(size, 0);
        self.place_vec(data, align)
    }

    fn realloc_aligned(&mut self, addr: usize, new_size: usize, align: usize) -> (r: usize) {
        proof {
            use_type_invariant(&*self);
        }
        let ghost s0 = self.regions@;
        let ghost h0 = heap_of(s0);
        let i = match self.find_live(addr) {
            Some(i) => i,
            None => {
                proof {
                    lemma_heap_of_dom(s0, addr);
                }
                return vstd::pervasive::unreached();
            },
        };
        proof {
            lemma_heap_of_lookup(s0, i as int);
        }
        if self.out_of_space(new_size) {
            self.ops = Ghost(self.ops@ + 1);
            return 0;
        }
        let old_len = self.regions[i].data.len();
        let ghost keep = min(old_len as int, new_size as int);
        let mut data: Vec<u8> = Vec::new();
        let mut j: usize = 0;
        while j < new_size
            invariant
                j <= new_size,
                i < self.regions@.len(),
                self.regions@ == s0,
                old_len == s0[i as int].data@.len(),
                data@.len() == j as nat,
                forall|k: int|
                    0 <= k < j ==> data@[k] == (if k < old_len {
                        s0[i as int].data@[k]
                    } else {
                        0xAAu8
                    }),
            decreases new_size - j,
        {
            let b = if j < old_len {
                self.regions[i].data[j]
            } else {
                0xAA
            };
            data.push(b);
            j = j + 1;
        }
        let ghost gdata = data@;
        let r = self.place_vec(data, align);
        if r == 0 {
            return 0;
        }
        proof {
            use_type_invariant(&*self);
        }
        let ghost s1 = self.regions@;
        let mut regions: Vec<Region> = Vec::new();
        std::mem::swap(&mut regions, &mut self.regions);
        let rep = Region { addr: 0, data: Vec::new(), live: false };
        let ghost grep = rep;
        regions[i] = rep;
        proof {
            assert(s1[i as int] == s0[i as int]);
            assert(regions@ =~= s1.update(i as int, grep));
            assert forall|x: int|
                0 <= x < regions@.len() && (#[trigger] regions@[x]).live
                    implies 1 <= regions@[x].addr
                        && regions@[x].addr + regions@[x].data@.len() < self.next by {
                assert(regions@[x] == s1[x]);
            }
            assert(distinct_live(regions@)) by {
                assert forall|x: int, y: int|
                    0 <= x < y < regions@.len() && (#[trigger] regions@[x]).live
                        && (#[trigger] regions@[y]).live implies regions@[x].addr
                        != regions@[y].addr by {
                    assert(regions@[x] == s1[x] && regions@[y] == s1[y]);
                }
            }
        }
        self.regions = regions;
        proof {
            lemma_heap_of_kill(s1, i as int, grep);
            assert(self.heap() =~= h0.remove(addr).insert(r, gdata));
            assert(self.heap().dom() =~= h0.dom().remove(addr).insert(r));
            assert(gdata.subrange(0, keep) =~= h0[addr].subrange(0, keep));
        }
        r
    }

    fn free(&mut self, addr: usize) {
        proof {
            use_type_invariant(&*self);
        }
        let ghost s0 = self.regions@;
        match self.find_live(addr) {
            Some(i) => {
                let mut regions: Vec<Region> = Vec::new();
                std::mem::swap(&mut regions, &mut self.regions);
                let rep = Region { addr: 0, data: Vec::new(), live: false };
                let ghost grep = rep;
                regions[i] = rep;
                proof {
                    assert(regions@ =~= s0.update(i as int, grep));
                    assert forall|x: int|
                        0 <= x < regions@.len() && (#[trigger] regions@[x]).live
                            implies 1 <= regions@[x].addr
                                && regions@[x].addr + regions@[x].data@.len() < self.next by {
                        assert(regions@[x] == s0[x]);
                    }
                    assert(distinct_live(regions@)) by {
                        assert forall|x: int, y: int|
                            0 <= x < y < regions@.len() && (#[trigger] regions@[x]).live
                                && (#[trigger] regions@[y]).live implies regions@[x].addr
                                != regions@[y].addr by {
                            assert(regions@[x] == s0[x] && regions@[y] == s0[y]);
                        }
                    }
                }
                self.regions = regions;
                self.ops = Ghost(self.ops@ + 1);
                proof {
                    lemma_heap_of_kill(s0, i as int, grep);
                }
            },
            None => {
                proof {
                    lemma_heap_of_dom(s0, addr);
                    assert(false);
                }
            },
        }
    }

    fn raw_version(&self) -> (r: u32) {
        202
    }

    fn version_encoding(&self) -> (e: VersionEncoding) {
        VersionEncoding::Digits
    }

    fn read_byte(&self, addr: usize, offset: usize) -> (r: u8) {
        proof {
            use_type_invariant(self);
        }
        match self.find_live(addr) {
            Some(i) => {
                proof {
                    lemma_heap_of_lookup(self.regions@, i as int);
                }
                self.regions[i].data[offset]
            },
            None => {
                proof {
                    lemma_heap_of_dom(self.regions@, addr);
                }
                vstd::pervasive::unreached()
            },
        }
    }

    fn fill(&mut self, addr: usize, offset: usize, count: usize, val: u8) {
        proof {
            use_type_invariant(&*self);
        }
        let ghost s0 = self.regions@;
        match self.find_live(addr) {
            Some(i) => {
                proof {
                    lemma_heap_of_lookup(s0, i as int);
                }
                let n = self.regions[i].data.len();
                let mut data: Vec<u8> = Vec::new();
                let mut j: usize = 0;
                while j < n
                    invariant
                        j <= n,
                        i < self.regions@.len(),
                        self.regions@ == s0,
                        s0[i as int].live,
                        n == s0[i as int].data@.len(),
                        offset + count <= n,
                        data@.len() == j as nat,
                        forall|k: int|
                            0 <= k < j ==> data@[k] == (if offset <= k < offset + count {
                                val
                            } else {
                                s0[i as int].data@[k]
                            }),
                    decreases n - j,
                {
                    let b = if offset <= j && j < offset + count {
                        val
                    } else {
                        self.regions[i].data[j]
                    };
                    data.push(b);
                    j = j + 1;
                }
                let a2 = self.regions[i].addr;
                let mut regions: Vec<Region> = Vec::new();
                std::mem::swap(&mut regions, &mut self.regions);
                let rep = Region { addr: a2, data, live: true };
                let ghost grep = rep;
                regions[i] = rep;
                proof {
                    assert(regions@ =~= s0.update(i as int, grep));
                    assert forall|x: int|
                        0 <= x < regions@.len() && (#[trigger] regions@[x]).live
                            implies 1 <= regions@[x].addr
                                && regions@[x].addr + regions@[x].data@.len() < self.next by {
                        if x != i {
                            assert(regions@[x] == s0[x]);
                        } else {
                            assert(regions@[x] == grep);
                            assert(grep.addr == s0[i as int].addr);
                            assert(grep.data@.len() == s0[i as int].data@.len());
                        }
                    }
                    assert(distinct_live(regions@)) by {
                        assert forall|x: int, y: int|
                            0 <= x < y < regions@.len() && (#[trigger] regions@[x]).live
                                && (#[trigger] regions@[y]).live implies regions@[x].addr
                                != regions@[y].addr by {
                            assert(regions@[x].addr == s0[x].addr && s0[x].live);
                            assert(regions@[y].addr == s0[y].addr && s0[y].live);
                        }
                    }
                }
                self.regions = regions;
                proof {
                    lemma_heap_of_update(s0, i as int, grep);
                    assert(grep.data@ =~= overwrite_bytes(
                        heap_of(s0)[addr],
                        offset as int,
                        count as int,
                        val,
                    ));
                }
            },
            None => {
                proof {
                    lemma_heap_of_dom(s0, addr);
                    assert(false);
                }
            },
        }
    }

    fn stats_report(&self) -> (r: Vec<String>) {
        let mut v: Vec<String> = Vec::new();
        v.push("model heap statistics\n".to_owned());
        proof {
            assert(v@.map_values(|s: String| s@) =~= fragments_for(live_count(
                self.regions@.take(0),
            )));
        }
        let mut j: usize = 0;
        while j < self.regions.len()
            invariant
                j <= self.regions@.len(),
                v@.map_values(|s: String| s@) == fragments_for(live_count(
                    self.regions@.take(j as int),
                )),
            decreases self.regions@.len() - j,
        {
            let ghost prev = v@;
            let ghost k = live_count(self.regions@.take(j as int));
            if self.regions[j].live {
                v.push("live block\n".to_owned());
                proof {
                    assert(v@.map_values(|s: String| s@) =~= prev.map_values(
                        |s: String| s@,
                    ).push("live block\n"@));
                    assert(fragments_for(k + 1) =~= fragments_for(k).push("live block\n"@));
                }
            }
            j = j + 1;
            proof {
                lemma_live_count_step(self.regions@, j as int - 1);
            }
        }
        proof {
            assert(self.regions@.take(self.regions@.len() as int) =~= self.regions@);
            reveal_strlit("model heap statistics\n");
            reveal_strlit("live block\n");
            assert forall|i: int|
                0 <= i < self.stats_fragments().len() implies #[trigger] self.stats_fragments()[i].len()
                > 0 by {
                if i == 0 {
                    assert(self.stats_fragments()[0] == "model heap statistics\n"@);
                } else {
                    assert(self.stats_fragments()[i] == "live block\n"@);
                }
            }
        }
        v
    }
}

/// Builds a vector of `len` copies of `val`.
fn filled_vec(len: usize, val: u8) -> (v: Vec<u8>)
    ensures
        v@ == Seq::new(len as nat, |i: int| val),
{
    let mut v: Vec<u8> = Vec::new();
    let mut j: usize = 0;
    while j < len
        invariant
            j <= len,
            v@ == Seq::new(j as nat, |i: int| val),
        decreases len - j,
    {
        v.push(val);
        j = j + 1;
        proof {
            assert(v@ =~= Seq::new(j as nat, |i: int| val));
        }
    }
    v
}

} // verus!
