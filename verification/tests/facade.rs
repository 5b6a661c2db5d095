use mimalloc_redirect::{AllocError, AllocPrimitive, Block, Layout, MiMalloc, ModelHeap};

fn layout(size: usize, align: usize) -> Layout {
    Layout::new(size, align).unwrap()
}

#[test]
fn zero_size_allocate_returns_sentinel() {
    let m = MiMalloc;
    let mut h = ModelHeap::new();
    let b = m.allocate(&mut h, layout(0, 8)).unwrap();
    assert_eq!(b, Block { addr: 8, size: 0 });
    // The primitive backs no block: the report shows none.
    assert_eq!(h.stats_report().len(), 1);
}

#[test]
fn zero_size_allocate_zeroed_returns_sentinel() {
    let m = MiMalloc;
    let mut h = ModelHeap::new();
    let b = m.allocate_zeroed(&mut h, layout(0, 32)).unwrap();
    assert_eq!(b, Block { addr: 32, size: 0 });
    assert_eq!(h.stats_report().len(), 1);
}

#[test]
fn zero_size_deallocate_never_reaches_primitive() {
    let m = MiMalloc;
    let mut h = ModelHeap::new();
    let b = m.allocate(&mut h, layout(0, 16)).unwrap();
    m.deallocate(&mut h, b, layout(0, 16));
    assert_eq!(h.stats_report().len(), 1);
}

#[test]
fn allocate_is_aligned_and_writable() {
    let m = MiMalloc;
    let mut h = ModelHeap::new();
    let b = m.allocate(&mut h, layout(16, 8)).unwrap();
    assert_ne!(b.addr, 0);
    assert_eq!(b.addr % 8, 0);
    assert_eq!(b.size, 16);
    // Writable for exactly 16 bytes.
    h.fill(b.addr, 0, 16, 0x5C);
    for i in 0..16 {
        assert_eq!(h.read_byte(b.addr, i), 0x5C);
    }
}

#[test]
fn allocate_zeroed_reads_as_zero() {
    let m = MiMalloc;
    let mut h = ModelHeap::new();
    let b = m.allocate_zeroed(&mut h, layout(64, 16)).unwrap();
    assert_eq!(b.addr % 16, 0);
    for i in 0..64 {
        assert_eq!(h.read_byte(b.addr, i), 0);
    }
}

#[test]
fn allocate_fails_when_primitive_returns_null() {
    let m = MiMalloc;
    let mut h = ModelHeap::new();
    // The model cannot back an address-space-sized block.
    let r = m.allocate(&mut h, layout(usize::MAX, 1));
    assert_eq!(r, Err(AllocError));
    assert_eq!(h.stats_report().len(), 1);
}

#[test]
fn grow_preserves_prefix() {
    let m = MiMalloc;
    let mut h = ModelHeap::new();
    let b = m.allocate(&mut h, layout(4, 4)).unwrap();
    h.fill(b.addr, 0, 4, 0xD1);
    let g = m.grow(&mut h, b, layout(4, 4), layout(32, 4)).unwrap();
    assert_eq!(g.size, 32);
    assert_eq!(g.addr % 4, 0);
    for i in 0..4 {
        assert_eq!(h.read_byte(g.addr, i), 0xD1);
    }
    // One block lives: grow moved it, it did not copy it.
    assert_eq!(h.stats_report().len(), 2);
}

#[test]
fn grow_zeroed_preserves_prefix_and_zeroes_tail() {
    let m = MiMalloc;
    let mut h = ModelHeap::new();
    let b = m.allocate(&mut h, layout(8, 4)).unwrap();
    h.fill(b.addr, 0, 8, 0xCD);
    let g = m.grow_zeroed(&mut h, b, layout(8, 4), layout(32, 4)).unwrap();
    for i in 0..8 {
        assert_eq!(h.read_byte(g.addr, i), 0xCD);
    }
    for i in 8..32 {
        assert_eq!(h.read_byte(g.addr, i), 0);
    }
}

#[test]
fn grow_fails_when_primitive_returns_null() {
    let m = MiMalloc;
    let mut h = ModelHeap::new();
    let b = m.allocate(&mut h, layout(8, 1)).unwrap();
    let r = m.grow(&mut h, b, layout(8, 1), layout(usize::MAX, 1));
    assert_eq!(r, Err(AllocError));
}

#[test]
fn grow_from_sentinel_allocates() {
    let m = MiMalloc;
    let mut h = ModelHeap::new();
    let b = m.allocate(&mut h, layout(0, 2)).unwrap();
    let g = m.grow(&mut h, b, layout(0, 2), layout(6, 2)).unwrap();
    assert_ne!(g.addr, 0);
    assert_eq!(g.addr % 2, 0);
    assert_eq!(g.size, 6);
    assert_eq!(h.stats_report().len(), 2);
}

#[test]
fn shrink_keeps_prefix() {
    let m = MiMalloc;
    let mut h = ModelHeap::new();
    let b = m.allocate(&mut h, layout(16, 8)).unwrap();
    h.fill(b.addr, 0, 16, 0x42);
    let s = m.shrink(&mut h, b, layout(16, 8), layout(4, 8)).unwrap();
    assert_eq!(s.size, 4);
    for i in 0..4 {
        assert_eq!(h.read_byte(s.addr, i), 0x42);
    }
}

#[test]
fn shrink_to_zero_is_deallocate() {
    let m = MiMalloc;
    let mut h = ModelHeap::new();
    let b = m.allocate(&mut h, layout(16, 8)).unwrap();
    assert_eq!(h.stats_report().len(), 2);
    let s = m.shrink(&mut h, b, layout(16, 8), layout(0, 8)).unwrap();
    // The handle became the empty sentinel and the storage is gone.
    assert_eq!(s, Block { addr: 8, size: 0 });
    assert_eq!(h.stats_report().len(), 1);
}

#[test]
fn shrink_sentinel_stays_sentinel() {
    let m = MiMalloc;
    let mut h = ModelHeap::new();
    let b = m.allocate(&mut h, layout(0, 4)).unwrap();
    let s = m.shrink(&mut h, b, layout(0, 4), layout(0, 8)).unwrap();
    assert_eq!(s, Block { addr: 8, size: 0 });
    assert_eq!(h.stats_report().len(), 1);
}

#[test]
fn deallocate_returns_storage() {
    let m = MiMalloc;
    let mut h = ModelHeap::new();
    let a = m.allocate(&mut h, layout(8, 1)).unwrap();
    let b = m.allocate(&mut h, layout(8, 1)).unwrap();
    assert_ne!(a.addr, b.addr);
    assert_eq!(h.stats_report().len(), 3);
    m.deallocate(&mut h, a, layout(8, 1));
    assert_eq!(h.stats_report().len(), 2);
    m.deallocate(&mut h, b, layout(8, 1));
    assert_eq!(h.stats_report().len(), 1);
}

#[test]
fn end_to_end_grow_and_shrink() {
    // Allocate one byte at alignment one, grow to 4096 zero-filled,
    // check the byte survived and the tail is zero, shrink to nothing.
    let m = MiMalloc;
    let mut h = ModelHeap::new();
    let b = m.allocate(&mut h, layout(1, 1)).unwrap();
    h.fill(b.addr, 0, 1, 0x7E);
    let g = m.grow_zeroed(&mut h, b, layout(1, 1), layout(4096, 1)).unwrap();
    assert_eq!(g.size, 4096);
    assert_eq!(h.read_byte(g.addr, 0), 0x7E);
    for i in 1..4096 {
        assert_eq!(h.read_byte(g.addr, i), 0);
    }
    let s = m.shrink(&mut h, g, layout(4096, 1), layout(0, 1)).unwrap();
    assert_eq!(s, Block { addr: 1, size: 0 });
    assert_eq!(h.stats_report().len(), 1);
}

#[test]
fn raw_adapter_allocates_and_frees() {
    let m = MiMalloc;
    let mut h = ModelHeap::new();
    let a = m.raw_alloc(&mut h, layout(24, 8));
    assert_ne!(a, 0);
    assert_eq!(a % 8, 0);
    let z = m.alloc_zeroed(&mut h, layout(8, 8));
    assert_ne!(z, 0);
    for i in 0..8 {
        assert_eq!(h.read_byte(z, i), 0);
    }
    let r = m.realloc(&mut h, a, layout(24, 8), 48);
    assert_ne!(r, 0);
    assert_eq!(r % 8, 0);
    m.dealloc(&mut h, r, layout(48, 8));
    m.dealloc(&mut h, z, layout(8, 8));
    assert_eq!(h.stats_report().len(), 1);
}
