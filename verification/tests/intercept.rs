use mimalloc_redirect::{
    checked_page_size, posix_memalign, pvalloc, round_up_to_multiple, valloc, AllocPrimitive,
    ModelHeap,
    PosixMemalignOutcome, VallocOutcome,
};

#[test]
fn posix_memalign_rejects_non_power_of_two() {
    let mut h = ModelHeap::new();
    assert_eq!(posix_memalign(&mut h, 24, 100), PosixMemalignOutcome::InvalidAlignment);
    assert_eq!(h.stats_report().len(), 1);
}

#[test]
fn posix_memalign_rejects_sub_pointer_alignment() {
    let mut h = ModelHeap::new();
    assert_eq!(posix_memalign(&mut h, 2, 100), PosixMemalignOutcome::InvalidAlignment);
    assert_eq!(h.stats_report().len(), 1);
}

#[test]
fn posix_memalign_allocates_aligned() {
    let mut h = ModelHeap::new();
    match posix_memalign(&mut h, 64, 32) {
        PosixMemalignOutcome::Allocated(a) => {
            assert_ne!(a, 0);
            assert_eq!(a % 64, 0);
        }
        other => panic!("expected an allocation, got {:?}", other),
    }
    assert_eq!(h.stats_report().len(), 2);
}

#[test]
fn posix_memalign_reports_out_of_memory() {
    let mut h = ModelHeap::new();
    assert_eq!(posix_memalign(&mut h, 8, usize::MAX), PosixMemalignOutcome::OutOfMemory);
}

#[test]
fn valloc_rejects_unusable_page_size() {
    let mut h = ModelHeap::new();
    assert_eq!(valloc(&mut h, 100, -1), VallocOutcome::PageSizeUnavailable);
    assert_eq!(valloc(&mut h, 100, 0), VallocOutcome::PageSizeUnavailable);
    assert_eq!(valloc(&mut h, 100, 3000), VallocOutcome::PageSizeUnavailable);
    assert_eq!(h.stats_report().len(), 1);
}

#[test]
fn valloc_aligns_to_the_page() {
    let mut h = ModelHeap::new();
    match valloc(&mut h, 100, 4096) {
        VallocOutcome::Allocated(a) => {
            assert_ne!(a, 0);
            assert_eq!(a % 4096, 0);
        }
        other => panic!("expected an allocation, got {:?}", other),
    }
}

#[test]
fn pvalloc_rounds_up_to_whole_pages() {
    let mut h = ModelHeap::new();
    match pvalloc(&mut h, 5000, 4096) {
        VallocOutcome::Allocated(a) => {
            assert_eq!(a % 4096, 0);
            // The block spans two whole pages: all 8192 bytes are writable.
            h.fill(a, 0, 8192, 3);
            assert_eq!(h.read_byte(a, 8191), 3);
        }
        other => panic!("expected an allocation, got {:?}", other),
    }
}

#[test]
fn pvalloc_overflow_is_out_of_memory() {
    let mut h = ModelHeap::new();
    assert_eq!(pvalloc(&mut h, usize::MAX - 10, 4096), VallocOutcome::OutOfMemory);
    assert_eq!(h.stats_report().len(), 1);
}

#[test]
fn round_up_exact_values() {
    assert_eq!(round_up_to_multiple(0, 4096), Some(0));
    assert_eq!(round_up_to_multiple(1, 4096), Some(4096));
    assert_eq!(round_up_to_multiple(4096, 4096), Some(4096));
    assert_eq!(round_up_to_multiple(4097, 4096), Some(8192));
    assert_eq!(round_up_to_multiple(usize::MAX - 10, 4096), None);
}

#[test]
fn checked_page_size_validates() {
    assert_eq!(checked_page_size(4096), Some(4096));
    assert_eq!(checked_page_size(1), Some(1));
    assert_eq!(checked_page_size(0), None);
    assert_eq!(checked_page_size(-1), None);
    assert_eq!(checked_page_size(12345), None);
}
