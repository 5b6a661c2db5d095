use mimalloc_redirect::{CollectingSink, Layout, MiMalloc, ModelHeap};

/// The byte count a sink received: the summed length of its fragments.
fn bytes_received(sink: &CollectingSink) -> usize {
    sink.fragments().iter().map(|f| f.len()).sum()
}

#[test]
fn stats_report_nonzero_after_an_allocation() {
    let m = MiMalloc;
    let mut h = ModelHeap::new();
    m.allocate(&mut h, Layout::new(128, 8).unwrap()).unwrap();
    let mut sink = CollectingSink::new();
    m.print_stats_to(&h, &mut sink);
    assert!(bytes_received(&sink) > 0);
}

#[test]
fn stats_report_grows_with_allocations() {
    let m = MiMalloc;
    let mut h = ModelHeap::new();
    let mut sink = CollectingSink::new();
    m.print_stats_to(&h, &mut sink);
    let before = bytes_received(&sink);
    m.allocate(&mut h, Layout::new(16, 4).unwrap()).unwrap();
    let mut sink2 = CollectingSink::new();
    m.print_stats_to(&h, &mut sink2);
    assert!(bytes_received(&sink2) > before);
}

#[test]
fn collecting_sink_keeps_every_fragment() {
    let m = MiMalloc;
    let mut h = ModelHeap::new();
    m.allocate(&mut h, Layout::new(8, 2).unwrap()).unwrap();
    m.allocate(&mut h, Layout::new(8, 2).unwrap()).unwrap();
    let mut sink = CollectingSink::new();
    m.print_stats_to(&h, &mut sink);
    let frags = sink.fragments();
    assert_eq!(frags.len(), 3);
    assert!(frags.iter().all(|f| !f.is_empty()));
}

#[test]
fn intercepted_and_facade_calls_share_one_pool() {
    // A raw-adapter allocation (what an intercepted `malloc` forwards
    // to) and a facade allocation land in the same storage pool: one
    // statistics report accounts for both.
    let m = MiMalloc;
    let mut h = ModelHeap::new();
    let a = m.raw_alloc(&mut h, Layout::new(10, 1).unwrap());
    assert_ne!(a, 0);
    m.allocate(&mut h, Layout::new(20, 2).unwrap()).unwrap();
    let mut sink = CollectingSink::new();
    m.print_stats_to(&h, &mut sink);
    assert_eq!(sink.fragments().len(), 3);
}
