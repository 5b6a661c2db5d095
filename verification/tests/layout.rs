use mimalloc_redirect::{power_of_two, Block, Layout};

#[test]
fn power_of_two_exact_values() {
    assert!(power_of_two(1));
    assert!(power_of_two(2));
    assert!(power_of_two(4096));
    assert!(power_of_two(1usize << 63));
    assert!(!power_of_two(0));
    assert!(!power_of_two(3));
    assert!(!power_of_two(12));
    assert!(!power_of_two(usize::MAX));
}

#[test]
fn layout_new_validates_alignment() {
    assert_eq!(Layout::new(8, 3), None);
    assert_eq!(Layout::new(8, 0), None);
    let l = Layout::new(5, 4).unwrap();
    assert_eq!(l.size, 5);
    assert_eq!(l.align, 4);
}

#[test]
fn empty_block_is_the_alignment() {
    assert_eq!(Block::empty(16), Block { addr: 16, size: 0 });
    assert_ne!(Block::empty(1).addr, 0);
}
