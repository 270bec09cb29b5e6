use pong_kernel::allocator::{init_heap, is_valid_align, Allocator, HEAP_SIZE};

fn arena_at(base: usize) -> Allocator {
    init_heap(base)
}

#[test]
fn heap_size_is_ten_thousand_kibibytes() {
    assert_eq!(HEAP_SIZE, 10_240_000);
}

#[test]
fn init_heap_starts_empty() {
    let arena = arena_at(0x4000);
    assert_eq!(arena.heap_start(), 0x4000);
    assert_eq!(arena.offset(), 0);
}

#[test]
fn first_block_starts_at_aligned_base() {
    let mut arena = arena_at(0x1000);
    assert_eq!(arena.allocate(16, 8), Some(0x1000));
    assert_eq!(arena.offset(), 16);
}

#[test]
fn block_is_rounded_up_to_alignment() {
    let mut arena = arena_at(0x1001);
    assert_eq!(arena.allocate(3, 16), Some(0x1010));
    assert_eq!(arena.offset(), 0x1010 + 3 - 0x1001);
    assert_eq!(arena.allocate(1, 1), Some(0x1013));
    assert_eq!(arena.allocate(8, 8), Some(0x1018));
    assert_eq!(arena.offset(), 0x1020 - 0x1001);
}

#[test]
fn blocks_are_aligned_for_every_power_of_two() {
    let mut arena = arena_at(0x10_0003);
    let mut shift = 0;
    while shift < 16 {
        let align = 1usize << shift;
        let block = arena.allocate(5, align).unwrap();
        assert_eq!(block % align, 0);
        shift += 1;
    }
}

#[test]
fn blocks_do_not_overlap_and_stay_inside() {
    let base = 0x20_0001;
    let mut arena = arena_at(base);
    let requests = [(7usize, 1usize), (64, 64), (0, 8), (1000, 256), (3, 2), (4096, 4096)];
    let mut blocks: Vec<(usize, usize)> = Vec::new();
    for (size, align) in requests {
        let before = arena.offset();
        let start = arena.allocate(size, align).unwrap();
        assert!(arena.offset() >= before);
        assert!(start >= base + before);
        assert!(start + size <= base + HEAP_SIZE);
        assert_eq!(start + size, base + arena.offset());
        for (other, len) in &blocks {
            assert!(other + len <= start);
        }
        blocks.push((start, size));
    }
}

#[test]
fn request_beyond_capacity_fails_and_changes_nothing() {
    let mut arena = arena_at(0x1000);
    assert_eq!(arena.allocate(100, 4), Some(0x1000));
    assert_eq!(arena.allocate(HEAP_SIZE, 1), None);
    assert_eq!(arena.offset(), 100);
    assert_eq!(arena.heap_start(), 0x1000);
    assert_eq!(arena.allocate(HEAP_SIZE - 100, 1), Some(0x1000 + 100));
    assert_eq!(arena.offset(), HEAP_SIZE);
    assert_eq!(arena.allocate(1, 1), None);
    assert_eq!(arena.allocate(0, 1), Some(0x1000 + HEAP_SIZE));
    assert_eq!(arena.offset(), HEAP_SIZE);
}

#[test]
fn padding_that_does_not_fit_fails() {
    let mut arena = arena_at(0x1000);
    assert_eq!(arena.allocate(HEAP_SIZE - 1, 1), Some(0x1000));
    assert_eq!(arena.allocate(1, 0x1000), None);
    assert_eq!(arena.offset(), HEAP_SIZE - 1);
    assert_eq!(arena.allocate(1, 1), Some(0x1000 + HEAP_SIZE - 1));
}

#[test]
fn arena_at_the_end_of_the_address_space_does_not_wrap() {
    let base = usize::MAX - 64;
    let mut arena = arena_at(base);
    assert_eq!(arena.allocate(32, 1), Some(base));
    assert_eq!(arena.allocate(64, 1), None);
    assert_eq!(arena.allocate(16, 64), None);
    assert_eq!(arena.offset(), 32);
    assert_eq!(arena.allocate(32, 1), Some(base + 32));
    assert_eq!(arena.allocate(usize::MAX, 1), None);
}

#[test]
fn dealloc_reclaims_nothing() {
    let mut arena = arena_at(0x8000);
    let block = arena.allocate(24, 8).unwrap();
    assert_eq!(arena.dealloc(block, 24, 8), block);
    assert_eq!(arena.offset(), 24);
    assert_eq!(arena.allocate(8, 8), Some(0x8000 + 24));
}

#[test]
fn valid_alignments_are_the_powers_of_two() {
    assert!(!is_valid_align(0));
    let mut shift = 0;
    while shift < usize::BITS {
        assert!(is_valid_align(1usize << shift));
        shift += 1;
    }
    for align in [3usize, 5, 6, 7, 12, 24, 100, 1023, 1025, usize::MAX, (1 << 20) + 1] {
        assert!(!is_valid_align(align));
        assert_eq!(is_valid_align(align), align.is_power_of_two());
    }
}
