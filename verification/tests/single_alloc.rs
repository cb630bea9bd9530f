use ashtos_fw::layout::Layout;
use ashtos_fw::single_alloc::SingleAllocator;

const BASE: usize = 0x8001_0000;
const CAPACITY: usize = 0x1_0000;

fn layout(size: usize, align: usize) -> Layout {
    Layout::from_size_align(size, align).unwrap()
}

#[test]
fn a_request_that_fits_gets_the_base() {
    let mut allocator = SingleAllocator::new(BASE, CAPACITY);
    assert_eq!(allocator.allocate(layout(13, 1)), Some(BASE));
}

#[test]
fn the_whole_region_can_be_asked_for() {
    let mut allocator = SingleAllocator::new(BASE, CAPACITY);
    assert_eq!(allocator.allocate(layout(CAPACITY, 0x1_0000)), Some(BASE));
}

#[test]
fn nothing_can_be_asked_for() {
    let mut allocator = SingleAllocator::new(BASE, 0);
    assert_eq!(allocator.allocate(layout(0, 1)), Some(BASE));
}

#[test]
fn a_request_larger_than_the_region_fails() {
    let mut allocator = SingleAllocator::new(BASE, CAPACITY);
    assert_eq!(allocator.allocate(layout(CAPACITY + 1, 1)), None);
    assert_eq!(allocator.outstanding(), None);
    assert_eq!(allocator.allocate(layout(CAPACITY, 1)), Some(BASE));
}

#[test]
fn a_request_for_more_alignment_than_the_base_has_fails() {
    let mut allocator = SingleAllocator::new(BASE, CAPACITY);
    assert_eq!(allocator.allocate(layout(8, 0x2_0000)), None);
    assert_eq!(allocator.outstanding(), None);
    assert_eq!(allocator.allocate(layout(8, 0x1_0000)), Some(BASE));
}

#[test]
fn an_odd_base_serves_only_byte_alignment() {
    let mut allocator = SingleAllocator::new(0x1001, 64);
    assert_eq!(allocator.allocate(layout(8, 2)), None);
    assert_eq!(allocator.allocate(layout(8, 8)), None);
    assert_eq!(allocator.allocate(layout(8, 1)), Some(0x1001));
}

#[test]
fn a_base_of_zero_has_every_alignment() {
    let mut allocator = SingleAllocator::new(0, 64);
    assert_eq!(allocator.allocate(layout(8, 1usize << (usize::BITS - 2))), Some(0));
}

#[test]
fn a_second_request_fails_while_the_block_is_out() {
    let mut allocator = SingleAllocator::new(BASE, CAPACITY);
    assert_eq!(allocator.allocate(layout(16, 8)), Some(BASE));
    assert_eq!(allocator.allocate(layout(16, 8)), None);
    assert_eq!(allocator.allocate(layout(0, 1)), None);
    assert_eq!(allocator.outstanding(), Some(BASE));
}

#[test]
fn the_block_can_go_out_again_after_it_came_back() {
    let mut allocator = SingleAllocator::new(BASE, CAPACITY);
    let first = layout(16, 8);
    assert_eq!(allocator.allocate(first), Some(BASE));
    allocator.deallocate(BASE, first);
    assert_eq!(allocator.outstanding(), None);
    assert_eq!(allocator.allocate(layout(32, 4)), Some(BASE));
    assert_eq!(allocator.allocate(layout(32, 4)), None);
}

#[test]
fn a_failed_request_leaves_the_block_out() {
    let mut allocator = SingleAllocator::new(BASE, CAPACITY);
    assert_eq!(allocator.allocate(layout(16, 8)), Some(BASE));
    assert_eq!(allocator.allocate(layout(CAPACITY + 1, 8)), None);
    assert_eq!(allocator.outstanding(), Some(BASE));
}

#[test]
fn the_region_is_what_it_was_made_with() {
    let mut allocator = SingleAllocator::new(BASE, CAPACITY);
    assert_eq!(allocator.base(), BASE);
    assert_eq!(allocator.capacity(), CAPACITY);
    assert_eq!(allocator.outstanding(), None);
    allocator.allocate(layout(1, 1));
    assert_eq!(allocator.base(), BASE);
    assert_eq!(allocator.capacity(), CAPACITY);
}
