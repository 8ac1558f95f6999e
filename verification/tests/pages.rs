use bump_allocator::{AllocError, EarlyAllocator};

fn region(start: usize, size: usize) -> EarlyAllocator<4096> {
    let mut a = EarlyAllocator::<4096>::new();
    a.init(start, size);
    a
}

#[test]
fn pages_are_handed_out_downward() {
    let mut a = region(0x10000, 0x10000);
    assert_eq!(a.alloc_pages(1, 1), Ok(0x1f000));
    assert_eq!(a.alloc_pages(2, 1), Ok(0x1d000));
    assert_eq!(a.alloc_pages(1, 1), Ok(0x1c000));
    assert_eq!(a.used_pages(), 4);
    assert_eq!(a.total_pages(), 16);
    assert_eq!(a.available_pages(), 12);
    assert_eq!(a.total_bytes(), 0xc000);
    assert_eq!(a.available_bytes(), 0xc000);
    assert_eq!(a.used_bytes(), 0);
}

#[test]
fn page_alignment_rounds_the_start_down() {
    let mut a = region(0x10000, 0x10000);
    assert_eq!(a.alloc_pages(1, 1), Ok(0x1f000));
    // one page aligned to four pages: the three pages above it go with it
    assert_eq!(a.alloc_pages(1, 4), Ok(0x1c000));
    assert_eq!(a.used_pages(), 4);
    assert_eq!(a.alloc_pages(1, 2), Ok(0x1a000));
    assert_eq!(a.alloc_pages(3, 8), Ok(0x10000));
    assert_eq!(a.available_bytes(), 0);
    assert_eq!(a.available_pages(), 0);
    assert_eq!(a.alloc_pages(1, 1), Err(AllocError::OutOfMemory));
}

#[test]
fn zero_pages_is_invalid() {
    let mut a = region(0x10000, 0x10000);
    assert_eq!(a.alloc_pages(0, 1), Err(AllocError::InvalidParam));
    assert_eq!(a.used_pages(), 0);
    assert_eq!(a.available_bytes(), 0x10000);
}

#[test]
fn page_alignment_must_be_a_power_of_two() {
    let mut a = region(0x10000, 0x10000);
    assert_eq!(a.alloc_pages(1, 0), Err(AllocError::InvalidParam));
    assert_eq!(a.alloc_pages(1, 3), Err(AllocError::InvalidParam));
    assert_eq!(a.alloc_pages(1, 12), Err(AllocError::InvalidParam));
    assert_eq!(a.alloc_pages(0, 3), Err(AllocError::InvalidParam));
    assert_eq!(a.alloc_pages(1000, 3), Err(AllocError::InvalidParam));
    assert_eq!(a.used_pages(), 0);
}

#[test]
fn pages_succeed_while_room_is_left() {
    let mut a = region(0x100000, 10 * 4096);
    let mut p = 1;
    let mut taken = 0;
    while p * 4096 <= a.available_bytes() {
        let before = a.available_bytes();
        let addr = a.alloc_pages(p, 1).unwrap();
        assert_eq!(addr % 4096, 0);
        assert_eq!(a.available_bytes(), before - p * 4096);
        taken += p;
        p += 1;
    }
    assert_eq!(taken, 10);
    assert_eq!(a.used_pages(), 10);
    assert_eq!(a.alloc_pages(1, 1), Err(AllocError::OutOfMemory));
}

#[test]
fn whole_region_as_pages() {
    let mut a = region(0x100000, 8 * 4096);
    assert_eq!(a.alloc_pages(8, 1), Ok(0x100000));
    assert_eq!(a.available_bytes(), 0);
    assert_eq!(a.total_bytes(), 0);
    assert_eq!(a.alloc_bytes(1, 1), Err(AllocError::OutOfMemory));
}

#[test]
fn one_page_too_many_is_out_of_memory() {
    let mut a = region(0x100000, 8 * 4096);
    assert_eq!(a.alloc_pages(9, 1), Err(AllocError::OutOfMemory));
    assert_eq!(a.used_pages(), 0);
    assert_eq!(a.available_bytes(), 8 * 4096);
}

#[test]
fn unaligned_end_costs_the_partial_page() {
    let mut a = region(100, 4096);
    // 4096 bytes are free, but no page boundary lies in the region
    assert_eq!(a.available_bytes(), 4096);
    assert_eq!(a.alloc_pages(1, 1), Err(AllocError::OutOfMemory));
    let mut b = region(0x1000, 0x2800);
    assert_eq!(b.alloc_pages(1, 1), Ok(0x2000));
    // the half page above the allocation is counted out of the byte arena too
    assert_eq!(b.available_bytes(), 0x1000);
    assert_eq!(b.used_pages(), 1);
    assert_eq!(b.total_pages(), 2);
}

#[test]
fn page_request_larger_than_the_address_space() {
    let mut a = region(0x100000, 8 * 4096);
    assert_eq!(a.alloc_pages(usize::MAX, 1), Err(AllocError::OutOfMemory));
    assert_eq!(a.alloc_pages(usize::MAX / 4096 + 1, 1), Err(AllocError::OutOfMemory));
    assert_eq!(a.alloc_pages(usize::MAX / 4096, 1), Err(AllocError::OutOfMemory));
    assert_eq!(a.used_pages(), 0);
    assert_eq!(a.available_bytes(), 8 * 4096);
}

#[test]
fn page_request_below_address_zero() {
    let mut a = region(0, 4 * 4096);
    assert_eq!(a.alloc_pages(5, 1), Err(AllocError::OutOfMemory));
    assert_eq!(a.alloc_pages(4, 1), Ok(0));
    assert_eq!(a.available_bytes(), 0);
}

#[test]
fn alignment_beyond_the_region_is_out_of_memory() {
    let mut a = region(0x100000, 8 * 4096);
    assert_eq!(a.alloc_pages(1, 0x1000), Err(AllocError::OutOfMemory));
    assert_eq!(a.alloc_pages(1, 1usize << (usize::BITS - 1)), Err(AllocError::OutOfMemory));
    assert_eq!(a.used_pages(), 0);
}

#[test]
fn address_zero_is_aligned_to_everything() {
    let mut a = region(0, 8 * 4096);
    // the only multiple of so large an alignment below the page cursor is zero
    assert_eq!(a.alloc_pages(1, 1usize << (usize::BITS - 1)), Ok(0));
    assert_eq!(a.used_pages(), 8);
    assert_eq!(a.available_bytes(), 0);
    let mut b = region(0, 8 * 4096);
    assert_eq!(b.alloc_bytes(1, 1), Ok(0));
    assert_eq!(b.alloc_pages(1, 1usize << (usize::BITS - 1)), Err(AllocError::OutOfMemory));
    assert_eq!(b.used_pages(), 0);
}

#[test]
fn dealloc_pages_is_ignored() {
    let mut a = region(0x10000, 0x10000);
    assert_eq!(a.alloc_pages(2, 1), Ok(0x1e000));
    a.dealloc_pages(0x1e000, 2);
    assert_eq!(a.used_pages(), 2);
    assert_eq!(a.available_pages(), 14);
    assert_eq!(a.available_bytes(), 0xe000);
    assert_eq!(a.alloc_pages(2, 1), Ok(0x1c000));
}

#[test]
fn total_pages_follows_the_byte_cursor() {
    let mut a = region(0x10000, 0x10000);
    assert_eq!(a.total_pages(), 16);
    assert_eq!(a.alloc_bytes(1, 1), Ok(0x10000));
    assert_eq!(a.total_pages(), 15);
    assert_eq!(a.available_pages(), 15);
    assert_eq!(a.alloc_bytes(4095, 1), Ok(0x10001));
    assert_eq!(a.total_pages(), 15);
    assert_eq!(a.alloc_bytes(1, 1), Ok(0x11000));
    assert_eq!(a.total_pages(), 14);
    assert_eq!(a.alloc_pages(3, 1), Ok(0x1d000));
    assert_eq!(a.total_pages(), 14);
    assert_eq!(a.used_pages(), 3);
    assert_eq!(a.available_pages(), 11);
    a.dealloc(0, 0, 0);
    a.dealloc(0, 0, 0);
    a.dealloc(0, 0, 0);
    assert_eq!(a.total_pages(), 16);
    assert_eq!(a.available_pages(), 13);
}

#[test]
fn small_pages() {
    let mut a = EarlyAllocator::<256>::new();
    a.init(0x1000, 0x1000);
    assert_eq!(a.available_pages(), 16);
    assert_eq!(a.alloc_pages(3, 2), Ok(0x1c00));
    assert_eq!(a.used_pages(), 4);
    assert_eq!(a.alloc_pages(1, 1), Ok(0x1b00));
    assert_eq!(a.alloc_pages(1, 16), Ok(0x1000));
    assert_eq!(a.alloc_pages(1, 1), Err(AllocError::OutOfMemory));
}

#[test]
fn page_size_that_is_no_power_of_two() {
    let mut a = EarlyAllocator::<3000>::new();
    a.init(1000, 20000);
    assert_eq!(a.total_pages(), 6);
    assert_eq!(a.alloc_pages(1, 1), Ok(18000));
    assert_eq!(a.used_pages(), 1);
    assert_eq!(a.alloc_pages(1, 2), Ok(12000));
    assert_eq!(a.used_pages(), 3);
    assert_eq!(a.alloc_pages(3, 1), Ok(3000));
    assert_eq!(a.alloc_pages(1, 1), Err(AllocError::OutOfMemory));
    assert_eq!(a.available_bytes(), 2000);
    assert_eq!(a.available_pages(), 0);
}
