//! Free-list bitmap operations and block accounting.

use cri_archive_lib::free_list::FreeList;

#[test]
fn used_bit_on() {
    let mut list = FreeList::new_without_alloc();
    list.bit_on(1, 7);
    assert_eq!(list.used[0], 0xfe);
    list.bit_on(66, 20);
    assert_eq!(list.used[1], 0x3FFFFC);
    list.bit_on(255, 2);
}

#[test]
fn used_bit_off() {
    let mut list = FreeList::new_without_alloc();
    list.bit_on(1, 7);
    list.bit_off(3, 3);
    assert_eq!(list.used[0], 0xc6);
    list.bit_on(66, 20);
    list.bit_off(70, 8);
    assert_eq!(list.used[1], 0x3FC03C);
}

#[test]
fn used_bit_check() {
    let mut list = FreeList::new_without_alloc();
    list.bit_on(1, 7);
    assert_eq!(list.check_occupation(1, 7), 0xfe);
    list.bit_on(66, 20);
    assert_eq!(list.check_occupation(66, 20), 0xFFFFF);
    // Basic search for a blank allocation
    let mut start = 0;
    loop {
        let occ = list.check_occupation(start, 3);
        if occ == 0 {
            break;
        }
        start += 3;
    }
    assert_eq!(start, 9);
}

#[test]
fn list_allocate_basic() {
    let mut list = FreeList::new();
    let item1 = list.allocate(0x10);
    assert_eq!(list.used[0], 0x1);
    let item2 = list.allocate(0x10);
    assert_eq!(list.used[0], 0x3);
    let item3 = list.allocate(0xc0000);
    assert_eq!(list.used[0], 0x3b);
    list.deallocate(&item1);
    assert_eq!(list.used[0], 0x3a);
    list.deallocate(&item2);
    assert_eq!(list.used[0], 0x38);
    list.deallocate(&item3);
    assert_eq!(list.used[0], 0x0);
}

#[test]
fn allocate_counts_blocks() {
    // The set-bit count tracks the blocks of live managed nodes.
    let mut list = FreeList::new();
    let node = list.allocate(262144 * 2 + 1); // three blocks
    assert!(node.managed);
    assert_eq!(list.used[0].count_ones(), 3);
    assert_eq!(node.data.len(), 262144 * 2 + 1);
    list.deallocate(&node);
    assert_eq!(list.used[0], 0);
}

#[test]
fn allocate_unmanaged_fallback() {
    // A request larger than the arena leaves the bitmap untouched.
    let mut list = FreeList::new();
    let node = list.allocate(262144 * 256);
    assert!(!node.managed);
    assert_eq!(list.used, vec![0, 0, 0, 0]);
    assert_eq!(node.data.len(), 262144 * 256);
}
