use kernel_core::bootinfo::{BootInfo, MemoryMapEntry, MemoryRegionKind};
use kernel_core::pmm::{align_down, align_up, alloc_aligned, alloc_page, free_kib, init};

fn usable(base: u64, length: u64) -> MemoryMapEntry {
    MemoryMapEntry { base_addr: base, length, region_type: 1, attributes: 0 }
}

#[test]
fn init_selects_the_largest_usable_region() {
    let entries = vec![
        usable(0x1000, 0x2000),
        MemoryMapEntry { base_addr: 0x9000, length: 0x100000, region_type: 2, attributes: 0 },
        usable(0x100000, 0x400000),
        usable(0x600000, 0x3000),
    ];
    let boot = BootInfo::new(entries, Vec::new());
    let a = init(&boot);
    assert_eq!(a.next_free, 0x100000);
    assert_eq!(a.limit, 0x500000);
}

#[test]
fn init_without_usable_memory_leaves_the_allocator_empty() {
    let entries = vec![MemoryMapEntry {
        base_addr: 0x1000,
        length: 0x100000,
        region_type: 2,
        attributes: 0,
    }];
    let boot = BootInfo::new(entries, Vec::new());
    let a = init(&boot);
    assert_eq!(a.next_free, 0);
    assert_eq!(a.limit, 0);
    let mut a = a;
    assert_eq!(alloc_page(&mut a), None);
    assert_eq!(free_kib(&a), 0);
}

#[test]
fn allocations_are_ordered_aligned_and_disjoint() {
    let boot = BootInfo::new(vec![usable(0x100000, 0x400000)], Vec::new());
    let mut a = init(&boot);

    let p1 = alloc_aligned(&mut a, 100, 64).unwrap();
    let p2 = alloc_aligned(&mut a, 4096, 4096).unwrap();
    let p3 = alloc_page(&mut a).unwrap();
    assert_eq!(p1 % 64, 0);
    assert_eq!(p2 % 4096, 0);
    assert_eq!(p3 % 4096, 0);
    // Each allocation begins past the end of the previous one.
    assert!(p1 + 100 <= p2);
    assert!(p2 + 4096 <= p3);
    // Sizes round up to at least a page.
    assert_eq!(p2, p1 + 4096);
}

#[test]
fn bad_alignments_and_oversize_requests_fail() {
    let boot = BootInfo::new(vec![usable(0x100000, 0x3000)], Vec::new());
    let mut a = init(&boot);
    assert_eq!(alloc_aligned(&mut a, 16, 0), None);
    assert_eq!(alloc_aligned(&mut a, 16, 3), None);
    assert_eq!(alloc_aligned(&mut a, 0x4000, 4096), None);
    // A failed request moves nothing.
    assert_eq!(a.next_free, 0x100000);
    let got = alloc_aligned(&mut a, 16, 16);
    assert_eq!(got, Some(0x100000));
}

#[test]
fn free_kib_counts_whole_kib_of_room() {
    let boot = BootInfo::new(vec![usable(0x100000, 0x400000)], Vec::new());
    let mut a = init(&boot);
    assert_eq!(free_kib(&a), 0x400000 / 1024);
    alloc_page(&mut a).unwrap();
    assert_eq!(free_kib(&a), (0x400000 - 4096) / 1024);
}

#[test]
fn alignment_helpers_round_as_documented() {
    assert_eq!(align_up(0, 4096), 0);
    assert_eq!(align_up(1, 4096), 4096);
    assert_eq!(align_up(4096, 4096), 4096);
    assert_eq!(align_down(4095, 4096), 0);
    assert_eq!(align_down(8191, 4096), 4096);
}

#[test]
fn region_kinds_decode_from_the_type_field() {
    let e = usable(0, 0x1000);
    assert!(e.is_usable());
    assert_eq!(e.kind(), MemoryRegionKind::Usable);
    assert_eq!(e.kind().as_str(), "Usable");
    let r = MemoryMapEntry { base_addr: 0, length: 0, region_type: 5, attributes: 0 };
    assert_eq!(r.kind(), MemoryRegionKind::BadMemory);
    let u = MemoryMapEntry { base_addr: 0, length: 0, region_type: 9, attributes: 0 };
    assert_eq!(u.kind(), MemoryRegionKind::Unknown(9));
    assert_eq!(u.kind().as_str(), "Unknown");
    assert!(!u.is_usable());
}

#[test]
fn memory_map_iterator_walks_every_entry() {
    let entries = vec![usable(0, 1), usable(2, 3)];
    let boot = BootInfo::new(entries, Vec::new());
    let mut it = boot.memory_map();
    assert_eq!(it.next().map(|e| e.base_addr), Some(0));
    assert_eq!(it.next().map(|e| e.base_addr), Some(2));
    assert!(it.next().is_none());
}
