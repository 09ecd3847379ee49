//! Tests for the allocator: size classes, first-fit allocation,
//! deallocation with exact restoration, and the error paths.

use expi::globals::GlobalResources;
use expi::mm::{alloc_size, free_memory_size, free_ranges, init, Error, GlobalAllocator};
use expi::range::Error as RangeError;

#[test]
fn test_alloc_size_ladder() {
    assert_eq!(alloc_size(1, 1), 32);
    assert_eq!(alloc_size(32, 1), 32);
    assert_eq!(alloc_size(33, 1), 64);
    assert_eq!(alloc_size(64, 1), 64);
    assert_eq!(alloc_size(65, 1), 128);
    assert_eq!(alloc_size(200, 1), 256);
    assert_eq!(alloc_size(500, 1), 512);
    assert_eq!(alloc_size(513, 1), 513);
    // Padding to the alignment comes before the ladder.
    assert_eq!(alloc_size(42, 0x4000), 0x4000);
    assert_eq!(alloc_size(30, 16), 32);
}

#[test]
fn test_init_and_free_memory_size() {
    let mut globals = GlobalResources::new();
    assert!(matches!(
        free_memory_size(&mut globals),
        Err(Error::Uninitialized)
    ));

    let usable = vec![(0u64, 0x1_0000_0000u64)];
    let reserved = vec![(0u64, 0x1000u64)];
    init(&mut globals, &usable, &reserved).unwrap();
    assert_eq!(free_memory_size(&mut globals).unwrap(), 0x1_0000_0000 - 0x1000);

    // A second initialization is a no-op.
    let other = vec![(0u64, 0x100u64)];
    init(&mut globals, &other, &reserved).unwrap();
    assert_eq!(free_memory_size(&mut globals).unwrap(), 0x1_0000_0000 - 0x1000);
}

#[test]
fn test_alloc_aligned_within_range() {
    let mut globals = GlobalResources::new();
    let usable = vec![(0u64, 0x1_0000_0000u64)];
    let reserved: Vec<(u64, u64)> = Vec::new();
    init(&mut globals, &usable, &reserved).unwrap();

    let allocator = GlobalAllocator;
    let addr = allocator.try_alloc(&mut globals, 42, 0x4000).unwrap();
    assert_eq!(addr % 0x4000, 0);
    assert!(addr <= 0xFFFF_FFFF);
}

#[test]
fn test_allocator_roundtrip() {
    let mut globals = GlobalResources::new();
    let usable = vec![(0x1000u64, 0xFFFF_F000u64)];
    let reserved: Vec<(u64, u64)> = Vec::new();
    init(&mut globals, &usable, &reserved).unwrap();

    let before = free_memory_size(&mut globals).unwrap();

    let allocator = GlobalAllocator;
    let addr = allocator.try_alloc(&mut globals, 42, 0x4000).unwrap();
    assert_eq!(addr, 0x4000);
    assert_eq!(addr % 0x4000, 0);

    // Deallocating with the identical request restores the free ranges to
    // exactly one range again, with the original size.
    allocator.try_dealloc(&mut globals, addr, 42, 0x4000).unwrap();
    assert_eq!(free_memory_size(&mut globals).unwrap(), before);
    assert_eq!(free_ranges(&mut globals).unwrap(), vec![(0x1000, 0xFFFF_FFFF)]);
}

#[test]
fn test_free_ranges_snapshot() {
    let mut globals = GlobalResources::new();
    assert!(matches!(free_ranges(&mut globals), Err(Error::Uninitialized)));

    let usable = vec![(0u64, 0x100u64), (0x1000u64, 0x100u64)];
    let reserved: Vec<(u64, u64)> = Vec::new();
    init(&mut globals, &usable, &reserved).unwrap();
    assert_eq!(
        free_ranges(&mut globals).unwrap(),
        vec![(0, 0xff), (0x1000, 0x10ff)]
    );
}

#[test]
fn test_concurrent_requests_disjoint_and_conserving() {
    let mut globals = GlobalResources::new();
    let usable = vec![(0x1000u64, 0x10000u64)];
    let reserved: Vec<(u64, u64)> = Vec::new();
    init(&mut globals, &usable, &reserved).unwrap();

    let total = free_memory_size(&mut globals).unwrap();
    assert_eq!(total, 0x10000);

    // Simulate four racing cores allocating blocks of different sizes: the
    // lock serializes them, and the blocks they get never overlap.
    let allocator = GlobalAllocator;
    let sizes: [usize; 4] = [32, 64, 128, 256];
    let mut blocks: Vec<(u64, u64)> = Vec::new();
    for &size in sizes.iter() {
        let addr = allocator.try_alloc(&mut globals, size, 1).unwrap();
        blocks.push((addr, size as u64));
    }

    for (i, &(a1, s1)) in blocks.iter().enumerate() {
        for &(a2, s2) in blocks.iter().skip(i + 1) {
            assert!(a1 + s1 - 1 < a2 || a2 + s2 - 1 < a1);
        }
    }

    // The allocated sizes plus the remaining free memory add up to the
    // original total.
    let free_now = free_memory_size(&mut globals).unwrap();
    let allocated: u64 = blocks.iter().map(|&(_, s)| s).sum();
    assert_eq!(free_now + allocated, total);

    // Handing everything back restores the original free memory.
    for &(addr, s) in blocks.iter() {
        allocator
            .try_dealloc(&mut globals, addr, s as usize, 1)
            .unwrap();
    }
    assert_eq!(free_memory_size(&mut globals).unwrap(), total);
}

#[test]
fn test_alloc_zero_size() {
    let mut globals = GlobalResources::new();
    let allocator = GlobalAllocator;
    assert_eq!(allocator.try_alloc(&mut globals, 0, 8).unwrap(), 0);
}

#[test]
fn test_alloc_errors() {
    let mut globals = GlobalResources::new();
    let allocator = GlobalAllocator;

    assert!(matches!(
        allocator.try_alloc(&mut globals, 16, 3),
        Err(Error::InvalidAlign)
    ));
    assert!(matches!(
        allocator.try_alloc(&mut globals, 16, 8),
        Err(Error::Uninitialized)
    ));

    let usable = vec![(0x1000u64, 0x1000u64)];
    let reserved: Vec<(u64, u64)> = Vec::new();
    init(&mut globals, &usable, &reserved).unwrap();

    assert!(matches!(
        allocator.try_alloc(&mut globals, 0x2000, 1),
        Err(Error::NotSatisfiable)
    ));
}

#[test]
fn test_alloc_integer_overflow() {
    let mut globals = GlobalResources::new();
    let usable = vec![(u64::MAX - 100, 101u64)];
    let reserved: Vec<(u64, u64)> = Vec::new();
    init(&mut globals, &usable, &reserved).unwrap();

    let allocator = GlobalAllocator;
    assert!(matches!(
        allocator.try_alloc(&mut globals, 200, 1),
        Err(Error::IntegerOverflow)
    ));
}

#[test]
fn test_dealloc_errors() {
    let mut globals = GlobalResources::new();
    let allocator = GlobalAllocator;

    assert!(matches!(
        allocator.try_dealloc(&mut globals, 0, 16, 8),
        Err(Error::NullPtr)
    ));
    assert!(matches!(
        allocator.try_dealloc(&mut globals, 0x1000, 0, 8),
        Err(Error::ZeroSize)
    ));
    assert!(matches!(
        allocator.try_dealloc(&mut globals, 0x1000, 16, 6),
        Err(Error::InvalidAlign)
    ));
    assert!(matches!(
        allocator.try_dealloc(&mut globals, 0x1000, 16, 8),
        Err(Error::Uninitialized)
    ));
}

#[test]
fn test_init_too_many_regions() {
    let mut globals = GlobalResources::new();
    let mut usable: Vec<(u64, u64)> = Vec::new();
    for i in 0..257u64 {
        usable.push((4096 * i, 1));
    }
    let reserved: Vec<(u64, u64)> = Vec::new();
    match init(&mut globals, &usable, &reserved) {
        Err(Error::RangeError(RangeError::FullRangeSet)) => {}
        ret => panic!("unexpected result: {:?}", ret),
    }
    // A failed initialization leaves the allocator uninitialized.
    assert!(matches!(
        free_memory_size(&mut globals),
        Err(Error::Uninitialized)
    ));
}
