//! Tests for the range module: insertion with merging, removal with
//! splitting, and the capacity and end-of-space edge cases.

use expi::range::{Error, Range, RangeSet, RANGE_SET_SIZE};

#[test]
fn test_rangeset_insert_not_overlapped() {
    let mut rangeset = RangeSet::new();
    rangeset.insert(Range::new(20, 30).unwrap()).unwrap();
    rangeset.insert(Range::new(0, 10).unwrap()).unwrap();
    rangeset.insert(Range::new(15, 15).unwrap()).unwrap();
    let want = [
        Range::new(0, 10).unwrap(),
        Range::new(15, 15).unwrap(),
        Range::new(20, 30).unwrap(),
    ];
    assert_eq!(rangeset.ranges(), want);
}

#[test]
fn test_rangeset_insert_contiguous() {
    let mut rangeset = RangeSet::new();
    rangeset.insert(Range::new(11, 20).unwrap()).unwrap();
    rangeset.insert(Range::new(0, 10).unwrap()).unwrap();
    let want = [Range::new(0, 20).unwrap()];
    assert_eq!(rangeset.ranges(), want);
}

#[test]
fn test_rangeset_insert_overlapped() {
    let mut rangeset = RangeSet::new();
    rangeset.insert(Range::new(5, 20).unwrap()).unwrap();
    rangeset.insert(Range::new(0, 10).unwrap()).unwrap();
    let want = [Range::new(0, 20).unwrap()];
    assert_eq!(rangeset.ranges(), want);
}

#[test]
fn test_rangeset_insert_overlapped_start() {
    let mut rangeset = RangeSet::new();
    rangeset.insert(Range::new(10, 20).unwrap()).unwrap();
    rangeset.insert(Range::new(0, 10).unwrap()).unwrap();
    let want = [Range::new(0, 20).unwrap()];
    assert_eq!(rangeset.ranges(), want);
}

#[test]
fn test_rangeset_insert_overlapped_end() {
    let mut rangeset = RangeSet::new();
    rangeset.insert(Range::new(10, 20).unwrap()).unwrap();
    rangeset.insert(Range::new(0, 20).unwrap()).unwrap();
    let want = [Range::new(0, 20).unwrap()];
    assert_eq!(rangeset.ranges(), want);
}

#[test]
fn test_rangeset_insert_contained() {
    let mut rangeset = RangeSet::new();
    rangeset.insert(Range::new(10, 30).unwrap()).unwrap();
    rangeset.insert(Range::new(0, 40).unwrap()).unwrap();
    let want = [Range::new(0, 40).unwrap()];
    assert_eq!(rangeset.ranges(), want);
}

#[test]
fn test_rangeset_insert_contained_multiple() {
    let mut rangeset = RangeSet::new();
    rangeset.insert(Range::new(10, 20).unwrap()).unwrap();
    rangeset.insert(Range::new(25, 30).unwrap()).unwrap();
    rangeset.insert(Range::new(0, 40).unwrap()).unwrap();
    let want = [Range::new(0, 40).unwrap()];
    assert_eq!(rangeset.ranges(), want);
}

#[test]
fn test_rangeset_insert() {
    let mut rangeset = RangeSet::new();

    rangeset.insert(Range::new(61, 70).unwrap()).unwrap();
    rangeset.insert(Range::new(45, 55).unwrap()).unwrap();
    rangeset.insert(Range::new(40, 50).unwrap()).unwrap();
    rangeset.insert(Range::new(35, 60).unwrap()).unwrap();

    rangeset.insert(Range::new(0, 5).unwrap()).unwrap();
    rangeset.insert(Range::new(10, 20).unwrap()).unwrap();
    rangeset.insert(Range::new(5, 10).unwrap()).unwrap();
    rangeset.insert(Range::new(20, 21).unwrap()).unwrap();
    rangeset.insert(Range::new(21, 30).unwrap()).unwrap();

    let want = [Range::new(0, 30).unwrap(), Range::new(35, 70).unwrap()];

    assert_eq!(rangeset.ranges(), want);
}

#[test]
fn test_rangeset_insert_full() {
    let mut rangeset = RangeSet::new();

    for i in 0..RANGE_SET_SIZE {
        let point = 2 * (i as u64);
        rangeset.insert(Range::new(point, point).unwrap()).unwrap();
    }
}

#[test]
fn test_rangeset_insert_full_middle() {
    let mut rangeset = RangeSet::new();

    for i in 0..RANGE_SET_SIZE - 1 {
        let point = 10 * (i as u64);
        rangeset.insert(Range::new(point, point).unwrap()).unwrap();
    }

    rangeset.insert(Range::new(5, 5).unwrap()).unwrap();
}

#[test]
fn test_rangeset_insert_full_plus_one() {
    let mut rangeset = RangeSet::new();

    for i in 0..RANGE_SET_SIZE {
        let point = 2 * (i as u64);
        rangeset.insert(Range::new(point, point).unwrap()).unwrap();
    }

    match rangeset.insert(Range::new(1337, 1337).unwrap()) {
        Err(Error::FullRangeSet) => {}
        ret => panic!("unexpected result: {:?}", ret),
    }
}

#[test]
fn test_rangeset_insert_full_reuse() {
    let mut rangeset = RangeSet::new();

    for i in 0..RANGE_SET_SIZE {
        let point = 2 * (i as u64);
        rangeset.insert(Range::new(point, point).unwrap()).unwrap();
    }

    rangeset.insert(Range::new(0, 1337).unwrap()).unwrap()
}

#[test]
fn test_rangeset_remove_empty() {
    let mut rangeset = RangeSet::new();

    rangeset.remove(Range::new(20, 30).unwrap()).unwrap();

    assert_eq!(rangeset.ranges(), []);
}

#[test]
fn test_rangeset_remove_unmodified() {
    let mut rangeset = RangeSet::new();

    rangeset.insert(Range::new(20, 30).unwrap()).unwrap();
    rangeset.insert(Range::new(40, 50).unwrap()).unwrap();

    rangeset.remove(Range::new(0, 19).unwrap()).unwrap();
    rangeset.remove(Range::new(51, 70).unwrap()).unwrap();

    let want = [Range::new(20, 30).unwrap(), Range::new(40, 50).unwrap()];
    assert_eq!(rangeset.ranges(), want);
}

#[test]
fn test_rangeset_remove_one() {
    // Starting at the start point and finishing at the end point of the
    // removed range.
    let mut rangeset = RangeSet::new();
    rangeset.insert(Range::new(0, 10).unwrap()).unwrap();
    rangeset.insert(Range::new(20, 30).unwrap()).unwrap();
    rangeset.insert(Range::new(40, 50).unwrap()).unwrap();

    rangeset.remove(Range::new(20, 30).unwrap()).unwrap();

    let want = [Range::new(0, 10).unwrap(), Range::new(40, 50).unwrap()];
    assert_eq!(rangeset.ranges(), want);

    // Starting before the start point and finishing after the end point of
    // the removed range.
    let mut rangeset = RangeSet::new();
    rangeset.insert(Range::new(0, 10).unwrap()).unwrap();
    rangeset.insert(Range::new(20, 30).unwrap()).unwrap();
    rangeset.insert(Range::new(40, 50).unwrap()).unwrap();

    rangeset.remove(Range::new(18, 32).unwrap()).unwrap();

    let want = [Range::new(0, 10).unwrap(), Range::new(40, 50).unwrap()];
    assert_eq!(rangeset.ranges(), want);
}

#[test]
fn test_rangeset_remove_split() {
    let mut rangeset = RangeSet::new();
    rangeset.insert(Range::new(0, 20).unwrap()).unwrap();

    rangeset.remove(Range::new(6, 14).unwrap()).unwrap();

    let want = [Range::new(0, 5).unwrap(), Range::new(15, 20).unwrap()];
    assert_eq!(rangeset.ranges(), want);
}

#[test]
fn test_rangeset_remove_split_left() {
    // Starting at the start and finishing at the middle of the modified
    // range.
    let mut rangeset = RangeSet::new();
    rangeset.insert(Range::new(0, 20).unwrap()).unwrap();

    rangeset.remove(Range::new(0, 4).unwrap()).unwrap();

    let want = [Range::new(5, 20).unwrap()];
    assert_eq!(rangeset.ranges(), want);

    // Starting before the start and finishing at the middle of the modified
    // range.
    let mut rangeset = RangeSet::new();
    rangeset.insert(Range::new(10, 20).unwrap()).unwrap();

    rangeset.remove(Range::new(0, 10).unwrap()).unwrap();

    let want = [Range::new(11, 20).unwrap()];
    assert_eq!(rangeset.ranges(), want);
}

#[test]
fn test_rangeset_remove_split_right() {
    // Starting at the middle and finishing at the end of the modified range.
    let mut rangeset = RangeSet::new();
    rangeset.insert(Range::new(0, 20).unwrap()).unwrap();

    rangeset.remove(Range::new(16, 20).unwrap()).unwrap();

    let want = [Range::new(0, 15).unwrap()];
    assert_eq!(rangeset.ranges(), want);

    // Starting at the middle and finishing after the end of the modified
    // range.
    let mut rangeset = RangeSet::new();
    rangeset.insert(Range::new(0, 20).unwrap()).unwrap();

    rangeset.remove(Range::new(16, 25).unwrap()).unwrap();

    let want = [Range::new(0, 15).unwrap()];
    assert_eq!(rangeset.ranges(), want);
}

#[test]
fn test_rangeset_remove_overlapped_two() {
    let mut rangeset = RangeSet::new();
    rangeset.insert(Range::new(0, 10).unwrap()).unwrap();
    rangeset.insert(Range::new(20, 30).unwrap()).unwrap();

    rangeset.remove(Range::new(6, 24).unwrap()).unwrap();

    let want = [Range::new(0, 5).unwrap(), Range::new(25, 30).unwrap()];
    assert_eq!(rangeset.ranges(), want);
}

#[test]
fn test_rangeset_remove_overlapped_three() {
    let mut rangeset = RangeSet::new();
    rangeset.insert(Range::new(0, 10).unwrap()).unwrap();
    rangeset.insert(Range::new(20, 30).unwrap()).unwrap();
    rangeset.insert(Range::new(40, 50).unwrap()).unwrap();

    rangeset.remove(Range::new(6, 44).unwrap()).unwrap();

    let want = [Range::new(0, 5).unwrap(), Range::new(45, 50).unwrap()];
    assert_eq!(rangeset.ranges(), want);
}

#[test]
fn test_rangeset_remove_one_plus_overlap() {
    // Starting at the start point of the first range.
    let mut rangeset = RangeSet::new();
    rangeset.insert(Range::new(20, 30).unwrap()).unwrap();
    rangeset.insert(Range::new(40, 50).unwrap()).unwrap();

    rangeset.remove(Range::new(20, 44).unwrap()).unwrap();

    let want = [Range::new(45, 50).unwrap()];
    assert_eq!(rangeset.ranges(), want);

    // Starting before the start point of the first range.
    let mut rangeset = RangeSet::new();
    rangeset.insert(Range::new(20, 30).unwrap()).unwrap();
    rangeset.insert(Range::new(40, 50).unwrap()).unwrap();

    rangeset.remove(Range::new(18, 44).unwrap()).unwrap();

    let want = [Range::new(45, 50).unwrap()];
    assert_eq!(rangeset.ranges(), want);
}

#[test]
fn test_rangeset_remove_all() {
    // Starting at the start point of the first range and finishing at the
    // end point of the last range.
    let mut rangeset = RangeSet::new();
    rangeset.insert(Range::new(20, 30).unwrap()).unwrap();
    rangeset.insert(Range::new(40, 50).unwrap()).unwrap();

    rangeset.remove(Range::new(20, 50).unwrap()).unwrap();

    assert_eq!(rangeset.ranges(), []);

    // Starting before the start point of the first range and finishing
    // after the end point of the last range.
    let mut rangeset = RangeSet::new();
    rangeset.insert(Range::new(20, 30).unwrap()).unwrap();
    rangeset.insert(Range::new(40, 50).unwrap()).unwrap();

    rangeset.remove(Range::new(18, 52).unwrap()).unwrap();

    assert_eq!(rangeset.ranges(), []);
}

#[test]
fn test_rangeset_remove_full_split() {
    let mut rangeset = RangeSet::new();

    for i in 0..RANGE_SET_SIZE {
        let point = 10 * (i as u64);
        rangeset
            .insert(Range::new(point, point + 5).unwrap())
            .unwrap();
    }

    match rangeset.remove(Range::new(12, 13).unwrap()) {
        Err(Error::FullRangeSet) => {}
        ret => panic!("unexpected result: {:?}", ret),
    }
}

#[test]
fn test_rangeset_remove_full() {
    let mut rangeset = RangeSet::new();

    for i in 0..RANGE_SET_SIZE - 1 {
        let point = 10 * (i as u64);
        rangeset
            .insert(Range::new(point, point + 5).unwrap())
            .unwrap();
    }

    rangeset.remove(Range::new(12, 13).unwrap()).unwrap();
}

#[test]
fn test_rangeset_remove_edges() {
    // Remove right part of the range.
    let mut rangeset = RangeSet::new();
    rangeset.insert(Range::new(0, 10).unwrap()).unwrap();

    rangeset.remove(Range::new(1, 10).unwrap()).unwrap();

    let want = [Range::new(0, 0).unwrap()];
    assert_eq!(rangeset.ranges(), want);

    // Remove left part of the range.
    let mut rangeset = RangeSet::new();
    rangeset.insert(Range::new(0, 10).unwrap()).unwrap();

    rangeset.remove(Range::new(0, 9).unwrap()).unwrap();

    let want = [Range::new(10, 10).unwrap()];
    assert_eq!(rangeset.ranges(), want);

    // Remove central part of the range.
    let mut rangeset = RangeSet::new();
    rangeset.insert(Range::new(0, 10).unwrap()).unwrap();

    rangeset.remove(Range::new(1, 9).unwrap()).unwrap();

    let want = [Range::new(0, 0).unwrap(), Range::new(10, 10).unwrap()];
    assert_eq!(rangeset.ranges(), want);

    // Remove central part of multiple ranges.
    let mut rangeset = RangeSet::new();
    rangeset.insert(Range::new(0, 10).unwrap()).unwrap();
    rangeset.insert(Range::new(20, 30).unwrap()).unwrap();
    rangeset.insert(Range::new(40, 50).unwrap()).unwrap();

    rangeset.remove(Range::new(1, 49).unwrap()).unwrap();

    let want = [Range::new(0, 0).unwrap(), Range::new(50, 50).unwrap()];
    assert_eq!(rangeset.ranges(), want);
}

#[test]
fn test_rangeset_insert_not_overlapped_max() {
    let mut rangeset = RangeSet::new();
    rangeset.insert(Range::new(0, 10).unwrap()).unwrap();
    rangeset.insert(Range::new(15, u64::MAX).unwrap()).unwrap();
    let want = [
        Range::new(0, 10).unwrap(),
        Range::new(15, u64::MAX).unwrap(),
    ];
    assert_eq!(rangeset.ranges(), want);
}

#[test]
fn test_rangeset_insert_contiguous_max() {
    let mut rangeset = RangeSet::new();
    rangeset.insert(Range::new(11, u64::MAX).unwrap()).unwrap();
    rangeset.insert(Range::new(0, 10).unwrap()).unwrap();
    let want = [Range::new(0, u64::MAX).unwrap()];
    assert_eq!(rangeset.ranges(), want);
}

#[test]
fn test_rangeset_insert_overlapped_max() {
    let mut rangeset = RangeSet::new();
    rangeset.insert(Range::new(0, 10).unwrap()).unwrap();
    rangeset.insert(Range::new(5, u64::MAX).unwrap()).unwrap();
    let want = [Range::new(0, u64::MAX).unwrap()];
    assert_eq!(rangeset.ranges(), want);
}

#[test]
fn test_rangeset_insert_contained_multiple_max() {
    let mut rangeset = RangeSet::new();
    rangeset.insert(Range::new(10, 20).unwrap()).unwrap();
    rangeset.insert(Range::new(25, 30).unwrap()).unwrap();
    rangeset.insert(Range::new(0, u64::MAX).unwrap()).unwrap();
    let want = [Range::new(0, u64::MAX).unwrap()];
    assert_eq!(rangeset.ranges(), want);
}

#[test]
fn test_rangeset_insert_max() {
    // Insert two times the range [u64::MAX, u64::MAX].
    let mut rangeset = RangeSet::new();
    rangeset
        .insert(Range::new(u64::MAX, u64::MAX).unwrap())
        .unwrap();
    rangeset
        .insert(Range::new(u64::MAX, u64::MAX).unwrap())
        .unwrap();
    let want = [Range::new(u64::MAX, u64::MAX).unwrap()];
    assert_eq!(rangeset.ranges(), want);

    // Insert the range [u64::MAX, u64::MAX] overlapping with another range.
    let mut rangeset = RangeSet::new();
    rangeset
        .insert(Range::new(u64::MAX, u64::MAX).unwrap())
        .unwrap();
    rangeset.insert(Range::new(10, u64::MAX).unwrap()).unwrap();
    let want = [Range::new(10, u64::MAX).unwrap()];
    assert_eq!(rangeset.ranges(), want);

    // Insert the range [u64::MAX, u64::MAX] contiguous to another range.
    let mut rangeset = RangeSet::new();
    rangeset
        .insert(Range::new(u64::MAX, u64::MAX).unwrap())
        .unwrap();
    rangeset
        .insert(Range::new(10, u64::MAX - 1).unwrap())
        .unwrap();
    let want = [Range::new(10, u64::MAX).unwrap()];
    assert_eq!(rangeset.ranges(), want);

    // Insert the range [u64::MAX, u64::MAX] and a range [x, u64::MAX-2]
    // that do not overlap.
    let mut rangeset = RangeSet::new();
    rangeset
        .insert(Range::new(u64::MAX, u64::MAX).unwrap())
        .unwrap();
    rangeset
        .insert(Range::new(10, u64::MAX - 2).unwrap())
        .unwrap();
    let want = [
        Range::new(10, u64::MAX - 2).unwrap(),
        Range::new(u64::MAX, u64::MAX).unwrap(),
    ];
    assert_eq!(rangeset.ranges(), want);
}

#[test]
fn test_rangeset_remove_all_max() {
    let mut rangeset = RangeSet::new();

    rangeset.insert(Range::new(20, 30).unwrap()).unwrap();
    rangeset.insert(Range::new(40, 50).unwrap()).unwrap();

    rangeset.remove(Range::new(20, u64::MAX).unwrap()).unwrap();

    assert_eq!(rangeset.ranges(), []);
}

#[test]
fn test_rangeset_remove_split_max() {
    // Remove right side of range.
    let mut rangeset = RangeSet::new();
    rangeset.insert(Range::new(0, 20).unwrap()).unwrap();

    rangeset.remove(Range::new(16, u64::MAX).unwrap()).unwrap();

    let want = [Range::new(0, 15).unwrap()];
    assert_eq!(rangeset.ranges(), want);

    // Remove right side of range with both ranges ending in `u64::MAX`.
    let mut rangeset = RangeSet::new();
    rangeset.insert(Range::new(0, u64::MAX).unwrap()).unwrap();

    rangeset.remove(Range::new(16, u64::MAX).unwrap()).unwrap();

    let want = [Range::new(0, 15).unwrap()];
    assert_eq!(rangeset.ranges(), want);

    // Remove `u64::MAX` from range.
    let mut rangeset = RangeSet::new();
    rangeset.insert(Range::new(10, u64::MAX).unwrap()).unwrap();

    rangeset
        .remove(Range::new(u64::MAX, u64::MAX).unwrap())
        .unwrap();

    let want = [Range::new(10, u64::MAX - 1).unwrap()];
    assert_eq!(rangeset.ranges(), want);
}

#[test]
fn test_rangeset_remove_max() {
    let mut rangeset = RangeSet::new();
    rangeset
        .insert(Range::new(u64::MAX, u64::MAX).unwrap())
        .unwrap();

    rangeset
        .remove(Range::new(u64::MAX, u64::MAX).unwrap())
        .unwrap();

    assert_eq!(rangeset.ranges(), []);
}

#[test]
fn test_rangeset_start() {
    let mut rangeset = RangeSet::new();
    rangeset.insert(Range::new(25, 30).unwrap()).unwrap();
    rangeset.insert(Range::new(5, 10).unwrap()).unwrap();
    assert_eq!(rangeset.start(), Some(5));
}

#[test]
fn test_rangeset_end() {
    let mut rangeset = RangeSet::new();
    rangeset.insert(Range::new(25, 30).unwrap()).unwrap();
    rangeset.insert(Range::new(5, 10).unwrap()).unwrap();
    assert_eq!(rangeset.end(), Some(30));
}

#[test]
fn test_rangeset_start_end_empty() {
    let rangeset = RangeSet::new();
    assert_eq!(rangeset.start(), None);
    assert_eq!(rangeset.end(), None);
}

#[test]
fn test_range_new_size() {
    let range = Range::new(10, 19).unwrap();
    assert_eq!(range.start(), 10);
    assert_eq!(range.end(), 19);
    assert_eq!(range.size(), 10);

    match Range::new(20, 10) {
        Err(Error::InvalidBoundaries(20, 10)) => {}
        ret => panic!("unexpected result: {:?}", ret),
    }
}

#[test]
fn test_rangeset_new_empty() {
    let rangeset = RangeSet::new();
    assert_eq!(rangeset.size(), 0);
    assert!(rangeset.ranges().is_empty());
}

#[test]
fn test_rangeset_size() {
    let mut rangeset = RangeSet::new();
    rangeset.insert(Range::new(0, 9).unwrap()).unwrap();
    rangeset.insert(Range::new(20, 24).unwrap()).unwrap();
    assert_eq!(rangeset.size(), 15);
}

#[test]
fn test_range_queries() {
    let range = Range::new(10, 20).unwrap();
    assert!(range.contains_point(10));
    assert!(range.contains_point(20));
    assert!(!range.contains_point(9));
    assert!(!range.contains_point(21));
    assert!(range.contains_range(Range::new(12, 18).unwrap()));
    assert!(!range.contains_range(Range::new(12, 21).unwrap()));
    assert!(range.overlaps(Range::new(20, 30).unwrap()));
    assert!(range.overlaps(Range::new(0, 10).unwrap()));
    assert!(range.overlaps(Range::new(0, 40).unwrap()));
    assert!(!range.overlaps(Range::new(21, 30).unwrap()));
}

#[test]
fn test_rangeset_insert_full_unchanged() {
    let mut rangeset = RangeSet::new();

    for i in 0..RANGE_SET_SIZE {
        let point = 2 * (i as u64);
        rangeset.insert(Range::new(point, point).unwrap()).unwrap();
    }
    let before: Vec<Range> = rangeset.ranges().to_vec();

    assert!(rangeset.insert(Range::new(1337, 1337).unwrap()).is_err());

    assert_eq!(rangeset.ranges(), before.as_slice());
}
