use udisk_inspector::badblock::BadBlockScan;
use udisk_inspector::block::generate_test_block;
use udisk_inspector::capacity::{CapacityScan, BLOCK_SIZE};
use udisk_inspector::plan::{TestKind, TestSelection, TestTally};

const MB: u64 = BLOCK_SIZE as u64;

#[test]
fn capacity_scan_needs_a_block() {
    match CapacityScan::new(MB - 1, 100 * MB) {
        Err(m) => assert_eq!(m, "No free space available for testing"),
        Ok(_) => panic!("expected an error"),
    }
    match CapacityScan::new(100 * MB, MB - 1) {
        Err(m) => assert_eq!(m, "No free space available for testing"),
        Ok(_) => panic!("expected an error"),
    }
}

#[test]
fn capacity_scan_block_count_is_the_smaller_limit() {
    let s = CapacityScan::new(10 * MB + 5, 4 * MB + 100).ok().unwrap();
    assert_eq!(s.total_blocks(), 4);
    let s = CapacityScan::new(3 * MB, 40 * MB).ok().unwrap();
    assert_eq!(s.total_blocks(), 3);
}

#[test]
fn honest_drive_keeps_its_capacity() {
    let mut s = CapacityScan::new(100 * MB, 4 * MB).ok().unwrap();
    while !s.is_complete() {
        let i = s.next_block();
        s.verify_next(&generate_test_block(i, 64));
    }
    let r = s.finish();
    assert_eq!(r.claimed_bytes, 4 * MB);
    assert_eq!(r.total_blocks, 4);
    assert_eq!(r.good_blocks, 4);
    assert_eq!(r.real_bytes, 4 * MB);
    assert!(r.bad_blocks.is_empty());
    assert!(r.remapped_blocks.is_empty());
}

#[test]
fn fake_drive_wrapping_addresses_is_caught() {
    // a drive that only stores 2 blocks and maps block i to block i % 2
    let mut s = CapacityScan::new(100 * MB, 5 * MB).ok().unwrap();
    while !s.is_complete() {
        let i = s.next_block();
        s.verify_next(&generate_test_block(i % 2, 64));
    }
    let r = s.finish();
    assert_eq!(r.good_blocks, 2);
    assert_eq!(r.real_bytes, 2 * MB);
    assert_eq!(r.bad_blocks, vec![2, 3, 4]);
    assert_eq!(r.remapped_blocks, vec![(2, 0), (3, 1), (4, 0)]);
}

#[test]
fn corrupted_and_unreadable_blocks_are_bad_but_not_remapped() {
    let mut s = CapacityScan::new(3 * MB, 3 * MB).ok().unwrap();
    let mut b0 = generate_test_block(0, 64);
    b0[40] ^= 0xff;
    s.verify_next(&b0);
    s.verify_next(&[1, 2, 3]);
    s.verify_next(&generate_test_block(2, 64));
    let r = s.finish();
    assert_eq!(r.good_blocks, 1);
    assert_eq!(r.real_bytes, MB);
    assert_eq!(r.bad_blocks, vec![0, 1]);
    assert!(r.remapped_blocks.is_empty());
}

#[test]
fn badblock_scan_needs_a_block() {
    match BadBlockScan::new(MB - 1) {
        Err(m) => assert_eq!(m, "No free space for bad block test"),
        Ok(_) => panic!("expected an error"),
    }
    assert_eq!(BadBlockScan::new(3 * MB + 1).ok().unwrap().total_blocks(), 3);
}

#[test]
fn badblock_scan_lists_each_bad_block_once() {
    let mut s = BadBlockScan::new(4 * MB).ok().unwrap();
    s.record_write_failure(1);
    s.record_read(0, &generate_test_block(0, 64));
    s.record_read(1, &generate_test_block(1, 64));
    s.record_read(2, &generate_test_block(0, 64));
    s.record_read_failure(3);
    s.record_read_failure(3);
    let r = s.finish();
    assert_eq!(r.total_blocks, 4);
    assert_eq!(r.bad_blocks, vec![1, 2, 3]);
    assert_eq!(r.tested_blocks, 3);
}

#[test]
fn all_selects_every_test() {
    let s = TestSelection::from_flags(false, false, false, None, true);
    assert!(s.capacity && s.speed && s.badblock);
    assert_eq!(s.thermal, Some(120));
    assert!(s.check().is_ok());
    let s = TestSelection::from_flags(false, true, false, Some(30), false);
    assert!(!s.capacity && s.speed && !s.badblock);
    assert_eq!(s.thermal, Some(30));
}

#[test]
fn no_test_selected_is_refused() {
    let s = TestSelection::from_flags(false, false, false, None, false);
    assert_eq!(
        s.check(),
        Err("No test selected. Use --capacity, --speed, --badblock, --thermal SECS, or --all".to_string())
    );
    assert!(TestSelection::from_flags(false, false, false, Some(0), false).check().is_ok());
}

#[test]
fn tally_prefers_capacity_block_count() {
    let mut cap = CapacityScan::new(2 * MB, 2 * MB).ok().unwrap();
    cap.verify_next(&generate_test_block(0, 64));
    cap.verify_next(&generate_test_block(0, 64));
    let cap = cap.finish();
    let mut bb = BadBlockScan::new(5 * MB).ok().unwrap();
    bb.record_write_failure(4);
    let bb = bb.finish();

    let mut t = TestTally::new();
    t.record_capacity(&cap);
    t.record_badblock(&bb);
    assert_eq!(t.real_capacity, Some(MB));
    assert_eq!(t.total_blocks, Some(2));
    assert_eq!(t.bad_block_count, Some(1));
    assert_eq!(t.bad_block_positions, vec![1, 4]);

    let mut t = TestTally::new();
    t.record_badblock(&bb);
    assert_eq!(t.total_blocks, Some(5));
    assert_eq!(t.real_capacity, None);
}

#[test]
fn next_test_follows_run_order() {
    let all = TestSelection::from_flags(false, false, false, None, true);
    assert_eq!(all.next_test(0, false), Some(TestKind::Capacity));
    assert_eq!(all.next_test(1, false), Some(TestKind::Speed));
    assert_eq!(all.next_test(2, false), Some(TestKind::BadBlock));
    assert_eq!(all.next_test(3, false), Some(TestKind::Thermal { secs: 120 }));
    assert_eq!(all.next_test(4, false), None);
    assert_eq!(TestKind::Thermal { secs: 5 }.stage(), 3);

    let some = TestSelection::from_flags(false, true, false, Some(30), false);
    assert_eq!(some.next_test(0, false), Some(TestKind::Speed));
    assert_eq!(some.next_test(2, false), Some(TestKind::Thermal { secs: 30 }));
    assert_eq!(some.next_test(0, true), None);

    let capacity_only = TestSelection::from_flags(true, false, false, None, false);
    assert_eq!(capacity_only.next_test(0, true), Some(TestKind::Capacity));
    assert_eq!(capacity_only.next_test(1, false), None);
}
