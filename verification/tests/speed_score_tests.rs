use udisk_inspector::drive::{capacity_unit, CapacityUnit};
use udisk_inspector::prng::PseudoRandom;
use udisk_inspector::score::{
    assemble_score, badblock_score, grade_for_total, grade_text, score_class, speed_drop_points,
    stability_score, Grade,
};
use udisk_inspector::speed::{merge_samples, plan_speed_test, random_io_offsets};

#[test]
fn default_speed_test_has_32_chunks() {
    let p = plan_speed_test(1024);
    assert_eq!(p.total_bytes, 1024 * 1024 * 1024);
    assert_eq!(p.num_chunks, 32);
    assert_eq!(p.chunk_len(0), 32 * 1024 * 1024);
    assert_eq!(p.chunk_len(31), 32 * 1024 * 1024);
    assert_eq!(p.chunk_offset_mb(31), 992);
}

#[test]
fn partial_last_chunk() {
    let p = plan_speed_test(100);
    assert_eq!(p.num_chunks, 4);
    assert_eq!(p.chunk_len(0), 32 * 1024 * 1024);
    assert_eq!(p.chunk_len(3), 4 * 1024 * 1024);
    assert_eq!(p.chunk_offset_mb(3), 96);
    let total: u64 = (0..p.num_chunks).map(|i| p.chunk_len(i)).sum();
    assert_eq!(total, p.total_bytes);
}

#[test]
fn small_and_empty_speed_tests() {
    let p = plan_speed_test(1);
    assert_eq!(p.num_chunks, 1);
    assert_eq!(p.chunk_len(0), 1024 * 1024);
    let p = plan_speed_test(0);
    assert_eq!(p.total_bytes, 0);
    assert_eq!(p.num_chunks, 0);
}

#[test]
fn random_offsets_follow_seed_42() {
    let total = 1024u64 * 1024 * 1024;
    let offs = random_io_offsets(total);
    assert_eq!(offs.len(), 1000);
    let mut rng = PseudoRandom::new(42);
    let max_offset = total - 4096;
    for &o in &offs {
        let expected = (rng.next() % max_offset) / 4096 * 4096;
        assert_eq!(o, expected);
        assert_eq!(o % 4096, 0);
        assert!(o + 4096 <= total);
    }
}

#[test]
fn random_offsets_in_tiny_file_are_zero() {
    assert!(random_io_offsets(4096).iter().all(|&o| o == 0));
    assert!(random_io_offsets(0).iter().all(|&o| o == 0));
}

#[test]
fn merge_pads_the_shorter_series() {
    let w = vec![(0u64, 10.5f64), (32, 11.0)];
    let r = vec![(0u64, 50.0f64), (32, 51.0), (64, 52.0)];
    let m = merge_samples(&w, &r, 0.0);
    assert_eq!(m, vec![(0, 10.5, 50.0), (32, 11.0, 51.0), (64, 0.0, 52.0)]);
    let m = merge_samples(&r, &w, 0.0);
    assert_eq!(m, vec![(0, 50.0, 10.5), (32, 51.0, 11.0), (64, 52.0, 0.0)]);
    let e: Vec<(u64, f64)> = vec![];
    assert!(merge_samples(&e, &e, 0.0).is_empty());
}

#[test]
fn grade_boundaries() {
    assert_eq!(grade_for_total(100), Grade::Excellent);
    assert_eq!(grade_for_total(90), Grade::Excellent);
    assert_eq!(grade_for_total(89), Grade::Good);
    assert_eq!(grade_for_total(70), Grade::Good);
    assert_eq!(grade_for_total(69), Grade::Fair);
    assert_eq!(grade_for_total(50), Grade::Fair);
    assert_eq!(grade_for_total(49), Grade::Poor);
    assert_eq!(grade_for_total(0), Grade::Poor);
    assert_eq!(grade_for_total(101), Grade::Poor);
}

#[test]
fn drop_points() {
    assert_eq!(speed_drop_points(0), 5);
    assert_eq!(speed_drop_points(1), 3);
    assert_eq!(speed_drop_points(2), 3);
    assert_eq!(speed_drop_points(3), 0);
}

#[test]
fn stability_part() {
    assert_eq!(stability_score(Some((9, 13)), Some(0)), 14);
    assert_eq!(stability_score(Some((10, 15)), Some(0)), 15);
    assert_eq!(stability_score(Some((8, 12)), Some(5)), 8);
    assert_eq!(stability_score(Some((8, 12)), None), 12);
    assert_eq!(stability_score(Some((20, 30)), None), 15);
    assert_eq!(stability_score(None, Some(0)), 0);
}

#[test]
fn badblock_part() {
    assert_eq!(badblock_score(Some(0), Some(1000), 3), 25);
    assert_eq!(badblock_score(Some(5), Some(1000), 12), 12);
    assert_eq!(badblock_score(Some(0), None, 0), 25);
    assert_eq!(badblock_score(Some(0), Some(0), 0), 25);
    assert_eq!(badblock_score(Some(3), Some(0), 7), 0);
    assert_eq!(badblock_score(None, Some(10), 7), 0);
}

#[test]
fn score_is_the_sum_of_its_parts() {
    let q = assemble_score(35, 12, 13, 15, 25);
    assert_eq!(q.total, 100);
    assert_eq!(q.speed_score, 25);
    assert_eq!(q.grade, Grade::Excellent);
    let q = assemble_score(0, 3, 2, 14, 25);
    assert_eq!(q.total, 44);
    assert_eq!(q.grade, Grade::Poor);
}

#[test]
fn report_labels() {
    assert_eq!(score_class(95), "excellent");
    assert_eq!(score_class(70), "good");
    assert_eq!(score_class(55), "fair");
    assert_eq!(score_class(10), "poor");
    assert_eq!(grade_text(95), "优秀");
    assert_eq!(grade_text(75), "良好");
    assert_eq!(grade_text(50), "一般");
    assert_eq!(grade_text(49), "差");
}

#[test]
fn capacity_units() {
    assert_eq!(capacity_unit(2_000_000_000_000), CapacityUnit::TB);
    assert_eq!(capacity_unit(999_999_999_999), CapacityUnit::GB);
    assert_eq!(capacity_unit(64_000_000_000), CapacityUnit::GB);
    assert_eq!(capacity_unit(1_000_000), CapacityUnit::MB);
    assert_eq!(capacity_unit(999_999), CapacityUnit::KB);
    assert_eq!(capacity_unit(0), CapacityUnit::KB);
    assert_eq!(CapacityUnit::GB.divisor(), 1_000_000_000);
    assert_eq!(CapacityUnit::KB.symbol(), "KB");
}
