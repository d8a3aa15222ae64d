use s3z::config::TransferConfig;
use s3z::transfer::scheduler::{compute_part_size, plan_parts};

fn config(part_size: u64) -> TransferConfig {
    TransferConfig::new(0, part_size)
}

#[test]
fn exact_division() {
    let parts = plan_parts(100, &config(50));
    assert_eq!(parts.len(), 2);
    assert_eq!(parts[0].number, 1);
    assert_eq!(parts[0].offset, 0);
    assert_eq!(parts[0].size, 50);
    assert_eq!(parts[1].number, 2);
    assert_eq!(parts[1].offset, 50);
    assert_eq!(parts[1].size, 50);
}

#[test]
fn remainder_part() {
    let parts = plan_parts(110, &config(50));
    assert_eq!(parts.len(), 3);
    assert_eq!(parts[0].offset, 0);
    assert_eq!(parts[1].offset, 50);
    assert_eq!(parts[2].offset, 100);
    assert_eq!(parts[2].size, 10);
}

#[test]
fn single_part() {
    let parts = plan_parts(30, &config(50));
    assert_eq!(parts.len(), 1);
    assert_eq!(parts[0].offset, 0);
    assert_eq!(parts[0].size, 30);
}

#[test]
fn zero_file_size() {
    let parts = plan_parts(0, &config(50));
    assert!(parts.is_empty());
}

#[test]
fn exactly_10000_parts_succeeds() {
    let parts = plan_parts(10_000 * 50, &config(50));
    assert_eq!(parts.len(), 10_000);
}

const MB: u64 = 1024 * 1024;

#[test]
fn small_file_hits_min_part_size() {
    // 60MB / (4*2) = 7.5MB < 8MB floor -> clamped to 8MB
    let ps = compute_part_size(60 * MB, 4);
    assert_eq!(ps, 8 * MB);
}

#[test]
fn medium_file_scales_with_concurrency() {
    // 256MB / (4*2) = 32MB, within bounds
    let ps = compute_part_size(256 * MB, 4);
    assert_eq!(ps, 32 * MB);
}

#[test]
fn large_file_hits_max_part_size() {
    // 10GB / (4*2) = 1.25GB > 256MB cap -> clamped to 256MB
    let ps = compute_part_size(10 * 1024 * MB, 4);
    assert_eq!(ps, 256 * MB);
}

#[test]
fn high_concurrency_produces_more_parts() {
    // 10GB / (32*2) = 160MB
    let ps = compute_part_size(10 * 1024 * MB, 32);
    assert_eq!(ps, 160 * MB);
}

#[test]
fn huge_file_respects_10k_limit() {
    let fifty_tb = 50 * 1024 * 1024 * MB;
    let ps = compute_part_size(fifty_tb, 4);
    assert_eq!(ps, 256 * MB);
}

#[test]
fn zero_concurrency_does_not_panic() {
    let ps = compute_part_size(256 * MB, 0);
    // target_parts = max(0*2, 1) = 1 -> 256MB, capped to 256MB
    assert_eq!(ps, 256 * MB);
}

#[test]
fn planned_parts_are_contiguous_and_cover_the_file() {
    let parts = plan_parts(1_000_003, &config(7_919));
    let total: u64 = parts.iter().map(|p| p.size).sum();
    assert_eq!(total, 1_000_003);
    assert_eq!(parts[0].offset, 0);
    for w in parts.windows(2) {
        assert_eq!(w[0].offset + w[0].size, w[1].offset);
        assert_eq!(w[0].number + 1, w[1].number);
    }
    assert_eq!(parts.len() as u64, 1_000_003_u64.div_ceil(7_919));
}

#[test]
fn computed_part_size_fits_the_part_limit() {
    // 2 TiB at high concurrency: the 10,000-part floor decides (~210 MiB).
    let size = 2 * 1024 * 1024 * MB;
    let ps = compute_part_size(size, 1_000_000);
    assert_eq!(ps, size.div_ceil(10_000));
    assert!(size.div_ceil(ps) <= 10_000);
    let parts = plan_parts(size, &config(ps));
    assert!(parts.len() <= 10_000);
}
