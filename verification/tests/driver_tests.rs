use creddef_bench::driver::{run_benchmark_with_bits, BenchmarkDriver};
use creddef_bench::generator::{CredentialMaterialGenerator, TimingBreakdown};
use openssl::bn::BigNumContext;

#[test]
fn state_machine_snapshots_cumulative_statistics() {
    let mut driver = BenchmarkDriver::new();
    driver.record_iteration(TimingBreakdown { total_ms: 10, primes_ms: 4, qrs_ms: 3 });
    driver.snapshot_step();
    driver.record_iteration(TimingBreakdown { total_ms: 20, primes_ms: 10, qrs_ms: 5 });
    driver.snapshot_step();
    let report = driver.into_report(1);
    assert_eq!(report.all.len(), 2);
    assert_eq!(report.primes.len(), 2);
    assert_eq!(report.qrs.len(), 2);
    // first snapshot: one sample per phase
    assert_eq!(report.all[0].mean_micros, 10_000_000);
    assert_eq!(report.all[0].stddev_micros, 0);
    assert_eq!(report.primes[0].mean_micros, 4_000_000);
    assert_eq!(report.qrs[0].mean_micros, 3_000_000);
    // second snapshot reflects both iterations: the accumulators are
    // cumulative, never reset between sweep steps
    assert_eq!(report.all[1].mean_micros, 15_000_000);
    assert_eq!(report.all[1].stddev_micros, 5_000_000);
    assert_eq!(report.primes[1].mean_micros, 7_000_000);
    assert_eq!(report.primes[1].stddev_micros, 3_000_000);
    assert_eq!(report.qrs[1].mean_micros, 4_000_000);
    assert_eq!(report.qrs[1].stddev_micros, 1_000_000);
}

#[test]
fn single_step_single_iteration_run() {
    let report = run_benchmark_with_bits(1, 1, 64).unwrap();
    assert_eq!(report.iterations, 1);
    assert_eq!(report.all.len(), 1);
    assert_eq!(report.primes.len(), 1);
    assert_eq!(report.qrs.len(), 1);
    // only one sample was ever taken per phase, so each deviation is zero
    assert_eq!(report.all[0].stddev_micros, 0);
    assert_eq!(report.primes[0].stddev_micros, 0);
    assert_eq!(report.qrs[0].stddev_micros, 0);
    assert!(report.primes[0].mean_micros <= report.all[0].mean_micros);
    assert!(report.qrs[0].mean_micros <= report.all[0].mean_micros);
}

#[test]
fn three_step_five_iteration_run() {
    let report = run_benchmark_with_bits(3, 5, 32).unwrap();
    assert_eq!(report.iterations, 5);
    assert_eq!(report.all.len(), 3);
    assert_eq!(report.primes.len(), 3);
    assert_eq!(report.qrs.len(), 3);
    for k in 0..3 {
        assert!(report.qrs[k].mean_micros <= report.all[k].mean_micros);
        assert!(report.primes[k].mean_micros <= report.all[k].mean_micros);
    }
}

#[test]
fn generation_phases_nest_inside_the_total() {
    let mut ctx = BigNumContext::new_secure().unwrap();
    let t = CredentialMaterialGenerator::generate_with_bits(2, 32, &mut ctx).unwrap();
    assert!(t.primes_ms + t.qrs_ms <= t.total_ms);
}
