use creddef_bench::stats::StatsAccumulator;

fn acc_of(values: &[u64]) -> StatsAccumulator {
    let mut acc = StatsAccumulator::new();
    let mut i = 0;
    while i < values.len() {
        acc.record(values[i]);
        i += 1;
    }
    acc
}

#[test]
fn empty_series_has_no_statistics() {
    let acc = StatsAccumulator::new();
    assert_eq!(acc.count(), 0);
    assert!(acc.mean_micros().is_none());
    assert!(acc.std_deviation_micros().is_none());
}

#[test]
fn mean_of_one_through_four() {
    let acc = acc_of(&[1, 2, 3, 4]);
    assert_eq!(acc.count(), 4);
    assert_eq!(acc.mean_micros(), Some(2_500_000));
}

#[test]
fn mean_rounds_down() {
    let acc = acc_of(&[1, 2]);
    assert_eq!(acc.mean_micros(), Some(1_500_000));
    let acc2 = acc_of(&[0, 0, 1]);
    assert_eq!(acc2.mean_micros(), Some(333_333));
}

#[test]
fn population_std_deviation_exact() {
    // mean 5, squared deviations sum 32, population variance 4, deviation 2
    let acc = acc_of(&[2, 4, 4, 4, 5, 5, 7, 9]);
    assert_eq!(acc.mean_micros(), Some(5_000_000));
    assert_eq!(acc.std_deviation_micros(), Some(2_000_000));
}

#[test]
fn population_not_sample_std_deviation() {
    // mean 1.5, population variance 0.25, deviation 0.5; the sample
    // (count minus one) convention would give about 0.707107 instead
    let acc = acc_of(&[1, 2]);
    assert_eq!(acc.std_deviation_micros(), Some(500_000));
}

#[test]
fn identical_values_have_zero_std_deviation() {
    let acc = acc_of(&[7, 7, 7, 7, 7]);
    assert_eq!(acc.mean_micros(), Some(7_000_000));
    assert_eq!(acc.std_deviation_micros(), Some(0));
}

#[test]
fn single_sample_has_zero_std_deviation() {
    let acc = acc_of(&[123]);
    assert_eq!(acc.mean_micros(), Some(123_000_000));
    assert_eq!(acc.std_deviation_micros(), Some(0));
}

#[test]
fn statistics_reflect_full_history() {
    let mut acc = acc_of(&[10]);
    assert_eq!(acc.mean_micros(), Some(10_000_000));
    acc.record(20);
    assert_eq!(acc.count(), 2);
    assert_eq!(acc.mean_micros(), Some(15_000_000));
    assert_eq!(acc.std_deviation_micros(), Some(5_000_000));
}
