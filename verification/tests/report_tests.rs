use creddef_bench::driver::PhasePoint;
use creddef_bench::report::ReportFormatter;

#[test]
fn renders_one_row_with_six_fraction_digits() {
    let series = vec![PhasePoint { mean_micros: 2_500_000, stddev_micros: 0 }];
    let rows = ReportFormatter::render_rows(&series);
    assert_eq!(rows, b"1\t\t2.500000\t0.000000\n".to_vec());
}

#[test]
fn renders_ascending_attribute_counts_and_pads_fractions() {
    let series = vec![
        PhasePoint { mean_micros: 123, stddev_micros: 10_500_000 },
        PhasePoint { mean_micros: 1_000_000, stddev_micros: 333_333 },
    ];
    let rows = ReportFormatter::render_rows(&series);
    let expected = b"1\t\t0.000123\t10.500000\n2\t\t1.000000\t0.333333\n".to_vec();
    assert_eq!(rows, expected);
}

#[test]
fn renders_nothing_for_an_empty_series() {
    let series: Vec<PhasePoint> = Vec::new();
    let rows = ReportFormatter::render_rows(&series);
    assert!(rows.is_empty());
}

#[test]
fn renders_large_values_without_truncation() {
    // the largest duration the statistics accept, as a mean: 16777216 ms
    let series = vec![PhasePoint { mean_micros: 16_777_216_000_000, stddev_micros: 1 }];
    let rows = ReportFormatter::render_rows(&series);
    assert_eq!(rows, b"1\t\t16777216.000000\t0.000001\n".to_vec());
}
