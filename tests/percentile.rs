use outlier::order::{sort_by_total_order, total_order_key};
use outlier::percentile::{
    check_request, order_statistics, PercentileError, DEFAULT_PERCENTILE_BITS, HUNDRED_BITS,
    NEG_ZERO_BITS,
};

/// Linear-interpolation percentile: validation, ranking and selection by the
/// library, the arithmetic on doubles here.
fn calculate_percentile(values: &[f64], percentile: f64) -> Result<f64, PercentileError> {
    check_request(values.len(), percentile.to_bits())?;
    let bits: Vec<u64> = values.iter().map(|v| v.to_bits()).collect();
    let index = (percentile / 100.0) * (values.len() - 1) as f64;
    let lower = index.floor() as usize;
    let upper = index.ceil() as usize;
    let (lo, hi) = order_statistics(&bits, lower, upper);
    let (lo, hi) = (f64::from_bits(lo), f64::from_bits(hi));
    if lower == upper {
        Ok(lo)
    } else {
        let weight = index - lower as f64;
        Ok(lo * (1.0 - weight) + hi * weight)
    }
}

fn bits_of(values: &[f64]) -> Vec<u64> {
    values.iter().map(|v| v.to_bits()).collect()
}

#[test]
fn lib_test_calculate_percentile_simple() {
    let values = vec![1.0, 2.0, 3.0, 4.0, 5.0];
    let result = calculate_percentile(&values, 50.0).unwrap();
    assert_eq!(result, 3.0);
}

#[test]
fn lib_test_calculate_percentile_95th() {
    let values = vec![1.0, 2.0, 3.0, 4.0, 5.0, 6.0, 7.0, 8.0, 9.0, 10.0];
    let result = calculate_percentile(&values, 95.0).unwrap();
    assert!((result - 9.55).abs() < 0.01);
}

#[test]
fn lib_test_calculate_percentile_99th() {
    let values = vec![1.0, 2.0, 3.0, 4.0, 5.0, 6.0, 7.0, 8.0, 9.0, 10.0];
    let result = calculate_percentile(&values, 99.0).unwrap();
    assert!((result - 9.91).abs() < 0.01);
}

#[test]
fn lib_test_calculate_percentile_0th() {
    let values = vec![1.0, 2.0, 3.0, 4.0, 5.0];
    let result = calculate_percentile(&values, 0.0).unwrap();
    assert_eq!(result, 1.0);
}

#[test]
fn lib_test_calculate_percentile_100th() {
    let values = vec![1.0, 2.0, 3.0, 4.0, 5.0];
    let result = calculate_percentile(&values, 100.0).unwrap();
    assert_eq!(result, 5.0);
}

#[test]
fn lib_test_calculate_percentile_empty() {
    let values: Vec<f64> = vec![];
    let result = calculate_percentile(&values, 50.0);
    assert!(result.is_err());
}

#[test]
fn lib_test_calculate_percentile_single_value() {
    let values = vec![42.0];
    let result = calculate_percentile(&values, 50.0).unwrap();
    assert_eq!(result, 42.0);
}

#[test]
fn lib_test_calculate_percentile_unsorted_input() {
    let values = vec![5.0, 1.0, 3.0, 2.0, 4.0];
    let result = calculate_percentile(&values, 50.0).unwrap();
    assert_eq!(result, 3.0);
}

#[test]
fn lib_test_calculate_percentile_with_duplicates() {
    let values = vec![1.0, 2.0, 2.0, 3.0, 4.0];
    let result = calculate_percentile(&values, 50.0).unwrap();
    assert_eq!(result, 2.0);
}

#[test]
fn lib_test_calculate_percentile_large_dataset() {
    let values: Vec<f64> = (1..=1000).map(|x| x as f64).collect();
    let result = calculate_percentile(&values, 95.0).unwrap();
    assert!((result - 950.05).abs() < 0.01);
}

#[test]
fn lib_test_percentile_out_of_range() {
    let values = vec![1.0, 2.0, 3.0];
    assert!(calculate_percentile(&values, -1.0).is_err());
    assert!(calculate_percentile(&values, 101.0).is_err());
}

#[test]
fn empty_dataset_is_refused_for_every_percentile() {
    for p in [-5.0, 0.0, 50.0, 100.0, 250.0, f64::NAN] {
        assert_eq!(check_request(0, f64::to_bits(p)), Err(PercentileError::EmptyDataset));
    }
}

#[test]
fn percentile_bounds_are_inclusive() {
    assert_eq!(check_request(3, 0.0f64.to_bits()), Ok(()));
    assert_eq!(check_request(3, (-0.0f64).to_bits()), Ok(()));
    assert_eq!(check_request(3, 100.0f64.to_bits()), Ok(()));
    assert_eq!(check_request(3, 1e-300f64.to_bits()), Ok(()));
    assert_eq!(check_request(3, 99.999f64.to_bits()), Ok(()));
}

#[test]
fn percentile_outside_range_is_refused() {
    let out = Err(PercentileError::PercentileOutOfRange);
    assert_eq!(check_request(3, (-1e-300f64).to_bits()), out);
    assert_eq!(check_request(3, 100.00001f64.to_bits()), out);
    assert_eq!(check_request(3, f64::INFINITY.to_bits()), out);
    assert_eq!(check_request(3, f64::NEG_INFINITY.to_bits()), out);
    assert_eq!(check_request(3, f64::NAN.to_bits()), out);
    assert_eq!(check_request(3, (-f64::NAN).to_bits()), out);
}

#[test]
fn named_patterns_match_their_doubles() {
    assert_eq!(HUNDRED_BITS, 100.0f64.to_bits());
    assert_eq!(NEG_ZERO_BITS, (-0.0f64).to_bits());
    assert_eq!(DEFAULT_PERCENTILE_BITS, 95.0f64.to_bits());
}

#[test]
fn total_order_key_orders_doubles() {
    let ordered = [
        -f64::NAN,
        f64::NEG_INFINITY,
        -1e300,
        -1.0,
        -1e-300,
        -0.0,
        0.0,
        1e-300,
        1.0,
        1e300,
        f64::INFINITY,
        f64::NAN,
    ];
    for pair in ordered.windows(2) {
        assert!(total_order_key(pair[0].to_bits()) < total_order_key(pair[1].to_bits()));
    }
}

#[test]
fn sort_keeps_input_and_orders_copy() {
    let values = vec![3.5, -2.0, f64::NAN, 0.0, -0.0, 7.25, -2.0, f64::NEG_INFINITY];
    let bits = bits_of(&values);
    let sorted = sort_by_total_order(&bits);
    assert_eq!(bits, bits_of(&values));
    let expected = bits_of(&[f64::NEG_INFINITY, -2.0, -2.0, -0.0, 0.0, 3.5, 7.25, f64::NAN]);
    assert_eq!(sorted, expected);
}

#[test]
fn sort_of_empty_and_long_inputs() {
    assert_eq!(sort_by_total_order(&Vec::new()), Vec::<u64>::new());
    let values: Vec<f64> = (0..2000).map(|i| ((i * 7919) % 2000) as f64 - 1000.0).collect();
    let sorted = sort_by_total_order(&bits_of(&values));
    let expected: Vec<f64> = (0..2000).map(|i| i as f64 - 1000.0).collect();
    assert_eq!(sorted, bits_of(&expected));
}

#[test]
fn extremes_are_minimum_and_maximum() {
    let values = vec![4.0, -3.0, 9.5, 0.25, 9.5, -3.5];
    let bits = bits_of(&values);
    assert_eq!(order_statistics(&bits, 0, 5), ((-3.5f64).to_bits(), 9.5f64.to_bits()));
    assert_eq!(calculate_percentile(&values, 0.0), Ok(-3.5));
    assert_eq!(calculate_percentile(&values, 100.0), Ok(9.5));
}

#[test]
fn result_lies_between_extremes() {
    let values = vec![12.0, -4.0, 3.0, 8.5, 0.0, 100.0, 7.0];
    for step in 0..=200 {
        let p = step as f64 / 2.0;
        let r = calculate_percentile(&values, p).unwrap();
        assert!((-4.0..=100.0).contains(&r), "p = {p}: {r}");
    }
}

#[test]
fn result_ignores_input_order() {
    let a = vec![5.0, 1.0, 9.0, 3.0, 3.0, 7.0];
    let b = vec![3.0, 9.0, 7.0, 1.0, 5.0, 3.0];
    for p in [0.0, 12.5, 33.0, 50.0, 95.0, 100.0] {
        assert_eq!(calculate_percentile(&a, p), calculate_percentile(&b, p));
    }
    assert_eq!(sort_by_total_order(&bits_of(&a)), sort_by_total_order(&bits_of(&b)));
}

#[test]
fn single_value_is_every_percentile() {
    for p in [0.0, 1.0, 50.0, 99.5, 100.0] {
        assert_eq!(calculate_percentile(&[-17.25], p), Ok(-17.25));
    }
}

#[test]
fn error_messages() {
    assert_eq!(
        PercentileError::EmptyDataset.message(),
        "Cannot calculate percentile of empty dataset"
    );
    assert_eq!(
        PercentileError::PercentileOutOfRange.message(),
        "Percentile must be between 0 and 100"
    );
}
