use rainbow::assembler::{assemble_values, composite_value, concat_value, RangeDesc, RangeError};
use rainbow::decimal::{decimal_bytes, digit_count, pow10_exec};

fn range(start: i64, end: i64, prefix: i64, global_prefix: i64) -> RangeDesc {
    RangeDesc::new(start, end, prefix, global_prefix).unwrap()
}

#[test]
fn digit_count_matches_decimal_length_at_powers_of_ten() {
    let mut p: u64 = 1;
    for k in 1..=8u32 {
        assert_eq!(digit_count(p), k);
        if p > 1 {
            assert_eq!(digit_count(p - 1), k - 1);
        }
        assert_eq!(digit_count(p * 10 - 1), k);
        p *= 10;
    }
    assert_eq!(digit_count(99999999), 8);
    assert_eq!(digit_count(100), 3);
    assert_eq!(digit_count(7), 1);
}

#[test]
fn digit_count_matches_text_on_a_sweep() {
    let mut x: u64 = 1;
    while x <= 99999999 {
        assert_eq!(digit_count(x) as usize, x.to_string().len());
        x = x * 3 + 1;
    }
    for x in [9u64, 10, 99, 100, 999, 1000, 9999999, 10000000, 99999999] {
        assert_eq!(digit_count(x) as usize, x.to_string().len());
    }
}

#[test]
fn digit_count_of_zero_and_max() {
    assert_eq!(digit_count(0), 1);
    assert_eq!(digit_count(u64::MAX), 20);
}

#[test]
fn powers_of_ten() {
    assert_eq!(pow10_exec(0), 1);
    assert_eq!(pow10_exec(3), 1000);
    assert_eq!(pow10_exec(20), 100_000_000_000_000_000_000u128);
}

#[test]
fn decimal_text_of_values() {
    assert_eq!(decimal_bytes(195), b"195".to_vec());
    assert_eq!(decimal_bytes(0), b"0".to_vec());
    assert_eq!(decimal_bytes(1000), b"1000".to_vec());
}

#[test]
fn concatenation_of_prefix_and_value() {
    assert_eq!(concat_value(9, 5), Some(95));
    assert_eq!(concat_value(0, 5), Some(5));
    assert_eq!(concat_value(12, 100), Some(12100));
    assert_eq!(concat_value(1, 95), Some(195));
    assert_eq!(concat_value(9223372036854775807, 1), None);
    assert_eq!(concat_value(922337203685477580, 7), Some(9223372036854775807));
    assert_eq!(concat_value(922337203685477580, 8), None);
}

#[test]
fn composite_of_scenario_b() {
    assert_eq!(composite_value(5, 9, 1), Some(195));
    assert_eq!(composite_value(10, 0, 0), Some(10));
    assert_eq!(composite_value(10, 3, 7), Some(7310));
}

#[test]
fn descriptor_errors() {
    assert_eq!(RangeDesc::new(3, 1, 0, 0), Err(RangeError::StartAfterEnd));
    assert_eq!(RangeDesc::new(0, 1, 0, 0), Err(RangeError::NonPositiveStart));
    assert_eq!(RangeDesc::new(-5, -1, 0, 0), Err(RangeError::NonPositiveStart));
    assert_eq!(RangeDesc::new(1, 1, -1, 0), Err(RangeError::NegativePrefix));
    assert_eq!(RangeDesc::new(1, 1, 0, -1), Err(RangeError::NegativeGlobalPrefix));
    assert!(RangeDesc::new(1, 1, 0, 0).is_ok());
}

#[test]
fn scenario_a_values() {
    assert_eq!(assemble_values(&range(1, 3, 0, 0)), Ok(vec![1, 2, 3]));
}

#[test]
fn scenario_b_values() {
    assert_eq!(assemble_values(&range(5, 5, 9, 1)), Ok(vec![195]));
}

#[test]
fn value_count_and_order() {
    let v = assemble_values(&range(8, 12, 3, 7)).unwrap();
    assert_eq!(v.len(), 12 - 8 + 1);
    assert_eq!(v, vec![738, 739, 7310, 7311, 7312]);
}

#[test]
fn values_that_overflow_are_refused() {
    let r = range(9223372036854775806, 9223372036854775807, 1, 0);
    assert_eq!(assemble_values(&r), Err(RangeError::ValueTooLarge));
    let r = range(9223372036854775806, 9223372036854775807, 0, 0);
    assert_eq!(assemble_values(&r), Ok(vec![9223372036854775806, 9223372036854775807]));
}
