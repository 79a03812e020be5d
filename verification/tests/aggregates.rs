use cassandra_server::aggregates::{
    aggregate_output_type, bigint_avg, is_aggregate_name, is_builtin_aggregate_name,
    is_count_rows_name, is_count_rows_selector_name, read_i16_value, read_i32_value,
    read_i64_value, read_i8_value, AggregateState, AvgAccumulator, SumAccumulator,
};
use cassandra_server::error::ExecutorError;
use cassandra_server::types::CqlType;

#[test]
fn fixed_width_reads() {
    assert_eq!(read_i8_value(&[0xff]).unwrap(), -1);
    assert_eq!(read_i16_value(&[0x01, 0x00]).unwrap(), 256);
    assert_eq!(read_i32_value(&(-7i32).to_be_bytes()).unwrap(), -7);
    assert_eq!(read_i64_value(&i64::MIN.to_be_bytes()).unwrap(), i64::MIN);
    assert_eq!(read_i8_value(&[]).unwrap_err(), "invalid tinyint bytes: got 0");
    assert_eq!(read_i16_value(&[1, 2, 3]).unwrap_err(), "invalid smallint bytes: got 3");
    assert_eq!(read_i32_value(&[1]).unwrap_err(), "invalid int bytes: got 1");
    assert_eq!(read_i64_value(&[0; 4]).unwrap_err(), "invalid bigint bytes: got 4");
}

#[test]
fn aggregate_names() {
    assert!(is_builtin_aggregate_name("COUNT"));
    assert!(is_builtin_aggregate_name("Avg"));
    assert!(is_aggregate_name("max"));
    assert!(!is_builtin_aggregate_name("median"));
    assert!(is_count_rows_name("CountRows"));
    assert!(!is_count_rows_name("count"));
    assert!(is_count_rows_selector_name("Count"));
    assert!(is_count_rows_selector_name("count_rows"));
    assert!(!is_count_rows_selector_name("sum"));
}

#[test]
fn aggregate_result_types() {
    assert!(matches!(aggregate_output_type("COUNT", Some(&CqlType::Int)), CqlType::Bigint));
    assert!(matches!(aggregate_output_type("sum", Some(&CqlType::Smallint)), CqlType::Smallint));
    assert!(matches!(aggregate_output_type("max", None), CqlType::Blob));
    assert!(matches!(aggregate_output_type("other", Some(&CqlType::Int)), CqlType::Blob));
}

#[test]
fn int_sum_wraps_like_the_column_type() {
    let mut sum = SumAccumulator::new(&CqlType::Tinyint, "tinyint");
    sum.add(&[100]).unwrap();
    sum.add(&[100]).unwrap();
    assert_eq!(sum.finalize().unwrap(), vec![200u8]);
    let mut sum = SumAccumulator::new(&CqlType::Int, "int");
    sum.add(&5i32.to_be_bytes()).unwrap();
    sum.add(&(-7i32).to_be_bytes()).unwrap();
    assert_eq!(sum.finalize().unwrap(), (-2i32).to_be_bytes().to_vec());
}

#[test]
fn sum_errors() {
    let mut sum = SumAccumulator::new(&CqlType::Bigint, "bigint");
    assert_eq!(sum.add(&[1, 2]).unwrap_err(), "invalid bigint bytes: got 2");
    let mut text = SumAccumulator::new(&CqlType::Varchar, "text");
    assert_eq!(text.add(b"x").unwrap_err(), "unsupported sum type text");
    assert_eq!(text.finalize().unwrap_err(), "unsupported sum type text");
}

#[test]
fn varint_sum_is_exact() {
    let mut sum = SumAccumulator::new(&CqlType::Varint, "varint");
    sum.add(&[0x7f, 0xff, 0xff, 0xff, 0xff, 0xff, 0xff, 0xff]).unwrap();
    sum.add(&[0x01]).unwrap();
    assert_eq!(sum.finalize().unwrap(), vec![0x00, 0x80, 0, 0, 0, 0, 0, 0, 0]);
    let empty = SumAccumulator::new(&CqlType::Varint, "varint");
    assert_eq!(empty.finalize().unwrap(), vec![0]);
}

#[test]
fn average_of_ints_truncates_toward_zero() {
    let mut avg = AvgAccumulator::new(&CqlType::Int, "int");
    for v in [1i32, 2, 2] {
        avg.add(&v.to_be_bytes()).unwrap();
    }
    assert_eq!(avg.finalize().unwrap(), 1i32.to_be_bytes().to_vec());
    let mut avg = AvgAccumulator::new(&CqlType::Smallint, "smallint");
    for v in [-3i16, -4] {
        avg.add(&v.to_be_bytes()).unwrap();
    }
    assert_eq!(avg.finalize().unwrap(), (-3i16).to_be_bytes().to_vec());
}

#[test]
fn average_does_not_overflow() {
    let mut avg = AvgAccumulator::new(&CqlType::Bigint, "bigint");
    avg.add(&i64::MAX.to_be_bytes()).unwrap();
    avg.add(&i64::MAX.to_be_bytes()).unwrap();
    assert_eq!(avg.finalize().unwrap(), i64::MAX.to_be_bytes().to_vec());
    let empty = AvgAccumulator::new(&CqlType::Tinyint, "tinyint");
    assert_eq!(empty.finalize().unwrap(), vec![0]);
}

#[test]
fn average_of_varints() {
    let mut avg = AvgAccumulator::new(&CqlType::Varint, "varint");
    avg.add(&[0x0a]).unwrap();
    avg.add(&[0x05]).unwrap();
    assert_eq!(avg.finalize().unwrap(), vec![0x07]);
    let mut text = AvgAccumulator::new(&CqlType::Ascii, "ascii");
    assert_eq!(text.add(b"a").unwrap_err(), "unsupported avg type ascii");
}

#[test]
fn bigint_average_of_bytes() {
    assert_eq!(bigint_avg(&[0x10], 4), 4);
    assert_eq!(bigint_avg(&[0xf6], 4), -2);
    assert_eq!(bigint_avg(&[0x10], 0), 0);
}

#[test]
fn aggregate_states() {
    let mut count = AggregateState::Count { count: 0, count_non_null: true };
    count.accumulate(&[None]).unwrap();
    count.accumulate(&[Some(vec![1])]).unwrap();
    count.accumulate(&[None, Some(vec![2])]).unwrap();
    assert_eq!(count.finalize().unwrap(), Some(2i64.to_be_bytes().to_vec()));

    let mut rows = AggregateState::Count { count: 0, count_non_null: false };
    rows.accumulate(&[None]).unwrap();
    rows.accumulate(&[]).unwrap();
    assert_eq!(rows.finalize().unwrap(), Some(2i64.to_be_bytes().to_vec()));

    let mut last = AggregateState::PassThrough { value: None };
    last.accumulate(&[Some(vec![1])]).unwrap();
    last.accumulate(&[None]).unwrap();
    assert_eq!(last.finalize().unwrap(), Some(vec![1]));

    let mut sum = AggregateState::Sum { accumulator: SumAccumulator::new(&CqlType::Int, "int") };
    sum.accumulate(&[Some(3i32.to_be_bytes().to_vec())]).unwrap();
    sum.accumulate(&[None]).unwrap();
    sum.accumulate(&[Some(4i32.to_be_bytes().to_vec())]).unwrap();
    assert_eq!(sum.finalize().unwrap(), Some(7i32.to_be_bytes().to_vec()));

    let mut bad = AggregateState::Avg { accumulator: AvgAccumulator::new(&CqlType::Int, "int") };
    match bad.accumulate(&[Some(vec![1, 2])]) {
        Err(ExecutorError::InvalidQuery(m)) => assert_eq!(m, "invalid int bytes: got 2"),
        other => panic!("unexpected {:?}", other),
    }
}

#[test]
fn builtin_sum_and_avg_preserve_java_argument_types() {
    assert_eq!(aggregate_output_type("sum", Some(&CqlType::Tinyint)), CqlType::Tinyint);
    assert_eq!(aggregate_output_type("avg", Some(&CqlType::Decimal)), CqlType::Decimal);

    let mut tiny_sum = SumAccumulator::new(&CqlType::Tinyint, "tinyint");
    tiny_sum.add(&[120u8]).unwrap();
    tiny_sum.add(&[10u8]).unwrap();
    assert_eq!(tiny_sum.finalize().unwrap(), vec![130u8]);

    let mut int_avg = AvgAccumulator::new(&CqlType::Int, "int");
    int_avg.add(&5i32.to_be_bytes()).unwrap();
    int_avg.add(&2i32.to_be_bytes()).unwrap();
    assert_eq!(int_avg.finalize().unwrap(), 3i32.to_be_bytes().to_vec());
}

#[test]
fn count_column_skips_null_values() {
    let mut count = AggregateState::Count { count: 0, count_non_null: true };
    count.accumulate(&[Some(b"alpha".to_vec())]).unwrap();
    count.accumulate(&[None]).unwrap();
    count.accumulate(&[Some(b"gamma".to_vec())]).unwrap();
    let bytes = count.finalize().unwrap().unwrap();
    assert_eq!(i64::from_be_bytes(bytes.as_slice().try_into().unwrap()), 2);
}

#[test]
fn builtin_sum_and_avg_support_varint_states() {
    let mut varint_sum = SumAccumulator::new(&CqlType::Varint, "varint");
    let huge = num_bigint::BigInt::parse_bytes(b"123456789012345678901234567890", 10)
        .unwrap()
        .to_signed_bytes_be();
    varint_sum.add(&huge).unwrap();
    varint_sum.add(&num_bigint::BigInt::from(10).to_signed_bytes_be()).unwrap();
    let total = varint_sum.finalize().unwrap();
    assert_eq!(num_bigint::BigInt::from_signed_bytes_be(&total).to_string(), "123456789012345678901234567900");
    assert_eq!(
        total,
        num_bigint::BigInt::parse_bytes(b"123456789012345678901234567900", 10).unwrap().to_signed_bytes_be()
    );
}

#[test]
fn varint_results_use_the_shortest_encoding() {
    let mut sum = SumAccumulator::new(&CqlType::Varint, "varint");
    sum.add(&[0x00, 0x00, 0x05]).unwrap();
    assert_eq!(sum.finalize().unwrap(), vec![0x05]);
    let mut neg = SumAccumulator::new(&CqlType::Varint, "varint");
    neg.add(&[0xff, 0xff, 0x80]).unwrap();
    assert_eq!(neg.finalize().unwrap(), vec![0x80]);
    let mut avg = AvgAccumulator::new(&CqlType::Varint, "varint");
    avg.add(&[0x00, 0x00, 0x09]).unwrap();
    avg.add(&[0x00, 0xff]).unwrap();
    assert_eq!(avg.finalize().unwrap(), vec![0x00, 0x84]);
}
