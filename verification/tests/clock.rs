use cassandra_server::clock::{current_timestamp_micros, timestamp_from_micros, timestamp_of};

#[test]
fn clock_reads_microseconds_since_the_epoch() {
    let a = current_timestamp_micros();
    let b = current_timestamp_micros();
    assert!(a > 1_600_000_000_000_000);
    assert!(b >= a);
}

#[test]
fn microsecond_counts_wrap_like_a_cast() {
    assert_eq!(timestamp_from_micros(5), 5);
    assert_eq!(timestamp_from_micros(1u128 << 64), 0);
    assert_eq!(timestamp_from_micros((1u128 << 63) + 1), i64::MIN + 1);
}

#[test]
fn times_before_the_epoch_read_as_zero() {
    assert_eq!(timestamp_of(None), 0);
    assert_eq!(timestamp_of(Some(1_700_000_000_000_000)), 1_700_000_000_000_000);
}
