use mantis_ta::types::MantisError;
use mantis_ta::utils::decimal::{parse_usize, usize_to_decimal};
use mantis_ta::utils::ringbuf::RingBuf;

#[test]
fn ring_buffer_keeps_last_values() {
    let mut rb = RingBuf::new(3, 0.0f64);
    assert_eq!(rb.len(), 0);
    assert!(!rb.is_full());
    assert_eq!(rb.latest(), None);
    assert_eq!(rb.push(1.0), None);
    assert_eq!(rb.push(2.0), None);
    assert_eq!(rb.iter(), vec![1.0, 2.0]);
    assert_eq!(rb.push(3.0), None);
    assert!(rb.is_full());
    assert_eq!(rb.push(4.0), Some(1.0));
    assert_eq!(rb.push(5.0), Some(2.0));
    assert_eq!(rb.iter(), vec![3.0, 4.0, 5.0]);
    assert_eq!(rb.latest(), Some(&5.0));
    assert_eq!(rb.len(), 3);
}

#[test]
fn ring_buffer_capacity_one() {
    let mut rb = RingBuf::new(1, (0.0f64, 0.0f64));
    assert_eq!(rb.push((1.0, 2.0)), None);
    assert_eq!(rb.push((3.0, 4.0)), Some((1.0, 2.0)));
    assert_eq!(rb.iter(), vec![(3.0, 4.0)]);
    assert_eq!(rb.latest(), Some(&(3.0, 4.0)));
}

#[test]
fn decimal_rendering_and_reading() {
    assert_eq!(usize_to_decimal(0), "0");
    assert_eq!(usize_to_decimal(10), "10");
    assert_eq!(usize_to_decimal(1234567), "1234567");
    assert_eq!(usize_to_decimal(usize::MAX), usize::MAX.to_string());
    for s in ["0", "42", "+42", "007", "", "+", "-1", "4 2", "1a", "18446744073709551616"] {
        assert_eq!(parse_usize(s), s.parse::<usize>().ok(), "text {:?}", s);
    }
}

#[test]
fn error_messages() {
    let e = MantisError::InvalidParameter { param: "max_concurrent_positions", value: "0".to_string(), reason: "must be at least 1" };
    assert_eq!(e.message(), "Invalid parameter: max_concurrent_positions = 0 (must be at least 1)");
    let e = MantisError::InsufficientData { required: 2, provided: 1 };
    assert_eq!(e.message(), "Insufficient data: need 2 candles, got 1");
    assert_eq!(MantisError::StrategyValidation("x".to_string()).message(), "Strategy validation failed: x");
    assert_eq!(MantisError::BacktestError("y".to_string()).message(), "Backtest error: y");
}

#[test]
fn ring_buffer_copy_is_independent() {
    let mut rb = RingBuf::new(2, 0u64);
    rb.push(7);
    rb.push(8);
    rb.push(9);
    let mut copy = rb.clone();
    assert_eq!(copy.iter(), vec![8, 9]);
    assert_eq!(copy.push(10), Some(8));
    assert_eq!(copy.iter(), vec![9, 10]);
    assert_eq!(rb.iter(), vec![8, 9]);
}
