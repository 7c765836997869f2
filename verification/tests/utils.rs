use aes67_rs::utils::{AverageCalculationBuffer, U16_WRAP, U32_WRAP};

#[test]
fn average_given_when_window_full() {
    let mut avg = AverageCalculationBuffer::new(3);
    assert_eq!(avg.update(1), None);
    assert_eq!(avg.update(2), None);
    assert_eq!(avg.update(4), Some(2));
    // a new window starts
    assert_eq!(avg.update(10), None);
    assert_eq!(avg.update(10), None);
    assert_eq!(avg.update(11), Some(10));
}

#[test]
fn average_truncates_toward_zero() {
    let mut avg = AverageCalculationBuffer::new(2);
    avg.update(-1);
    assert_eq!(avg.update(-2), Some(-1));
    avg.update(u64::MAX as i128);
    assert_eq!(avg.update(u64::MAX as i128), Some(u64::MAX as i128));
}

#[test]
fn window_of_one() {
    let mut avg = AverageCalculationBuffer::new(1);
    assert_eq!(avg.update(-7), Some(-7));
    assert_eq!(avg.update(i64::MIN as i128), Some(i64::MIN as i128));
}

#[test]
fn wrap_constants() {
    assert_eq!(U16_WRAP, 65_536);
    assert_eq!(U32_WRAP, 4_294_967_296);
}
