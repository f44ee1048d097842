use tileworld::utils::{ceil_mul, floor_mul};

#[test]
fn ceil_mul_rounds_up_to_multiple() {
    assert_eq!(ceil_mul(10, 4), 12);
    assert_eq!(ceil_mul(12, 4), 12);
    assert_eq!(ceil_mul(1, 64), 64);
    assert_eq!(ceil_mul(0, 64), 0);
}

#[test]
fn ceil_mul_zero_divisor_returns_input() {
    assert_eq!(ceil_mul(7, 0), 7);
}

#[test]
fn floor_mul_rounds_down_to_multiple() {
    assert_eq!(floor_mul(10, 4), 8);
    assert_eq!(floor_mul(12, 4), 12);
    assert_eq!(floor_mul(127, 64), 64);
    assert_eq!(floor_mul(63, 64), 0);
}

#[test]
fn floor_mul_negative_rounds_toward_zero() {
    assert_eq!(floor_mul(-10, 4), -8);
    assert_eq!(floor_mul(7, 0), 7);
}
