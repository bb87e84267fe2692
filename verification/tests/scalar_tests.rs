use velato::scalar::narrow;
use velato::scalar::product;
use velato::scalar::quotient;
use velato::scalar::round_count;
use velato::scalar::saturate;
use velato::scalar::sqrt;
use velato::scalar::ONE;

#[test]
fn one_is_two_to_the_sixteenth() {
    assert_eq!(ONE, 65536);
}

#[test]
fn product_of_halves_is_a_quarter() {
    assert_eq!(product(ONE / 2, ONE / 2), ONE / 4);
}

#[test]
fn product_by_one_changes_nothing() {
    assert_eq!(product(12345, ONE), 12345);
    assert_eq!(product(-12345, ONE), -12345);
    assert_eq!(product(ONE, -7), -7);
}

#[test]
fn product_rounds_down() {
    assert_eq!(product(1, 1), 0);
    assert_eq!(product(-1, 1), -1);
    assert_eq!(product(3, ONE / 2), 1);
    assert_eq!(product(-3, ONE / 2), -2);
}

#[test]
fn product_saturates() {
    assert_eq!(product(i64::MAX, 2 * ONE), i64::MAX);
    assert_eq!(product(i64::MIN, 2 * ONE), i64::MIN);
    assert_eq!(product(i64::MIN, -2 * ONE), i64::MAX);
    assert_eq!(product(i64::MIN, i64::MIN), i64::MAX);
}

#[test]
fn quotient_by_zero_is_none() {
    assert_eq!(quotient(ONE, 0), None);
    assert_eq!(quotient(0, 0), None);
}

#[test]
fn quotient_of_values() {
    assert_eq!(quotient(20 * ONE, 2 * ONE), Some(10 * ONE));
    assert_eq!(quotient(ONE, 2 * ONE), Some(ONE / 2));
    assert_eq!(quotient(ONE, 3 * ONE), Some(21845));
    assert_eq!(quotient(-ONE, 3 * ONE), Some(-21846));
    assert_eq!(quotient(ONE, -3 * ONE), Some(-21846));
    assert_eq!(quotient(-ONE, -3 * ONE), Some(21845));
}

#[test]
fn quotient_saturates() {
    assert_eq!(quotient(i64::MAX, 1), Some(i64::MAX));
    assert_eq!(quotient(i64::MIN, 1), Some(i64::MIN));
    assert_eq!(quotient(i64::MIN, -1), Some(i64::MAX));
}

#[test]
fn sqrt_rounds_down() {
    assert_eq!(sqrt(0), 0);
    assert_eq!(sqrt(1), 1);
    assert_eq!(sqrt(24), 4);
    assert_eq!(sqrt(25), 5);
    assert_eq!(sqrt(26), 5);
    assert_eq!(sqrt(u128::MAX), u64::MAX);
    assert_eq!(sqrt(1u128 << 64), 1u64 << 32);
    assert_eq!(sqrt((1u128 << 64) - 1), (1u64 << 32) - 1);
}

#[test]
fn narrow_saturates() {
    assert_eq!(narrow(5), 5);
    assert_eq!(narrow(-5), -5);
    assert_eq!(narrow(i64::MAX), i32::MAX);
    assert_eq!(narrow(i64::MIN), i32::MIN);
    assert_eq!(narrow(2147483648), i32::MAX);
    assert_eq!(narrow(-2147483649), i32::MIN);
}

#[test]
fn saturate_saturates() {
    assert_eq!(saturate(5), 5);
    assert_eq!(saturate(i128::MAX), i64::MAX);
    assert_eq!(saturate(i128::MIN), i64::MIN);
}

#[test]
fn round_count_rounds_to_nearest() {
    assert_eq!(round_count(0), 0);
    assert_eq!(round_count(3 * 65536), 3);
    assert_eq!(round_count(3 * 65536 + 32767), 3);
    assert_eq!(round_count(3 * 65536 + 32768), 4);
    assert_eq!(round_count(32767), 0);
    assert_eq!(round_count(32768), 1);
    assert_eq!(round_count(-1), 0);
    assert_eq!(round_count(-5 * 65536), 0);
    assert_eq!(round_count(i32::MAX), 32768);
}
