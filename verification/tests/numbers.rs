use knightrs::number::count_number;
use knightrs::number::difference;
use knightrs::number::exit_code;
use knightrs::number::is_even;
use knightrs::number::power;
use knightrs::number::product;
use knightrs::number::quotient;
use knightrs::number::remainder;
use knightrs::number::sum;

#[test]
fn sum_wraps() {
    assert_eq!(sum(2, 3), 5);
    assert_eq!(sum(-2, 3), 1);
    assert_eq!(sum(i64::MAX, 1), i64::MIN);
    assert_eq!(sum(i64::MIN, -1), i64::MAX);
}

#[test]
fn difference_wraps() {
    assert_eq!(difference(2, 3), -1);
    assert_eq!(difference(i64::MIN, 1), i64::MAX);
    assert_eq!(difference(0, i64::MIN), i64::MIN);
}

#[test]
fn product_wraps() {
    assert_eq!(product(6, 7), 42);
    assert_eq!(product(-6, 7), -42);
    assert_eq!(product(i64::MAX, 2), -2);
    assert_eq!(product(i64::MIN, -1), i64::MIN);
    assert_eq!(product(4294967296, 4294967296), 0);
}

#[test]
fn quotient_rounds_toward_zero() {
    assert_eq!(quotient(7, 2), 3);
    assert_eq!(quotient(-7, 2), -3);
    assert_eq!(quotient(7, -2), -3);
    assert_eq!(quotient(-7, -2), 3);
    assert_eq!(quotient(0, 5), 0);
    assert_eq!(quotient(6, 3), 2);
    assert_eq!(quotient(i64::MIN, -1), i64::MIN);
    assert_eq!(quotient(i64::MIN, 1), i64::MIN);
    assert_eq!(quotient(i64::MAX, -1), -i64::MAX);
}

#[test]
fn remainder_has_the_sign_of_the_dividend() {
    assert_eq!(remainder(7, 2), 1);
    assert_eq!(remainder(-7, 2), -1);
    assert_eq!(remainder(7, -2), 1);
    assert_eq!(remainder(-7, -2), -1);
    assert_eq!(remainder(6, 3), 0);
    assert_eq!(remainder(i64::MIN, -1), 0);
    assert_eq!(remainder(5, i64::MIN), 5);
}

#[test]
fn power_follows_the_rules_of_exponentiation() {
    assert_eq!(power(2, 10), 1024);
    assert_eq!(power(3, 4), 81);
    assert_eq!(power(-2, 3), -8);
    assert_eq!(power(-2, 4), 16);
    assert_eq!(power(7, 1), 7);
    assert_eq!(power(7, 0), 1);
    assert_eq!(power(0, 0), 1);
    assert_eq!(power(0, 5), 0);
    assert_eq!(power(10, 18), 1_000_000_000_000_000_000);
}

#[test]
fn power_of_one_and_minus_one() {
    assert_eq!(power(1, 0), 1);
    assert_eq!(power(1, 1000), 1);
    assert_eq!(power(1, -5), 1);
    assert_eq!(power(1, i64::MIN), 1);
    assert_eq!(power(-1, 2), 1);
    assert_eq!(power(-1, 3), -1);
    assert_eq!(power(-1, -2), 1);
    assert_eq!(power(-1, -3), -1);
    assert_eq!(power(-1, i64::MAX), -1);
    assert_eq!(power(-1, i64::MIN), 1);
}

#[test]
fn power_with_negative_exponent_is_zero() {
    assert_eq!(power(2, -1), 0);
    assert_eq!(power(-2, -1), 0);
    assert_eq!(power(0, -1), 0);
    assert_eq!(power(i64::MAX, -3), 0);
}

#[test]
fn power_wraps() {
    assert_eq!(power(2, 62), 1 << 62);
    assert_eq!(power(2, 63), i64::MIN);
    assert_eq!(power(2, 64), 0);
    assert_eq!(power(2, i64::MAX), 0);
    assert_eq!(power(3, 41), 3i64.wrapping_pow(41));
    assert_eq!(power(-3, 41), (-3i64).wrapping_pow(41));
    assert_eq!(power(10, 19), 10i64.wrapping_pow(19));
    assert_eq!(power(3, 4294967296), 3i64.wrapping_pow(65536).wrapping_pow(65536));
}

#[test]
fn is_even_tells_parity() {
    assert!(is_even(0));
    assert!(is_even(2));
    assert!(is_even(-2));
    assert!(!is_even(1));
    assert!(!is_even(-1));
    assert!(is_even(i64::MIN));
    assert!(!is_even(i64::MAX));
}

#[test]
fn exit_code_keeps_the_low_32_bits() {
    assert_eq!(exit_code(0), 0);
    assert_eq!(exit_code(42), 42);
    assert_eq!(exit_code(-1), -1);
    assert_eq!(exit_code(2147483647), i32::MAX);
    assert_eq!(exit_code(2147483648), i32::MIN);
    assert_eq!(exit_code(4294967296), 0);
    assert_eq!(exit_code(4294967297), 1);
    assert_eq!(exit_code(-4294967297), -1);
    assert_eq!(exit_code(i64::MAX), -1);
    assert_eq!(exit_code(i64::MIN), 0);
}

#[test]
fn count_number_is_the_count() {
    assert_eq!(count_number(0), 0);
    assert_eq!(count_number(5), 5);
    assert_eq!(count_number(1 << 40), 1 << 40);
}
