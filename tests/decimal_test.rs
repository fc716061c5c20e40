use liquid_protocol::decimal::{decimal_digits, u64_text};
use liquid_protocol::Number;

#[test]
fn digits_of_integers() {
    assert_eq!(decimal_digits(0), vec![0u8]);
    assert_eq!(decimal_digits(907), vec![9u8, 0, 7]);
    assert_eq!(u64_text(0), "0");
    assert_eq!(u64_text(42), "42");
    assert_eq!(u64_text(u64::MAX), "18446744073709551615");
}

#[test]
fn integer_numbers_have_no_point() {
    assert_eq!(Number::from_int(18).to_text(), "18");
    assert_eq!(Number::from_int(0).to_text(), "0");
    assert_eq!(Number::from_int(-7).to_text(), "-7");
    assert_eq!(Number::from_int(i64::MIN).to_text(), "-9223372036854775808");
}

#[test]
fn fractional_numbers_keep_their_scale() {
    assert_eq!(Number::decimal(false, 15, 1).to_text(), "1.5");
    assert_eq!(Number::decimal(true, 5, 2).to_text(), "-0.05");
    assert_eq!(Number::decimal(false, 12345, 3).to_text(), "12.345");
}

#[test]
fn decimal_drops_trailing_zeros() {
    let n = Number::decimal(false, 1800, 2);
    assert_eq!(n, Number::from_int(18));
    assert_eq!(n.to_text(), "18");
    let z = Number::decimal(true, 0, 3);
    assert_eq!(z, Number::from_int(0));
    assert_eq!(z.to_text(), "0");
    assert_eq!(Number::decimal(false, 2500, 3).to_text(), "2.5");
}
