use python_executor::number::format_i32;
use python_executor::number::format_u64;
use python_executor::number::parse_i32;
use python_executor::number::parse_millis;
use python_executor::number::parse_u64;

#[test]
fn whole_numbers() {
    assert_eq!(parse_u64(b"0"), Some(0));
    assert_eq!(parse_u64(b"007"), Some(7));
    assert_eq!(parse_u64(b"18446744073709551615"), Some(u64::MAX));
    assert_eq!(parse_u64(b"18446744073709551616"), None);
    assert_eq!(parse_u64(b"99999999999999999999999"), None);
    assert_eq!(parse_u64(b""), None);
    assert_eq!(parse_u64(b"-1"), None);
    assert_eq!(parse_u64(b"+1"), None);
    assert_eq!(parse_u64(b"1.0"), None);
    assert_eq!(parse_u64(b"1e3"), None);
    assert_eq!(parse_u64(b"12a"), None);
    assert_eq!(parse_u64(b" 1"), None);
}

#[test]
fn signed_numbers() {
    assert_eq!(parse_i32(b"0"), Some(0));
    assert_eq!(parse_i32(b"-0"), Some(0));
    assert_eq!(parse_i32(b"2147483647"), Some(i32::MAX));
    assert_eq!(parse_i32(b"2147483648"), None);
    assert_eq!(parse_i32(b"-2147483648"), Some(i32::MIN));
    assert_eq!(parse_i32(b"-2147483649"), None);
    assert_eq!(parse_i32(b"-"), None);
    assert_eq!(parse_i32(b""), None);
    assert_eq!(parse_i32(b"--1"), None);
    assert_eq!(parse_i32(b"1.5"), None);
    assert_eq!(parse_i32(b"-12"), Some(-12));
}

#[test]
fn thousandths() {
    assert_eq!(parse_millis(b"0"), Some(0));
    assert_eq!(parse_millis(b"1"), Some(1000));
    assert_eq!(parse_millis(b"0.5"), Some(500));
    assert_eq!(parse_millis(b"0.1"), Some(100));
    assert_eq!(parse_millis(b"2.25"), Some(2250));
    assert_eq!(parse_millis(b"1.2345"), Some(1234));
    assert_eq!(parse_millis(b"0.0009"), Some(0));
    assert_eq!(parse_millis(b"0.001"), Some(1));
    assert_eq!(parse_millis(b"12.0"), Some(12000));
    assert_eq!(parse_millis(b"1e3"), Some(1000000));
    assert_eq!(parse_millis(b"1E3"), Some(1000000));
    assert_eq!(parse_millis(b"1e+3"), Some(1000000));
    assert_eq!(parse_millis(b"1e-3"), Some(1));
    assert_eq!(parse_millis(b"1e-4"), Some(0));
    assert_eq!(parse_millis(b"1.5e-7"), Some(0));
    assert_eq!(parse_millis(b"1.5e1"), Some(15000));
    assert_eq!(parse_millis(b"12345e-2"), Some(123450));
    assert_eq!(parse_millis(b"12345e-5"), Some(123));
    assert_eq!(parse_millis(b"12345e-8"), Some(0));
    assert_eq!(parse_millis(b"1e0"), Some(1000));
    assert_eq!(parse_millis(b"0e999"), Some(0));
}

#[test]
fn thousandths_are_cut_at_the_largest_value() {
    assert_eq!(parse_millis(b"18446744073709551.615"), Some(u64::MAX));
    assert_eq!(parse_millis(b"18446744073709551.614"), Some(u64::MAX - 1));
    assert_eq!(parse_millis(b"18446744073709552"), Some(u64::MAX));
    assert_eq!(parse_millis(b"1e308"), Some(u64::MAX));
    assert_eq!(parse_millis(b"1e999"), Some(u64::MAX));
    assert_eq!(parse_millis(b"99999999999999999999999999999999"), Some(u64::MAX));
    assert_eq!(parse_millis(b"99999999999999999999999999999999e-999"), Some(0));
}

#[test]
fn what_is_no_decimal_number() {
    assert_eq!(parse_millis(b""), None);
    assert_eq!(parse_millis(b"-1"), None);
    assert_eq!(parse_millis(b"-0.0"), None);
    assert_eq!(parse_millis(b"+1"), None);
    assert_eq!(parse_millis(b".5"), None);
    assert_eq!(parse_millis(b"5."), None);
    assert_eq!(parse_millis(b"1e"), None);
    assert_eq!(parse_millis(b"1e+"), None);
    assert_eq!(parse_millis(b"1e1000"), None);
    assert_eq!(parse_millis(b"1e1.5"), None);
    assert_eq!(parse_millis(b"1.5.5"), None);
    assert_eq!(parse_millis(b"1x"), None);
    assert_eq!(parse_millis(b"1 "), None);
    assert_eq!(parse_millis(b"NaN"), None);
}

#[test]
fn writing_numbers() {
    assert_eq!(format_u64(0), "0");
    assert_eq!(format_u64(9), "9");
    assert_eq!(format_u64(10), "10");
    assert_eq!(format_u64(1234567890), "1234567890");
    assert_eq!(format_u64(u64::MAX), "18446744073709551615");
    assert_eq!(format_i32(0), "0");
    assert_eq!(format_i32(-1), "-1");
    assert_eq!(format_i32(2112), "2112");
    assert_eq!(format_i32(i32::MAX), "2147483647");
    assert_eq!(format_i32(i32::MIN), "-2147483648");
}

#[test]
fn written_numbers_read_back() {
    for n in [0i32, 1, -1, 42, -42, 1000, i32::MAX, i32::MIN] {
        assert_eq!(parse_i32(format_i32(n).as_bytes()), Some(n));
    }
    for n in [0u64, 5, 10, 99, 100, u64::MAX] {
        assert_eq!(parse_u64(format_u64(n).as_bytes()), Some(n));
    }
}
