use amadeus_mcp::decimal::{decimal_bytes, decimal_text};

#[test]
fn amounts_are_written_in_decimal_digits() {
    assert_eq!(decimal_bytes(0), b"0".to_vec());
    assert_eq!(decimal_bytes(7), b"7".to_vec());
    assert_eq!(decimal_bytes(10), b"10".to_vec());
    assert_eq!(decimal_bytes(100), b"100".to_vec());
    assert_eq!(decimal_bytes(100_000_000_000), b"100000000000".to_vec());
    assert_eq!(decimal_bytes(-1), b"-1".to_vec());
    assert_eq!(decimal_bytes(-120), b"-120".to_vec());
}

#[test]
fn the_extremes_are_written_like_std_writes_them() {
    assert_eq!(decimal_bytes(i128::MAX), i128::MAX.to_string().into_bytes());
    assert_eq!(decimal_bytes(i128::MIN), i128::MIN.to_string().into_bytes());
    assert_eq!(decimal_bytes(i128::MIN + 1), (i128::MIN + 1).to_string().into_bytes());
}

#[test]
fn numbers_are_written_as_text() {
    assert_eq!(decimal_text(0), "0");
    assert_eq!(decimal_text(9), "9");
    assert_eq!(decimal_text(404), "404");
    assert_eq!(decimal_text(1234567890), "1234567890");
    assert_eq!(decimal_text(u64::MAX), u64::MAX.to_string());
}
