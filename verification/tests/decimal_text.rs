use pipeflow::decimal::{i64_to_string, parse_version_hint, u64_to_string};
use pipeflow::errors::ErrorCode;

#[test]
fn unsigned_decimal_rendering() {
    assert_eq!(u64_to_string(0), "0");
    assert_eq!(u64_to_string(7), "7");
    assert_eq!(u64_to_string(1234567890), "1234567890");
    assert_eq!(u64_to_string(u64::MAX), "18446744073709551615");
}

#[test]
fn signed_decimal_rendering() {
    assert_eq!(i64_to_string(0), "0");
    assert_eq!(i64_to_string(-42), "-42");
    assert_eq!(i64_to_string(i64::MIN), "-9223372036854775808");
    assert_eq!(i64_to_string(i64::MAX), "9223372036854775807");
}

#[test]
fn version_hint_accepts_a_trimmed_decimal() {
    assert_eq!(parse_version_hint(&b"42\n".to_vec()), Ok(42));
    assert_eq!(parse_version_hint(&b"  7 \t".to_vec()), Ok(7));
    assert_eq!(parse_version_hint(&b"0".to_vec()), Ok(0));
    assert_eq!(parse_version_hint(&b"18446744073709551615".to_vec()), Ok(u64::MAX));
}

#[test]
fn version_hint_rejects_anything_else() {
    assert_eq!(parse_version_hint(&b"".to_vec()), Err(ErrorCode::ReadTableData));
    assert_eq!(parse_version_hint(&b"  \n".to_vec()), Err(ErrorCode::ReadTableData));
    assert_eq!(parse_version_hint(&b"4a2".to_vec()), Err(ErrorCode::ReadTableData));
    assert_eq!(parse_version_hint(&b"-1".to_vec()), Err(ErrorCode::ReadTableData));
    assert_eq!(parse_version_hint(&b"1 2".to_vec()), Err(ErrorCode::ReadTableData));
    assert_eq!(
        parse_version_hint(&b"18446744073709551616".to_vec()),
        Err(ErrorCode::ReadTableData)
    );
}
