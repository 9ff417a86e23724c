//! Tests of the UUID expansion and its X.667 hexadecimal text form.

use cloudbbq::uuid::string_to_uuid128;
use cloudbbq::uuid::uuid128_to_string;
use cloudbbq::uuid::uuid16_to_uuid128;
use cloudbbq::uuid::uuid32_to_uuid128;
use cloudbbq::uuid::ParseUuidError;
use cloudbbq::uuid::BASE_UUID;

#[test]
fn test_format() {
    let u = 0x0000ACAB_0000_1000_8000_00805F9B34FB;
    let o = string_to_uuid128(uuid128_to_string(u));
    assert!(o.is_ok());
    assert_eq!(o.unwrap(), u);
}

#[test]
fn test_parse_failure() {
    assert!(string_to_uuid128(String::from("0000ACAB-0000-1Z00-8000-00805F9B34FB")).is_err());
    assert!(string_to_uuid128(String::from("0000-1000-8000-00805F9B34FB")).is_err());
}

#[test]
fn uuid16_expansion() {
    assert_eq!(
        uuid16_to_uuid128(0xACAB),
        0x0000ACAB_0000_1000_8000_00805F9B34FB
    );
    assert_eq!(uuid16_to_uuid128(0), BASE_UUID);
}

#[test]
fn uuid32_expansion() {
    assert_eq!(
        uuid32_to_uuid128(0xFFFFFFFF),
        0xFFFFFFFF_0000_1000_8000_00805F9B34FB
    );
}

#[test]
fn format_exact() {
    assert_eq!(
        uuid128_to_string(0x0000ACAB_0000_1000_8000_00805F9B34FB),
        "0000ACAB-0000-1000-8000-00805F9B34FB"
    );
    assert_eq!(
        uuid128_to_string(0),
        "00000000-0000-0000-0000-000000000000"
    );
    assert_eq!(
        uuid128_to_string(u128::MAX),
        "FFFFFFFF-FFFF-FFFF-FFFF-FFFFFFFFFFFF"
    );
}

#[test]
fn parse_exact() {
    assert_eq!(
        string_to_uuid128(String::from("0000ACAB-0000-1000-8000-00805F9B34FB")),
        Ok(0x0000ACAB_0000_1000_8000_00805F9B34FB)
    );
    // Lowercase digits parse to the same value.
    assert_eq!(
        string_to_uuid128(String::from("0000acab-0000-1000-8000-00805f9b34fb")),
        Ok(0x0000ACAB_0000_1000_8000_00805F9B34FB)
    );
}

#[test]
fn parse_error_variants() {
    // A group with a character that is no hexadecimal digit.
    assert_eq!(
        string_to_uuid128(String::from("0000ACAB-0000-1Z00-8000-00805F9B34FB")),
        Err(ParseUuidError::ParseInt)
    );
    // Four groups only.
    assert_eq!(
        string_to_uuid128(String::from("0000-1000-8000-00805F9B34FB")),
        Err(ParseUuidError::Incomplete)
    );
    // Six groups.
    assert_eq!(
        string_to_uuid128(String::from("0-1-2-3-4-5")),
        Err(ParseUuidError::Incomplete)
    );
    // An empty group.
    assert_eq!(
        string_to_uuid128(String::from("")),
        Err(ParseUuidError::ParseInt)
    );
    assert_eq!(
        string_to_uuid128(String::from("0000ACAB--0000-1000-00805F9B34FB")),
        Err(ParseUuidError::ParseInt)
    );
    // A group over 128 bits.
    assert_eq!(
        string_to_uuid128(String::from("FFFFFFFFFFFFFFFFFFFFFFFFFFFFFFFFF-0-0-0-0")),
        Err(ParseUuidError::ParseInt)
    );
}

#[test]
fn parse_short_groups() {
    // Groups need not be zero-padded to their display width.
    assert_eq!(
        string_to_uuid128(String::from("ACAB-0-1000-8000-805F9B34FB")),
        Ok(0x0000ACAB_0000_1000_8000_00805F9B34FB)
    );
}
