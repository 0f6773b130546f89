use snowflake_id::SnowflakeError;
use snowflake_id::SnowflakeId;
use snowflake_id::MAX_MACHINE_ID;
use snowflake_id::MAX_SEQUENCE;
use snowflake_id::MAX_TIMESTAMP_MS;
use std::convert::TryFrom;
use std::str::FromStr;

#[test]
fn test_display() {
    let id = SnowflakeId::new(987654321098765432).unwrap();
    assert_eq!(id.to_string(), "987654321098765432");
}

#[test]
fn test_from_str_rejects_negative() {
    let result = SnowflakeId::from_str("-123");
    assert!(result.is_err());

    match result {
        Err(SnowflakeError::InvalidId(msg)) => {
            assert!(msg.contains("cannot be negative"));
        }
        _ => panic!("Expected InvalidId error"),
    }
}

#[test]
fn test_from_str_rejects_invalid() {
    let result = SnowflakeId::from_str("not_a_number");
    assert!(result.is_err());

    match result {
        Err(SnowflakeError::InvalidId(msg)) => {
            assert!(msg.contains("Failed to parse"));
        }
        _ => panic!("Expected InvalidId error"),
    }
}

#[test]
fn test_from_str_accepts_valid() {
    let result = SnowflakeId::from_str("123456789012345678");
    assert!(result.is_ok());

    let id = result.unwrap();
    assert_eq!(id.id(), 123456789012345678);
}

#[test]
fn test_from_str_accepts_zero() {
    let result = SnowflakeId::from_str("0");
    assert!(result.is_ok());

    let id = result.unwrap();
    assert_eq!(id.id(), 0);
}

#[test]
fn test_new_rejects_negative() {
    let result = SnowflakeId::new(-123);
    assert!(result.is_err());

    match result {
        Err(SnowflakeError::InvalidId(msg)) => {
            assert!(msg.contains("cannot be negative"));
        }
        _ => panic!("Expected InvalidId error"),
    }
}

#[test]
fn test_try_from_rejects_negative() {
    let result = SnowflakeId::try_from(-456i64);
    assert!(result.is_err());
}

#[test]
fn test_try_from_accepts_valid() {
    let result = SnowflakeId::try_from(123456789012345678i64);
    assert!(result.is_ok());

    let id = result.unwrap();
    assert_eq!(id.id(), 123456789012345678);
}

#[test]
fn from_str_through_the_trait() {
    let id: SnowflakeId = "42".parse().unwrap();
    assert_eq!(id.id(), 42);
    let refused: Result<SnowflakeId, SnowflakeError> = "4 2".parse();
    assert!(matches!(refused, Err(SnowflakeError::InvalidId(_))));
}

#[test]
fn from_str_edge_cases() {
    assert_eq!(SnowflakeId::from_str("+17").unwrap().id(), 17);
    assert_eq!(SnowflakeId::from_str("-0").unwrap().id(), 0);
    assert_eq!(SnowflakeId::from_str("0007").unwrap().id(), 7);
    assert_eq!(
        SnowflakeId::from_str("9223372036854775807").unwrap().id(),
        i64::MAX
    );
    for text in ["", "+", "-", " 1", "1 ", "1_000", "0x10", "9223372036854775808", "\u{0661}\u{0662}\u{0663}"] {
        match SnowflakeId::from_str(text) {
            Err(SnowflakeError::InvalidId(msg)) => {
                assert!(msg.starts_with("Failed to parse: "), "{text:?}: {msg}");
                assert!(msg.len() > "Failed to parse: ".len());
            }
            _ => panic!("{text:?} was not refused as no numeral"),
        }
    }
    match SnowflakeId::from_str("-9223372036854775808") {
        Err(SnowflakeError::InvalidId(msg)) => {
            assert_eq!(msg, "Snowflake ID cannot be negative")
        }
        _ => panic!("the least integer was not refused as negative"),
    }
}

#[test]
fn negative_and_invalid_texts_have_different_messages() {
    let negative = SnowflakeId::from_str("-1").unwrap_err().message();
    let invalid = SnowflakeId::from_str("one").unwrap_err().message();
    assert_eq!(negative, "Invalid snowflake ID: Snowflake ID cannot be negative");
    assert!(invalid.starts_with("Invalid snowflake ID: Failed to parse: "));
    assert_ne!(negative, invalid);
}

#[test]
fn text_round_trip() {
    for value in [0i64, 1, 9, 10, 99, 100, 4198401, 123456789012345678, i64::MAX] {
        let id = SnowflakeId::new(value).unwrap();
        let text = id.to_string();
        assert_eq!(text, format!("{}", value));
        assert_eq!(SnowflakeId::from_str(&text).unwrap(), id);
    }
}

#[test]
fn to_string_of_an_unchecked_negative() {
    assert_eq!(SnowflakeId::new_unchecked(-45).to_string(), "-45");
    assert_eq!(
        SnowflakeId::new_unchecked(i64::MIN).to_string(),
        "-9223372036854775808"
    );
}

#[test]
fn new_accepts_zero_and_the_largest() {
    assert_eq!(SnowflakeId::new(0).unwrap().id(), 0);
    assert_eq!(SnowflakeId::new(i64::MAX).unwrap().id(), i64::MAX);
    match SnowflakeId::new(-1) {
        Err(SnowflakeError::InvalidId(msg)) => {
            assert_eq!(msg, "Snowflake ID cannot be negative")
        }
        _ => panic!("Expected InvalidId error"),
    }
}

#[test]
fn into_i64_gives_the_value() {
    let id = SnowflakeId::new(77).unwrap();
    let value: i64 = id.into();
    assert_eq!(value, 77);
    assert_eq!(i64::from(SnowflakeId::new_unchecked(-3)), -3);
}

#[test]
fn inherent_fields_of_a_known_value() {
    // (5 << 22) | (3 << 12) | 9
    let id = SnowflakeId::new(20983817).unwrap();
    assert_eq!(id.timestamp(), 5);
    assert_eq!(id.machine_id(), 3);
    assert_eq!(id.sequence(), 9);
    assert_eq!(id.timestamp_with_epoch(1000), 1005);
    assert_eq!(id.timestamp_with_epoch(-5), 0);
}

#[test]
fn fields_of_the_largest_value() {
    let id = SnowflakeId::new(i64::MAX).unwrap();
    assert_eq!(id.timestamp(), MAX_TIMESTAMP_MS);
    assert_eq!(id.machine_id(), MAX_MACHINE_ID);
    assert_eq!(id.sequence(), MAX_SEQUENCE);
}

#[test]
fn ids_are_ordered_by_value() {
    let small = SnowflakeId::new(5).unwrap();
    let large = SnowflakeId::new(6).unwrap();
    assert!(small < large);
    assert_eq!(small, SnowflakeId::new_unchecked(5));
    assert_ne!(small, large);
}

#[test]
fn error_messages() {
    assert_eq!(
        SnowflakeError::InvalidMachineId(1024, 1023).message(),
        "Invalid machine ID: 1024. Must be between 0 and 1023"
    );
    assert_eq!(
        SnowflakeError::InvalidMachineId(u64::MAX, 0).message(),
        "Invalid machine ID: 18446744073709551615. Must be between 0 and 0"
    );
    assert_eq!(
        SnowflakeError::ClockMovedBackwards.message(),
        "Clock moved backwards. Refusing to generate id"
    );
    assert_eq!(
        SnowflakeError::TimestampOverflow.message(),
        "Timestamp exceeds maximum."
    );
    assert_eq!(
        SnowflakeError::GeneratorPoisoned.message(),
        "ID generator mutex was poisoned by a panicking thread"
    );
    assert_eq!(
        SnowflakeError::InvalidId("why".to_string()).message(),
        "Invalid snowflake ID: why"
    );
    assert_eq!(
        SnowflakeError::RetriesExhausted.message(),
        "Clock did not advance. Giving up on the id"
    );
}
