use tcpserver::simple_utils::SimpleUtils;

#[test]
fn test_current_timestamp() {
    let timestamp1 = SimpleUtils::current_timestamp();
    assert!(timestamp1 > 0);
    assert!(timestamp1 > 1_600_000_000);
    let timestamp2 = SimpleUtils::current_timestamp();
    assert!(timestamp2 >= timestamp1);
}

#[test]
fn test_bytes_to_hex() {
    let test_cases = vec![
        (vec![0x00], "00"),
        (vec![0xFF], "ff"),
        (vec![0x12, 0x34], "1234"),
        (vec![0xAB, 0xCD, 0xEF], "abcdef"),
        (vec![], ""),
    ];
    for (bytes, expected) in test_cases {
        let result = SimpleUtils::bytes_to_hex(&bytes);
        assert_eq!(result, expected);
    }
}

#[test]
fn test_hex_to_bytes() {
    let test_cases = vec![
        ("00", vec![0x00]),
        ("ff", vec![0xFF]),
        ("1234", vec![0x12, 0x34]),
        ("ABCDEF", vec![0xAB, 0xCD, 0xEF]),
        ("0x1234", vec![0x12, 0x34]),
        ("", vec![]),
    ];
    for (hex, expected) in test_cases {
        let result = SimpleUtils::hex_to_bytes(hex).unwrap();
        assert_eq!(result, expected);
    }
}

#[test]
fn test_hex_conversion_errors() {
    let error_cases = vec!["123", "GG", "1Z34"];
    for hex in error_cases {
        let result = SimpleUtils::hex_to_bytes(hex);
        assert!(result.is_err());
    }
}

#[test]
fn test_hex_roundtrip() {
    let original_data = vec![
        vec![0x00, 0x01, 0x02, 0x03],
        vec![0xFF, 0xFE, 0xFD, 0xFC],
        vec![0x12, 0x34, 0x56, 0x78, 0x9A, 0xBC, 0xDE, 0xF0],
        vec![],
    ];
    for data in original_data {
        let hex = SimpleUtils::bytes_to_hex(&data);
        let converted_back = SimpleUtils::hex_to_bytes(&hex).unwrap();
        assert_eq!(data, converted_back);
    }
}

#[test]
fn hex_input_is_trimmed_and_one_leading_prefix_dropped() {
    assert_eq!(SimpleUtils::hex_to_bytes("  0x0a  ").unwrap(), vec![0x0a]);
    assert_eq!(SimpleUtils::hex_to_bytes("0x").unwrap(), Vec::<u8>::new());
    assert_eq!(SimpleUtils::hex_to_bytes("0x0x0b"), Err("잘못된 16진수"));
    assert_eq!(SimpleUtils::hex_to_bytes("120x34"), Err("잘못된 16진수"));
    assert_eq!(SimpleUtils::hex_to_bytes("+f"), Err("잘못된 16진수"));
    assert_eq!(SimpleUtils::hex_to_bytes("0x48656c6c6f").unwrap(), b"Hello".to_vec());
    assert_eq!(SimpleUtils::hex_to_bytes("abc"), Err("홀수 길이 16진수"));
}

#[test]
fn timestamps_from_epoch_seconds() {
    assert_eq!(SimpleUtils::timestamp_from_epoch_secs(Some(1_700_000_000)), 1_700_000_000);
    assert_eq!(SimpleUtils::timestamp_from_epoch_secs(None), 0);
    assert_eq!(SimpleUtils::timestamp_from_epoch_secs(Some(0)), 0);
    assert!(SimpleUtils::current_timestamp() > 1_600_000_000);
}

#[test]
fn hex_text_is_trimmed_of_unicode_whitespace() {
    assert_eq!(SimpleUtils::hex_to_bytes(" \u{3000}0a0b\n\t"), Ok(vec![0x0a, 0x0b]));
    assert_eq!(SimpleUtils::hex_to_bytes("\u{2029}0xff\u{a0}"), Ok(vec![0xff]));
    assert_eq!(SimpleUtils::hex_to_bytes("   "), Ok(vec![]));
    assert_eq!(SimpleUtils::hex_to_bytes("0a 0bc"), Err("잘못된 16진수"));
    assert_eq!(SimpleUtils::hex_to_bytes("\u{200b}0a0"), Err("잘못된 UTF-8"));
}
