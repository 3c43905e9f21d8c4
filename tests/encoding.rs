use hexo::encoding::{decimal_string, decode_byte, decode_bytes_from_string, parse_u32_radix};

#[test]
fn given_valid_bytes_then_decode() {
    assert_eq!(decode_byte("00".to_string()).unwrap(), vec![0]);
    assert_eq!(decode_byte("01".to_string()).unwrap(), vec![1]);
    assert_eq!(decode_byte("ff".to_string()).unwrap(), vec![255]);
    assert_eq!(decode_byte("0001".to_string()).unwrap(), vec![0, 1]);
    assert_eq!(decode_byte("0102".to_string()).unwrap(), vec![1, 2]);
    assert_eq!(decode_byte("ff00".to_string()).unwrap(), vec![255, 0]);
    assert_eq!(decode_byte("ff01".to_string()).unwrap(), vec![255, 1]);
    assert_eq!(decode_byte("ff02".to_string()).unwrap(), vec![255, 2]);
    assert_eq!(decode_byte("ff03".to_string()).unwrap(), vec![255, 3]);
    assert_eq!(decode_byte("ff04".to_string()).unwrap(), vec![255, 4]);
    assert_eq!(decode_byte("ff05".to_string()).unwrap(), vec![255, 5]);
    assert_eq!(decode_byte("ff06".to_string()).unwrap(), vec![255, 6]);
    assert_eq!(decode_byte("ff07".to_string()).unwrap(), vec![255, 7]);
    assert_eq!(decode_byte("ff08".to_string()).unwrap(), vec![255, 8]);
    assert_eq!(decode_byte("ff09".to_string()).unwrap(), vec![255, 9]);
    assert_eq!(decode_byte("ff0a".to_string()).unwrap(), vec![255, 10]);
    assert_eq!(decode_byte("ff0b".to_string()).unwrap(), vec![255, 11]);
    assert_eq!(decode_byte("ff0c".to_string()).unwrap(), vec![255, 12]);
    assert_eq!(decode_byte("ff0d".to_string()).unwrap(), vec![255, 13]);
    assert_eq!(decode_byte("ff0e".to_string()).unwrap(), vec![255, 14]);
    assert_eq!(decode_byte("ff0f".to_string()).unwrap(), vec![255, 15]);
    assert_eq!(decode_byte("ff10".to_string()).unwrap(), vec![255, 16]);
    assert_eq!(decode_byte("ff11".to_string()).unwrap(), vec![255, 17]);
}

#[test]
fn given_invalid_bytes_then_error() {
    assert!(decode_byte("0".to_string()).is_err());
    assert!(decode_byte("0z".to_string()).is_err());
    assert!(decode_byte("z0".to_string()).is_err());
    assert!(decode_byte("z".to_string()).is_err());
}

#[test]
fn hex_round_trips_through_lowercase_text() {
    let text = "00ff7f80a5";
    let bytes = decode_bytes_from_string(text).unwrap();
    assert_eq!(bytes, vec![0x00, 0xff, 0x7f, 0x80, 0xa5]);
    let encoded: String = bytes.iter().map(|b| format!("{:02x}", b)).collect();
    assert_eq!(encoded, text);
    assert_eq!(decode_bytes_from_string("ABcd").unwrap(), vec![0xab, 0xcd]);
    assert_eq!(decode_bytes_from_string("").unwrap(), Vec::<u8>::new());
}

#[test]
fn hex_rejects_odd_length_and_non_digits() {
    assert!(decode_bytes_from_string("abc").is_err());
    assert!(decode_bytes_from_string("+f").is_err());
    assert!(decode_bytes_from_string("\u{e9}0").is_err());
}

#[test]
fn radix_parsing() {
    assert_eq!(parse_u32_radix("10", 10), Some(10));
    assert_eq!(parse_u32_radix("+ff", 16), Some(255));
    assert_eq!(parse_u32_radix("FF", 16), Some(255));
    assert_eq!(parse_u32_radix("101", 2), Some(5));
    assert_eq!(parse_u32_radix("z", 36), Some(35));
    assert_eq!(parse_u32_radix("4294967295", 10), Some(u32::MAX));
    assert_eq!(parse_u32_radix("4294967296", 10), None);
    assert_eq!(parse_u32_radix("", 10), None);
    assert_eq!(parse_u32_radix("+", 10), None);
    assert_eq!(parse_u32_radix("-1", 10), None);
    assert_eq!(parse_u32_radix("12", 2), None);
    assert_eq!(parse_u32_radix("1", 1), None);
    assert_eq!(parse_u32_radix("1", 37), None);
}

#[test]
fn decimal_names() {
    assert_eq!(decimal_string(0), "0");
    assert_eq!(decimal_string(7), "7");
    assert_eq!(decimal_string(10), "10");
    assert_eq!(decimal_string(1234), "1234");
}
