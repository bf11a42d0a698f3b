use rmore::number::{format_address, format_i32, parse_u16, parse_usize, push_byte_hex};

#[test]
fn decimal_writing() {
    assert_eq!(format_i32(0), "0");
    assert_eq!(format_i32(42), "42");
    assert_eq!(format_i32(-42), "-42");
    assert_eq!(format_i32(i32::MIN), "-2147483648");
    assert_eq!(format_i32(i32::MAX), "2147483647");
}

#[test]
fn address_writing() {
    assert_eq!(format_address(0), "0x000000");
    assert_eq!(format_address(255), "0x0000ff");
    assert_eq!(format_address(0x12345678), "0x12345678");
    assert_eq!(format_address(-1), "0xffffffff");
    assert_eq!(format_address(0x1000000), "0x1000000");
}

#[test]
fn byte_writing() {
    let mut s = String::from("x");
    push_byte_hex(&mut s, 0x0a);
    push_byte_hex(&mut s, 0xff);
    assert_eq!(s, "x0aff");
}

#[test]
fn number_reading() {
    assert_eq!(parse_usize("+5").ok(), Some(5));
    assert_eq!(parse_usize("007").ok(), Some(7));
    assert!(parse_usize("+").is_err());
    assert!(parse_usize("").is_err());
    assert!(parse_usize(" 5").is_err());
    assert_eq!(parse_u16("65535").ok(), Some(65535));
    assert!(parse_u16("65536").is_err());
}
