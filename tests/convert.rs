use skywatcher_rs::convert::swap_bytes32;
use skywatcher_rs::{str_24bits_to_u32, str_to_u16, str_to_u32, TrackingMode};

#[test]
fn test_reverse_str() {
    assert_eq!(str_24bits_to_u32(String::from("c3b2a1")), Some(0xa1b2c300));
}

#[test]
fn test_str_to_u16() {
    assert_eq!(str_to_u16(String::from("12CE")), Some(4814));
    assert_eq!(str_to_u16(String::from("34AB")), Some(13483));
}

#[test]
fn test_str_to_u32() {
    assert_eq!(str_to_u32(String::from("12AB05")), Some(1_223_429));
}

#[test]
fn reverse_of_other_fields() {
    assert_eq!(str_24bits_to_u32(String::from("a29701")), Some(0x0197a200));
    assert_eq!(str_24bits_to_u32(String::from("000000")), Some(0));
    assert_eq!(str_24bits_to_u32(String::from("zz0000")), None);
    assert_eq!(str_24bits_to_u32(String::from("")), None);
}

#[test]
fn swap_reverses_all_four_bytes() {
    assert_eq!(swap_bytes32(0x01020304), 0x04030201);
    assert_eq!(swap_bytes32(swap_bytes32(0xdeadbeef)), 0xdeadbeef);
}

#[test]
fn hex_parse_edges() {
    assert_eq!(str_to_u16(String::from("FFFF")), Some(65535));
    assert_eq!(str_to_u16(String::from("10000")), None);
    assert_eq!(str_to_u16(String::from("")), None);
    assert_eq!(str_to_u16(String::from("+1f")), Some(31));
    assert_eq!(str_to_u16(String::from("+")), None);
    assert_eq!(str_to_u16(String::from("-1")), None);
    assert_eq!(str_to_u16(String::from("12 4")), None);
    assert_eq!(str_to_u16(String::from("é1")), None);
    assert_eq!(str_to_u32(String::from("FFFFFFFF")), Some(u32::MAX));
    assert_eq!(str_to_u32(String::from("100000000")), None);
    assert_eq!(str_to_u32(String::from("0000000000ab")), Some(0xab));
}

#[test]
fn tracking_mode_names_and_codes() {
    assert_eq!(TrackingMode::from_name("Equatorial"), Some(TrackingMode::Eq));
    assert_eq!(TrackingMode::from_name("PEC"), Some(TrackingMode::Pec));
    assert_eq!(TrackingMode::from_name("pec"), None);
    assert_eq!(TrackingMode::AltAz.name(), "AltAz");
    assert_eq!(TrackingMode::Pec.code(), 3);
    assert_eq!(TrackingMode::from_answer("\u{1}"), Some(TrackingMode::AltAz));
    assert_eq!(TrackingMode::from_answer("\u{4}"), None);
    assert_eq!(TrackingMode::from_answer(""), None);
}
