use skywatcher_rs::codec::{decode_response, encode_command, upper_hex, Variant};
use skywatcher_rs::error::DeviceError;

#[test]
fn encodes_hand_controller_command_with_payload() {
    assert_eq!(encode_command(Variant::SynScan, 0x4b, Some(vec![0x78])), Some(vec![0x4b, 0x78]));
    assert_eq!(encode_command(Variant::SynScan, 0x54, Some(vec![2])), Some(vec![0x54, 0x02]));
    assert_eq!(encode_command(Variant::SynScan, 0x56, None), Some(vec![0x56]));
}

#[test]
fn encodes_motor_board_command_with_carriage_return() {
    assert_eq!(encode_command(Variant::EqMod, 0x3a4631, None), Some(vec![0x3a, 0x46, 0x31, 0x0d]));
    assert_eq!(
        encode_command(Variant::EqMod, 0x3a4531, Some(b"0A".to_vec())),
        Some(vec![0x3a, 0x45, 0x31, 0x30, 0x41, 0x0d])
    );
}

#[test]
fn odd_opcode_has_no_encoding() {
    assert_eq!(encode_command(Variant::SynScan, 0x123, None), None);
    assert_eq!(encode_command(Variant::EqMod, 0x5, Some(vec![1])), None);
}

#[test]
fn upper_hex_digits() {
    assert_eq!(upper_hex(0), b"0".to_vec());
    assert_eq!(upper_hex(0x3a6a31), b"3A6A31".to_vec());
    assert_eq!(upper_hex(u32::MAX), b"FFFFFFFF".to_vec());
}

#[test]
fn decodes_motor_board_answers() {
    assert_eq!(decode_response(Variant::EqMod, b"=123\r".to_vec()), Ok(String::from("123")));
    assert_eq!(decode_response(Variant::EqMod, b"=\r".to_vec()), Ok(String::new()));
    assert_eq!(decode_response(Variant::EqMod, b"!0\r".to_vec()), Err(DeviceError::InvalidValue));
    assert_eq!(decode_response(Variant::EqMod, b"\r".to_vec()), Err(DeviceError::InvalidValue));
}

#[test]
fn decodes_hand_controller_answers() {
    assert_eq!(decode_response(Variant::SynScan, b"abc#".to_vec()), Ok(String::from("abc")));
    assert_eq!(decode_response(Variant::SynScan, vec![0, 0x23]), Ok(String::from("\0")));
    assert_eq!(decode_response(Variant::SynScan, vec![0xff, 0x23]), Err(DeviceError::InvalidValue));
    assert_eq!(decode_response(Variant::SynScan, b"abc".to_vec()), Err(DeviceError::InvalidValue));
}

#[test]
fn terminators() {
    assert_eq!(Variant::EqMod.terminator(), 0x0d);
    assert_eq!(Variant::SynScan.terminator(), 0x23);
}
