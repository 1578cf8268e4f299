use lx16a::codec::{
    decode_u16, decode_u16_pair, encode_u16_pair, led_byte, led_err_byte, led_err_from_byte,
    led_from_byte, mode_from_params, mode_params, powered_byte, powered_from_byte,
    temp_from_byte,
};
use lx16a::{Lx16aError, Lx16aMode};

#[test]
fn u16_pair_is_little_endian() {
    assert_eq!(encode_u16_pair(500, 1000), vec![0xF4, 0x01, 0xE8, 0x03]);
    assert_eq!(encode_u16_pair(0x1234, 0xFFFF), vec![0x34, 0x12, 0xFF, 0xFF]);
    assert_eq!(decode_u16_pair(&[0xF4, 0x01, 0xE8, 0x03]), (500, 1000));
    assert_eq!(decode_u16(&[0x34, 0x12]), 0x1234);
}

#[test]
fn u16_pair_roundtrip() {
    for &(a, b) in &[(0u16, 0u16), (1, 65535), (0x00FF, 0xFF00), (12000, 4500)] {
        assert_eq!(decode_u16_pair(&encode_u16_pair(a, b)), (a, b));
    }
}

#[test]
fn mode_params_encoding() {
    assert_eq!(mode_params(Lx16aMode::Servo), vec![0, 0, 0, 0]);
    assert_eq!(mode_params(Lx16aMode::Speed(1000)), vec![1, 0, 0xE8, 0x03]);
    assert_eq!(mode_params(Lx16aMode::Speed(-1000)), vec![1, 0, 0x18, 0xFC]);
}

#[test]
fn mode_from_params_decoding() {
    assert_eq!(mode_from_params(&[0, 7, 7, 7]).unwrap(), Lx16aMode::Servo);
    assert_eq!(mode_from_params(&[1, 0, 0x18, 0xFC]).unwrap(), Lx16aMode::Speed(-1000));
    assert!(matches!(mode_from_params(&[2, 0, 0, 0]), Err(Lx16aError::InvalidMode(2))));
}

#[test]
fn mode_roundtrip() {
    for mode in [Lx16aMode::Servo, Lx16aMode::Speed(0), Lx16aMode::Speed(i16::MIN), Lx16aMode::Speed(i16::MAX)] {
        assert_eq!(mode_from_params(&mode_params(mode)).unwrap(), mode);
    }
}

#[test]
fn powered_encoding() {
    assert_eq!(powered_byte(true), 1);
    assert_eq!(powered_byte(false), 0);
    assert!(powered_from_byte(1).unwrap());
    assert!(!powered_from_byte(0).unwrap());
    assert!(matches!(powered_from_byte(2), Err(Lx16aError::InvalidPowered(2))));
    for p in [true, false] {
        assert_eq!(powered_from_byte(powered_byte(p)).unwrap(), p);
    }
}

#[test]
fn led_encoding() {
    assert_eq!(led_byte(true), 0);
    assert_eq!(led_byte(false), 1);
    assert!(led_from_byte(0).unwrap());
    assert!(!led_from_byte(1).unwrap());
    assert!(matches!(led_from_byte(9), Err(Lx16aError::InvalidLed(9))));
    for on in [true, false] {
        assert_eq!(led_from_byte(led_byte(on)).unwrap(), on);
    }
}

#[test]
fn led_err_encoding() {
    assert_eq!(led_err_byte(false, false, false), 0);
    assert_eq!(led_err_byte(true, false, false), 1);
    assert_eq!(led_err_byte(false, true, false), 2);
    assert_eq!(led_err_byte(false, false, true), 4);
    assert_eq!(led_err_byte(true, true, true), 7);
    assert_eq!(led_err_from_byte(5), (true, false, true));
    assert_eq!(led_err_from_byte(0xFA), (false, true, false));
    for a in [true, false] {
        for b in [true, false] {
            for c in [true, false] {
                assert_eq!(led_err_from_byte(led_err_byte(a, b, c)), (a, b, c));
            }
        }
    }
}

#[test]
fn temperature_is_signed() {
    assert_eq!(temp_from_byte(40), 40);
    assert_eq!(temp_from_byte(127), 127);
    assert_eq!(temp_from_byte(0xFF), -1);
    assert_eq!(temp_from_byte(0x80), -128);
}
