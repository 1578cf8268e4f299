//! The parameter bytes of the servo commands: what each setting command
//! sends, and what each reading command makes of the bytes that come back.
use crate::byte_order::{
    i16_from_le, i16_le_bytes, read_i16_le, read_u16_le, u16_from_le, u16_le_bytes,
    write_i16_le, write_u16_le,
};
use crate::error::Lx16aError;
use vstd::prelude::*;
use vstd::slice::slice_subrange;

verus! {

/// The operating mode of a servo.
#[derive(Clone, Copy, Debug, PartialEq, Eq, Structural)]
pub enum Lx16aMode {
    /// Position control.
    Servo,
    /// Continuous rotation at the given speed.
    Speed(i16),
}

/// The four parameter bytes that select `mode`: all zero for position
/// control; for motor mode 1, 0 and the speed, low byte first.
pub open spec fn spec_mode_params(mode: Lx16aMode) -> Seq<u8> {
    match mode {
        Lx16aMode::Servo => seq![0u8, 0u8, 0u8, 0u8],
        Lx16aMode::Speed(speed) => seq![1u8, 0u8] + i16_le_bytes(speed),
    }
}

/// The mode that four parameter bytes report: 0 is position control, 1 is
/// motor mode with the speed in bytes 2 and 3; any other first byte is invalid.
pub open spec fn spec_mode_from_params(params: Seq<u8>) -> Result<Lx16aMode, Lx16aError> {
    if params[0] == 0 {
        Ok(Lx16aMode::Servo)
    } else if params[0] == 1 {
        Ok(Lx16aMode::Speed(i16_from_le(params[2], params[3])))
    } else {
        Err(Lx16aError::InvalidMode(params[0]))
    }
}

/// The load state byte: 1 when the motor is powered, 0 when it is unloaded.
pub open spec fn spec_powered_byte(powered: bool) -> u8 {
    if powered {
        1
    } else {
        0
    }
}

/// The load state that a byte reports; only 0 and 1 are valid.
pub open spec fn spec_powered_from_byte(b: u8) -> Result<bool, Lx16aError> {
    if b == 0 {
        Ok(false)
    } else if b == 1 {
        Ok(true)
    } else {
        Err(Lx16aError::InvalidPowered(b))
    }
}

/// The LED state byte: the protocol uses 0 for on and 1 for off.
pub open spec fn spec_led_byte(on: bool) -> u8 {
    if on {
        0
    } else {
        1
    }
}

/// Whether the LED is on, from the byte that reports it: 0 is on, 1 is off,
/// any other byte is invalid.
pub open spec fn spec_led_from_byte(b: u8) -> Result<bool, Lx16aError> {
    if b == 0 {
        Ok(true)
    } else if b == 1 {
        Ok(false)
    } else {
        Err(Lx16aError::InvalidLed(b))
    }
}

/// The LED error mask: bit 0 flashes on over-temperature, bit 1 on
/// over-voltage, bit 2 on a locked rotor.
pub open spec fn spec_led_err_byte(over_temp: bool, over_voltage: bool, locked_rotor: bool) -> u8 {
    ((if over_temp {
        1int
    } else {
        0int
    }) + (if over_voltage {
        2int
    } else {
        0int
    }) + (if locked_rotor {
        4int
    } else {
        0int
    })) as u8
}

/// The three flags of an LED error mask: bits 0, 1 and 2.
pub open spec fn spec_led_err_from_byte(b: u8) -> (bool, bool, bool) {
    (b & 1 == 1, b & 2 == 2, b & 4 == 4)
}

/// The temperature in degrees Celsius that a byte reports: the byte read as
/// a two's complement signed number.
pub open spec fn spec_temp_from_byte(b: u8) -> int {
    if b < 128 {
        b as int
    } else {
        b - 256
    }
}

/// The four parameter bytes of two 16-bit values, each low byte first.
pub fn encode_u16_pair(first: u16, second: u16) -> (params: Vec<u8>)
    ensures
        params@ == u16_le_bytes(first) + u16_le_bytes(second),
{
    let mut params = write_u16_le(first);
    let mut tail = write_u16_le(second);
    params.append(&mut tail);
    params
}

/// The two 16-bit values in the first four parameter bytes, each low byte first.
pub fn decode_u16_pair(params: &[u8]) -> (pair: (u16, u16))
    requires
        params@.len() >= 4,
    ensures
        pair == (u16_from_le(params@[0], params@[1]), u16_from_le(params@[2], params@[3])),
{
    let first = read_u16_le(slice_subrange(params, 0, 2));
    let second = read_u16_le(slice_subrange(params, 2, 4));
    (first, second)
}

/// The 16-bit value in the first two parameter bytes, low byte first.
pub fn decode_u16(params: &[u8]) -> (value: u16)
    requires
        params@.len() >= 2,
    ensures
        value == u16_from_le(params@[0], params@[1]),
{
    read_u16_le(params)
}

/// The four parameter bytes that select `mode`.
pub fn mode_params(mode: Lx16aMode) -> (params: Vec<u8>)
    ensures
        params@ == spec_mode_params(mode),
{
    let mut params: Vec<u8> = vec![0u8, 0u8, 0u8, 0u8];
    if let Lx16aMode::Speed(speed) = mode {
        params[0] = 1;
        let speed_bytes = write_i16_le(speed);
        params[2] = speed_bytes[0];
        params[3] = speed_bytes[1];
    }
    assert(params@ =~= spec_mode_params(mode));
    params
}

/// The mode that the first four parameter bytes of a response report.
pub fn mode_from_params(params: &[u8]) -> (mode: Result<Lx16aMode, Lx16aError>)
    requires
        params@.len() >= 4,
    ensures
        mode == spec_mode_from_params(params@),
{
    match params[0] {
        0 => Ok(Lx16aMode::Servo),
        1 => {
            let speed = read_i16_le(slice_subrange(params, 2, 4));
            Ok(Lx16aMode::Speed(speed))
        },
        _ => Err(Lx16aError::InvalidMode(params[0])),
    }
}

/// The load state byte for `powered`.
pub fn powered_byte(powered: bool) -> (b: u8)
    ensures
        b == spec_powered_byte(powered),
{
    match powered {
        false => 0,
        true => 1,
    }
}

/// The load state that byte `b` reports.
pub fn powered_from_byte(b: u8) -> (powered: Result<bool, Lx16aError>)
    ensures
        powered == spec_powered_from_byte(b),
{
    match b {
        0 => Ok(false),
        1 => Ok(true),
        _ => Err(Lx16aError::InvalidPowered(b)),
    }
}

/// The LED state byte for `on`.
pub fn led_byte(on: bool) -> (b: u8)
    ensures
        b == spec_led_byte(on),
{
    match on {
        false => 1,
        true => 0,
    }
}

/// Whether byte `b` reports the LED as on.
pub fn led_from_byte(b: u8) -> (on: Result<bool, Lx16aError>)
    ensures
        on == spec_led_from_byte(b),
{
    match b {
        0 => Ok(true),
        1 => Ok(false),
        _ => Err(Lx16aError::InvalidLed(b)),
    }
}

/// The LED error mask for the three conditions.
pub fn led_err_byte(over_temp: bool, over_voltage: bool, locked_rotor: bool) -> (mask: u8)
    ensures
        mask == spec_led_err_byte(over_temp, over_voltage, locked_rotor),
{
    let mut led_err_state: u8 = 0;
    if over_temp {
        assert(0u8 | 1u8 == 1u8) by (bit_vector);
        led_err_state |= 1;
    }
    assert(led_err_state == (if over_temp { 1u8 } else { 0u8 }));
    if over_voltage {
        let s = led_err_state;
        assert(s < 2 ==> s | 2 == s + 2) by (bit_vector);
        led_err_state |= 2;
    }
    assert(led_err_state == (if over_temp { 1int } else { 0int }) + (if over_voltage { 2int } else { 0int }));
    if locked_rotor {
        let s = led_err_state;
        assert(s < 4 ==> s | 4 == s + 4) by (bit_vector);
        led_err_state |= 4;
    }
    led_err_state
}

/// The three conditions of the LED error mask `mask`.
pub fn led_err_from_byte(mask: u8) -> (flags: (bool, bool, bool))
    ensures
        flags == spec_led_err_from_byte(mask),
{
    let over_temp = (mask & 1) == 1;
    let over_voltage = (mask & 2) == 2;
    let locked_rotor = (mask & 4) == 4;
    (over_temp, over_voltage, locked_rotor)
}

/// The temperature that byte `b` reports.
pub fn temp_from_byte(b: u8) -> (temp: i8)
    ensures
        temp as int == spec_temp_from_byte(b),
{
    assert(b < 128 ==> (b as i8) as int == b as int) by (bit_vector);
    assert(b >= 128 ==> (b as i8) as int == b as int - 256) by (bit_vector);
    b as i8
}

/// Reading back the mode parameters that select a mode gives that mode.
pub proof fn lemma_mode_roundtrip(mode: Lx16aMode)
    ensures
        spec_mode_from_params(spec_mode_params(mode)) == Ok::<Lx16aMode, Lx16aError>(mode),
{
    if let Lx16aMode::Speed(speed) = mode {
        crate::byte_order::lemma_i16_le_roundtrip(speed);
    }
}

/// Reading back the load state byte for a state gives that state.
pub proof fn lemma_powered_roundtrip(powered: bool)
    ensures
        spec_powered_from_byte(spec_powered_byte(powered)) == Ok::<bool, Lx16aError>(powered),
{
}

/// Reading back the LED state byte for a state gives that state.
pub proof fn lemma_led_roundtrip(on: bool)
    ensures
        spec_led_from_byte(spec_led_byte(on)) == Ok::<bool, Lx16aError>(on),
{
}

/// Reading back the LED error mask for three conditions gives those conditions.
pub proof fn lemma_led_err_roundtrip(over_temp: bool, over_voltage: bool, locked_rotor: bool)
    ensures
        spec_led_err_from_byte(spec_led_err_byte(over_temp, over_voltage, locked_rotor)) == (
            over_temp,
            over_voltage,
            locked_rotor,
        ),
{
    let b = spec_led_err_byte(over_temp, over_voltage, locked_rotor);
    assert(b == 0u8 || b == 1u8 || b == 2u8 || b == 3u8 || b == 4u8 || b == 5u8 || b == 6u8
        || b == 7u8);
    assert(b < 8 ==> (b & 1 == 1 <==> b % 2 == 1)) by (bit_vector);
    assert(b < 8 ==> (b & 2 == 2 <==> b % 4 >= 2)) by (bit_vector);
    assert(b < 8 ==> (b & 4 == 4 <==> b >= 4)) by (bit_vector);
}

/// Reading back the four bytes of two 16-bit values gives those values.
pub proof fn lemma_u16_pair_roundtrip(first: u16, second: u16)
    ensures
        ({
            let params = u16_le_bytes(first) + u16_le_bytes(second);
            (u16_from_le(params[0], params[1]), u16_from_le(params[2], params[3])) == (
                first,
                second,
            )
        }),
{
    crate::byte_order::lemma_u16_le_roundtrip(first);
    crate::byte_order::lemma_u16_le_roundtrip(second);
}

} // verus!
