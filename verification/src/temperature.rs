//! Fixed-point temperature codec.
//!
//! A temperature travels on the wire as a signed 16-bit little-endian
//! integer counting tenths of a degree Celsius, so the representable range
//! is -3276.8 °C to 3276.7 °C. Two values are reserved as sentinels: -10
//! (that is, -1.0 °C) marks a disconnected probe in real-time data, and
//! -3000 (-300.0 °C) marks "no target temperature" when encoding a target
//! range's lower bound.

use vstd::prelude::*;

verus! {

/// Wire value of a disconnected probe, in tenths of a degree: -1.0 °C.
pub const ABSENT_PROBE_DECIDEGREES: i16 = -10;

/// Lower bound meaning "no target temperature", in tenths of a degree:
/// -300.0 °C.
pub const NO_TARGET_DECIDEGREES: i32 = -3000;

/// An error from this library: the given temperature, in tenths of a
/// degree Celsius, does not fit the 16-bit wire representation.
#[derive(Clone, Copy, Debug, PartialEq, Eq, Structural)]
pub enum Error {
    TemperatureEncodingError(i32),
}

/// The temperature, in tenths of a degree, carried by a little-endian
/// signed 16-bit byte pair.
pub open spec fn spec_decode_temperature(b0: u8, b1: u8) -> int {
    let unsigned = b0 + 256 * b1;
    if unsigned < 32768 {
        unsigned
    } else {
        unsigned - 65536
    }
}

/// The little-endian signed 16-bit byte pair of a temperature given in
/// tenths of a degree.
pub open spec fn spec_encode_temperature(decidegrees: int) -> Seq<u8>
    recommends
        -32768 <= decidegrees <= 32767,
{
    let unsigned = if decidegrees >= 0 {
        decidegrees
    } else {
        decidegrees + 65536
    };
    seq![(unsigned % 256) as u8, (unsigned / 256) as u8]
}

/// Whether a temperature in tenths of a degree fits the wire form.
pub open spec fn temperature_in_range(decidegrees: int) -> bool {
    -32768 <= decidegrees <= 32767
}

/// Encode a temperature, given in tenths of a degree Celsius, as its
/// 2-byte little-endian wire form. Values outside the signed 16-bit range
/// are rejected, never clamped.
pub fn encode_temperature(decidegrees: i32) -> (r: Result<[u8; 2], Error>)
    ensures
        r is Ok <==> temperature_in_range(decidegrees as int),
        r matches Ok(bytes) ==> {
            &&& bytes@ == spec_encode_temperature(decidegrees as int)
            &&& spec_decode_temperature(bytes[0], bytes[1]) == decidegrees as int
        },
        r matches Err(e) ==> e == Error::TemperatureEncodingError(decidegrees),
{
    if decidegrees < -32768 || decidegrees > 32767 {
        return Err(Error::TemperatureEncodingError(decidegrees));
    }
    let unsigned: u16 = if decidegrees >= 0 {
        decidegrees as u16
    } else {
        (decidegrees + 65536) as u16
    };
    let bytes = [(unsigned % 256) as u8, (unsigned / 256) as u8];
    proof {
        lemma_u16_le_bytes(unsigned);
    }
    Ok(bytes)
}

/// Decode a 2-byte little-endian wire form into a temperature in tenths
/// of a degree Celsius. Total: every byte pair is a valid temperature.
pub fn decode_temperature(bytes: [u8; 2]) -> (t: i16)
    ensures
        t as int == spec_decode_temperature(bytes[0], bytes[1]),
{
    let unsigned: u16 = bytes[0] as u16 + 256 * (bytes[1] as u16);
    if unsigned < 32768 {
        unsigned as i16
    } else {
        (unsigned as i32 - 65536) as i16
    }
}

/// A 16-bit value is the sum of its low byte and 256 times its high byte.
proof fn lemma_u16_le_bytes(w: u16)
    ensures
        (w % 256) + 256 * (w / 256) == w,
        w / 256 < 256,
{
    assert((w % 256) + 256 * (w / 256) == w) by (nonlinear_arith);
    assert(w / 256 < 256) by (nonlinear_arith);
}

/// Round trip: decoding the wire form of any representable temperature
/// gives back exactly that temperature.
pub proof fn lemma_temperature_round_trip(decidegrees: int)
    requires
        temperature_in_range(decidegrees),
    ensures
        spec_decode_temperature(
            spec_encode_temperature(decidegrees)[0],
            spec_encode_temperature(decidegrees)[1],
        ) == decidegrees,
{
    let unsigned = if decidegrees >= 0 {
        decidegrees
    } else {
        decidegrees + 65536
    };
    assert((unsigned % 256) + 256 * (unsigned / 256) == unsigned) by (nonlinear_arith)
        requires 0 <= unsigned < 65536;
    assert(unsigned / 256 < 256) by (nonlinear_arith)
        requires 0 <= unsigned < 65536;
}

} // verus!
