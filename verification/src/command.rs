//! Outbound command packet encoder.
//!
//! Every command is a fixed 6-byte packet: the opcode in the first byte,
//! opcode-specific arguments after it, zero-padded. The authentication
//! credential is a distinct fixed 15-byte blob, not opcode-structured.

use vstd::prelude::*;

use crate::event::BATTERY_LEVEL_PROPERTY_ID;
use crate::temperature::encode_temperature;
use crate::temperature::spec_encode_temperature;
use crate::temperature::temperature_in_range;
use crate::temperature::Error;
use crate::temperature::NO_TARGET_DECIDEGREES;

verus! {

/// Opcode of the target-temperature-range command.
pub const SET_TARGET_TEMP_COMMAND: u8 = 0x01;

/// Opcode of the display-unit command.
pub const SET_UNIT_COMMAND: u8 = 0x02;

/// Opcode of the real-time telemetry toggle.
pub const REAL_TIME_DATA_COMMAND: u8 = 0x0B;

/// Opcode of a property request (the battery level is the one property
/// this protocol asks for).
pub const REQUEST_PROPERTY_COMMAND: u8 = 0x08;

/// Argument byte selecting a Celsius display.
pub const UNITS_CELCIUS_ARGUMENT: u8 = 0x00;

/// Argument byte selecting a Fahrenheit display.
pub const UNITS_FAHRENHEIT_ARGUMENT: u8 = 0x01;

/// The temperature unit which the thermometer uses for its display.
/// Display-only: wire temperatures are always Celsius fixed-point.
#[derive(Clone, Copy, Debug, Eq, PartialEq, Structural)]
pub enum TemperatureUnit {
    /// ºC
    Celcius,
    /// ºF
    Fahrenheit,
}

/// The argument byte a display unit is sent as.
pub open spec fn spec_unit_argument(unit: TemperatureUnit) -> u8 {
    match unit {
        TemperatureUnit::Celcius => UNITS_CELCIUS_ARGUMENT,
        TemperatureUnit::Fahrenheit => UNITS_FAHRENHEIT_ARGUMENT,
    }
}

/// Packet selecting the display unit.
pub open spec fn spec_set_unit_command(unit: TemperatureUnit) -> Seq<u8> {
    seq![SET_UNIT_COMMAND, spec_unit_argument(unit), 0, 0, 0, 0]
}

/// Packet enabling or disabling real-time telemetry.
pub open spec fn spec_real_time_command(enable: bool) -> Seq<u8> {
    seq![REAL_TIME_DATA_COMMAND, if enable { 1u8 } else { 0u8 }, 0, 0, 0, 0]
}

/// Packet requesting a battery-level report.
pub open spec fn spec_request_battery_level_command() -> Seq<u8> {
    seq![REQUEST_PROPERTY_COMMAND, BATTERY_LEVEL_PROPERTY_ID, 0, 0, 0, 0]
}

/// Packet arming the alarm for a probe: opcode, probe index, then the two
/// bounds in wire form, lower bound first. Temperatures are in tenths of
/// a degree Celsius.
pub open spec fn spec_set_target_range_command(probe: u8, low: int, high: int) -> Seq<u8>
    recommends
        temperature_in_range(low),
        temperature_in_range(high),
{
    seq![SET_TARGET_TEMP_COMMAND, probe] + spec_encode_temperature(low)
        + spec_encode_temperature(high)
}

/// The fixed 15-byte credential blob written to authenticate; a
/// device-specific constant, opaque to this protocol.
pub open spec fn spec_credential_message() -> Seq<u8> {
    seq![0x21u8, 0x07, 0x06, 0x05, 0x04, 0x03, 0x02, 0x01, 0xb8, 0x22, 0x00, 0x00, 0x00, 0x00,
        0x00]
}

/// Encode the display-unit command.
pub fn encode_set_unit(unit: TemperatureUnit) -> (r: [u8; 6])
    ensures
        r@ == spec_set_unit_command(unit),
{
    let argument = match unit {
        TemperatureUnit::Celcius => UNITS_CELCIUS_ARGUMENT,
        TemperatureUnit::Fahrenheit => UNITS_FAHRENHEIT_ARGUMENT,
    };
    let r = [SET_UNIT_COMMAND, argument, 0, 0, 0, 0];
    proof {
        assert(r@ =~= spec_set_unit_command(unit));
    }
    r
}

/// Encode the real-time telemetry toggle.
pub fn encode_real_time_toggle(enable: bool) -> (r: [u8; 6])
    ensures
        r@ == spec_real_time_command(enable),
{
    let argument: u8 = if enable { 0x01 } else { 0x00 };
    let r = [REAL_TIME_DATA_COMMAND, argument, 0, 0, 0, 0];
    proof {
        assert(r@ =~= spec_real_time_command(enable));
    }
    r
}

/// Encode the battery-level request.
pub fn encode_request_battery_level() -> (r: [u8; 6])
    ensures
        r@ == spec_request_battery_level_command(),
{
    let r = [REQUEST_PROPERTY_COMMAND, BATTERY_LEVEL_PROPERTY_ID, 0, 0, 0, 0];
    proof {
        assert(r@ =~= spec_request_battery_level_command());
    }
    r
}

/// Encode the alarm command for a target temperature range, both bounds in
/// tenths of a degree Celsius. Fails with the offending bound, lower bound
/// checked first, when either does not fit the wire form. Any probe index
/// is accepted verbatim; the device validates it.
pub fn encode_set_target_range(probe: u8, low: i32, high: i32) -> (r: Result<[u8; 6], Error>)
    ensures
        r is Ok <==> temperature_in_range(low as int) && temperature_in_range(high as int),
        r matches Ok(bytes) ==> bytes@ == spec_set_target_range_command(
            probe,
            low as int,
            high as int,
        ),
        r matches Err(e) ==> e == Error::TemperatureEncodingError(
            if temperature_in_range(low as int) {
                high
            } else {
                low
            },
        ),
{
    let bottom_bytes = match encode_temperature(low) {
        Ok(bytes) => bytes,
        Err(e) => {
            return Err(e);
        },
    };
    let top_bytes = match encode_temperature(high) {
        Ok(bytes) => bytes,
        Err(e) => {
            return Err(e);
        },
    };
    let r = [
        SET_TARGET_TEMP_COMMAND,
        probe,
        bottom_bytes[0],
        bottom_bytes[1],
        top_bytes[0],
        top_bytes[1],
    ];
    proof {
        assert(r@ =~= spec_set_target_range_command(probe, low as int, high as int));
    }
    Ok(r)
}

/// Encode the alarm command for a single target temperature, in tenths of
/// a degree Celsius: a target range whose lower bound is the "no target"
/// sentinel.
pub fn encode_set_target_temp(probe: u8, target: i32) -> (r: Result<[u8; 6], Error>)
    ensures
        r is Ok <==> temperature_in_range(target as int),
        r matches Ok(bytes) ==> bytes@ == spec_set_target_range_command(
            probe,
            NO_TARGET_DECIDEGREES as int,
            target as int,
        ),
        r matches Err(e) ==> e == Error::TemperatureEncodingError(target),
{
    encode_set_target_range(probe, NO_TARGET_DECIDEGREES, target)
}

/// One outbound command, with its arguments. Temperatures are in tenths
/// of a degree Celsius.
#[derive(Clone, Copy, Debug, Eq, PartialEq, Structural)]
pub enum Command {
    /// Configure which unit the device display uses.
    SetTemperatureUnit { unit: TemperatureUnit },
    /// Arm the alarm for a temperature range on one probe.
    SetTargetRange { probe: u8, low: i32, high: i32 },
    /// Arm the alarm for a single target temperature on one probe.
    SetTargetTemp { probe: u8, target: i32 },
    /// Enable or disable real-time telemetry.
    EnableRealTimeData { enable: bool },
    /// Ask the device to report its battery level.
    RequestBatteryLevel,
}

/// Whether a command's temperatures all fit the wire form; commands
/// without temperatures always encode.
pub open spec fn spec_command_encodable(c: Command) -> bool {
    match c {
        Command::SetTargetRange { low, high, .. } => temperature_in_range(low as int)
            && temperature_in_range(high as int),
        Command::SetTargetTemp { target, .. } => temperature_in_range(target as int),
        _ => true,
    }
}

/// The packet an encodable command becomes.
pub open spec fn spec_command_packet(c: Command) -> Seq<u8>
    recommends
        spec_command_encodable(c),
{
    match c {
        Command::SetTemperatureUnit { unit } => spec_set_unit_command(unit),
        Command::SetTargetRange { probe, low, high } => spec_set_target_range_command(
            probe,
            low as int,
            high as int,
        ),
        Command::SetTargetTemp { probe, target } => spec_set_target_range_command(
            probe,
            NO_TARGET_DECIDEGREES as int,
            target as int,
        ),
        Command::EnableRealTimeData { enable } => spec_real_time_command(enable),
        Command::RequestBatteryLevel => spec_request_battery_level_command(),
    }
}

/// The error an unencodable command is refused with: the first
/// out-of-range bound, lower bound checked first.
pub open spec fn spec_command_error(c: Command) -> Error
    recommends
        !spec_command_encodable(c),
{
    match c {
        Command::SetTargetRange { low, high, .. } => Error::TemperatureEncodingError(
            if !temperature_in_range(low as int) {
                low
            } else {
                high
            },
        ),
        Command::SetTargetTemp { target, .. } => Error::TemperatureEncodingError(target),
        _ => Error::TemperatureEncodingError(0),
    }
}

/// Encode any command as its packet, or refuse it with the offending
/// temperature.
pub fn encode_command(c: &Command) -> (r: Result<[u8; 6], Error>)
    ensures
        r is Ok <==> spec_command_encodable(*c),
        r matches Ok(bytes) ==> bytes@ == spec_command_packet(*c),
        r matches Err(e) ==> e == spec_command_error(*c),
{
    match c {
        Command::SetTemperatureUnit { unit } => Ok(encode_set_unit(*unit)),
        Command::SetTargetRange { probe, low, high } => encode_set_target_range(
            *probe,
            *low,
            *high,
        ),
        Command::SetTargetTemp { probe, target } => encode_set_target_temp(*probe, *target),
        Command::EnableRealTimeData { enable } => Ok(encode_real_time_toggle(*enable)),
        Command::RequestBatteryLevel => Ok(encode_request_battery_level()),
    }
}

/// Encoding is deterministic: two packets encoded from the same command
/// with the same arguments are byte-identical.
pub proof fn lemma_command_encoding_deterministic(c: Command, r1: Seq<u8>, r2: Seq<u8>)
    requires
        r1 == spec_command_packet(c),
        r2 == spec_command_packet(c),
    ensures
        r1 == r2,
{
}

/// The fixed credential blob, as bytes ready to write.
pub fn credential_message() -> (r: [u8; 15])
    ensures
        r@ == spec_credential_message(),
{
    let r = [
        0x21u8,
        0x07,
        0x06,
        0x05,
        0x04,
        0x03,
        0x02,
        0x01,
        0xb8,
        0x22,
        0x00,
        0x00,
        0x00,
        0x00,
        0x00,
    ];
    proof {
        assert(r@ =~= spec_credential_message());
    }
    r
}

} // verus!
