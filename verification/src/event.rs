//! Inbound notification payload decoder.
//!
//! Two independent parsers, each total over all byte strings: real-time
//! probe data (2 bytes per probe slot) and setting results (a tagged
//! 6-byte payload). Malformed or unrecognized payloads yield no event
//! rather than an error.

use vstd::prelude::*;

use crate::temperature::decode_temperature;
use crate::temperature::spec_decode_temperature;
use crate::temperature::ABSENT_PROBE_DECIDEGREES;

verus! {

/// First payload byte announcing that the alarm-silence button was pressed.
pub const SILENCE_PRESSED: u8 = 0x04;

/// First payload byte of a battery-level report; also the property id used
/// to request one.
pub const BATTERY_LEVEL_PROPERTY_ID: u8 = 0x24;

/// First payload byte of a command acknowledgement.
pub const ACKNOWLEDGE_COMMAND: u8 = 0xFF;

/// A data point from the device: one temperature slot per probe channel,
/// in payload order. A slot is `None` when the probe is disconnected, else
/// the reading in tenths of a degree Celsius.
#[derive(Clone, Debug, PartialEq, Eq)]
pub struct RealTimeData {
    pub probe_temperatures: Vec<Option<i16>>,
}

/// A response to some command sent to the device, or a notification.
#[derive(Clone, Copy, Debug, PartialEq, Eq, Structural)]
pub enum SettingResult {
    /// A confirmation that the command with the echoed id was received.
    AcknowledgeCommand { command_id: u8 },
    /// The current battery level of the device, in raw voltage units.
    BatteryLevel { current_voltage: u16, max_voltage: u16 },
    /// The button on the device was pressed to stop the alarm.
    SilencePressed,
}

/// The probe slot carried by one little-endian byte pair: `None` for the
/// disconnected-probe sentinel, else the reading in tenths of a degree.
pub open spec fn spec_probe_slot(b0: u8, b1: u8) -> Option<i16> {
    let t = spec_decode_temperature(b0, b1);
    if t == ABSENT_PROBE_DECIDEGREES as int {
        None
    } else {
        Some(t as i16)
    }
}

/// Real-time payload semantics: one slot per byte pair, in payload order;
/// odd-length payloads carry no event. The empty payload is an empty slot
/// sequence, not an absent one.
pub open spec fn spec_parse_real_time(bytes: Seq<u8>) -> Option<Seq<Option<i16>>> {
    if bytes.len() % 2 != 0 {
        None
    } else {
        Some(Seq::new(bytes.len() / 2, |i: int| spec_probe_slot(bytes[2 * i], bytes[2 * i + 1])))
    }
}

/// Setting-result payload semantics: a dispatch on the first byte of a
/// 6-byte payload. Any other length, an unknown tag, or fixed padding
/// bytes that do not match their expected pattern carry no event.
pub open spec fn spec_parse_setting_result(bytes: Seq<u8>) -> Option<SettingResult> {
    if bytes.len() != 6 {
        None
    } else if bytes[0] == ACKNOWLEDGE_COMMAND {
        if bytes[2] == 0 && bytes[3] == 0 && bytes[4] == 0 && bytes[5] == 0 {
            Some(SettingResult::AcknowledgeCommand { command_id: bytes[1] })
        } else {
            None
        }
    } else if bytes[0] == BATTERY_LEVEL_PROPERTY_ID {
        Some(
            SettingResult::BatteryLevel {
                current_voltage: (bytes[1] + 256 * bytes[2]) as u16,
                max_voltage: (bytes[3] + 256 * bytes[4]) as u16,
            },
        )
    } else if bytes[0] == SILENCE_PRESSED {
        if bytes[1] == 0xFF && bytes[2] == 0 && bytes[3] == 0 && bytes[4] == 0 && bytes[5] == 0 {
            Some(SettingResult::SilencePressed)
        } else {
            None
        }
    } else {
        None
    }
}

impl RealTimeData {
    /// Parse a real-time notification payload: a slot for every byte pair,
    /// with the sentinel mapped to an absent probe. Yields a value exactly
    /// when the payload length is even.
    pub fn try_parse(value: &[u8]) -> (r: Option<RealTimeData>)
        ensures
            r is Some <==> value@.len() % 2 == 0,
            r matches Some(data) ==> Some(data.probe_temperatures@) == spec_parse_real_time(
                value@,
            ),
    {
        if value.len() % 2 != 0 {
            return None;
        }
        let slot_count = value.len() / 2;
        let mut slots: Vec<Option<i16>> = Vec::new();
        let mut i: usize = 0;
        while i < slot_count
            invariant
                value@.len() <= usize::MAX,
                value@.len() % 2 == 0,
                slot_count == value@.len() / 2,
                i <= slot_count,
                slots@.len() == i,
                forall|j: int|
                    0 <= j < i ==> slots@[j] == spec_probe_slot(value@[2 * j], value@[2 * j + 1]),
            decreases slot_count - i,
        {
            let temperature = decode_temperature([value[2 * i], value[2 * i + 1]]);
            if temperature == ABSENT_PROBE_DECIDEGREES {
                slots.push(None);
            } else {
                slots.push(Some(temperature));
            }
            i = i + 1;
        }
        proof {
            assert(Some(slots@) == spec_parse_real_time(value@)) by {
                assert(slots@ =~= spec_parse_real_time(value@).unwrap());
            }
        }
        Some(RealTimeData { probe_temperatures: slots })
    }
}

impl SettingResult {
    /// Parse a setting-result notification payload by its first byte.
    /// Yields a value exactly when the payload is 6 bytes long, the tag is
    /// known, and the fixed padding bytes match their expected pattern.
    pub fn try_parse(value: &[u8]) -> (r: Option<SettingResult>)
        ensures
            r == spec_parse_setting_result(value@),
    {
        if value.len() != 6 {
            return None;
        }
        if value[0] == ACKNOWLEDGE_COMMAND {
            if value[2] == 0 && value[3] == 0 && value[4] == 0 && value[5] == 0 {
                Some(SettingResult::AcknowledgeCommand { command_id: value[1] })
            } else {
                None
            }
        } else if value[0] == BATTERY_LEVEL_PROPERTY_ID {
            let current_voltage: u16 = value[1] as u16 + 256 * (value[2] as u16);
            let max_voltage: u16 = value[3] as u16 + 256 * (value[4] as u16);
            Some(SettingResult::BatteryLevel { current_voltage, max_voltage })
        } else if value[0] == SILENCE_PRESSED {
            if value[1] == 0xFF && value[2] == 0 && value[3] == 0 && value[4] == 0 && value[5]
                == 0 {
                Some(SettingResult::SilencePressed)
            } else {
                None
            }
        } else {
            None
        }
    }
}

} // verus!
