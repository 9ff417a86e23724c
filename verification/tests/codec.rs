//! Tests of the temperature codec, the command encoder and the event
//! decoder. Temperatures are written in tenths of a degree Celsius, the
//! fixed-point form the wire carries.

use cloudbbq::command::encode_request_battery_level;
use cloudbbq::command::encode_real_time_toggle;
use cloudbbq::command::encode_set_target_range;
use cloudbbq::command::encode_set_target_temp;
use cloudbbq::command::encode_set_unit;
use cloudbbq::command::credential_message;
use cloudbbq::decode_temperature;
use cloudbbq::encode_temperature;
use cloudbbq::Error;
use cloudbbq::RealTimeData;
use cloudbbq::SettingResult;
use cloudbbq::TemperatureUnit;

#[test]
fn parse_real_time_invalid() {
    assert_eq!(RealTimeData::try_parse(&[0]), None);
}

#[test]
fn parse_real_time_no_probes() {
    assert_eq!(
        RealTimeData::try_parse(&[0xF6, 0xFF, 0xF6, 0xFF]),
        Some(RealTimeData {
            probe_temperatures: vec![None, None]
        })
    );
}

#[test]
fn parse_real_time() {
    // 51.3 °C and 102.7 °C, as tenths of a degree.
    assert_eq!(
        RealTimeData::try_parse(&[1, 2, 3, 4]),
        Some(RealTimeData {
            probe_temperatures: vec![Some(513), Some(1027)]
        })
    );
}

#[test]
fn parse_real_time_empty() {
    assert_eq!(
        RealTimeData::try_parse(&[]),
        Some(RealTimeData {
            probe_temperatures: vec![]
        })
    );
}

#[test]
fn parse_real_time_single_sentinel() {
    assert_eq!(
        RealTimeData::try_parse(&[0xF6, 0xFF]),
        Some(RealTimeData {
            probe_temperatures: vec![None]
        })
    );
}

#[test]
fn parse_setting_result_invalid() {
    assert_eq!(SettingResult::try_parse(&[]), None);
}

#[test]
fn parse_setting_result_acknowledge() {
    assert_eq!(
        SettingResult::try_parse(&[0xFF, 0x02, 0x00, 0x00, 0x00, 0x00]),
        Some(SettingResult::AcknowledgeCommand { command_id: 0x02 })
    );
}

#[test]
fn parse_setting_result_battery_level() {
    assert_eq!(
        SettingResult::try_parse(&[0x24, 0x5B, 0x17, 0x96, 0x19, 0x00]),
        Some(SettingResult::BatteryLevel {
            current_voltage: 5979,
            max_voltage: 6550
        })
    );
}

#[test]
fn parse_setting_result_silence_pressed() {
    assert_eq!(
        SettingResult::try_parse(&[0x04, 0xFF, 0x00, 0x00, 0x00, 0x00]),
        Some(SettingResult::SilencePressed)
    );
}

#[test]
fn parse_setting_result_unknown_tag() {
    assert_eq!(SettingResult::try_parse(&[0x77, 0, 0, 0, 0, 0]), None);
}

#[test]
fn parse_setting_result_bad_padding() {
    assert_eq!(SettingResult::try_parse(&[0xFF, 0x02, 1, 0, 0, 0]), None);
    assert_eq!(SettingResult::try_parse(&[0x04, 0xFE, 0, 0, 0, 0]), None);
}

#[test]
fn parse_setting_result_wrong_length() {
    assert_eq!(SettingResult::try_parse(&[0xFF, 0x02, 0, 0, 0]), None);
    assert_eq!(SettingResult::try_parse(&[0xFF, 0x02, 0, 0, 0, 0, 0]), None);
}

#[test]
fn temperature_round_trip() {
    for t in [-32768, -3000, -10, 0, 1, 513, 32767] {
        let bytes = encode_temperature(t).unwrap();
        assert_eq!(decode_temperature(bytes) as i32, t);
    }
}

#[test]
fn temperature_boundaries() {
    // 3276.8 °C and -3276.9 °C do not fit; 3276.7 °C and -3276.8 °C do.
    assert_eq!(
        encode_temperature(32768),
        Err(Error::TemperatureEncodingError(32768))
    );
    assert_eq!(
        encode_temperature(-32769),
        Err(Error::TemperatureEncodingError(-32769))
    );
    assert_eq!(encode_temperature(32767), Ok([0xFF, 0x7F]));
    assert_eq!(encode_temperature(-32768), Ok([0x00, 0x80]));
}

#[test]
fn temperature_decode_exact() {
    assert_eq!(decode_temperature([1, 2]), 513);
    assert_eq!(decode_temperature([0xF6, 0xFF]), -10);
    assert_eq!(decode_temperature([0x00, 0x00]), 0);
}

#[test]
fn encode_set_unit_packets() {
    assert_eq!(
        encode_set_unit(TemperatureUnit::Celcius),
        [0x02, 0x00, 0, 0, 0, 0]
    );
    assert_eq!(
        encode_set_unit(TemperatureUnit::Fahrenheit),
        [0x02, 0x01, 0, 0, 0, 0]
    );
}

#[test]
fn encode_real_time_toggle_packets() {
    assert_eq!(encode_real_time_toggle(true), [0x0B, 0x01, 0, 0, 0, 0]);
    assert_eq!(encode_real_time_toggle(false), [0x0B, 0x00, 0, 0, 0, 0]);
}

#[test]
fn encode_request_battery_level_packet() {
    assert_eq!(encode_request_battery_level(), [0x08, 0x24, 0, 0, 0, 0]);
}

#[test]
fn encode_set_target_temp_packet() {
    // Lower bound is the "no target" sentinel -300.0 °C (-3000 tenths,
    // wire 0xF448); target 35.0 °C (350 tenths, wire 0x015E).
    assert_eq!(
        encode_set_target_temp(0, 350),
        Ok([0x01, 0x00, 0x48, 0xF4, 0x5E, 0x01])
    );
}

#[test]
fn encode_set_target_range_packet() {
    assert_eq!(
        encode_set_target_range(3, 100, 2000),
        Ok([0x01, 0x03, 0x64, 0x00, 0xD0, 0x07])
    );
}

#[test]
fn encode_set_target_range_errors() {
    assert_eq!(
        encode_set_target_range(0, -32769, 0),
        Err(Error::TemperatureEncodingError(-32769))
    );
    assert_eq!(
        encode_set_target_range(0, 0, 40000),
        Err(Error::TemperatureEncodingError(40000))
    );
    assert_eq!(
        encode_set_target_temp(0, 40000),
        Err(Error::TemperatureEncodingError(40000))
    );
}

#[test]
fn encoding_is_repeatable() {
    assert_eq!(
        encode_set_target_range(1, -3000, 350),
        encode_set_target_range(1, -3000, 350)
    );
    assert_eq!(
        encode_set_unit(TemperatureUnit::Fahrenheit),
        encode_set_unit(TemperatureUnit::Fahrenheit)
    );
    assert_eq!(encode_request_battery_level(), encode_request_battery_level());
}

#[test]
fn credential_message_bytes() {
    assert_eq!(
        credential_message(),
        [0x21, 0x07, 0x06, 0x05, 0x04, 0x03, 0x02, 0x01, 0xB8, 0x22, 0, 0, 0, 0, 0]
    );
}
