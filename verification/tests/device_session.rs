//! Tests of the session state machine and the notification dispatch.

use cloudbbq::command::Command;
use cloudbbq::session::characteristic_uuid128;
use cloudbbq::session::device_name_is_compatible;
use cloudbbq::session::real_time_event;
use cloudbbq::session::service_uuid128;
use cloudbbq::session::session_step;
use cloudbbq::session::setting_result_event;
use cloudbbq::session::CharacteristicRole;
use cloudbbq::session::SessionRequest;
use cloudbbq::session::SessionState;
use cloudbbq::session::TransportAction;
use cloudbbq::uuid::uuid16_to_uuid128;
use cloudbbq::RealTimeData;
use cloudbbq::SettingResult;
use cloudbbq::TemperatureUnit;

#[test]
fn session_uuids() {
    assert_eq!(service_uuid128(), uuid16_to_uuid128(0xFFF0));
    assert_eq!(
        characteristic_uuid128(CharacteristicRole::SettingResult),
        uuid16_to_uuid128(0xFFF1)
    );
    assert_eq!(
        characteristic_uuid128(CharacteristicRole::AccountAndVerify),
        uuid16_to_uuid128(0xFFF2)
    );
    assert_eq!(
        characteristic_uuid128(CharacteristicRole::HistoryData),
        uuid16_to_uuid128(0xFFF3)
    );
    assert_eq!(
        characteristic_uuid128(CharacteristicRole::RealTimeData),
        uuid16_to_uuid128(0xFFF4)
    );
    assert_eq!(
        characteristic_uuid128(CharacteristicRole::SettingData),
        uuid16_to_uuid128(0xFFF5)
    );
    assert_eq!(service_uuid128(), 0x0000FFF0_0000_1000_8000_00805F9B34FB);
}

#[test]
fn compatible_names() {
    assert!(device_name_is_compatible(&String::from("BBQ")));
    assert!(device_name_is_compatible(&String::from("iBBQ")));
    assert!(!device_name_is_compatible(&String::from("Kettle")));
    assert!(!device_name_is_compatible(&String::from("bbq")));
    assert!(!device_name_is_compatible(&String::from("")));
}

#[test]
fn authenticate_step() {
    let state = SessionState::resolved();
    let (state, action) = session_step(state, &SessionRequest::Authenticate).unwrap();
    assert!(state.authenticated);
    assert_eq!(
        action,
        TransportAction::Write {
            role: CharacteristicRole::AccountAndVerify,
            payload: vec![
                0x21, 0x07, 0x06, 0x05, 0x04, 0x03, 0x02, 0x01, 0xB8, 0x22, 0, 0, 0, 0, 0
            ],
        }
    );
}

#[test]
fn send_command_step() {
    let state = SessionState::resolved();
    let (state, _) = session_step(state, &SessionRequest::Authenticate).unwrap();
    let (state, action) = session_step(
        state,
        &SessionRequest::Send {
            command: Command::SetTemperatureUnit {
                unit: TemperatureUnit::Celcius,
            },
        },
    )
    .unwrap();
    assert!(state.authenticated);
    assert_eq!(
        action,
        TransportAction::Write {
            role: CharacteristicRole::SettingData,
            payload: vec![0x02, 0x00, 0, 0, 0, 0],
        }
    );
    let (_, action) = session_step(
        state,
        &SessionRequest::Send {
            command: Command::SetTargetTemp {
                probe: 0,
                target: 350,
            },
        },
    )
    .unwrap();
    assert_eq!(
        action,
        TransportAction::Write {
            role: CharacteristicRole::SettingData,
            payload: vec![0x01, 0x00, 0x48, 0xF4, 0x5E, 0x01],
        }
    );
}

#[test]
fn send_unencodable_command_step() {
    let state = SessionState::resolved();
    let (state, _) = session_step(state, &SessionRequest::Authenticate).unwrap();
    let r = session_step(
        state,
        &SessionRequest::Send {
            command: Command::SetTargetTemp {
                probe: 0,
                target: 40000,
            },
        },
    );
    assert_eq!(r, Err(cloudbbq::Error::TemperatureEncodingError(40000)));
}

#[test]
fn subscription_is_idempotent() {
    let state = SessionState::resolved();
    let (state, action) = session_step(state, &SessionRequest::OpenRealTimeStream).unwrap();
    assert!(state.real_time_subscribed);
    assert_eq!(
        action,
        TransportAction::Subscribe {
            role: CharacteristicRole::RealTimeData
        }
    );
    let (state, action) = session_step(state, &SessionRequest::OpenRealTimeStream).unwrap();
    assert!(state.real_time_subscribed);
    assert_eq!(action, TransportAction::NoOp);

    let (state, action) = session_step(state, &SessionRequest::OpenSettingResultStream).unwrap();
    assert!(state.setting_results_subscribed);
    assert_eq!(
        action,
        TransportAction::Subscribe {
            role: CharacteristicRole::SettingResult
        }
    );
    let (state, action) = session_step(state, &SessionRequest::OpenSettingResultStream).unwrap();
    assert!(state.setting_results_subscribed);
    assert_eq!(action, TransportAction::NoOp);
}

#[test]
fn real_time_events_filter_by_source() {
    assert_eq!(
        real_time_event(CharacteristicRole::RealTimeData, &[1, 2, 3, 4]),
        Some(RealTimeData {
            probe_temperatures: vec![Some(513), Some(1027)]
        })
    );
    // The sentinel -1.0 °C becomes an absent probe, not a reading.
    assert_eq!(
        real_time_event(CharacteristicRole::RealTimeData, &[0xF6, 0xFF]),
        Some(RealTimeData {
            probe_temperatures: vec![None]
        })
    );
    assert_eq!(
        real_time_event(CharacteristicRole::SettingResult, &[1, 2, 3, 4]),
        None
    );
    assert_eq!(
        real_time_event(CharacteristicRole::RealTimeData, &[1, 2, 3]),
        None
    );
}

#[test]
fn setting_result_events_filter_by_source() {
    assert_eq!(
        setting_result_event(
            CharacteristicRole::SettingResult,
            &[0xFF, 0x0B, 0, 0, 0, 0]
        ),
        Some(SettingResult::AcknowledgeCommand { command_id: 0x0B })
    );
    assert_eq!(
        setting_result_event(CharacteristicRole::RealTimeData, &[0xFF, 0x0B, 0, 0, 0, 0]),
        None
    );
}
