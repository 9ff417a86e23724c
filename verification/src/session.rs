//! Device session logic.
//!
//! A session binds the five characteristic handles of one device and maps
//! each caller request to exactly one transport action: write a packet
//! to a characteristic, or subscribe to one. The transport itself (BLE
//! discovery, connection, the actual writes and the notification
//! delivery) lives outside this crate; the session is the pure decision
//! function it runs.

use vstd::prelude::*;
use vstd::slice::slice_to_vec;

use crate::command::credential_message;
use crate::command::encode_command;
use crate::command::spec_command_encodable;
use crate::command::spec_command_error;
use crate::command::spec_command_packet;
use crate::command::spec_credential_message;
use crate::command::Command;
use crate::event::spec_parse_real_time;
use crate::event::spec_parse_setting_result;
use crate::event::RealTimeData;
use crate::event::SettingResult;
use crate::temperature::Error;
use crate::uuid::spec_expand_uuid;
use crate::uuid::uuid16_to_uuid128;
use crate::uuid::Uuid128;

verus! {

/// Short UUID of the device's single GATT service.
pub const BBQ_SERVICE_UUID16: u16 = 0xFFF0;

/// Short UUID of the setting-result characteristic (notify).
pub const SETTING_RESULT_UUID16: u16 = 0xFFF1;

/// Short UUID of the account-and-verify characteristic (write).
pub const ACCOUNT_AND_VERIFY_UUID16: u16 = 0xFFF2;

/// Short UUID of the history-data characteristic (unused by this crate).
pub const HISTORY_DATA_UUID16: u16 = 0xFFF3;

/// Short UUID of the real-time-data characteristic (notify).
pub const REAL_TIME_DATA_UUID16: u16 = 0xFFF4;

/// Short UUID of the setting-data characteristic (write).
pub const SETTING_DATA_UUID16: u16 = 0xFFF5;

/// The five characteristics a session is bound to.
#[derive(Clone, Copy, Debug, Eq, PartialEq, Structural)]
pub enum CharacteristicRole {
    SettingResult,
    AccountAndVerify,
    HistoryData,
    RealTimeData,
    SettingData,
}

/// The short UUID each characteristic is published under.
pub open spec fn spec_role_uuid16(role: CharacteristicRole) -> u16 {
    match role {
        CharacteristicRole::SettingResult => SETTING_RESULT_UUID16,
        CharacteristicRole::AccountAndVerify => ACCOUNT_AND_VERIFY_UUID16,
        CharacteristicRole::HistoryData => HISTORY_DATA_UUID16,
        CharacteristicRole::RealTimeData => REAL_TIME_DATA_UUID16,
        CharacteristicRole::SettingData => SETTING_DATA_UUID16,
    }
}

/// The short UUID of a characteristic role.
pub fn role_uuid16(role: CharacteristicRole) -> (r: u16)
    ensures
        r == spec_role_uuid16(role),
{
    match role {
        CharacteristicRole::SettingResult => SETTING_RESULT_UUID16,
        CharacteristicRole::AccountAndVerify => ACCOUNT_AND_VERIFY_UUID16,
        CharacteristicRole::HistoryData => HISTORY_DATA_UUID16,
        CharacteristicRole::RealTimeData => REAL_TIME_DATA_UUID16,
        CharacteristicRole::SettingData => SETTING_DATA_UUID16,
    }
}

/// The full 128-bit UUID a characteristic must be resolved by: the short
/// UUID expanded over the Bluetooth base UUID.
pub fn characteristic_uuid128(role: CharacteristicRole) -> (r: Uuid128)
    ensures
        r == spec_expand_uuid(spec_role_uuid16(role) as int),
{
    uuid16_to_uuid128(role_uuid16(role))
}

/// The full 128-bit UUID of the device's GATT service.
pub fn service_uuid128() -> (r: Uuid128)
    ensures
        r == spec_expand_uuid(BBQ_SERVICE_UUID16 as int),
{
    uuid16_to_uuid128(BBQ_SERVICE_UUID16)
}

/// Whether an advertised device name belongs to a compatible thermometer.
pub fn device_name_is_compatible(name: &String) -> (r: bool)
    ensures
        r <==> (name@ == "BBQ"@ || name@ == "iBBQ"@),
{
    let bbq: String = String::from_str("BBQ");
    let ibbq: String = String::from_str("iBBQ");
    *name == bbq || *name == ibbq
}

/// The session's lifecycle: handles resolved, then authenticated, with
/// each notification stream subscribed at most once, orthogonally.
#[derive(Clone, Copy, Debug, Eq, PartialEq, Structural)]
pub struct SessionState {
    pub authenticated: bool,
    pub real_time_subscribed: bool,
    pub setting_results_subscribed: bool,
}

impl SessionState {
    /// The state of a session whose handles were just resolved: not yet
    /// authenticated, nothing subscribed.
    pub fn resolved() -> (r: SessionState)
        ensures
            !r.authenticated,
            !r.real_time_subscribed,
            !r.setting_results_subscribed,
    {
        SessionState {
            authenticated: false,
            real_time_subscribed: false,
            setting_results_subscribed: false,
        }
    }
}

/// One request a caller makes of a session.
#[derive(Clone, Copy, Debug, Eq, PartialEq, Structural)]
pub enum SessionRequest {
    /// Write the credential blob. Must come first: the device drops the
    /// link shortly after connection when it is skipped.
    Authenticate,
    /// Send one command.
    Send { command: Command },
    /// Ensure the real-time-data stream is subscribed.
    OpenRealTimeStream,
    /// Ensure the setting-result stream is subscribed.
    OpenSettingResultStream,
}

/// What the transport must do for one request.
#[derive(Clone, Debug, Eq, PartialEq)]
pub enum TransportAction {
    /// Write the payload to the characteristic.
    Write { role: CharacteristicRole, payload: Vec<u8> },
    /// Subscribe to notifications of the characteristic.
    Subscribe { role: CharacteristicRole },
    /// Nothing: the subscription already stands.
    NoOp,
}

/// Decide one session step: from the current state and a request to the
/// next state and the transport action that performs the request.
/// Commands require a prior `Authenticate` step, making the device's
/// authenticate-before-use protocol rule a construction-time guarantee.
/// Opening an already subscribed stream is idempotent: the state is
/// unchanged and no transport work is asked for.
pub fn session_step(state: SessionState, request: &SessionRequest) -> (r: Result<
    (SessionState, TransportAction),
    Error,
>)
    requires
        request matches SessionRequest::Send { .. } ==> state.authenticated,
    ensures
        request is Authenticate ==> (r matches Ok((s2, a)) && ({
            &&& s2 == (SessionState { authenticated: true, ..state })
            &&& (a matches TransportAction::Write { role, payload } && role
                == CharacteristicRole::AccountAndVerify && payload@ == spec_credential_message())
        })),
        request matches SessionRequest::Send { command } ==> {
            &&& spec_command_encodable(*command) ==> (r matches Ok((s2, a)) && ({
                &&& s2 == state
                &&& (a matches TransportAction::Write { role, payload } && role
                    == CharacteristicRole::SettingData && payload@ == spec_command_packet(
                    *command,
                ))
            }))
            &&& !spec_command_encodable(*command) ==> r == Err::<
                (SessionState, TransportAction),
                Error,
            >(spec_command_error(*command))
        },
        request is OpenRealTimeStream ==> (r matches Ok((s2, a)) && ({
            &&& s2 == (SessionState { real_time_subscribed: true, ..state })
            &&& state.real_time_subscribed ==> a is NoOp
            &&& !state.real_time_subscribed ==> (a matches TransportAction::Subscribe { role }
                && role == CharacteristicRole::RealTimeData)
        })),
        request is OpenSettingResultStream ==> (r matches Ok((s2, a)) && ({
            &&& s2 == (SessionState { setting_results_subscribed: true, ..state })
            &&& state.setting_results_subscribed ==> a is NoOp
            &&& !state.setting_results_subscribed ==> (a matches TransportAction::Subscribe {
                role,
            } && role == CharacteristicRole::SettingResult)
        })),
{
    match request {
        SessionRequest::Authenticate => {
            let credential = credential_message();
            let payload = slice_to_vec(credential.as_slice());
            Ok(
                (
                    SessionState { authenticated: true, ..state },
                    TransportAction::Write { role: CharacteristicRole::AccountAndVerify, payload },
                ),
            )
        },
        SessionRequest::Send { command } => {
            let packet = match encode_command(command) {
                Ok(packet) => packet,
                Err(e) => {
                    return Err(e);
                },
            };
            let payload = slice_to_vec(packet.as_slice());
            Ok(
                (
                    state,
                    TransportAction::Write { role: CharacteristicRole::SettingData, payload },
                ),
            )
        },
        SessionRequest::OpenRealTimeStream => {
            if state.real_time_subscribed {
                Ok((state, TransportAction::NoOp))
            } else {
                Ok(
                    (
                        SessionState { real_time_subscribed: true, ..state },
                        TransportAction::Subscribe { role: CharacteristicRole::RealTimeData },
                    ),
                )
            }
        },
        SessionRequest::OpenSettingResultStream => {
            if state.setting_results_subscribed {
                Ok((state, TransportAction::NoOp))
            } else {
                Ok(
                    (
                        SessionState { setting_results_subscribed: true, ..state },
                        TransportAction::Subscribe { role: CharacteristicRole::SettingResult },
                    ),
                )
            }
        },
    }
}

/// Map one notification from the real-time stream: events of any other
/// characteristic are filtered out before parsing, never treated as a
/// parse failure.
pub fn real_time_event(source: CharacteristicRole, value: &[u8]) -> (r: Option<RealTimeData>)
    ensures
        source != CharacteristicRole::RealTimeData ==> r is None,
        source == CharacteristicRole::RealTimeData ==> {
            &&& r is Some <==> value@.len() % 2 == 0
            &&& (r matches Some(data) ==> Some(data.probe_temperatures@) == spec_parse_real_time(
                value@,
            ))
        },
{
    match source {
        CharacteristicRole::RealTimeData => RealTimeData::try_parse(value),
        _ => None,
    }
}

/// Map one notification from the setting-result stream, filtering by
/// source characteristic as `real_time_event` does.
pub fn setting_result_event(source: CharacteristicRole, value: &[u8]) -> (r: Option<
    SettingResult,
>)
    ensures
        source != CharacteristicRole::SettingResult ==> r is None,
        source == CharacteristicRole::SettingResult ==> r == spec_parse_setting_result(value@),
{
    match source {
        CharacteristicRole::SettingResult => SettingResult::try_parse(value),
        _ => None,
    }
}

} // verus!
