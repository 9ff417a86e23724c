//! Protocol codec and session logic for a vendor-specific Bluetooth LE
//! barbecue thermometer.
//!
//! Temperatures travel on the wire as signed 16-bit little-endian integers
//! counting tenths of a degree Celsius; this crate keeps that fixed-point
//! form throughout, so every value is exact. The modules cover the
//! temperature codec, the outbound command packets, the inbound notification
//! payloads, the GATT identifiers, and the session state machine that says
//! which packet goes to which characteristic.

pub mod command;
pub mod event;
pub mod session;
pub mod temperature;
pub mod uuid;

pub use command::TemperatureUnit;
pub use event::RealTimeData;
pub use event::SettingResult;
pub use temperature::decode_temperature;
pub use temperature::encode_temperature;
pub use temperature::Error;
