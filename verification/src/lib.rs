//! Observes MQTT PUBLISH traffic captured off a network interface and turns
//! JSON-encoded sensor readings found in the payloads into line-protocol
//! metric strings.
//!
//! The pipeline runs per captured frame: normalize the capture header
//! ([`header`]), extract the transport payload ([`extract`]), decode the MQTT
//! control packet ([`mqtt`]), parse the JSON sensor payload ([`json`],
//! [`telemetry`]) and format the resulting record ([`line`]); [`pipeline`]
//! ties the stages together for one frame.

pub mod extract;
pub mod header;
pub mod json;
pub mod line;
pub mod mqtt;
pub mod pipeline;
pub mod telemetry;
pub mod text;
