//! Decoder library for 345 MHz OOK wireless security sensors.
//!
//! The digital pipeline — bit synchronization, Manchester decoding, frame
//! synchronization, checksum validation, per-device state tracking and
//! notification gating — lives here, fully verified. The analog envelope
//! conditioner (floating point) and the radio/broker I/O live with the host
//! application.

pub mod device;
pub mod crc;
pub mod manchester;
pub mod mqtt;
pub mod decoder;
