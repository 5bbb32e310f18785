//! Core logic for a single-wire humidity/temperature sensor firmware.
//!
//! The heart of the crate is the decoder for the sensor's single-wire
//! protocol: a priming handshake followed by 40 pulse-width-encoded bits
//! that form a five byte frame with a checksum. The GPIO line and the
//! monotonic clock are capabilities of the surrounding application; this
//! crate holds every decision the protocol makes — phase sequencing,
//! timeout policy, bit classification, frame assembly and validation —
//! and proves them against an explicit transition-system model.
//!
//! Around the sensor core, the crate also carries the firmware's small
//! line-oriented command protocol — the LED state it controls and the
//! helpers that cut and trim command lines — and the error vocabulary
//! of the network bring-up.

pub mod commands;
pub mod reading;
pub mod sensor;
pub mod wifi;
