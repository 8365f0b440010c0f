//! Core state-derivation library for a two-wand motion-controller instrument.
//!
//! Raw controller samples are modelled as fixed-point integers in
//! milli-units (1000 = 1.0), so that the whole derivation pipeline —
//! smoothing, finite differences, joystick classification, edge
//! detection and the note state machine — is exact integer arithmetic
//! with verified contracts.

pub mod functions;
pub mod history;
pub mod hydra;
pub mod midi;
pub mod midi_event;
pub mod text_tools;
pub mod zgicabra;
