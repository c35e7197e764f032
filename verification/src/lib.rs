//! Drives percussion strikers from MIDI note events.
//!
//! The library holds the decisions: it classifies inbound buffers, decodes
//! packed MIDI messages, keeps the registry of strikers and modifiers, and
//! turns each note event into the ordered list of output-line actions the
//! host has to perform. The host owns the output lines, the clock and the
//! wireless link; it performs the actions and reports back when a pulse ends.

pub mod autodrum;
pub mod configuration;
pub mod logger;
pub mod midi_ble;
pub mod modifier;
pub mod registry_laws;
pub mod registry_model;
pub mod remote_command;
pub mod striker;
pub mod striker_hardware_util;
pub mod system_constants;
