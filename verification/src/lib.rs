//! Turns continuous analog key-press magnitudes into a MIDI note stream.
//!
//! Analog sensors report a per-key depression magnitude at high frequency;
//! this library decides, per key and per configured binding, when a note-on,
//! note-off or polyphonic-aftertouch event fires, what velocity to assign,
//! and which effective note number to use under a modifier-driven pitch
//! shift.  All quantities are fixed-point integers: a magnitude of `MAG_ONE`
//! stands for a fully depressed key, and timestamps are in milliseconds.
//!
//! The library is pure: it computes events and state transitions as values.
//! A host drives it with device snapshots and hands the returned events to a
//! real MIDI transport.
use vstd::prelude::*;

pub mod command;
pub mod config;
pub mod event;
pub mod key;
pub mod note;
pub mod poll;
pub mod service;
pub mod settings;

verus! {

/// MIDI note number (0..=127 playable subset is [MIDI_NOTE_MIN, MIDI_NOTE_MAX]).
pub type NoteID = u8;

/// MIDI channel number carried in the low nibble of a status byte.
pub type Channel = u8;

/// Fixed-point representation of the analog magnitude 1.0 (a full key press).
pub const MAG_ONE: u16 = 10000;

/// Lowest playable MIDI note (A0).
pub const MIDI_NOTE_MIN: u8 = 21;

/// Highest playable MIDI note (C8).
pub const MIDI_NOTE_MAX: u8 = 108;

/// Fixed actuation point that decides modifier-key "pressed" state,
/// independent of the configurable note threshold (0.2 of a full press).
pub const ACTUATION_POINT: u16 = 2000;

/// HID usage code of the modifier key (left shift) that applies the pitch shift.
pub const MODIFIER_KEY_CODE: u16 = 225;

/// How many times a second the mapping table is ticked, in Hz.
pub const REFRESH_RATE: u32 = 100;

/// Bound on the device list a host should request from the device layer.
pub const DEVICE_BUFFER_MAX: usize = 5;

/// Bound on the analog snapshot a host should request from the device layer.
pub const ANALOG_BUFFER_READ_MAX: usize = 40;

/// Size of the dense mapping table: one slot for every possible key code byte.
pub const KEY_TABLE_SIZE: usize = 256;

} // verus!
