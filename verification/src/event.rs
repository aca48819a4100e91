use vstd::prelude::*;

verus! {

use crate::{Channel, NoteID, MAG_ONE};

/// Status byte of a MIDI note-on message (channel 0).
pub const NOTE_ON_MSG: u8 = 0x90;

/// Status byte of a MIDI note-off message (channel 0).
pub const NOTE_OFF_MSG: u8 = 0x80;

/// Status byte of a MIDI polyphonic-aftertouch message (channel 0).
pub const POLY_AFTERTOUCH_MSG: u8 = 0xA0;

/// One MIDI event decided by the note state machine.  Velocity and pressure
/// are fixed-point magnitudes in [0, MAG_ONE]; `to_bytes` scales them to the
/// 7-bit MIDI data range.
#[derive(Debug, Clone, Copy, PartialEq, Eq, Structural)]
pub enum MidiEvent {
    NoteOn { note: NoteID, velocity: u16, channel: Channel },
    NoteOff { note: NoteID, velocity: u16, channel: Channel },
    PolyAftertouch { note: NoteID, pressure: u16, channel: Channel },
}

/// The note number an event speaks of.
pub open spec fn event_note(e: MidiEvent) -> NoteID {
    match e {
        MidiEvent::NoteOn { note, .. } => note,
        MidiEvent::NoteOff { note, .. } => note,
        MidiEvent::PolyAftertouch { note, .. } => note,
    }
}

/// The channel an event is sent on.
pub open spec fn event_channel(e: MidiEvent) -> Channel {
    match e {
        MidiEvent::NoteOn { channel, .. } => channel,
        MidiEvent::NoteOff { channel, .. } => channel,
        MidiEvent::PolyAftertouch { channel, .. } => channel,
    }
}

/// The fixed-point magnitude an event carries as its second data byte
/// (velocity for on/off, pressure for aftertouch).
pub open spec fn event_magnitude(e: MidiEvent) -> u16 {
    match e {
        MidiEvent::NoteOn { velocity, .. } => velocity,
        MidiEvent::NoteOff { velocity, .. } => velocity,
        MidiEvent::PolyAftertouch { pressure, .. } => pressure,
    }
}

/// Scaling of a fixed-point magnitude to a 7-bit MIDI data byte: the
/// magnitude is clamped to MAG_ONE and mapped linearly onto 0..=127.
pub open spec fn data_byte_of(m: u16) -> u8 {
    (if m > MAG_ONE { 127 } else { m * 127 / (MAG_ONE as int) }) as u8
}

/// Clamps a magnitude to MAG_ONE and scales it to 0..=127.
pub fn magnitude_to_data_byte(m: u16) -> (r: u8)
    ensures
        r == data_byte_of(m),
        r <= 127,
{
    if m > MAG_ONE {
        127
    } else {
        let wide: u32 = (m as u32) * 127 / (MAG_ONE as u32);
        assert(wide <= 127) by {
            assert((m as u32) * 127 <= 10000u32 * 127) by (nonlinear_arith)
                requires m <= 10000u32;
        }
        wide as u8
    }
}

impl MidiEvent {
    /// The 3-byte wire form of the event: status byte with the channel in
    /// the low nibble, the note number, and the scaled velocity/pressure.
    pub fn to_bytes(&self) -> (r: (u8, u8, u8))
        ensures
            r.0 == match *self {
                MidiEvent::NoteOn { channel, .. } => NOTE_ON_MSG | channel,
                MidiEvent::NoteOff { channel, .. } => NOTE_OFF_MSG | channel,
                MidiEvent::PolyAftertouch { channel, .. } => POLY_AFTERTOUCH_MSG | channel,
            },
            r.1 == event_note(*self),
            r.2 == data_byte_of(event_magnitude(*self)),
    {
        match *self {
            MidiEvent::NoteOn { note, velocity, channel } => {
                (NOTE_ON_MSG | channel, note, magnitude_to_data_byte(velocity))
            }
            MidiEvent::NoteOff { note, velocity, channel } => {
                (NOTE_OFF_MSG | channel, note, magnitude_to_data_byte(velocity))
            }
            MidiEvent::PolyAftertouch { note, pressure, channel } => {
                (POLY_AFTERTOUCH_MSG | channel, note, magnitude_to_data_byte(pressure))
            }
        }
    }
}

} // verus!
