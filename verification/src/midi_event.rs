//! Construction of raw three-byte MIDI messages.
//!
//! The sender that puts these bytes on a wire lives outside the
//! library; here a message is just its status byte and two data bytes,
//! each constructor pinned to the exact bytes it produces.

use vstd::prelude::*;

verus! {

/// MIDI message type: note on.
pub const MSG_NOTE_ON: u8 = 0x90;

/// MIDI message type: note off.
pub const MSG_NOTE_OFF: u8 = 0x80;

/// MIDI message type: control change.
pub const MSG_CONTROL_CHANGE: u8 = 0xB0;

/// MIDI message type: program change.
pub const MSG_PROGRAM_CHANGE: u8 = 0xC0;

/// MIDI message type: pitch bend.
pub const MSG_PITCH_BEND: u8 = 0xE0;

/// The all-notes-off controller number, used for panic.
pub const CC_MIDI_PANIC: u8 = 0x7B;

/// One MIDI message: status byte, most significant data byte, least
/// significant data byte.
#[derive(Clone, Copy, Debug, PartialEq, Eq, Structural)]
pub struct MidiEvent {
    pub msg: u8,
    pub msb: u8,
    pub lsb: u8,
}

impl MidiEvent {
    /// A note-on message for `note` at velocity `vel`.
    pub fn note_on(note: u8, vel: u8) -> (e: MidiEvent)
        ensures
            e == (MidiEvent { msg: MSG_NOTE_ON, msb: note, lsb: vel }),
    {
        MidiEvent { msg: MSG_NOTE_ON, msb: note, lsb: vel }
    }

    /// A note-off message for `note`.
    pub fn note_off(note: u8) -> (e: MidiEvent)
        ensures
            e == (MidiEvent { msg: MSG_NOTE_OFF, msb: note, lsb: 0u8 }),
    {
        MidiEvent { msg: MSG_NOTE_OFF, msb: note, lsb: 0 }
    }

    /// A pitch-bend message carrying the 14-bit `value`, split into
    /// its low 7 bits (as the most significant data byte, per the MIDI
    /// wire order) and its high bits.
    pub fn pitch_bend(value: i16) -> (e: MidiEvent)
        requires
            0 <= value,
        ensures
            e.msg == MSG_PITCH_BEND,
            e.lsb == value as int / 128,
            e.msb == (value as int) % 128,
    {
        let v = value as u16;
        MidiEvent { msg: MSG_PITCH_BEND, lsb: (v / 128) as u8, msb: (v % 128) as u8 }
    }

    /// A control-change message for controller `cc` with `value`.
    pub fn control_change(cc: u8, value: u8) -> (e: MidiEvent)
        ensures
            e == (MidiEvent { msg: MSG_CONTROL_CHANGE, msb: cc, lsb: value }),
    {
        MidiEvent { msg: MSG_CONTROL_CHANGE, msb: cc, lsb: value }
    }

    /// A program-change message selecting `program`.
    pub fn program_change(program: u8) -> (e: MidiEvent)
        ensures
            e == (MidiEvent { msg: MSG_PROGRAM_CHANGE, msb: program, lsb: 0u8 }),
    {
        MidiEvent { msg: MSG_PROGRAM_CHANGE, msb: program, lsb: 0 }
    }

    /// The all-notes-off panic message.
    pub fn panic() -> (e: MidiEvent)
        ensures
            e == (MidiEvent { msg: MSG_CONTROL_CHANGE, msb: CC_MIDI_PANIC, lsb: 0u8 }),
    {
        MidiEvent { msg: MSG_CONTROL_CHANGE, msb: CC_MIDI_PANIC, lsb: 0 }
    }
}

} // verus!
