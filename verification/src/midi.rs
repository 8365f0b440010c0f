//! Translation of a tick's derived state and delta events into MIDI
//! messages.
//!
//! Dispatching the messages to a device is the surrounding program's
//! job; this module only decides, exactly, which bytes each tick
//! produces.

use vstd::prelude::*;

verus! {

use crate::functions::tdiv;
use crate::functions::clamped;
use crate::functions::clamp_i64;
use crate::functions::div_trunc;
use crate::functions::lemma_tdiv_magnitude;
use crate::midi_event::MidiEvent;
use crate::midi_event::MSG_NOTE_ON;
use crate::midi_event::MSG_NOTE_OFF;
use crate::midi_event::MSG_CONTROL_CHANGE;
use crate::midi_event::MSG_PITCH_BEND;
use crate::midi_event::CC_MIDI_PANIC;
use crate::zgicabra::Zgicabra;
use crate::zgicabra::DeltaEvent;
use crate::zgicabra::zgicabra_wf;
use crate::zgicabra::signal_wf;

/// Control-change number for the filter cutoff level.
pub const CC_CUTOFF: u8 = 0x20;

/// Control-change number for the fuzz level.
pub const CC_FUZZ: u8 = 0x21;

/// Control-change number for the thump level.
pub const CC_THUMP: u8 = 0x22;

/// Control-change number for the smoothed velocity magnitude.
pub const CC_VELOCITY: u8 = 0x23;

/// Control-change number for the smoothed acceleration magnitude.
pub const CC_ACCELERATION: u8 = 0x24;

/// Control-change number for the smoothed jerk magnitude.
pub const CC_JERK: u8 = 0x25;

/// Control-change number for the bigness level.
pub const CC_BIGNESS: u8 = 0x26;

/// Control-change number for the stereo width level.
pub const CC_WIDTH: u8 = 0x27;

/// The 14-bit pitch-bend wire value for a fixed-point bend in
/// `[-1000, 1000]`: scaled to `[0, 16384]` around the 8192 centre.
pub open spec fn bend14(bend: int) -> int {
    tdiv(bend * 8192, 1000) + 8192
}

/// A unit-interval fixed-point control level scaled toward the MIDI
/// controller range, saturating at the byte bounds.
pub open spec fn scaled_cc(v: int) -> int {
    clamped(tdiv(v * 127, 1000), 0, 255)
}

/// The three messages every tick emits: pitch bend, velocity level,
/// filter cutoff.
pub open spec fn always_events(z: Zgicabra) -> Seq<MidiEvent> {
    seq![
        MidiEvent {
            msg: MSG_PITCH_BEND,
            msb: (bend14(z.note.bend as int) % 128) as u8,
            lsb: (bend14(z.note.bend as int) / 128) as u8,
        },
        MidiEvent {
            msg: MSG_CONTROL_CHANGE,
            msb: CC_VELOCITY,
            lsb: scaled_cc(z.signal.velocity as int) as u8,
        },
        MidiEvent {
            msg: MSG_CONTROL_CHANGE,
            msb: CC_CUTOFF,
            lsb: scaled_cc(z.signal.filter as int) as u8,
        },
    ]
}

/// The messages one delta event translates to.
pub open spec fn midi_of_delta(d: DeltaEvent) -> Seq<MidiEvent> {
    match d {
        DeltaEvent::Panic() => seq![
            MidiEvent { msg: MSG_CONTROL_CHANGE, msb: CC_MIDI_PANIC, lsb: 0u8 },
        ],
        DeltaEvent::NoteStart(note) => seq![MidiEvent { msg: MSG_NOTE_ON, msb: note, lsb: 127u8 }],
        DeltaEvent::NoteEnd(note) => seq![MidiEvent { msg: MSG_NOTE_OFF, msb: note, lsb: 0u8 }],
        DeltaEvent::NoteChange(from, to) => seq![
            MidiEvent { msg: MSG_NOTE_OFF, msb: from, lsb: 0u8 },
            MidiEvent { msg: MSG_NOTE_ON, msb: to, lsb: 127u8 },
        ],
        _ => Seq::<MidiEvent>::empty(),
    }
}

/// The messages a whole delta sequence translates to, in order.
pub open spec fn midi_of_deltas(s: Seq<DeltaEvent>) -> Seq<MidiEvent>
    decreases s.len(),
{
    if s.len() == 0 {
        Seq::<MidiEvent>::empty()
    } else {
        midi_of_deltas(s.drop_last()) + midi_of_delta(s.last())
    }
}

/// Translate one tick's state and delta events into MIDI messages,
/// appending them to `midi_events`: first the three always-events,
/// then each delta's messages in delta order.
pub fn update(zgicabra: &Zgicabra, delta_events: &Vec<DeltaEvent>, midi_events: &mut Vec<MidiEvent>)
    requires
        zgicabra_wf(*zgicabra),
        signal_wf(zgicabra.signal),
    ensures
        final(midi_events)@ == old(midi_events)@ + always_events(*zgicabra) + midi_of_deltas(
            delta_events@,
        ),
{
    let ghost base = midi_events@;

    // Always-events: pitch bend and the continuous control levels.
    let bend = zgicabra.note.bend;
    proof {
        lemma_tdiv_magnitude(bend * 8192, 1000);
    }
    let bend_value = div_trunc(bend * 8192, 1000) + 8192;
    midi_events.push(MidiEvent::pitch_bend(bend_value as i16));
    midi_events.push(MidiEvent::control_change(CC_VELOCITY, scale_signal(zgicabra.signal.velocity)));
    midi_events.push(MidiEvent::control_change(CC_CUTOFF, scale_signal(zgicabra.signal.filter)));
    proof {
        assert(midi_events@ =~= base + always_events(*zgicabra));
    }

    // One tick's deltas, in order.
    let ghost all = delta_events@;
    let mut i: usize = 0;
    while i < delta_events.len()
        invariant
            i <= delta_events.len(),
            delta_events@ == all,
            midi_events@ == base + always_events(*zgicabra) + midi_of_deltas(all.take(i as int)),
        decreases delta_events.len() - i,
    {
        let ghost before = midi_events@;
        match delta_events[i] {
            DeltaEvent::Panic() => {
                midi_events.push(MidiEvent::panic());
            },
            DeltaEvent::NoteStart(note) => {
                midi_events.push(MidiEvent::note_on(note, 127));
            },
            DeltaEvent::NoteEnd(note) => {
                midi_events.push(MidiEvent::note_off(note));
            },
            DeltaEvent::NoteChange(from, to) => {
                midi_events.push(MidiEvent::note_off(from));
                midi_events.push(MidiEvent::note_on(to, 127));
            },
            _ => {},
        }
        proof {
            assert(midi_events@ =~= before + midi_of_delta(all[i as int]));
            assert(all.take(i + 1).drop_last() =~= all.take(i as int));
            assert(all.take(i + 1).last() == all[i as int]);
            assert(midi_of_deltas(all.take(i + 1)) == midi_of_deltas(all.take(i as int))
                + midi_of_delta(all[i as int]));
            assert(midi_events@ =~= base + always_events(*zgicabra) + midi_of_deltas(
                all.take(i + 1),
            ));
        }
        i += 1;
    }
    proof {
        assert(all.take(all.len() as int) =~= all);
    }
}

/// Scale a fixed-point control level to a saturating byte.
fn scale_signal(v: i64) -> (r: u8)
    requires
        -14_000_000 <= v <= 14_000_000,
    ensures
        r == scaled_cc(v as int),
{
    proof {
        lemma_tdiv_magnitude(v * 127, 1000);
    }
    clamp_i64(div_trunc(v * 127, 1000), 0, 255) as u8
}

/// Keep only the most recent `limit` messages.
pub fn clear(midi_events: &mut Vec<MidiEvent>, limit: usize)
    ensures
        old(midi_events)@.len() > limit ==> final(midi_events)@ == old(midi_events)@.subrange(
            old(midi_events)@.len() - limit,
            old(midi_events)@.len() as int,
        ),
        old(midi_events)@.len() <= limit ==> final(midi_events)@ == old(midi_events)@,
{
    let len = midi_events.len();
    if len > limit {
        let ghost orig = midi_events@;
        let mut kept: Vec<MidiEvent> = Vec::new();
        let mut i: usize = len - limit;
        while i < len
            invariant
                limit < len,
                len - limit <= i <= len,
                len == orig.len(),
                midi_events@ == orig,
                kept@ =~= orig.subrange((len - limit) as int, i as int),
            decreases len - i,
        {
            kept.push(midi_events[i]);
            proof {
                assert(kept@ =~= orig.subrange((len - limit) as int, i + 1));
            }
            i += 1;
        }
        *midi_events = kept;
    }
}

} // verus!
