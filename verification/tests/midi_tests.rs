use zgicabra::midi::clear;
use zgicabra::midi::CC_CUTOFF;
use zgicabra::midi::CC_VELOCITY;
use zgicabra::midi_event::MidiEvent;
use zgicabra::zgicabra::DeltaEvent;
use zgicabra::zgicabra::Zgicabra;

#[test]
fn event_constructors_produce_exact_bytes() {
    let on = MidiEvent::note_on(65, 127);
    assert_eq!((on.msg, on.msb, on.lsb), (0x90, 65, 127));
    let off = MidiEvent::note_off(65);
    assert_eq!((off.msg, off.msb, off.lsb), (0x80, 65, 0));
    let cc = MidiEvent::control_change(0x20, 99);
    assert_eq!((cc.msg, cc.msb, cc.lsb), (0xB0, 0x20, 99));
    let pc = MidiEvent::program_change(7);
    assert_eq!((pc.msg, pc.msb, pc.lsb), (0xC0, 7, 0));
    let panic = MidiEvent::panic();
    assert_eq!((panic.msg, panic.msb, panic.lsb), (0xB0, 0x7B, 0));
}

#[test]
fn pitch_bend_splits_fourteen_bits() {
    let centre = MidiEvent::pitch_bend(8192);
    assert_eq!((centre.msg, centre.lsb, centre.msb), (0xE0, 64, 0));
    let max = MidiEvent::pitch_bend(16383);
    assert_eq!((max.lsb, max.msb), (127, 127));
    let zero = MidiEvent::pitch_bend(0);
    assert_eq!((zero.lsb, zero.msb), (0, 0));
}

#[test]
fn update_emits_always_events_and_delta_translations() {
    let state = Zgicabra::new();
    let deltas = vec![DeltaEvent::NoteStart(65), DeltaEvent::Panic()];
    let mut midi: Vec<MidiEvent> = Vec::new();
    zgicabra::midi::update(&state, &deltas, &mut midi);
    assert_eq!(midi.len(), 5);
    // Pitch bend at centre: value 8192 splits into bytes 64 and 0.
    assert_eq!((midi[0].msg, midi[0].lsb, midi[0].msb), (0xE0, 64, 0));
    assert_eq!((midi[1].msg, midi[1].msb, midi[1].lsb), (0xB0, CC_VELOCITY, 0));
    assert_eq!((midi[2].msg, midi[2].msb, midi[2].lsb), (0xB0, CC_CUTOFF, 0));
    assert_eq!(midi[3], MidiEvent::note_on(65, 127));
    assert_eq!(midi[4], MidiEvent::panic());
}

#[test]
fn update_translates_note_change_to_off_then_on() {
    let state = Zgicabra::new();
    let deltas = vec![DeltaEvent::NoteChange(65, 67), DeltaEvent::NoteEnd(67)];
    let mut midi: Vec<MidiEvent> = Vec::new();
    zgicabra::midi::update(&state, &deltas, &mut midi);
    assert_eq!(midi.len(), 6);
    assert_eq!(midi[3], MidiEvent::note_off(65));
    assert_eq!(midi[4], MidiEvent::note_on(67, 127));
    assert_eq!(midi[5], MidiEvent::note_off(67));
    // Toggles carry no MIDI translation.
    let deltas2 = vec![DeltaEvent::ThumpToggle(), DeltaEvent::FuzzToggle()];
    let mut midi2: Vec<MidiEvent> = Vec::new();
    zgicabra::midi::update(&state, &deltas2, &mut midi2);
    assert_eq!(midi2.len(), 3);
}

#[test]
fn update_scales_signal_levels() {
    let mut state = Zgicabra::new();
    state.signal.velocity = 500;
    state.signal.filter = 1000;
    let mut midi: Vec<MidiEvent> = Vec::new();
    zgicabra::midi::update(&state, &Vec::new(), &mut midi);
    // 0.5 scales to 63 of 127; a full level saturates at 127.
    assert_eq!(midi[1].lsb, 63);
    assert_eq!(midi[2].lsb, 127);
}

#[test]
fn update_bends_with_twist() {
    let mut state = Zgicabra::new();
    state.note.bend = 500;
    let mut midi: Vec<MidiEvent> = Vec::new();
    zgicabra::midi::update(&state, &Vec::new(), &mut midi);
    // 8192 + 0.5 * 8192 = 12288 = 96 * 128.
    assert_eq!((midi[0].lsb, midi[0].msb), (96, 0));
}

#[test]
fn clear_keeps_most_recent() {
    let mut midi: Vec<MidiEvent> = (0..5u8).map(MidiEvent::program_change).collect();
    clear(&mut midi, 3);
    assert_eq!(midi.len(), 3);
    assert_eq!(midi[0], MidiEvent::program_change(2));
    assert_eq!(midi[2], MidiEvent::program_change(4));
    clear(&mut midi, 10);
    assert_eq!(midi.len(), 3);
    clear(&mut midi, 0);
    assert!(midi.is_empty());
}
