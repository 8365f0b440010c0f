use zgicabra::functions::Vec3;
use zgicabra::functions::Vec4;
use zgicabra::hydra::ControllerFrame;
use zgicabra::hydra::HydraState;
use zgicabra::hydra::BUTTON_JOYCLICK;
use zgicabra::hydra::BUTTON_1;
use zgicabra::hydra::BUTTON_2;
use zgicabra::hydra::BUTTON_3;
use zgicabra::hydra::BUTTON_4;
use zgicabra::zgicabra::update;
use zgicabra::zgicabra::DeltaEvent;
use zgicabra::zgicabra::Zgicabra;

fn zero_frame(which_hand: u8) -> ControllerFrame {
    ControllerFrame {
        pos: Vec3 { x: 0, y: 0, z: 0 },
        rot_quat: Vec4 { x: 0, y: 0, z: 0, w: 0 },
        joystick_x: 0,
        joystick_y: 0,
        trigger: 0,
        buttons: 0,
        sequence_number: 0,
        is_docked: 0,
        which_hand,
    }
}

fn tick(state: &mut Zgicabra, left: ControllerFrame, right: ControllerFrame) -> Vec<DeltaEvent> {
    let hs = HydraState { controllers: [left, right], timedelta_ms: 10 };
    let prev = *state;
    let mut deltas: Vec<DeltaEvent> = Vec::new();
    update(state, &prev, &hs, &mut deltas);
    deltas
}

fn count_starts(deltas: &[DeltaEvent]) -> usize {
    deltas.iter().filter(|d| matches!(d, DeltaEvent::NoteStart(_))).count()
}

fn count_ends(deltas: &[DeltaEvent]) -> usize {
    deltas.iter().filter(|d| matches!(d, DeltaEvent::NoteEnd(_))).count()
}

fn count_changes(deltas: &[DeltaEvent]) -> usize {
    deltas.iter().filter(|d| matches!(d, DeltaEvent::NoteChange(_, _))).count()
}

fn count_panics(deltas: &[DeltaEvent]) -> usize {
    deltas.iter().filter(|d| matches!(d, DeltaEvent::Panic())).count()
}

#[test]
fn trigger_edges_fire_once() {
    // Trigger sequence 0, 0.4, 0.4, 0: one start at the rising step,
    // one end at the falling step, nothing elsewhere.
    let mut state = Zgicabra::new();
    let levels: [i64; 4] = [0, 400, 400, 0];
    let mut starts: Vec<usize> = Vec::new();
    let mut ends: Vec<usize> = Vec::new();
    for level in levels {
        let mut lf = zero_frame(1);
        lf.trigger = level;
        let deltas = tick(&mut state, lf, zero_frame(2));
        starts.push(count_starts(&deltas));
        ends.push(count_ends(&deltas));
    }
    assert_eq!(starts, vec![0, 1, 0, 0]);
    assert_eq!(ends, vec![0, 0, 0, 1]);
}

#[test]
fn stick_movement_without_trigger_is_silent() {
    let mut state = Zgicabra::new();
    let mut lf = zero_frame(1);
    lf.joystick_y = 1000;
    let deltas = tick(&mut state, lf, zero_frame(2));
    assert_eq!(count_starts(&deltas), 0);
    assert_eq!(count_changes(&deltas), 0);
    assert!(!state.note.on);
    let mut lf2 = zero_frame(1);
    lf2.joystick_x = -900;
    let deltas2 = tick(&mut state, lf2, zero_frame(2));
    assert_eq!(count_starts(&deltas2), 0);
    assert_eq!(count_changes(&deltas2), 0);
}

#[test]
fn note_start_and_pitch_follow() {
    // Root F4, both sticks at rest, left trigger rises: the note
    // starts on the root. Moving the left stick up while holding
    // raises it by the Up offset of two semitones.
    let mut state = Zgicabra::new();
    state.note.root = 65;
    let mut lf = zero_frame(1);
    lf.trigger = 600;
    let deltas = tick(&mut state, lf, zero_frame(2));
    assert_eq!(deltas, vec![DeltaEvent::NoteStart(65)]);
    assert_eq!(state.note.current, 65);
    assert!(state.note.on);

    let mut lf2 = zero_frame(1);
    lf2.trigger = 600;
    lf2.joystick_y = 1000;
    let deltas2 = tick(&mut state, lf2, zero_frame(2));
    assert_eq!(deltas2, vec![DeltaEvent::NoteChange(65, 67)]);
    assert_eq!(state.note.current, 67);
    assert!(state.note.on);
}

#[test]
fn double_stick_click_panics_once() {
    let mut state = Zgicabra::new();
    let mut lf = zero_frame(1);
    let mut rf = zero_frame(2);
    lf.buttons = BUTTON_JOYCLICK;
    rf.buttons = BUTTON_JOYCLICK;
    // Even with a simultaneous trigger edge, exactly one panic.
    lf.trigger = 500;
    let deltas = tick(&mut state, lf, rf);
    assert_eq!(count_panics(&deltas), 1);
    // A single clicked stick does not panic.
    let mut state2 = Zgicabra::new();
    let mut lf2 = zero_frame(1);
    lf2.buttons = BUTTON_JOYCLICK;
    let deltas2 = tick(&mut state2, lf2, zero_frame(2));
    assert_eq!(count_panics(&deltas2), 0);
}

#[test]
fn note_sustains_while_either_trigger_holds() {
    let mut state = Zgicabra::new();
    // Left presses: note on.
    let mut lf = zero_frame(1);
    lf.trigger = 500;
    let d1 = tick(&mut state, lf, zero_frame(2));
    assert_eq!(count_starts(&d1), 1);
    // Right joins: nothing new.
    let mut rf = zero_frame(2);
    rf.trigger = 500;
    let d2 = tick(&mut state, lf, rf);
    assert_eq!(count_starts(&d2), 0);
    assert_eq!(count_ends(&d2), 0);
    // Left releases while right holds: the note sustains.
    let d3 = tick(&mut state, zero_frame(1), rf);
    assert_eq!(count_ends(&d3), 0);
    assert!(state.note.on);
    // Right releases too: now the note ends.
    let d4 = tick(&mut state, zero_frame(1), zero_frame(2));
    assert_eq!(count_ends(&d4), 1);
    assert!(!state.note.on);
}

#[test]
fn tune_chord_steps_root() {
    let mut state = Zgicabra::new();
    assert_eq!(state.note.root, 42);
    // Logical button 0 is raw button 4 on the left hand and raw
    // button 3 on the right: pressed together they tune the root up.
    let mut lf = zero_frame(1);
    lf.buttons = BUTTON_4;
    let mut rf = zero_frame(2);
    rf.buttons = BUTTON_3;
    tick(&mut state, lf, rf);
    assert_eq!(state.note.root, 43);
    // Held chords do not retrigger.
    tick(&mut state, lf, rf);
    assert_eq!(state.note.root, 43);
}

#[test]
fn rocking_chord_direction() {
    // Logical button 1 (raw 2 left, raw 1 right): with the left hand
    // previously unpressed the root rocks downward.
    let mut state = Zgicabra::new();
    let mut lf = zero_frame(1);
    lf.buttons = BUTTON_2;
    let mut rf = zero_frame(2);
    rf.buttons = BUTTON_1;
    tick(&mut state, lf, rf);
    assert_eq!(state.note.root, 41);
}

#[test]
fn thumb_chords_toggle_per_hand() {
    let mut state = Zgicabra::new();
    // Left thumb pair: raw buttons 4 and 3 on the left hand.
    let mut lf = zero_frame(1);
    lf.buttons = BUTTON_4 | BUTTON_3;
    let deltas = tick(&mut state, lf, zero_frame(2));
    assert!(deltas.contains(&DeltaEvent::ThumpToggle()));
    assert!(!deltas.contains(&DeltaEvent::FuzzToggle()));
    // Right thumb pair: raw buttons 3 and 4 on the right hand.
    let mut state2 = Zgicabra::new();
    let mut rf = zero_frame(2);
    rf.buttons = BUTTON_3 | BUTTON_4;
    let deltas2 = tick(&mut state2, zero_frame(1), rf);
    assert!(deltas2.contains(&DeltaEvent::FuzzToggle()));
    assert!(!deltas2.contains(&DeltaEvent::ThumpToggle()));
}

#[test]
fn bend_level_separation_and_docking() {
    let mut state = Zgicabra::new();
    let mut lf = zero_frame(1);
    let mut rf = zero_frame(2);
    // Twist difference of 1.0: cubed stays 1.0, halved gives 0.5.
    lf.rot_quat.z = 500;
    // Triggers 0.3 + 0.3: smoothstep(0.6) = 0.648.
    lf.trigger = 300;
    rf.trigger = 300;
    // Positions 1.0 and 0.0 smooth to 0.5 and 0.0 apart.
    lf.pos.x = 1000;
    rf.is_docked = 1;
    lf.sequence_number = 9;
    tick(&mut state, lf, rf);
    assert_eq!(state.note.bend, 500);
    assert_eq!(state.level, 648);
    assert_eq!(state.separation, 500);
    assert!(state.docked);
    assert_eq!(state.sequence_number, 9);
}

#[test]
fn derivatives_follow_position_steps() {
    let mut state = Zgicabra::new();
    let mut lf = zero_frame(1);
    lf.pos.x = 1000;
    tick(&mut state, lf, zero_frame(2));
    // Smoothed position is the midpoint of raw 1.0 and previous 0.0;
    // velocity is that over 10 ms, acceleration its change again.
    assert_eq!(state.left.pos.x, 500);
    assert_eq!(state.left.vel.x, 50);
    assert_eq!(state.left.acc.x, 5);
    assert_eq!(state.left.jerk.x, 0);
    assert_eq!(state.left.scalar_vel, 25);
    assert_eq!(state.left.scalar_acc, 2);
    assert_eq!(state.left.scalar_jerk, 0);
}

#[test]
fn wand_at_rest_has_zero_derivatives() {
    // Frames repeating the previous position leave every derivative
    // and every smoothed magnitude at exactly zero.
    let mut state = Zgicabra::new();
    for _ in 0..3 {
        tick(&mut state, zero_frame(1), zero_frame(2));
        assert_eq!(state.left.vel, Vec3 { x: 0, y: 0, z: 0 });
        assert_eq!(state.left.acc, Vec3 { x: 0, y: 0, z: 0 });
        assert_eq!(state.left.jerk, Vec3 { x: 0, y: 0, z: 0 });
        assert_eq!(state.left.scalar_vel, 0);
        assert_eq!(state.left.scalar_acc, 0);
        assert_eq!(state.left.scalar_jerk, 0);
        assert_eq!(state.right.scalar_jerk, 0);
    }
}

#[test]
fn hand_identity_and_button_remap() {
    let mut state = Zgicabra::new();
    let mut lf = zero_frame(1);
    let mut rf = zero_frame(2);
    lf.buttons = BUTTON_4;
    rf.buttons = BUTTON_4;
    lf.rot_quat.y = 500;
    lf.rot_quat.z = 300;
    tick(&mut state, lf, rf);
    assert_eq!(state.left.hand, zgicabra::zgicabra::Hand::Left);
    assert_eq!(state.right.hand, zgicabra::zgicabra::Hand::Right);
    // Raw button 4 is logical 0 on the left hand, logical 3 on the
    // right.
    assert!(state.left.buttons.b0);
    assert!(!state.left.buttons.b3);
    assert!(state.right.buttons.b3);
    assert!(!state.right.buttons.b0);
    // Pitch reads the second quaternion component, twist doubles the
    // third.
    assert_eq!(state.left.pitch, 500);
    assert_eq!(state.left.twist, 600);
}
