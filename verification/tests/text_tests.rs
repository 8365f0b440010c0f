use zgicabra::functions::Vec3;
use zgicabra::functions::Vec4;
use zgicabra::hydra::ControllerFrame;
use zgicabra::text_tools::barcode_string;
use zgicabra::text_tools::format_frame;
use zgicabra::text_tools::format_wand;
use zgicabra::text_tools::minibar;
use zgicabra::text_tools::minidir;
use zgicabra::text_tools::minigauge;
use zgicabra::text_tools::minimask;
use zgicabra::text_tools::ministick;
use zgicabra::zgicabra::Direction;
use zgicabra::zgicabra::Wand;

#[test]
fn direction_glyphs() {
    assert_eq!(minidir(Direction::Neutral), "(·)");
    assert_eq!(minidir(Direction::Up), "(↑)");
    assert_eq!(minidir(Direction::DownLeft), "(↙)");
    assert_eq!(minidir(Direction::Right), "(→)");
}

#[test]
fn stick_glyph_prefers_click() {
    let mut stick = zgicabra::zgicabra::Joystick::new();
    stick.octant = Direction::Up;
    assert_eq!(ministick(stick), "(↑)");
    stick.clicked = true;
    assert_eq!(ministick(stick), "(⬤)");
}

#[test]
fn gauge_buckets() {
    assert_eq!(minigauge(0), " ");
    assert_eq!(minigauge(500), "▄");
    assert_eq!(minigauge(999), "▇");
    assert_eq!(minigauge(1000), "█");
    assert_eq!(minigauge(-100), " ");
}

#[test]
fn bar_fills_proportionally() {
    assert_eq!(minibar(500, 4), "██░░");
    assert_eq!(minibar(0, 4), "░░░░");
    assert_eq!(minibar(1000, 4), "████");
    assert_eq!(minibar(300, 0), "");
}

#[test]
fn mask_marks_low_bits() {
    assert_eq!(minimask(0), "◦◦◦◦◦◦◦◦");
    assert_eq!(minimask(0b101), "•◦•◦◦◦◦◦");
    assert_eq!(minimask(0xFF), "••••••••");
    // Bits beyond the low byte are not displayed.
    assert_eq!(minimask(0x100), "◦◦◦◦◦◦◦◦");
}

#[test]
fn frame_formatting() {
    assert_eq!(format_frame(None), "No Data");
    let mut f = ControllerFrame {
        pos: Vec3 { x: 0, y: 0, z: 0 },
        rot_quat: Vec4 { x: 0, y: 0, z: 0, w: 0 },
        joystick_x: 0,
        joystick_y: 0,
        trigger: 0,
        buttons: 0,
        sequence_number: 0,
        is_docked: 0,
        which_hand: 0,
    };
    assert_eq!(
        format_frame(Some(&f)),
        "░░░░/░░░░:|◦◦◦◦◦◦◦◦|: :[ 0.000 0.000 0.000 | 0.000 0.000 0.000 0.000 ]"
    );
    f.pos.x = -1500;
    f.pos.y = 12_345;
    f.trigger = 1000;
    assert_eq!(
        format_frame(Some(&f)),
        "░░░░/░░░░:|◦◦◦◦◦◦◦◦|:█:[ -1.500 12.345 0.000 | 0.000 0.000 0.000 0.000 ]"
    );
}

#[test]
fn wand_formatting() {
    let mut w = Wand::new();
    assert_eq!(format_wand(&w), "(·)▕ ▏]░[ -░-░░░░-");
    w.bumper = true;
    w.home = true;
    w.buttons.b0 = true;
    w.buttons.b2 = true;
    w.trigger = 1000;
    assert_eq!(format_wand(&w), "(·)▕█▏]█[ -H-1░3░-");
}

#[test]
fn note_names() {
    assert_eq!(zgicabra::text_tools::format_note(60), "60 [C ]");
    assert_eq!(zgicabra::text_tools::format_note(65), "65 [F ]");
    assert_eq!(zgicabra::text_tools::format_note(42), "42 [F#]");
    assert_eq!(zgicabra::text_tools::format_note(0), "0 [C ]");
    assert_eq!(zgicabra::text_tools::format_note(255), "255 [D#]");
}

#[test]
fn barcode_solid_and_random() {
    assert_eq!(barcode_string(5, true), "█████");
    assert_eq!(barcode_string(0, true), "");
    let bars = barcode_string(32, false);
    assert_eq!(bars.chars().count(), 32);
    let alphabet = " │║┃▌▐▕█▊▋▌▍▎▏";
    for c in bars.chars() {
        assert!(alphabet.contains(c));
    }
}
