use zgicabra::functions::Vec3;
use zgicabra::functions::Vec4;
use zgicabra::hydra::ControllerFrame;
use zgicabra::zgicabra::copy_joystick_to_wand;
use zgicabra::zgicabra::Direction;
use zgicabra::zgicabra::Wand;

fn frame_with_stick(x: i64, y: i64) -> ControllerFrame {
    ControllerFrame {
        pos: Vec3 { x: 0, y: 0, z: 0 },
        rot_quat: Vec4 { x: 0, y: 0, z: 0, w: 0 },
        joystick_x: x,
        joystick_y: y,
        trigger: 0,
        buttons: 0,
        sequence_number: 0,
        is_docked: 0,
        which_hand: 0,
    }
}

fn octant_of_axes(x: i64, y: i64) -> Direction {
    let mut w = Wand::new();
    copy_joystick_to_wand(&frame_with_stick(x, y), &mut w);
    w.stick.octant
}

fn quadrant_of_axes(x: i64, y: i64) -> Direction {
    let mut w = Wand::new();
    copy_joystick_to_wand(&frame_with_stick(x, y), &mut w);
    w.stick.quadrant
}

#[test]
fn octant_compass_directions() {
    assert_eq!(octant_of_axes(0, 1000), Direction::Up);
    assert_eq!(octant_of_axes(700, 700), Direction::UpRight);
    assert_eq!(octant_of_axes(1000, 0), Direction::Right);
    assert_eq!(octant_of_axes(700, -700), Direction::DownRight);
    assert_eq!(octant_of_axes(0, -1000), Direction::Down);
    assert_eq!(octant_of_axes(-700, -700), Direction::DownLeft);
    assert_eq!(octant_of_axes(-1000, 0), Direction::Left);
    assert_eq!(octant_of_axes(-700, 700), Direction::UpLeft);
}

#[test]
fn octant_deadzone_boundary() {
    // Radius below 0.15 has no direction; at or above it has one.
    assert_eq!(octant_of_axes(0, 0), Direction::Neutral);
    assert_eq!(octant_of_axes(100, 100), Direction::Neutral);
    assert_eq!(octant_of_axes(0, 149), Direction::Neutral);
    assert_eq!(octant_of_axes(0, 150), Direction::Up);
    assert_eq!(octant_of_axes(149, 0), Direction::Neutral);
    assert_eq!(octant_of_axes(150, 0), Direction::Right);
}

#[test]
fn octant_sector_boundaries() {
    // tan(22.5 deg) of 1000 is just over 414: 414 stays Up, 415 is
    // already UpRight.
    assert_eq!(octant_of_axes(414, 1000), Direction::Up);
    assert_eq!(octant_of_axes(415, 1000), Direction::UpRight);
    assert_eq!(octant_of_axes(-414, 1000), Direction::Up);
    assert_eq!(octant_of_axes(-415, 1000), Direction::UpLeft);
    assert_eq!(octant_of_axes(1000, 414), Direction::Right);
    assert_eq!(octant_of_axes(1000, 415), Direction::UpRight);
}

#[test]
fn quadrant_diagonal_convention() {
    // Quadrant boundaries lie on the diagonals: north-east belongs to
    // Up, south-east to Right, south-west to Down, north-west to Left.
    assert_eq!(quadrant_of_axes(1000, 1000), Direction::Up);
    assert_eq!(quadrant_of_axes(1000, -1000), Direction::Right);
    assert_eq!(quadrant_of_axes(-1000, -1000), Direction::Down);
    assert_eq!(quadrant_of_axes(-1000, 1000), Direction::Left);
    assert_eq!(quadrant_of_axes(0, 1000), Direction::Up);
    assert_eq!(quadrant_of_axes(1000, 0), Direction::Right);
    assert_eq!(quadrant_of_axes(0, -1000), Direction::Down);
    assert_eq!(quadrant_of_axes(-1000, 0), Direction::Left);
}

#[test]
fn stick_radius_is_square_root() {
    let mut w = Wand::new();
    copy_joystick_to_wand(&frame_with_stick(300, 400), &mut w);
    assert_eq!(w.stick.r, 500);
    assert_eq!(w.stick.x, 300);
    assert_eq!(w.stick.y, 400);
    copy_joystick_to_wand(&frame_with_stick(-600, 800), &mut w);
    assert_eq!(w.stick.r, 1000);
}

fn float_theta(x: i64, y: i64) -> f64 {
    let xf = x as f64 / 1000.0;
    let yf = y as f64 / 1000.0;
    let pi = std::f64::consts::PI;
    1.0 - (yf.atan2(xf) + pi / 2.0 + pi) / (2.0 * pi) % 1.0
}

fn float_octant(x: i64, y: i64) -> Direction {
    let xf = x as f64 / 1000.0;
    let yf = y as f64 / 1000.0;
    if (xf * xf + yf * yf).sqrt() < 0.15 {
        return Direction::Neutral;
    }
    let t = float_theta(x, y) * 8.0;
    if t <= 0.5 {
        Direction::Up
    } else if t <= 1.5 {
        Direction::UpRight
    } else if t <= 2.5 {
        Direction::Right
    } else if t <= 3.5 {
        Direction::DownRight
    } else if t <= 4.5 {
        Direction::Down
    } else if t <= 5.5 {
        Direction::DownLeft
    } else if t <= 6.5 {
        Direction::Left
    } else if t <= 7.5 {
        Direction::UpLeft
    } else {
        Direction::Up
    }
}

fn float_quadrant(x: i64, y: i64) -> Direction {
    let xf = x as f64 / 1000.0;
    let yf = y as f64 / 1000.0;
    if (xf * xf + yf * yf).sqrt() < 0.15 {
        return Direction::Neutral;
    }
    let t = float_theta(x, y) * 8.0;
    if t <= 1.0 {
        Direction::Up
    } else if t <= 3.0 {
        Direction::Right
    } else if t <= 5.0 {
        Direction::Down
    } else if t <= 7.0 {
        Direction::Left
    } else {
        Direction::Up
    }
}

#[test]
fn classification_matches_angle_binning() {
    // The exact integer classification agrees with binning the polar
    // angle computed in floating point, away from the deadzone ring
    // where rounding could tip either way.
    let mut seed: u64 = 0x9e37_79b9_7f4a_7c15;
    let mut compared: u32 = 0;
    for _ in 0..10_000 {
        seed = seed.wrapping_mul(6364136223846793005).wrapping_add(1442695040888963407);
        let x: i64 = ((seed >> 16) % 2001) as i64 - 1000;
        seed = seed.wrapping_mul(6364136223846793005).wrapping_add(1442695040888963407);
        let y: i64 = ((seed >> 16) % 2001) as i64 - 1000;
        if (x * x + y * y - 22500).abs() < 100 {
            continue;
        }
        assert_eq!(octant_of_axes(x, y), float_octant(x, y), "octant at ({x}, {y})");
        assert_eq!(quadrant_of_axes(x, y), float_quadrant(x, y), "quadrant at ({x}, {y})");
        compared += 1;
    }
    assert!(compared > 9_000);
}

#[test]
fn classification_total_and_exclusive() {
    // A deterministic pseudo-random sweep: every deflection gets
    // exactly one classification, Neutral exactly inside the deadzone.
    let mut seed: u64 = 0x2545_f491_4f6c_dd1d;
    let mut neutral: u32 = 0;
    let mut directed: u32 = 0;
    for _ in 0..10_000 {
        seed = seed.wrapping_mul(6364136223846793005).wrapping_add(1442695040888963407);
        let x: i64 = ((seed >> 16) % 2001) as i64 - 1000;
        seed = seed.wrapping_mul(6364136223846793005).wrapping_add(1442695040888963407);
        let y: i64 = ((seed >> 16) % 2001) as i64 - 1000;
        let o = octant_of_axes(x, y);
        let in_deadzone = x * x + y * y < 150 * 150;
        if in_deadzone {
            assert_eq!(o, Direction::Neutral);
            neutral += 1;
        } else {
            assert!(o != Direction::Neutral);
            directed += 1;
        }
    }
    assert_eq!(neutral + directed, 10_000);
    assert!(directed > 0);
}
